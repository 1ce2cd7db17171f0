//! Stack guards
//!
//! Every stack carries a canary in its bottom word, so that an overflow is
//! noticed. A stack may also be painted with a pattern when it is made;
//! since stacks grow down, the lowest word that no longer holds the
//! pattern marks how deep the stack has ever reached. Stacks are arrays of
//! 32-bit words; the caller reads them and hands their words over.

use vstd::prelude::*;

verus! {

/// The value kept in the bottom word of every stack.
pub const STACK_CANARY: u32 = 0xDEAD_BEEF;

/// The value a painted stack is filled with.
pub const STACK_PAINT_PATTERN: u32 = 0x5A5A_5A5A;

/// Bytes in a stack word.
pub const WORD_BYTES: usize = 4;

/// Checks the canary word `val` read from the base of a stack: `Ok` when
/// it is intact, otherwise the value found there.
pub fn check_canary(val: u32) -> (r: Result<(), u32>)
    ensures
        r == if val == STACK_CANARY { Ok::<(), u32>(()) } else { Err::<(), u32>(val) },
{
    if val == STACK_CANARY {
        Ok(())
    } else {
        Err(val)
    }
}

/// The high-water mark of a painted stack whose words are `words`, the
/// first at `base_addr`: `None` if the canary is gone; otherwise the
/// address of the lowest word above the canary that is no longer painted,
/// or `top_addr` if the stack was never used.
pub open spec fn watermark(base_addr: usize, top_addr: usize, words: Seq<u32>) -> Option<usize> {
    if words[0] != STACK_CANARY {
        None
    } else if exists|k: int| 1 <= k < words.len() && words[k] != STACK_PAINT_PATTERN {
        let k = choose|k: int|
            1 <= k < words.len() && words[k] != STACK_PAINT_PATTERN && forall|j: int|
                1 <= j < k ==> words[j] == STACK_PAINT_PATTERN;
        Some((base_addr + k * WORD_BYTES) as usize)
    } else {
        Some(top_addr)
    }
}

/// Measures the high-water mark of a painted stack from `base_addr` up
/// to `top_addr`, given its words: see `watermark`.
pub fn stack_high_watermark(base_addr: usize, top_addr: usize, words: &[u32]) -> (r: Option<usize>)
    requires
        base_addr < top_addr,
        words@.len() >= 1,
        words@.len() * WORD_BYTES == top_addr - base_addr,
    ensures
        r == watermark(base_addr, top_addr, words@),
        r matches Some(a) ==> base_addr < a <= top_addr,
{
    if check_canary(words[0]).is_err() {
        return None;
    }
    let mut k: usize = 1;
    while k < words.len()
        invariant
            1 <= k <= words@.len(),
            words@.len() * WORD_BYTES == top_addr - base_addr,
            words@[0] == STACK_CANARY,
            forall|j: int| 1 <= j < k ==> words@[j] == STACK_PAINT_PATTERN,
        decreases words@.len() - k,
    {
        if words[k] != STACK_PAINT_PATTERN {
            proof {
                let w = words@;
                assert(exists|m: int| 1 <= m < w.len() && w[m] != STACK_PAINT_PATTERN) by {
                    assert(w[k as int] != STACK_PAINT_PATTERN);
                }
                let c = choose|m: int|
                    1 <= m < w.len() && w[m] != STACK_PAINT_PATTERN && forall|j: int|
                        1 <= j < m ==> w[j] == STACK_PAINT_PATTERN;
                assert(1 <= k < w.len() && w[k as int] != STACK_PAINT_PATTERN && forall|j: int|
                    1 <= j < k ==> w[j] == STACK_PAINT_PATTERN);
                if c < k {
                    assert(w[c] == STACK_PAINT_PATTERN);
                } else if c > k {
                    assert(w[k as int] == STACK_PAINT_PATTERN);
                }
                assert(c == k);
                assert(k * WORD_BYTES < top_addr - base_addr) by (nonlinear_arith)
                    requires
                        k < w.len(),
                        w.len() * WORD_BYTES == top_addr - base_addr;
            }
            return Some(base_addr + k * WORD_BYTES);
        }
        k = k + 1;
    }
    Some(top_addr)
}

} // verus!
