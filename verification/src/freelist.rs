//! Free list allocator
//!
//! The heap is a single address range. Free memory is kept as a list of
//! free blocks ordered by address; every other byte of the heap is
//! allocated. Allocation is first fit: the first free block that can hold
//! the request (after padding its start up to the requested alignment) is
//! carved up, returning any usable padding and any usable tail to the list.
//! Deallocation puts the region back at its address position and merges it
//! with the free neighbours it touches, so the list never holds two blocks
//! that touch each other.
//!
//! The allocator works on addresses only: a free block is described by its
//! start address and size, and the list lives in a vector rather than in the
//! free memory itself.

use vstd::prelude::*;
use crate::region::{align_up, spec_align_up};

verus! {

/// Bytes taken by a free-block header (a link and a size, two machine words
/// on a 64-bit target). A free block is never smaller than this.
pub const FREE_BLOCK_SIZE: usize = 16;

/// Alignment that a free-block header needs, and so the alignment the heap
/// start must have.
pub const FREE_BLOCK_ALIGN: usize = 8;

/// Every allocation is a multiple of, and aligned to at least, this many
/// bytes, so that any padding big enough to matter can hold a free block.
pub const BASE_ALIGN: usize = FREE_BLOCK_SIZE;

/// A free region of the heap: `size` bytes starting at `addr`.
#[derive(Clone, Copy, Debug, PartialEq, Eq)]
pub struct FreeBlock {
    pub addr: usize,
    pub size: usize,
}

impl FreeBlock {
    /// One past the last byte of the block.
    pub open spec fn end(self) -> int {
        self.addr + self.size
    }
}

/// Request size rounded up to the allocation granule.
pub open spec fn granule_size(size: int) -> int {
    spec_align_up(size, BASE_ALIGN as int)
}

/// Alignment actually applied to an allocation: the larger of the request
/// and the granule.
pub open spec fn effective_align(align: int) -> int {
    if align > BASE_ALIGN {
        align
    } else {
        BASE_ALIGN as int
    }
}

/// Padding needed in front of block `b` to reach the alignment.
pub open spec fn padding_of(b: FreeBlock, align: int) -> int {
    spec_align_up(b.addr as int, effective_align(align)) - b.addr
}

/// Whether block `b` can hold `asize` granule-rounded bytes at `align`.
/// A block is only used if it is strictly larger than padding plus request.
pub open spec fn block_fits(b: FreeBlock, asize: int, align: int) -> bool {
    &&& b.addr + effective_align(align) - 1 <= usize::MAX
    &&& b.size > padding_of(b, align) + asize
}

/// Index of the first block at or after `start` that fits the request, or
/// the list length if none does.
pub open spec fn first_fit(s: Seq<FreeBlock>, start: nat, asize: int, align: int) -> nat
    decreases s.len() - start,
{
    if start >= s.len() {
        s.len()
    } else if block_fits(s[start as int], asize, align) {
        start
    } else {
        first_fit(s, start + 1, asize, align)
    }
}

/// The free list after carving an allocation of `asize` bytes out of block
/// `i`: padding of at least a free block's size stays free in front, and a
/// tail strictly larger than a free block stays free behind.
pub open spec fn carve(s: Seq<FreeBlock>, i: int, asize: int, align: int) -> Seq<FreeBlock> {
    let b = s[i];
    let pad = padding_of(b, align);
    let front = if pad >= FREE_BLOCK_SIZE {
        seq![FreeBlock { addr: b.addr, size: pad as usize }]
    } else {
        Seq::empty()
    };
    let cur = if pad >= FREE_BLOCK_SIZE {
        FreeBlock { addr: (b.addr + pad) as usize, size: (b.size - pad) as usize }
    } else {
        b
    };
    let back = if cur.size - asize > FREE_BLOCK_SIZE {
        seq![FreeBlock { addr: (cur.addr + asize) as usize, size: (cur.size - asize) as usize }]
    } else {
        Seq::empty()
    };
    s.take(i) + front + back + s.skip(i + 1)
}

/// Whether `k` is where a region at `ptr` goes in the address-ordered list.
pub open spec fn insertion_point(s: Seq<FreeBlock>, ptr: int, k: int) -> bool {
    &&& 0 <= k <= s.len()
    &&& forall|j: int| 0 <= j < k ==> s[j].addr <= ptr
    &&& k < s.len() ==> s[k].addr > ptr
}

/// The free list after returning `size` bytes at `ptr` at position `k`,
/// merged with the block before it if that block ends at `ptr`, and with the
/// block after it if the region ends where that block starts.
pub open spec fn coalesce_insert(s: Seq<FreeBlock>, k: int, ptr: int, size: int) -> Seq<FreeBlock> {
    let left = k > 0 && s[k - 1].end() == ptr;
    let right = k < s.len() && ptr + size == s[k].addr;
    if left && right {
        s.take(k - 1) + seq![
            FreeBlock { addr: s[k - 1].addr, size: (s[k - 1].size + size + s[k].size) as usize },
        ] + s.skip(k + 1)
    } else if left {
        s.update(k - 1, FreeBlock { addr: s[k - 1].addr, size: (s[k - 1].size + size) as usize })
    } else if right {
        s.update(k, FreeBlock { addr: ptr as usize, size: (size + s[k].size) as usize })
    } else {
        s.insert(k, FreeBlock { addr: ptr as usize, size: size as usize })
    }
}

/// Well-formedness of a free list over the heap `[lo, hi)`: blocks lie in
/// the heap, are at least a free block in size, are ordered by address and
/// never touch (so the list is fully coalesced). On a heap whose start is
/// granule aligned, every block starts on a granule.
pub open spec fn blocks_wf(s: Seq<FreeBlock>, lo: int, hi: int) -> bool {
    &&& forall|i: int|
        0 <= i < s.len() ==> lo <= (#[trigger] s[i]).addr && s[i].end() <= hi && s[i].size
            >= FREE_BLOCK_SIZE
    &&& forall|i: int, j: int| #![trigger s[i], s[j]] 0 <= i < j < s.len() ==> s[i].end() < s[j].addr
    &&& lo % (BASE_ALIGN as int) == 0 ==> forall|i: int|
        0 <= i < s.len() ==> (#[trigger] s[i]).addr % BASE_ALIGN == 0
}

/// Whether `[p, p + size)` shares no byte with any block of `s`.
pub open spec fn disjoint_from_blocks(s: Seq<FreeBlock>, p: int, size: int) -> bool {
    forall|i: int| 0 <= i < s.len() ==> (#[trigger] s[i]).end() <= p || p + size <= s[i].addr
}

/// Whether `align` is a power of two.
pub open spec fn is_power_of_two(align: usize) -> bool {
    align > 0 && align & ((align - 1) as usize) == 0
}

/// First-fit free list allocator over the heap `[heap_start, heap_end)`.
pub struct FreeBlockList {
    blocks: Vec<FreeBlock>,
    heap_start: usize,
    heap_end: usize,
}

impl View for FreeBlockList {
    type V = Seq<FreeBlock>;

    /// The free blocks in address order.
    closed spec fn view(&self) -> Seq<FreeBlock> {
        self.blocks@
    }
}

impl FreeBlockList {
    /// Start of the heap.
    pub closed spec fn lo(&self) -> int {
        self.heap_start as int
    }

    /// One past the end of the heap.
    pub closed spec fn hi(&self) -> int {
        self.heap_end as int
    }

    /// The allocator's invariant.
    pub open spec fn wf(&self) -> bool {
        &&& self.lo() <= self.hi()
        &&& blocks_wf(self@, self.lo(), self.hi())
    }

    /// An allocator with no heap yet. Call [`Self::init`] before allocating.
    pub fn new() -> (r: Self)
        ensures
            r.wf(),
            r@ == Seq::<FreeBlock>::empty(),
            r.lo() == 0,
            r.hi() == 0,
    {
        FreeBlockList { blocks: Vec::new(), heap_start: 0, heap_end: 0 }
    }

    /// Gives the allocator the heap `[start, start + size)` as one free
    /// block. The list must hold no block yet (initialising twice is a
    /// programming error), `start` must suit a free-block header and the
    /// heap must hold at least one free block.
    pub fn init(&mut self, start: usize, size: usize)
        requires
            old(self)@.len() == 0,
            start % FREE_BLOCK_ALIGN == 0,
            size >= FREE_BLOCK_SIZE,
            start + size <= usize::MAX,
        ensures
            final(self).wf(),
            final(self)@ == seq![FreeBlock { addr: start, size }],
            final(self).lo() == start,
            final(self).hi() == start + size,
    {
        self.blocks = Vec::new();
        self.blocks.push(FreeBlock { addr: start, size });
        self.heap_start = start;
        self.heap_end = start + size;
        assert(self.blocks@ =~= seq![FreeBlock { addr: start, size }]);
    }

    proof fn lemma_first_fit_skip(s: Seq<FreeBlock>, i: nat, asize: int, align: int)
        requires
            i < s.len(),
            !block_fits(s[i as int], asize, align),
        ensures
            first_fit(s, i, asize, align) == first_fit(s, i + 1, asize, align),
    {
    }

    proof fn lemma_first_fit_bound(s: Seq<FreeBlock>, i: nat, asize: int, align: int)
        ensures
            first_fit(s, i, asize, align) <= s.len(),
            first_fit(s, i, asize, align) >= i || first_fit(s, i, asize, align) == s.len(),
            first_fit(s, i, asize, align) < s.len() ==> block_fits(
                s[first_fit(s, i, asize, align) as int],
                asize,
                align,
            ),
        decreases s.len() - i,
    {
        if i < s.len() && !block_fits(s[i as int], asize, align) {
            Self::lemma_first_fit_bound(s, i + 1, asize, align);
        }
    }

    /// Allocates `size` bytes aligned to `align` and returns the address,
    /// or `None` when no free block can hold the request.
    ///
    /// A zero-size request consumes nothing and returns `align` itself, a
    /// non-null address with the requested alignment.
    pub fn allocate(&mut self, size: usize, align: usize) -> (r: Option<usize>)
        requires
            old(self).wf(),
            is_power_of_two(align),
        ensures
            final(self).wf(),
            final(self).lo() == old(self).lo(),
            final(self).hi() == old(self).hi(),
            size == 0 ==> r == Some(align) && final(self)@ == old(self)@,
            size > 0 && granule_size(size as int) > usize::MAX ==> r.is_none() && final(self)@
                == old(self)@,
            size > 0 && granule_size(size as int) <= usize::MAX ==> {
                let i = first_fit(old(self)@, 0, granule_size(size as int), align as int) as int;
                if i < old(self)@.len() {
                    &&& r == Some(
                        spec_align_up(old(self)@[i].addr as int, effective_align(align as int)) as usize,
                    )
                    &&& final(self)@ == carve(
                        old(self)@,
                        i,
                        granule_size(size as int),
                        align as int,
                    )
                } else {
                    r.is_none() && final(self)@ == old(self)@
                }
            },
            size > 0 && r is Some ==> {
                let p = r->0;
                &&& p as int % effective_align(align as int) == 0
                &&& old(self).lo() <= p
                &&& p + size <= old(self).hi()
                &&& old(self).lo() % (BASE_ALIGN as int) == 0 ==> disjoint_from_blocks(
                    final(self)@,
                    p as int,
                    granule_size(size as int),
                )
            },
    {
        if size == 0 {
            return Some(align);
        }
        let asize = match align_up(size, BASE_ALIGN) {
            Some(a) => a,
            None => {
                return None;
            },
        };
        assert(asize % BASE_ALIGN == 0) by (nonlinear_arith)
            requires
                asize as int == spec_align_up(size as int, 16),
        ;
        let ba = if align > BASE_ALIGN {
            align
        } else {
            BASE_ALIGN
        };
        let ghost s = self.blocks@;
        let ghost lo = self.lo();
        let ghost hi = self.hi();
        let mut i: usize = 0;
        while i < self.blocks.len()
            invariant
                self.blocks@ == s,
                s == old(self)@,
                self.lo() == lo,
                self.hi() == hi,
                lo == old(self).lo(),
                hi == old(self).hi(),
                lo <= hi,
                asize % BASE_ALIGN == 0,
                blocks_wf(s, lo, hi),
                i <= s.len(),
                asize as int == granule_size(size as int),
                asize >= BASE_ALIGN,
                ba as int == effective_align(align as int),
                is_power_of_two(align),
                first_fit(s, 0, asize as int, align as int) == first_fit(
                    s,
                    i as nat,
                    asize as int,
                    align as int,
                ),
            decreases s.len() - i,
        {
            let b = self.blocks[i];
            if let Some(aligned) = align_up(b.addr, ba) {
                let bp = aligned - b.addr;
                if b.size > bp && b.size - bp > asize {
                    proof {
                        assert(block_fits(s[i as int], asize as int, align as int));
                    }
                    self.carve_at(i, asize, align, ba, aligned);
                    return Some(aligned);
                }
            }
            proof {
                Self::lemma_first_fit_skip(s, i as nat, asize as int, align as int);
            }
            i = i + 1;
        }
        None
    }

    proof fn lemma_mod_of_multiple(x: int, y: int, m: int)
        requires
            x % y == 0,
            y % m == 0,
            y > 0,
            m > 0,
        ensures
            x % m == 0,
    {
        let q = x / y;
        let c = y / m;
        vstd::arithmetic::div_mod::lemma_fundamental_div_mod(x, y);
        vstd::arithmetic::div_mod::lemma_fundamental_div_mod(y, m);
        assert(x == m * (c * q)) by (nonlinear_arith)
            requires
                x == y * q + 0,
                y == m * c + 0,
        ;
        vstd::arithmetic::div_mod::lemma_mod_multiples_basic(c * q, m);
        assert(m * (c * q) == (c * q) * m) by (nonlinear_arith);
    }

    /// The allocation carved out of a fitting block starts on the alignment
    /// and ends strictly inside the block; the list left behind is
    /// well formed and, on a granule-aligned heap, clear of the allocation.
    proof fn lemma_carve_wf(s: Seq<FreeBlock>, i: int, asize: int, align: usize, lo: int, hi: int)
        requires
            blocks_wf(s, lo, hi),
            0 <= lo,
            hi <= usize::MAX,
            0 <= i < s.len(),
            asize >= BASE_ALIGN,
            asize % (BASE_ALIGN as int) == 0,
            is_power_of_two(align),
            block_fits(s[i], asize, align as int),
        ensures
            blocks_wf(carve(s, i, asize, align as int), lo, hi),
            ({
                let a = spec_align_up(s[i].addr as int, effective_align(align as int));
                &&& a % effective_align(align as int) == 0
                &&& s[i].addr <= a
                &&& a + asize < s[i].end()
                &&& lo % (BASE_ALIGN as int) == 0 ==> disjoint_from_blocks(
                    carve(s, i, asize, align as int),
                    a,
                    asize,
                )
            }),
    {
        let b = s[i];
        let ba = effective_align(align as int);
        let a = spec_align_up(b.addr as int, ba);
        let pad = padding_of(b, align as int);
        assert(a % ba == 0 && b.addr <= a < b.addr + ba) by (nonlinear_arith)
            requires
                a == spec_align_up(b.addr as int, ba),
                ba > 0,
        ;
        assert(pad == a - b.addr);
        let front = if pad >= FREE_BLOCK_SIZE {
            seq![FreeBlock { addr: b.addr, size: pad as usize }]
        } else {
            Seq::empty()
        };
        let cur = if pad >= FREE_BLOCK_SIZE {
            FreeBlock { addr: (b.addr + pad) as usize, size: (b.size - pad) as usize }
        } else {
            b
        };
        let back = if cur.size - asize > FREE_BLOCK_SIZE {
            seq![FreeBlock { addr: (cur.addr + asize) as usize, size: (cur.size - asize) as usize }]
        } else {
            Seq::empty()
        };
        let mid = front + back;
        let m = mid.len();
        let t = carve(s, i, asize, align as int);
        assert(t == s.take(i) + mid + s.skip(i + 1));
        assert(t.len() == s.len() - 1 + m);
        assert forall|j: int| 0 <= j < t.len() implies #[trigger] t[j] == if j < i {
            s[j]
        } else if j < i + m {
            mid[j - i]
        } else {
            s[j - m + 1]
        } by {
            if j < i {
                assert(t[j] == s.take(i)[j]);
            } else if j < i + m {
                assert(t[j] == (s.take(i) + mid)[j]);
            } else {
                assert(t[j] == s.skip(i + 1)[j - i - m]);
            }
        }
        // The pieces left of the allocation lie within the old block.
        assert forall|x: int| 0 <= x < m implies b.addr <= (#[trigger] mid[x]).addr && mid[x].end()
            <= b.end() && mid[x].size >= FREE_BLOCK_SIZE by {
            if x < front.len() {
                assert(mid[x] == front[x]);
            } else {
                assert(mid[x] == back[x - front.len()]);
            }
        }
        assert forall|x: int, y: int| 0 <= x < y < m implies (#[trigger] mid[x]).end() < (
        #[trigger] mid[y]).addr by {
            assert(mid[x] == front[0] && mid[y] == back[0]);
        }
        assert forall|j: int| 0 <= j < t.len() implies lo <= (#[trigger] t[j]).addr && t[j].end()
            <= hi && t[j].size >= FREE_BLOCK_SIZE by {
            if j < i {
            } else if j < i + m {
                assert(t[j] == mid[j - i]);
            } else {
                assert(t[j] == s[j - m + 1]);
            }
        }
        assert forall|j: int, k: int| #![trigger t[j], t[k]] 0 <= j < k < t.len() implies t[j].end()
            < t[k].addr by {
            if k < i {
            } else if j >= i + m {
                assert(s[j - m + 1].end() < s[k - m + 1].addr);
            } else if j < i && k >= i + m {
                assert(s[j].end() < s[k - m + 1].addr);
            } else if j < i {
                assert(s[j].end() < s[i].addr);
                assert(t[k] == mid[k - i]);
            } else if k >= i + m {
                assert(s[i].end() < s[k - m + 1].addr);
                assert(t[j] == mid[j - i]);
            } else {
                assert(t[j] == mid[j - i] && t[k] == mid[k - i]);
            }
        }
        if lo % (BASE_ALIGN as int) == 0 {
            assert(b.addr % BASE_ALIGN == 0);
            assert(ba % (BASE_ALIGN as int) == 0) by {
                if align > BASE_ALIGN {
                    assert(align % BASE_ALIGN == 0) by (bit_vector)
                        requires
                            align > 16,
                            align & ((align - 1) as usize) == 0,
                    ;
                }
            }
            Self::lemma_mod_of_multiple(a, ba, BASE_ALIGN as int);
            assert(pad % (BASE_ALIGN as int) == 0);
            assert(cur.addr % BASE_ALIGN == 0);
            assert forall|x: int| 0 <= x < m implies (#[trigger] mid[x]).addr % BASE_ALIGN == 0 by {
                if x < front.len() {
                    assert(mid[x] == front[x]);
                } else {
                    assert(mid[x] == back[x - front.len()]);
                    assert(back[0].addr == cur.addr + asize);
                    vstd::arithmetic::div_mod::lemma_mod_adds(cur.addr as int, asize, BASE_ALIGN as int);
                    assert((cur.addr + asize) % (BASE_ALIGN as int) == 0);
                }
            }
            assert forall|j: int| 0 <= j < t.len() implies (#[trigger] t[j]).addr % BASE_ALIGN == 0 by {
                if j < i {
                } else if j < i + m {
                    assert(t[j] == mid[j - i]);
                } else {
                    assert(t[j] == s[j - m + 1]);
                }
            }
            // With both on the granule the padding is zero or a whole block,
            // so the allocation starts where `cur` does.
            assert(cur.addr == a);
            assert forall|j: int| 0 <= j < t.len() implies (#[trigger] t[j]).end() <= a || a + asize
                <= t[j].addr by {
                if j < i {
                    assert(s[j].end() < s[i].addr);
                } else if j < i + m {
                    let x = j - i;
                    assert(t[j] == mid[x]);
                    if x < front.len() {
                        assert(mid[x] == front[x]);
                    } else {
                        assert(mid[x] == back[x - front.len()]);
                    }
                } else {
                    assert(t[j] == s[j - m + 1]);
                    assert(s[i].end() < s[j - m + 1].addr);
                }
            }
        }
    }

    /// Removes the allocation from block `i`, which fits it.
    fn carve_at(&mut self, i: usize, asize: usize, align: usize, ba: usize, aligned: usize)
        requires
            old(self).wf(),
            i < old(self)@.len(),
            asize >= BASE_ALIGN,
            asize % BASE_ALIGN == 0,
            ba as int == effective_align(align as int),
            is_power_of_two(align),
            aligned as int == spec_align_up(old(self)@[i as int].addr as int, ba as int),
            block_fits(old(self)@[i as int], asize as int, align as int),
        ensures
            final(self).wf(),
            final(self).lo() == old(self).lo(),
            final(self).hi() == old(self).hi(),
            final(self)@ == carve(old(self)@, i as int, asize as int, align as int),
            aligned as int % ba as int == 0,
            old(self).lo() <= aligned,
            aligned + asize < old(self)@[i as int].end(),
            old(self).lo() % (BASE_ALIGN as int) == 0 ==> disjoint_from_blocks(
                final(self)@,
                aligned as int,
                asize as int,
            ),
    {
        let ghost s = self.blocks@;
        proof {
            Self::lemma_carve_wf(s, i as int, asize as int, align, self.lo(), self.hi());
        }
        let n = self.blocks.len();
        let b = self.blocks.remove(i);
        let bp = aligned - b.addr;
        assert(i < n);
        let mut at = i;
        let mut cur = b;
        if bp >= FREE_BLOCK_SIZE {
            self.blocks.insert(at, FreeBlock { addr: b.addr, size: bp });
            at = at + 1;
            cur = FreeBlock { addr: aligned, size: b.size - bp };
        }
        if cur.size - asize > FREE_BLOCK_SIZE {
            self.blocks.insert(at, FreeBlock { addr: cur.addr + asize, size: cur.size - asize });
        }
        proof {
            assert(self.blocks@ =~= carve(s, i as int, asize as int, align as int));
        }
    }

    /// Returns `size` bytes at `ptr` to the free list, merging them with the
    /// free blocks on either side that they touch. A zero-size region is
    /// ignored, mirroring [`Self::allocate`].
    ///
    /// The region must be one that [`Self::allocate`] handed out and that is
    /// not free: granule aligned, inside the heap and clear of every free
    /// block.
    pub fn deallocate(&mut self, ptr: usize, size: usize)
        requires
            old(self).wf(),
            size > 0 ==> {
                &&& ptr % BASE_ALIGN == 0
                &&& granule_size(size as int) <= usize::MAX
                &&& old(self).lo() <= ptr
                &&& ptr + granule_size(size as int) <= old(self).hi()
                &&& disjoint_from_blocks(old(self)@, ptr as int, granule_size(size as int))
            },
        ensures
            final(self).wf(),
            final(self).lo() == old(self).lo(),
            final(self).hi() == old(self).hi(),
            size == 0 ==> final(self)@ == old(self)@,
            size > 0 ==> exists|k: int|
                insertion_point(old(self)@, ptr as int, k) && final(self)@ == coalesce_insert(
                    old(self)@,
                    k,
                    ptr as int,
                    granule_size(size as int),
                ),
    {
        if size == 0 {
            return;
        }
        let dsize = match align_up(size, BASE_ALIGN) {
            Some(d) => d,
            None => {
                return;
            },
        };
        let ghost s = self.blocks@;
        let ghost lo = self.lo();
        let ghost hi = self.hi();
        let mut k: usize = 0;
        while k < self.blocks.len() && self.blocks[k].addr <= ptr
            invariant
                self.blocks@ == s,
                k <= s.len(),
                forall|j: int| 0 <= j < k ==> s[j].addr <= ptr,
            decreases s.len() - k,
        {
            k = k + 1;
        }
        proof {
            assert(insertion_point(s, ptr as int, k as int));
            assert(dsize >= FREE_BLOCK_SIZE);
        }
        let left = k > 0 && self.blocks[k - 1].addr + self.blocks[k - 1].size == ptr;
        let right = k < self.blocks.len() && ptr + dsize == self.blocks[k].addr;
        if left && right {
            let next = self.blocks.remove(k);
            let prev = self.blocks[k - 1];
            self.blocks.set(k - 1, FreeBlock { addr: prev.addr, size: prev.size + dsize + next.size });
        } else if left {
            let prev = self.blocks[k - 1];
            self.blocks.set(k - 1, FreeBlock { addr: prev.addr, size: prev.size + dsize });
        } else if right {
            let next = self.blocks[k];
            self.blocks.set(k, FreeBlock { addr: ptr, size: dsize + next.size });
        } else {
            self.blocks.insert(k, FreeBlock { addr: ptr, size: dsize });
        }
        proof {
            let t = coalesce_insert(s, k as int, ptr as int, dsize as int);
            assert(self.blocks@ =~= t);
            Self::lemma_coalesce_wf(s, k as int, ptr as int, dsize as int, lo, hi);
        }
    }

    proof fn lemma_coalesce_wf(s: Seq<FreeBlock>, k: int, ptr: int, size: int, lo: int, hi: int)
        requires
            blocks_wf(s, lo, hi),
            0 <= lo,
            insertion_point(s, ptr, k),
            size >= FREE_BLOCK_SIZE,
            lo <= ptr,
            ptr + size <= hi,
            hi <= usize::MAX,
            lo % (BASE_ALIGN as int) == 0 ==> ptr % (BASE_ALIGN as int) == 0,
            disjoint_from_blocks(s, ptr, size),
        ensures
            blocks_wf(coalesce_insert(s, k, ptr, size), lo, hi),
    {
        let t = coalesce_insert(s, k, ptr, size);
        let left = k > 0 && s[k - 1].end() == ptr;
        let right = k < s.len() && ptr + size == s[k].addr;
        // Every block before the insertion point ends at or before the
        // region, every block from it on starts at or after the region's end.
        assert forall|i: int| 0 <= i < k implies (#[trigger] s[i]).end() <= ptr by {
            assert(s[i].addr <= ptr);
        }
        assert forall|j: int| k <= j < s.len() implies ptr + size <= (#[trigger] s[j]).addr by {
            if j > k {
                assert(s[k].end() < s[j].addr);
            }
        }
        // Blocks that are not merged do not even touch the region.
        assert forall|i: int| 0 <= i < k && !left implies (#[trigger] s[i]).end() < ptr by {
            if i < k - 1 {
                assert(s[i].end() < s[k - 1].addr);
                assert(s[k - 1].end() <= ptr);
            }
        }
        assert forall|j: int| k <= j < s.len() && !right implies ptr + size < (#[trigger] s[j]).addr by {
            if j > k {
                assert(s[k].end() < s[j].addr);
                assert(ptr + size <= s[k].addr);
            }
        }
        if left && right {
            assert forall|j: int| 0 <= j < t.len() implies lo <= (#[trigger] t[j]).addr
                && t[j].end() <= hi && t[j].size >= FREE_BLOCK_SIZE by {
                if j < k - 1 {
                    assert(t[j] == s[j]);
                } else if j > k - 1 {
                    assert(t[j] == s[j + 1]);
                } else {
                    assert(t[j].end() == s[k].end());
                }
            }
            assert forall|i: int, j: int| #![trigger t[i], t[j]] 0 <= i < j < t.len() implies t[i].end()
                < t[j].addr by {
                if j < k - 1 {
                    assert(t[i] == s[i] && t[j] == s[j]);
                } else if i > k - 1 {
                    assert(t[i] == s[i + 1] && t[j] == s[j + 1]);
                } else if i < k - 1 && j > k - 1 {
                    assert(t[i] == s[i] && t[j] == s[j + 1]);
                    assert(s[i].end() < s[j + 1].addr);
                } else if i < k - 1 {
                    assert(t[i] == s[i]);
                    assert(s[i].end() < s[k - 1].addr);
                } else {
                    assert(t[j] == s[j + 1]);
                    assert(s[k].end() < s[j + 1].addr);
                }
            }
            if lo % (BASE_ALIGN as int) == 0 {
                assert forall|j: int| 0 <= j < t.len() implies (#[trigger] t[j]).addr % BASE_ALIGN == 0 by {
                    if j < k - 1 {
                        assert(t[j] == s[j]);
                    } else if j > k - 1 {
                        assert(t[j] == s[j + 1]);
                    }
                }
            }
        } else if left {
            assert(t[k - 1].addr == s[k - 1].addr && t[k - 1].size == s[k - 1].size + size);
            assert forall|j: int| 0 <= j < t.len() implies lo <= (#[trigger] t[j]).addr
                && t[j].end() <= hi && t[j].size >= FREE_BLOCK_SIZE by {
                if j != k - 1 {
                    assert(t[j] == s[j]);
                }
            }
            assert forall|i: int, j: int| #![trigger t[i], t[j]] 0 <= i < j < t.len() implies t[i].end()
                < t[j].addr by {
                if j == k - 1 {
                    assert(t[i] == s[i]);
                    assert(s[i].end() < s[k - 1].addr);
                } else if i == k - 1 {
                    assert(t[j] == s[j]);
                } else {
                    assert(t[i] == s[i] && t[j] == s[j]);
                }
            }
            if lo % (BASE_ALIGN as int) == 0 {
                assert forall|j: int| 0 <= j < t.len() implies (#[trigger] t[j]).addr % BASE_ALIGN == 0 by {
                    if j != k - 1 {
                        assert(t[j] == s[j]);
                    }
                }
            }
        } else if right {
            assert(t[k].addr == ptr && t[k].size == size + s[k].size);
            assert forall|j: int| 0 <= j < t.len() implies lo <= (#[trigger] t[j]).addr
                && t[j].end() <= hi && t[j].size >= FREE_BLOCK_SIZE by {
                if j != k {
                    assert(t[j] == s[j]);
                }
            }
            assert forall|i: int, j: int| #![trigger t[i], t[j]] 0 <= i < j < t.len() implies t[i].end()
                < t[j].addr by {
                if j == k {
                    assert(t[i] == s[i]);
                } else if i == k {
                    assert(t[j] == s[j]);
                    assert(s[k].end() < s[j].addr);
                } else {
                    assert(t[i] == s[i] && t[j] == s[j]);
                }
            }
            if lo % (BASE_ALIGN as int) == 0 {
                assert forall|j: int| 0 <= j < t.len() implies (#[trigger] t[j]).addr % BASE_ALIGN == 0 by {
                    if j != k {
                        assert(t[j] == s[j]);
                    }
                }
            }
        } else {
            assert forall|j: int| 0 <= j < t.len() implies lo <= (#[trigger] t[j]).addr
                && t[j].end() <= hi && t[j].size >= FREE_BLOCK_SIZE by {
                if j < k {
                    assert(t[j] == s[j]);
                } else if j > k {
                    assert(t[j] == s[j - 1]);
                }
            }
            assert forall|i: int, j: int| #![trigger t[i], t[j]] 0 <= i < j < t.len() implies t[i].end()
                < t[j].addr by {
                if j < k {
                    assert(t[i] == s[i] && t[j] == s[j]);
                } else if i > k {
                    assert(t[i] == s[i - 1] && t[j] == s[j - 1]);
                } else if i < k && j > k {
                    assert(t[i] == s[i] && t[j] == s[j - 1]);
                } else if i < k {
                    assert(t[i] == s[i]);
                } else {
                    assert(t[j] == s[j - 1]);
                }
            }
            if lo % (BASE_ALIGN as int) == 0 {
                assert forall|j: int| 0 <= j < t.len() implies (#[trigger] t[j]).addr % BASE_ALIGN == 0 by {
                    if j < k {
                        assert(t[j] == s[j]);
                    } else if j > k {
                        assert(t[j] == s[j - 1]);
                    }
                }
            }
        }
    }
}

} // verus!
