//! Ring buffer queue
//!
//! A first-in first-out queue of `Copy` values in a ring of `N` slots, `N` a
//! power of two. The head (next to pop) and tail (next to push) indices run
//! freely and wrap around the whole `usize` range; the number of queued
//! values is their wrapping difference and a value's slot is its index
//! modulo `N`. Because `N` divides the index range, every one of the `N`
//! slots is usable and the indices stay consistent across the wrap.

use vstd::prelude::*;

verus! {

/// Number of distinct index values: the size of the `usize` range.
pub open spec fn index_range() -> int {
    usize::MAX as int + 1
}

/// Whether `n` is a power of two.
pub open spec fn is_power_of_two(n: usize) -> bool {
    n > 0 && n & ((n - 1) as usize) == 0
}

/// A power of two divides the `usize` index range.
proof fn lemma_power_of_two_divides_range(n: usize)
    requires
        is_power_of_two(n),
    ensures
        index_range() % (n as int) == 0,
{
    let x = n as u64;
    assert(x > 0 && x & ((x - 1) as u64) == 0) by (bit_vector)
        requires
            x == n,
            n > 0,
            n & ((n - 1) as usize) == 0,
    ;
    assert(usize::MAX == 0xffff_ffff || usize::MAX == 0xffff_ffff_ffff_ffff);
    if usize::MAX == 0xffff_ffff {
        let y = n as u32;
        assert(y == n);
        assert(0xffff_ffffu32 % y == (y - 1) as u32) by (bit_vector)
            requires
                y > 0,
                y & ((y - 1) as u32) == 0,
        {
        }
    } else {
        assert(0xffff_ffff_ffff_ffffu64 % x == (x - 1) as u64) by (bit_vector)
            requires
                x > 0,
                x & ((x - 1) as u64) == 0,
        ;
    }
    assert(usize::MAX % n == n - 1);
    let q = usize::MAX as int / n as int;
    vstd::arithmetic::div_mod::lemma_fundamental_div_mod(usize::MAX as int, n as int);
    assert(usize::MAX as int + 1 == (q + 1) * n) by (nonlinear_arith)
        requires
            usize::MAX as int == n * q + usize::MAX as int % n as int,
            usize::MAX as int % n as int == n - 1,
    ;
    vstd::arithmetic::div_mod::lemma_mod_multiples_basic(q + 1, n as int);
}

/// Reducing modulo a multiple `m` of `n` first does not change the
/// remainder modulo `n`.
proof fn lemma_mod_of_mod(x: int, n: int, m: int)
    requires
        n > 0,
        m > 0,
        m % n == 0,
    ensures
        (x % m) % n == x % n,
{
    let q = m / n;
    vstd::arithmetic::div_mod::lemma_fundamental_div_mod(m, n);
    assert(m == n * q);
    assert(q > 0) by (nonlinear_arith)
        requires
            m == n * q,
            m > 0,
            n > 0,
    ;
    vstd::arithmetic::div_mod::lemma_mod_mod(x, n, q);
}

/// A single-producer single-consumer ring of `N` slots.
pub struct Queue<T: Copy, const N: usize> {
    buf: Vec<Option<T>>,
    head: usize,
    tail: usize,
    contents: Ghost<Seq<T>>,
}

impl<T: Copy, const N: usize> View for Queue<T, N> {
    type V = Seq<T>;

    /// The queued values, oldest first.
    closed spec fn view(&self) -> Seq<T> {
        self.contents@
    }
}

impl<T: Copy, const N: usize> Queue<T, N> {
    /// The ring holds `N` slots, `N` a power of two; the queued values sit
    /// in the slots from the head on, and the tail is the head moved on by
    /// their number.
    pub closed spec fn wf(&self) -> bool {
        &&& is_power_of_two(N)
        &&& self.buf@.len() == N
        &&& self.contents@.len() <= N
        &&& self.tail as int == (self.head + self.contents@.len()) % index_range()
        &&& forall|k: int|
            0 <= k < self.contents@.len() ==> #[trigger] self.buf@[(self.head + k) % (N as int)]
                == Some(self.contents@[k])
    }

    /// An empty queue. `N` must be a power of two no larger than half the
    /// `u32` range.
    pub fn new() -> (r: Self)
        requires
            is_power_of_two(N),
            N <= u32::MAX / 2,
        ensures
            r.wf(),
            r@ == Seq::<T>::empty(),
    {
        let mut buf: Vec<Option<T>> = Vec::new();
        let mut i: usize = 0;
        while i < N
            invariant
                i <= N,
                buf@.len() == i,
            decreases N - i,
        {
            buf.push(None);
            i = i + 1;
        }
        proof {
            vstd::arithmetic::div_mod::lemma_small_mod(0, index_range() as nat);
        }
        Queue { buf, head: 0, tail: 0, contents: Ghost(Seq::empty()) }
    }

    /// Starts the empty queue's indices at `start`, as after `start` pushes
    /// and pops; the indices wrap from the largest value back to zero.
    pub fn start_at(&mut self, start: usize)
        requires
            old(self).wf(),
            old(self)@.len() == 0,
        ensures
            final(self).wf(),
            final(self)@.len() == 0,
            final(self).head_index() == start,
            final(self).tail_index() == start,
    {
        self.head = start;
        self.tail = start;
    }

    /// The index of the next value to pop.
    pub closed spec fn head_index(&self) -> usize {
        self.head
    }

    /// The index of the next slot to push into.
    pub closed spec fn tail_index(&self) -> usize {
        self.tail
    }

    /// The index of the next value to pop.
    pub fn head(&self) -> (r: usize)
        ensures
            r == self.head_index(),
    {
        self.head
    }

    /// The index of the next slot to push into.
    pub fn tail(&self) -> (r: usize)
        ensures
            r == self.tail_index(),
    {
        self.tail
    }

    /// Empties the queue and restarts both indices at zero, so nothing
    /// queued before can be read afterwards.
    pub fn split(&mut self)
        requires
            old(self).wf(),
        ensures
            final(self).wf(),
            final(self)@ == Seq::<T>::empty(),
    {
        self.head = 0;
        self.tail = 0;
        self.contents = Ghost(Seq::empty());
        proof {
            vstd::arithmetic::div_mod::lemma_small_mod(0, index_range() as nat);
        }
    }

    /// Number of queued values.
    pub fn len(&self) -> (n: usize)
        requires
            self.wf(),
        ensures
            n == self@.len(),
    {
        proof {
            self.lemma_len();
        }
        self.tail.wrapping_sub(self.head)
    }

    proof fn lemma_len(&self)
        requires
            self.wf(),
        ensures
            vstd::wrapping::usize_specs::wrapping_sub(self.tail, self.head) == self@.len(),
    {
        let len = self.contents@.len() as int;
        let h = self.head as int;
        assert(len <= N);
        assert(N <= usize::MAX);
        if h + len < index_range() {
            vstd::arithmetic::div_mod::lemma_small_mod((h + len) as nat, index_range() as nat);
        } else {
            assert((h + len) % index_range() == h + len - index_range()) by {
                vstd::arithmetic::div_mod::lemma_fundamental_div_mod(h + len, index_range());
                assert(h + len < 2 * index_range());
                vstd::arithmetic::div_mod::lemma_div_pos_is_pos(h + len, index_range());
                assert((h + len) / index_range() == 1) by (nonlinear_arith)
                    requires
                        h + len == index_range() * ((h + len) / index_range()) + (h + len)
                            % index_range(),
                        0 <= (h + len) % index_range() < index_range(),
                        index_range() <= h + len < 2 * index_range(),
                ;
            }
        }
    }

    /// Number of free slots.
    pub fn remaining(&self) -> (n: usize)
        requires
            self.wf(),
        ensures
            n == N - self@.len(),
    {
        N - self.len()
    }

    /// Whether nothing is queued.
    pub fn is_empty(&self) -> (b: bool)
        requires
            self.wf(),
        ensures
            b == (self@.len() == 0),
    {
        self.len() == 0
    }

    /// Whether all `N` slots are in use.
    pub fn is_full(&self) -> (b: bool)
        requires
            self.wf(),
        ensures
            b == (self@.len() == N),
    {
        self.len() == N
    }

    /// Appends `val` at the tail. Gives `val` back as the error if the queue
    /// is full.
    pub fn push(&mut self, val: T) -> (r: Result<(), T>)
        requires
            old(self).wf(),
        ensures
            final(self).wf(),
            old(self)@.len() == N ==> r == Err::<(), T>(val) && final(self)@ == old(self)@,
            old(self)@.len() < N ==> r == Ok::<(), T>(()) && final(self)@ == old(self)@.push(val),
    {
        let tail = self.tail;
        if tail.wrapping_sub(self.head) == N {
            proof {
                self.lemma_len();
            }
            return Err(val);
        }
        proof {
            self.lemma_len();
        }
        let slot = tail % N;
        let ghost len = self.contents@.len() as int;
        let ghost h = self.head as int;
        proof {
            lemma_power_of_two_divides_range(N);
            lemma_mod_of_mod(h + len, N as int, index_range());
            assert(slot as int == (h + len) % (N as int));
        }
        self.buf.set(slot, Some(val));
        self.tail = tail.wrapping_add(1);
        proof {
            let old_contents = self.contents@;
            self.contents@ = old_contents.push(val);
            assert((tail as int + 1) % index_range() == (h + len + 1) % index_range()) by {
                vstd::arithmetic::div_mod::lemma_add_mod_noop(h + len, 1, index_range());
                vstd::arithmetic::div_mod::lemma_small_mod(1, index_range() as nat);
                vstd::arithmetic::div_mod::lemma_mod_twice(h + len, index_range());
            }
            if tail as int + 1 < index_range() {
                vstd::arithmetic::div_mod::lemma_small_mod((tail + 1) as nat, index_range() as nat);
            } else {
                vstd::arithmetic::div_mod::lemma_mod_self_0(index_range());
            }
            assert forall|k: int| 0 <= k < self.contents@.len() implies #[trigger] self.buf@[(
            self.head + k) % (N as int)] == Some(self.contents@[k]) by {
                if k < len {
                    assert(self.buf@[(h + k) % (N as int)] == Some(old_contents[k])) by {
                        assert(0 <= (h + k) % (N as int) < N);
                        assert(0 <= (h + len) % (N as int) < N);
                        if (h + k) % (N as int) == (h + len) % (N as int) {
                            Self::lemma_distinct_slots(h, k, len, N as int);
                        }
                    }
                }
            }
        }
        Ok(())
    }

    /// Two positions fewer than `N` apart fall in different slots.
    proof fn lemma_distinct_slots(h: int, k: int, len: int, n: int)
        requires
            0 <= k < len < n,
        ensures
            (h + k) % n != (h + len) % n,
    {
        vstd::arithmetic::div_mod::lemma_fundamental_div_mod(h + k, n);
        vstd::arithmetic::div_mod::lemma_fundamental_div_mod(h + len, n);
        if (h + k) % n == (h + len) % n {
            let a = (h + k) / n;
            let b = (h + len) / n;
            assert(n * (b - a) == len - k) by (nonlinear_arith)
                requires
                    h + k == n * a + (h + k) % n,
                    h + len == n * b + (h + len) % n,
                    (h + k) % n == (h + len) % n,
            ;
            assert(false) by (nonlinear_arith)
                requires
                    n * (b - a) == len - k,
                    0 < len - k < n,
            {
                if b - a <= 0 {
                } else if b - a == 1 {
                } else {
                    assert(n * (b - a) >= 2 * n);
                }
            }
        }
    }

    /// Removes and returns the value at the head, or `None` if the queue is
    /// empty.
    pub fn pop(&mut self) -> (r: Option<T>)
        requires
            old(self).wf(),
        ensures
            final(self).wf(),
            old(self)@.len() == 0 ==> r.is_none() && final(self)@ == old(self)@,
            old(self)@.len() > 0 ==> r == Some(old(self)@[0]) && final(self)@ == old(self)@.drop_first(),
    {
        let head = self.head;
        if self.tail.wrapping_sub(head) == 0 {
            proof {
                self.lemma_len();
            }
            return None;
        }
        proof {
            self.lemma_len();
        }
        let slot = head % N;
        let ghost len = self.contents@.len() as int;
        let ghost h = head as int;
        proof {
            assert(self.buf@[(h + 0) % (N as int)] == Some(self.contents@[0]));
        }
        let val = self.buf[slot];
        self.head = head.wrapping_add(1);
        proof {
            let old_contents = self.contents@;
            self.contents@ = old_contents.drop_first();
            lemma_power_of_two_divides_range(N);
            let nh = self.head as int;
            if h + 1 < index_range() {
                assert(nh == h + 1);
            } else {
                assert(nh == 0);
                assert(h + 1 == index_range());
            }
            // The new head is the old head plus one, modulo the index range.
            assert(nh == (h + 1) % index_range()) by {
                if h + 1 < index_range() {
                    vstd::arithmetic::div_mod::lemma_small_mod((h + 1) as nat, index_range() as nat);
                } else {
                    vstd::arithmetic::div_mod::lemma_mod_self_0(index_range());
                }
            }
            assert(self.tail as int == (nh + self.contents@.len()) % index_range()) by {
                vstd::arithmetic::div_mod::lemma_add_mod_noop(h + 1, len - 1, index_range());
                vstd::arithmetic::div_mod::lemma_mod_twice(h + len, index_range());
                vstd::arithmetic::div_mod::lemma_small_mod((len - 1) as nat, index_range() as nat);
                vstd::arithmetic::div_mod::lemma_add_mod_noop(nh, len - 1, index_range());
            }
            assert forall|k: int| 0 <= k < self.contents@.len() implies #[trigger] self.buf@[(nh + k)
                % (N as int)] == Some(self.contents@[k]) by {
                assert(self.buf@[(h + (k + 1)) % (N as int)] == Some(old_contents[k + 1]));
                lemma_mod_of_mod(h + 1, N as int, index_range());
                vstd::arithmetic::div_mod::lemma_add_mod_noop(nh, k, N as int);
                vstd::arithmetic::div_mod::lemma_add_mod_noop(h + 1, k, N as int);
            }
        }
        val
    }
}

/// Values come out of the queue in the order they went in: pushing onto a
/// non-full queue and popping from a non-empty one act on opposite ends.
pub proof fn law_fifo<T>(q: Seq<T>, v: T)
    requires
        q.len() > 0,
    ensures
        q.push(v)[0] == q[0],
        q.push(v).drop_first() == q.drop_first().push(v),
{
    assert(q.push(v).drop_first() =~= q.drop_first().push(v));
}

} // verus!
