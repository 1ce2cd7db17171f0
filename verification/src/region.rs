//! Standard power-of-two memory regions.
//!
//! Region sizes are powers of two and regions are aligned to their own size
//! (NAPOT), which is what the buddy allocator, the stacks and the PMP need.

use vstd::prelude::*;

verus! {

/// Pool that a heap-backed region was allocated from.
#[derive(Clone, Copy, Debug, PartialEq, Eq)]
pub enum Pool {
    UserPd0,
    KernelPd1,
    Psram,
}

/// Size class of a region: the base-2 logarithm of its size.
#[derive(Clone, Copy, Debug, PartialEq, Eq)]
pub enum Order {
    B512,
    KB1,
    KB2,
    KB4,
    KB8,
    KB16,
    KB32,
    KB64,
    KB128,
}

/// Two to the power `e`.
pub open spec fn pow2(e: nat) -> nat
    decreases e,
{
    if e == 0 {
        1
    } else {
        2 * pow2((e - 1) as nat)
    }
}

impl Order {
    /// Base-2 logarithm of the region size.
    pub open spec fn exponent(self) -> nat {
        match self {
            Order::B512 => 9,
            Order::KB1 => 10,
            Order::KB2 => 11,
            Order::KB4 => 12,
            Order::KB8 => 13,
            Order::KB16 => 14,
            Order::KB32 => 15,
            Order::KB64 => 16,
            Order::KB128 => 17,
        }
    }

    /// Size of the region in bytes.
    pub open spec fn spec_size(self) -> nat {
        pow2(self.exponent())
    }

    /// Region size in bytes: two to the power of the order.
    pub fn size(self) -> (s: usize)
        ensures
            s == self.spec_size(),
    {
        proof {
            reveal_with_fuel(pow2, 18);
        }
        match self {
            Order::B512 => 512,
            Order::KB1 => 1024,
            Order::KB2 => 2048,
            Order::KB4 => 4096,
            Order::KB8 => 8192,
            Order::KB16 => 16384,
            Order::KB32 => 32768,
            Order::KB64 => 65536,
            Order::KB128 => 131072,
        }
    }

    /// Alignment of the region: regions are aligned to their own size.
    pub fn align(self) -> (a: usize)
        ensures
            a == self.spec_size(),
    {
        self.size()
    }
}

/// A NAPOT memory region: `order.size()` bytes at a base aligned to that
/// size. A region that came from a heap pool remembers the pool so it can
/// be given back.
#[derive(Debug, PartialEq, Eq)]
pub struct MemRegion {
    pub base: usize,
    pub order: Order,
    pub dealloc_pool: Option<Pool>,
}

impl MemRegion {
    /// Whether the region is aligned to its size and its end is addressable.
    pub open spec fn wf(&self) -> bool {
        &&& self.base > 0
        &&& self.base as nat % self.order.spec_size() == 0
        &&& self.base + self.order.spec_size() <= usize::MAX
    }

    /// The region that pool `pool` handed out at `allocated` for a request
    /// of `order`, or `None` if the pool had no memory (`allocated` is
    /// `None`). The pool hands out size-aligned blocks.
    pub fn from_heap(pool: Pool, order: Order, allocated: Option<usize>) -> (r: Option<Self>)
        requires
            allocated matches Some(b) ==> b > 0 && b as nat % order.spec_size() == 0 && b
                + order.spec_size() <= usize::MAX,
        ensures
            match allocated {
                Some(b) => r == Some(MemRegion { base: b, order, dealloc_pool: Some(pool) }),
                None => r.is_none(),
            },
            r matches Some(m) ==> m.wf(),
    {
        match allocated {
            Some(base) => Some(MemRegion { base, order, dealloc_pool: Some(pool) }),
            None => None,
        }
    }

    /// A region over the fixed, size-aligned memory at `base`, which is not
    /// given back to any pool.
    pub fn from_fixed(base: usize, order: Order) -> (r: Self)
        requires
            base > 0,
            base as nat % order.spec_size() == 0,
            base + order.spec_size() <= usize::MAX,
        ensures
            r == (MemRegion { base, order, dealloc_pool: None }),
            r.wf(),
    {
        MemRegion { base, order, dealloc_pool: None }
    }

    /// The first address of the region.
    pub fn base(&self) -> (r: usize)
        ensures
            r == self.base,
    {
        self.base
    }

    /// One past the last address of the region.
    pub fn top(&self) -> (r: usize)
        requires
            self.wf(),
        ensures
            r == self.base + self.order.spec_size(),
    {
        self.base + self.order.size()
    }

    /// The base address as a number.
    pub fn base_addr(&self) -> (r: usize)
        ensures
            r == self.base,
    {
        self.base
    }

    /// Size of the region in bytes.
    pub fn size(&self) -> (r: usize)
        ensures
            r == self.order.spec_size(),
    {
        self.order.size()
    }
}

/// Rounds `addr` up to the next multiple of `align`, or `None` when that
/// would overflow `usize`.
pub open spec fn spec_align_up(addr: int, align: int) -> int {
    if addr % align == 0 {
        addr
    } else {
        addr - addr % align + align
    }
}

/// Rounds `addr` up to a multiple of the power-of-two `align`. Returns
/// `None` if `addr + align - 1` overflows.
pub fn align_up(addr: usize, align: usize) -> (r: Option<usize>)
    requires
        align > 0,
    ensures
        addr + align - 1 > usize::MAX ==> r.is_none(),
        addr + align - 1 <= usize::MAX ==> r == Some(spec_align_up(addr as int, align as int) as usize),
{
    if addr > usize::MAX - (align - 1) {
        None
    } else {
        let rem = addr % align;
        assert(rem <= addr) by (nonlinear_arith)
            requires
                rem == addr % align,
                align > 0,
        ;
        if rem == 0 {
            Some(addr)
        } else {
            Some(addr - rem + align)
        }
    }
}

} // verus!
