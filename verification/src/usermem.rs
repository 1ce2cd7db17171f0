//! Memory map of a user process
//!
//! A process's memory is a handful of segments, each with a role that fixes
//! its access rights and the protection slot that guards it. The first two
//! protection slots are kept for machine mode, so the roles use slots two
//! to seven.

use vstd::prelude::*;
use crate::region::{MemRegion, Order, Pool};

verus! {

/// Number of physical memory protection address slots.
pub const PMP_ADDR_COUNT: usize = 8;

/// Protection permission: read.
pub const PMP_R: u8 = 1;

/// Protection permission: write.
pub const PMP_W: u8 = 2;

/// Protection permission: execute.
pub const PMP_X: u8 = 4;

/// Protection address matching mode: naturally aligned power of two.
pub const PMP_NAPOT: u8 = 0x18;

/// What a segment holds.
#[derive(Clone, Copy, Debug, PartialEq, Eq)]
pub enum Role {
    Text,
    Data,
    Bss,
    Stack,
    Heap,
    BufRW,
}

/// Where a segment's memory comes from: a pool of the heap, or a fixed
/// address laid out by the linker.
#[derive(Clone, Copy, Debug, PartialEq, Eq)]
pub enum Backing {
    Heap(Pool),
    Fixed(usize),
}

/// The fixed addresses of the program segments.
#[derive(Clone, Copy, Debug, PartialEq, Eq)]
pub struct UserLayout {
    pub text_start: usize,
    pub data_start: usize,
    pub bss_start: usize,
}

impl Role {
    pub open spec fn spec_addr_slot(self) -> usize {
        match self {
            Role::Text => 2,
            Role::Data => 3,
            Role::Bss => 4,
            Role::Stack => 5,
            Role::Heap => 6,
            Role::BufRW => 7,
        }
    }

    pub open spec fn spec_permissions(self) -> u8 {
        match self {
            Role::Text => 5,
            _ => 3,
        }
    }

    /// Access rights: program text is read and execute, everything else
    /// read and write.
    pub fn permissions(self) -> (r: u8)
        ensures
            r == self.spec_permissions(),
            r == (if self == Role::Text { PMP_R | PMP_X } else { PMP_R | PMP_W }),
    {
        assert(PMP_R | PMP_X == 5u8 && PMP_R | PMP_W == 3u8) by (bit_vector);
        match self {
            Role::Text => PMP_R | PMP_X,
            _ => PMP_R | PMP_W,
        }
    }

    /// Where the segment's memory comes from: the program segments sit at
    /// the linker's fixed addresses, stacks and heaps come from the user
    /// pool and shared buffers from external RAM.
    pub fn backing(self, layout: &UserLayout) -> (r: Backing)
        ensures
            r == match self {
                Role::Text => Backing::Fixed(layout.text_start),
                Role::Data => Backing::Fixed(layout.data_start),
                Role::Bss => Backing::Fixed(layout.bss_start),
                Role::Stack | Role::Heap => Backing::Heap(Pool::UserPd0),
                Role::BufRW => Backing::Heap(Pool::Psram),
            },
    {
        match self {
            Role::Text => Backing::Fixed(layout.text_start),
            Role::Data => Backing::Fixed(layout.data_start),
            Role::Bss => Backing::Fixed(layout.bss_start),
            Role::Stack | Role::Heap => Backing::Heap(Pool::UserPd0),
            Role::BufRW => Backing::Heap(Pool::Psram),
        }
    }

    /// The protection slot that guards the segment.
    pub fn addr_slot(self) -> (r: usize)
        ensures
            r == self.spec_addr_slot(),
            2 <= r < PMP_ADDR_COUNT,
    {
        match self {
            Role::Text => 2,
            Role::Data => 3,
            Role::Bss => 4,
            Role::Stack => 5,
            Role::Heap => 6,
            Role::BufRW => 7,
        }
    }
}

/// A segment: its role and its memory.
#[derive(Debug)]
pub struct Segment {
    pub role: Role,
    pub region: MemRegion,
}

/// One protection entry: slot, base address, size, matching mode and
/// permissions.
#[derive(Clone, Copy, Debug, PartialEq, Eq)]
pub struct PmpEntry {
    pub slot: usize,
    pub base: usize,
    pub size: usize,
    pub mode: u8,
    pub permissions: u8,
}

/// The protection entry for a segment in slot `slot`.
pub open spec fn segment_entry(slot: int, s: Segment) -> PmpEntry {
    PmpEntry {
        slot: slot as usize,
        base: s.region.base,
        size: s.region.order.spec_size() as usize,
        mode: PMP_NAPOT,
        permissions: s.role.spec_permissions(),
    }
}

/// The protection entries for the segments in the first `n` slots of
/// `map`, in slot order.
pub open spec fn pmp_prefix(map: Seq<Option<Segment>>, n: int) -> Seq<PmpEntry>
    decreases n,
{
    if n <= 0 {
        Seq::empty()
    } else {
        let p = pmp_prefix(map, n - 1);
        match map[n - 1] {
            Some(s) => p.push(segment_entry(n - 1, s)),
            None => p,
        }
    }
}

/// The protection entries for a thread with stack `stack` of a process
/// with memory map `map`: one per segment, in slot order, then the stack.
pub open spec fn pmp_of(map: Seq<Option<Segment>>, stack: MemRegion) -> Seq<PmpEntry> {
    pmp_prefix(map, PMP_ADDR_COUNT as int).push(PmpEntry {
        slot: Role::Stack.spec_addr_slot(),
        base: stack.base,
        size: stack.order.spec_size() as usize,
        mode: PMP_NAPOT,
        permissions: Role::Stack.spec_permissions(),
    })
}

/// A process memory map: one optional segment per protection slot.
pub struct MemoryMap {
    map: Vec<Option<Segment>>,
}

impl View for MemoryMap {
    type V = Seq<Option<Segment>>;

    closed spec fn view(&self) -> Seq<Option<Segment>> {
        self.map@
    }
}

impl MemoryMap {
    /// One entry per protection slot, each segment kept in its role's slot.
    pub open spec fn wf(&self) -> bool {
        &&& self@.len() == PMP_ADDR_COUNT
        &&& forall|i: int|
            0 <= i < PMP_ADDR_COUNT ==> (#[trigger] self@[i] matches Some(s) ==> s.role.spec_addr_slot()
                == i && s.region.wf())
    }

    /// An empty map.
    pub fn new() -> (r: Self)
        ensures
            r.wf(),
            forall|i: int| 0 <= i < PMP_ADDR_COUNT ==> #[trigger] r@[i] is None,
    {
        let mut map: Vec<Option<Segment>> = Vec::new();
        let mut i: usize = 0;
        while i < PMP_ADDR_COUNT
            invariant
                i <= PMP_ADDR_COUNT,
                map@.len() == i,
                forall|j: int| 0 <= j < i ==> #[trigger] map@[j] is None,
            decreases PMP_ADDR_COUNT - i,
        {
            map.push(None);
            i = i + 1;
        }
        MemoryMap { map }
    }

    /// The memory of the segment with `role`, if the map has one.
    pub fn region(&self, role: Role) -> (r: Option<&MemRegion>)
        requires
            self.wf(),
        ensures
            match self@[role.spec_addr_slot() as int] {
                Some(s) => r == Some(&s.region),
                None => r is None,
            },
    {
        match self.map[role.addr_slot()].as_ref() {
            Some(s) => Some(&s.region),
            None => None,
        }
    }

    /// Adds a segment for `role` backed by `region`, the memory obtained
    /// for it, replacing any segment of that role. Fails, leaving the map as
    /// it was, when no memory could be obtained.
    pub fn add_region(&mut self, role: Role, region: Option<MemRegion>) -> (r: Result<(), ()>)
        requires
            old(self).wf(),
            region matches Some(m) ==> m.wf(),
        ensures
            final(self).wf(),
            match region {
                Some(m) => r is Ok && final(self)@ == old(self)@.update(
                    role.spec_addr_slot() as int,
                    Some(Segment { role, region: m }),
                ),
                None => r is Err && final(self)@ == old(self)@,
            },
    {
        match region {
            Some(m) => {
                let slot = role.addr_slot();
                self.map.set(slot, Some(Segment { role, region: m }));
                Ok(())
            },
            None => Err(()),
        }
    }

    /// Adds the program segments a process needs: text (4 KiB), data and
    /// bss (2 KiB each), at their fixed addresses. Each address must be
    /// aligned to its segment size.
    pub fn try_for_process(&mut self, layout: &UserLayout) -> (r: Result<(), ()>)
        requires
            old(self).wf(),
            layout.text_start > 0,
            layout.data_start > 0,
            layout.bss_start > 0,
            layout.text_start as nat % Order::KB4.spec_size() == 0,
            layout.data_start as nat % Order::KB2.spec_size() == 0,
            layout.bss_start as nat % Order::KB2.spec_size() == 0,
            layout.text_start + Order::KB4.spec_size() <= usize::MAX,
            layout.data_start + Order::KB2.spec_size() <= usize::MAX,
            layout.bss_start + Order::KB2.spec_size() <= usize::MAX,
        ensures
            final(self).wf(),
            r is Ok,
            final(self)@[Role::Text.spec_addr_slot() as int] matches Some(s) && s.region.base
                == layout.text_start && s.region.order == Order::KB4,
            final(self)@[Role::Data.spec_addr_slot() as int] matches Some(s) && s.region.base
                == layout.data_start && s.region.order == Order::KB2,
            final(self)@[Role::Bss.spec_addr_slot() as int] matches Some(s) && s.region.base
                == layout.bss_start && s.region.order == Order::KB2,
            forall|i: int| 0 <= i < PMP_ADDR_COUNT && i != Role::Text.spec_addr_slot() && i != Role::Data.spec_addr_slot()
                && i != Role::Bss.spec_addr_slot() ==> #[trigger] final(self)@[i] == old(self)@[i],
    {
        let text = MemRegion::from_fixed(layout.text_start, Order::KB4);
        let _ = self.add_region(Role::Text, Some(text));
        let data = MemRegion::from_fixed(layout.data_start, Order::KB2);
        let _ = self.add_region(Role::Data, Some(data));
        let bss = MemRegion::from_fixed(layout.bss_start, Order::KB2);
        let _ = self.add_region(Role::Bss, Some(bss));
        Ok(())
    }

    /// The protection entries for a thread of this process: one per
    /// segment, in slot order, then the thread's own stack in the stack
    /// slot. See `pmp_of`.
    pub fn to_pmp(&self, user_stack: &MemRegion) -> (r: Vec<PmpEntry>)
        requires
            self.wf(),
            user_stack.wf(),
        ensures
            r@ == pmp_of(self@, *user_stack),
    {
        let mut r: Vec<PmpEntry> = Vec::new();
        let mut i: usize = 0;
        while i < PMP_ADDR_COUNT
            invariant
                self.wf(),
                i <= PMP_ADDR_COUNT,
                r@ == pmp_prefix(self@, i as int),
            decreases PMP_ADDR_COUNT - i,
        {
            if let Some(s) = self.map[i].as_ref() {
                let e = PmpEntry {
                    slot: i,
                    base: s.region.base_addr(),
                    size: s.region.size(),
                    mode: PMP_NAPOT,
                    permissions: s.role.permissions(),
                };
                r.push(e);
            }
            i = i + 1;
        }
        let role = Role::Stack;
        r.push(
            PmpEntry {
                slot: role.addr_slot(),
                base: user_stack.base(),
                size: user_stack.size(),
                mode: PMP_NAPOT,
                permissions: role.permissions(),
            },
        );
        r
    }
}

} // verus!
