//! Arena
//!
//! An arena is a fixed number `N` of slots, each optionally holding a `T`.
//! Adding a value hands out a handle to its slot. Each slot carries a
//! generation counter that moves on whenever the slot's value is taken, so a
//! handle to an earlier occupant of a slot (a stale handle) no longer
//! matches.

use vstd::prelude::*;

verus! {

/// A handle to an arena slot: the slot index and the slot generation at
/// the time the value was added.
#[derive(Clone, Copy, Debug, PartialEq, Eq)]
pub struct Handle {
    pub index: usize,
    pub generation: u32,
}

/// One arena slot: an optional value and the slot's generation counter.
pub struct Slot<T> {
    pub entry: Option<T>,
    pub generation: u32,
}

/// The generation that follows `g`, wrapping around after `u32::MAX`.
pub open spec fn next_generation(g: u32) -> u32 {
    if g == u32::MAX {
        0
    } else {
        (g + 1) as u32
    }
}

/// Index of the first empty slot at or after `start`, or the slot count if
/// every slot from there on is full.
pub open spec fn first_free<T>(s: Seq<Slot<T>>, start: nat) -> nat
    decreases s.len() - start,
{
    if start >= s.len() {
        s.len()
    } else if s[start as int].entry is None {
        start
    } else {
        first_free(s, start + 1)
    }
}

/// Whether handle `h` names a slot of `s` whose generation it carries.
pub open spec fn matches_slot<T>(s: Seq<Slot<T>>, h: Handle) -> bool {
    h.index < s.len() && s[h.index as int].generation == h.generation
}

/// The value handle `h` refers to, if the handle is current and its slot
/// is occupied.
pub open spec fn spec_get<T>(s: Seq<Slot<T>>, h: Handle) -> Option<T> {
    if matches_slot(s, h) {
        s[h.index as int].entry
    } else {
        None
    }
}

/// The handle and slots after adding `val`: it goes into the first empty
/// slot, or nothing happens if there is none.
pub open spec fn spec_add<T>(s: Seq<Slot<T>>, val: T) -> (Option<Handle>, Seq<Slot<T>>) {
    let i = first_free(s, 0);
    if i < s.len() {
        (
            Some(Handle { index: i as usize, generation: s[i as int].generation }),
            s.update(i as int, Slot { entry: Some(val), generation: s[i as int].generation }),
        )
    } else {
        (None, s)
    }
}

/// The value and slots after taking through `h`: a current handle to an
/// occupied slot empties it and moves its generation on; anything else
/// changes nothing.
pub open spec fn spec_take<T>(s: Seq<Slot<T>>, h: Handle) -> (Option<T>, Seq<Slot<T>>) {
    if matches_slot(s, h) && s[h.index as int].entry is Some {
        (
            s[h.index as int].entry,
            s.update(
                h.index as int,
                Slot { entry: None, generation: next_generation(s[h.index as int].generation) },
            ),
        )
    } else {
        (None, s)
    }
}

/// The values held, in slot order.
pub open spec fn present<T>(s: Seq<Slot<T>>) -> Seq<T>
    decreases s.len(),
{
    if s.len() == 0 {
        Seq::empty()
    } else {
        let rest = present(s.drop_last());
        match s.last().entry {
            Some(v) => rest.push(v),
            None => rest,
        }
    }
}

/// A fixed array of `N` slots.
pub struct Arena<T, const N: usize> {
    array: Vec<Slot<T>>,
}

impl<T, const N: usize> View for Arena<T, N> {
    type V = Seq<Slot<T>>;

    /// The slots in index order.
    closed spec fn view(&self) -> Seq<Slot<T>> {
        self.array@
    }
}

impl<T, const N: usize> Arena<T, N> {
    /// The arena has exactly `N` slots.
    pub open spec fn wf(&self) -> bool {
        self@.len() == N
    }

    /// A new arena with `N` empty slots, all at generation zero.
    pub fn new() -> (r: Self)
        ensures
            r.wf(),
            forall|i: int| 0 <= i < N ==> (#[trigger] r@[i]).entry is None && r@[i].generation == 0,
    {
        let mut array: Vec<Slot<T>> = Vec::new();
        let mut i: usize = 0;
        while i < N
            invariant
                i <= N,
                array@.len() == i,
                forall|j: int| 0 <= j < i ==> (#[trigger] array@[j]).entry is None && array@[j].generation
                    == 0,
            decreases N - i,
        {
            array.push(Slot { entry: None, generation: 0 });
            i = i + 1;
        }
        Arena { array }
    }

    /// Puts `val` into the lowest-numbered empty slot and returns a handle
    /// to it, or `None` if every slot is full.
    pub fn add(&mut self, val: T) -> (r: Option<Handle>)
        requires
            old(self).wf(),
        ensures
            final(self).wf(),
            (r, final(self)@) == spec_add(old(self)@, val),
    {
        let ghost s = self.array@;
        let mut i: usize = 0;
        while i < self.array.len()
            invariant
                self.array@ == s,
                s == old(self)@,
                s.len() == N,
                i <= s.len(),
                first_free(s, 0) == first_free(s, i as nat),
            decreases s.len() - i,
        {
            if self.array[i].entry.is_none() {
                let generation = self.array[i].generation;
                self.array.set(i, Slot { entry: Some(val), generation });
                proof {
                    lemma_first_free_bound(s, 0);
                }
                return Some(Handle { index: i, generation });
            }
            i = i + 1;
        }
        None
    }

    /// The value that `handle` refers to, or `None` if the handle is stale,
    /// names no slot of this arena, or its slot is empty.
    pub fn get(&self, handle: Handle) -> (r: Option<&T>)
        requires
            self.wf(),
        ensures
            match r {
                Some(v) => spec_get(self@, handle) == Some(*v),
                None => spec_get(self@, handle) is None,
            },
    {
        if handle.index >= self.array.len() {
            return None;
        }
        let slot = &self.array[handle.index];
        if slot.generation != handle.generation {
            return None;
        }
        slot.entry.as_ref()
    }

    /// A mutable reference to the value that `handle` refers to, or `None`
    /// if the handle is stale, names no slot, or its slot is empty. Writes
    /// through the reference land in the slot.
    pub fn get_mut(&mut self, handle: Handle) -> (r: Option<&mut T>)
        requires
            old(self).wf(),
        ensures
            match r {
                Some(v) => {
                    &&& spec_get(old(self)@, handle) == Some(*v)
                    &&& final(self)@ == old(self)@.update(
                        handle.index as int,
                        Slot { entry: Some(*final(v)), generation: handle.generation },
                    )
                },
                None => spec_get(old(self)@, handle) is None && final(self)@ == old(self)@,
            },
    {
        if handle.index >= self.array.len() {
            return None;
        }
        if self.array[handle.index].generation != handle.generation {
            return None;
        }
        if self.array[handle.index].entry.is_none() {
            return None;
        }
        let slot = &mut self.array[handle.index];
        slot.entry.as_mut()
    }

    /// Mutable references to the values that two handles refer to, or
    /// `None` if the handles name the same slot, either names no slot of
    /// this arena, or either is stale or its slot empty.
    pub fn get_disjoint_mut(&mut self, handle_a: Handle, handle_b: Handle) -> (r: Option<
        (&mut T, &mut T),
    >)
        requires
            old(self).wf(),
        ensures
            match r {
                Some(p) => {
                    &&& handle_a.index != handle_b.index
                    &&& spec_get(old(self)@, handle_a) == Some(*p.0)
                    &&& spec_get(old(self)@, handle_b) == Some(*p.1)
                    &&& final(self)@ == old(self)@.update(
                        handle_a.index as int,
                        Slot { entry: Some(*final(p.0)), generation: handle_a.generation },
                    ).update(
                        handle_b.index as int,
                        Slot { entry: Some(*final(p.1)), generation: handle_b.generation },
                    )
                },
                None => {
                    &&& final(self)@ == old(self)@
                    &&& (handle_a.index == handle_b.index || spec_get(old(self)@, handle_a) is None
                        || spec_get(old(self)@, handle_b) is None)
                },
            },
    {
        let len = self.array.len();
        if handle_a.index >= len || handle_b.index >= len || handle_a.index == handle_b.index {
            return None;
        }
        if self.array[handle_a.index].generation != handle_a.generation
            || self.array[handle_a.index].entry.is_none() {
            return None;
        }
        if self.array[handle_b.index].generation != handle_b.generation
            || self.array[handle_b.index].entry.is_none() {
            return None;
        }
        let a_first = handle_a.index < handle_b.index;
        let (lo, hi) = if a_first {
            (handle_a.index, handle_b.index)
        } else {
            (handle_b.index, handle_a.index)
        };
        let slice = self.array.as_mut_slice();
        let (left, right) = slice.split_at_mut(hi);
        let (_below, from_lo) = left.split_at_mut(lo);
        let lo_slot = from_lo.first_mut().unwrap();
        let hi_slot = right.first_mut().unwrap();
        let lo_val = lo_slot.entry.as_mut().unwrap();
        let hi_val = hi_slot.entry.as_mut().unwrap();
        if a_first {
            Some((lo_val, hi_val))
        } else {
            Some((hi_val, lo_val))
        }
    }

    /// Removes the value that `handle` refers to and moves the slot's
    /// generation on, so the handle goes stale. Returns `None`, changing
    /// nothing, if the handle is stale, names no slot, or its slot is empty.
    pub fn take(&mut self, handle: Handle) -> (r: Option<T>)
        requires
            old(self).wf(),
        ensures
            final(self).wf(),
            (r, final(self)@) == spec_take(old(self)@, handle),
    {
        if handle.index >= self.array.len() {
            return None;
        }
        let generation = self.array[handle.index].generation;
        if generation != handle.generation {
            return None;
        }
        if self.array[handle.index].entry.is_none() {
            return None;
        }
        let next = if generation == u32::MAX {
            0
        } else {
            generation + 1
        };
        let mut slot = Slot { entry: None, generation: next };
        self.array.set_and_swap(handle.index, &mut slot);
        slot.entry
    }
    /// The values held, in slot order.
    pub fn iter(&self) -> (r: Vec<&T>)
        requires
            self.wf(),
        ensures
            r@.len() == present(self@).len(),
            forall|i: int| 0 <= i < r@.len() ==> *(#[trigger] r@[i]) == present(self@)[i],
    {
        let ghost s = self.array@;
        let mut r: Vec<&T> = Vec::new();
        let mut i: usize = 0;
        while i < self.array.len()
            invariant
                self.array@ == s,
                i <= s.len(),
                r@.len() == present(s.take(i as int)).len(),
                forall|j: int| 0 <= j < r@.len() ==> *(#[trigger] r@[j]) == present(s.take(i as int))[j],
            decreases s.len() - i,
        {
            proof {
                assert(s.take(i + 1).drop_last() =~= s.take(i as int));
            }
            if let Some(v) = self.array[i].entry.as_ref() {
                r.push(v);
            }
            i = i + 1;
        }
        proof {
            assert(s.take(s.len() as int) =~= s);
        }
        r
    }

    /// The generation counter of slot `index`.
    pub fn slot_generation(&self, index: usize) -> (r: u32)
        requires
            self.wf(),
            index < N,
        ensures
            r == self@[index as int].generation,
    {
        self.array[index].generation
    }

    /// Sets the generation counter of slot `index`.
    pub fn set_slot_generation(&mut self, index: usize, generation: u32)
        requires
            old(self).wf(),
            index < N,
        ensures
            final(self).wf(),
            final(self)@ == old(self)@.update(
                index as int,
                Slot { entry: old(self)@[index as int].entry, generation },
            ),
    {
        let mut slot = Slot { entry: None, generation };
        self.array.set_and_swap(index, &mut slot);
        let entry = slot.entry;
        let mut restored = Slot { entry, generation };
        self.array.set_and_swap(index, &mut restored);
    }
}

/// A value added to the arena is what its handle then gets.
pub proof fn law_get_after_add<T>(s: Seq<Slot<T>>, val: T)
    requires
        s.len() <= usize::MAX,
    ensures
        spec_add(s, val).0 matches Some(h) ==> spec_get(spec_add(s, val).1, h) == Some(val),
{
    lemma_first_free_bound(s, 0);
}

/// Taking through a current handle gives back the value and leaves the
/// handle stale: a later get or take through it finds nothing.
pub proof fn law_take_after_add<T>(s: Seq<Slot<T>>, val: T)
    requires
        s.len() <= usize::MAX,
    ensures
        spec_add(s, val).0 matches Some(h) ==> {
            let after_take = spec_take(spec_add(s, val).1, h);
            &&& after_take.0 == Some(val)
            &&& spec_get(after_take.1, h) is None
            &&& spec_take(after_take.1, h) == (None::<T>, after_take.1)
        },
{
    lemma_first_free_bound(s, 0);
}

/// When a slot is emptied and refilled, the new handle differs from the old
/// one, the old handle no longer reaches the new value, and taking through
/// the old handle changes nothing.
pub proof fn law_stale_after_reuse<T>(s: Seq<Slot<T>>, h: Handle, val: T)
    requires
        s.len() <= usize::MAX,
        spec_take(s, h).0 is Some,
    ensures
        spec_add(spec_take(s, h).1, val).0 matches Some(h2) ==> {
            let refilled = spec_add(spec_take(s, h).1, val).1;
            &&& h2 != h
            &&& spec_get(refilled, h) is None
            &&& spec_take(refilled, h) == (None::<T>, refilled)
        },
{
    let t = spec_take(s, h).1;
    lemma_first_free_bound(t, 0);
}

/// Two values added one after the other go to different slots.
pub proof fn law_handles_distinct<T>(s: Seq<Slot<T>>, v1: T, v2: T)
    requires
        s.len() <= usize::MAX,
    ensures
        spec_add(s, v1).0 matches Some(h1) ==> (spec_add(spec_add(s, v1).1, v2).0 matches Some(h2)
            ==> h1.index != h2.index),
{
    lemma_first_free_bound(s, 0);
    lemma_first_free_bound(spec_add(s, v1).1, 0);
}

proof fn lemma_first_free_bound<T>(s: Seq<Slot<T>>, i: nat)
    ensures
        first_free(s, i) <= s.len(),
        first_free(s, i) >= i || first_free(s, i) == s.len(),
        first_free(s, i) < s.len() ==> s[first_free(s, i) as int].entry is None,
    decreases s.len() - i,
{
    if i < s.len() && s[i as int].entry is Some {
        lemma_first_free_bound(s, i + 1);
    }
}

} // verus!
