//! Interrupt masking and counters
//!
//! The machine status register's MIE bit enables interrupts on a hart.
//! Critical sections clear it and put back what was there before, so
//! sections nest. The counter accumulates with wrap-around, as an atomic
//! fetch-and-add does.

use vstd::prelude::*;

verus! {

/// Machine interrupt enable bit of the machine status register.
pub const MSTATUS_MIE: usize = 8;

/// Whether interrupts are enabled in status `mstatus`.
pub open spec fn mie_set(mstatus: usize) -> bool {
    mstatus & MSTATUS_MIE != 0
}

/// Disables interrupts and returns the previous status, to be handed back
/// to `restore`.
pub fn disable(mstatus: &mut usize) -> (prev: usize)
    ensures
        prev == *old(mstatus),
        *final(mstatus) == *old(mstatus) & !MSTATUS_MIE,
        !mie_set(*final(mstatus)),
{
    let prev = *mstatus;
    *mstatus = prev & !MSTATUS_MIE;
    assert((prev & !8usize) & 8usize == 0) by (bit_vector);
    prev
}

/// Re-enables interrupts if they were enabled in `prev`; otherwise leaves
/// them as they are.
pub fn restore(mstatus: &mut usize, prev: usize)
    ensures
        *final(mstatus) == if mie_set(prev) {
            *old(mstatus) | MSTATUS_MIE
        } else {
            *old(mstatus)
        },
{
    if prev & MSTATUS_MIE != 0 {
        *mstatus = *mstatus | MSTATUS_MIE;
    }
}

/// Whether interrupts are enabled.
pub fn enabled(mstatus: usize) -> (r: bool)
    ensures
        r == mie_set(mstatus),
{
    mstatus & MSTATUS_MIE != 0
}

/// Sets `bits` in an interrupt-enable register value.
pub fn enable_bits(mie: usize, bits: usize) -> (r: usize)
    ensures
        r == mie | bits,
{
    mie | bits
}

/// Disabling then restoring gives back the status the hart had.
pub proof fn law_disable_restore_round_trip(mstatus: usize)
    ensures
        ({
            let off = mstatus & !MSTATUS_MIE;
            (if mie_set(mstatus) { off | MSTATUS_MIE } else { off }) == mstatus
        }),
{
    assert(((mstatus & 8usize) != 0 ==> ((mstatus & !8usize) | 8usize) == mstatus) && ((mstatus & 8usize) == 0 ==> (mstatus & !8usize) == mstatus)) by (bit_vector);
}

/// Evidence that interrupts are disabled: only `with_interrupts_disabled`
/// makes one.
pub struct CriticalSection {
    _private: (),
}

/// Runs `f` with interrupts disabled, handing it a `CriticalSection`, then
/// restores the interrupt state the hart had.
pub fn with_interrupts_disabled<F, R>(mstatus: &mut usize, f: F) -> (r: R)
    where
        F: FnOnce(CriticalSection) -> R,
    requires
        forall|cs: CriticalSection| f.requires((cs,)),
    ensures
        *final(mstatus) == *old(mstatus),
        exists|cs: CriticalSection| f.ensures((cs,), r),
{
    let prev = disable(mstatus);
    let cs = CriticalSection { _private: () };
    let ghost g = cs;
    let r = f(cs);
    restore(mstatus, prev);
    proof {
        law_disable_restore_round_trip(prev);
        assert(f.ensures((g,), r));
    }
    r
}

/// A 64-bit event counter.
pub struct CounterU64 {
    counter: u64,
}

impl View for CounterU64 {
    type V = u64;

    closed spec fn view(&self) -> u64 {
        self.counter
    }
}

impl CounterU64 {
    /// A counter at zero.
    pub fn new() -> (r: Self)
        ensures
            r@ == 0,
    {
        CounterU64 { counter: 0 }
    }

    /// Adds `v`, wrapping, and returns the value before.
    pub fn add(&mut self, v: u64) -> (r: u64)
        ensures
            r == old(self)@,
            final(self)@ == old(self)@.wrapping_add(v),
    {
        let r = self.counter;
        self.counter = self.counter.wrapping_add(v);
        r
    }

    /// The current value.
    pub fn get(&self) -> (r: u64)
        ensures
            r == self@,
    {
        self.counter
    }

    /// Sets the counter back to zero.
    pub fn reset(&mut self)
        ensures
            final(self)@ == 0,
    {
        self.counter = 0;
    }
}

} // verus!
