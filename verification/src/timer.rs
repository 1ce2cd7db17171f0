//! Timer
//!
//! Each hart has a timer compare register: the timer interrupt fires once
//! the machine timer reaches it. Times are counted in timer cycles since
//! boot; the conversions here turn them into milliseconds and
//! microseconds.

use vstd::prelude::*;
use crate::deadline::{CYCLES_PER_MS, CYCLES_PER_US, saturating_mul, spec_saturating_mul};

verus! {

/// Bit of the interrupt-enable register for machine timer interrupts.
pub const MTIE: usize = 128;

/// A hart's timer compare register.
#[derive(Clone, Copy, Debug, PartialEq, Eq)]
pub struct TimerCompare {
    pub mtimecmp: u64,
}

/// Evidence that the timer of a hart has been set up.
pub struct TimerInitToken {
    _private: (),
}

/// Sets up a hart's timer: no interrupt until a deadline is set, and
/// machine timer interrupts enabled in `mie`.
pub fn init(cmp: &mut TimerCompare, mie: &mut usize) -> (t: TimerInitToken)
    ensures
        final(cmp).mtimecmp == u64::MAX,
        *final(mie) == *old(mie) | MTIE,
{
    cmp.mtimecmp = u64::MAX;
    *mie = *mie | MTIE;
    TimerInitToken { _private: () }
}

/// Sets the next timer interrupt at `deadline` cycles.
pub fn set_next_deadline(cmp: &mut TimerCompare, deadline: u64)
    ensures
        final(cmp).mtimecmp == deadline,
{
    cmp.mtimecmp = deadline;
}

/// Sets the next timer interrupt at `deadline_ms` milliseconds, saturating
/// when converted to cycles.
pub fn set_next_deadline_ms(cmp: &mut TimerCompare, deadline_ms: u64)
    ensures
        final(cmp).mtimecmp == spec_saturating_mul(deadline_ms, CYCLES_PER_MS),
{
    let deadline = saturating_mul(deadline_ms, CYCLES_PER_MS);
    set_next_deadline(cmp, deadline);
}

/// Time since boot in whole milliseconds, from the timer reading `mtime`.
pub fn elapsed_ms(mtime: u64) -> (r: u64)
    ensures
        r == mtime / CYCLES_PER_MS,
{
    mtime / CYCLES_PER_MS
}

/// Time since boot in whole microseconds, from the timer reading `mtime`.
pub fn elapsed_us(mtime: u64) -> (r: u64)
    ensures
        r == mtime / CYCLES_PER_US,
{
    mtime / CYCLES_PER_US
}

/// Whether the timer interrupt is due at reading `mtime`.
pub fn is_due(cmp: &TimerCompare, mtime: u64) -> (r: bool)
    ensures
        r == (mtime >= cmp.mtimecmp),
{
    mtime >= cmp.mtimecmp
}

/// A deadline set in milliseconds fires no earlier than that many
/// milliseconds, read back from the timer.
pub proof fn law_deadline_ms_not_early(deadline_ms: u64, mtime: u64)
    requires
        mtime >= spec_saturating_mul(deadline_ms, CYCLES_PER_MS),
    ensures
        mtime / CYCLES_PER_MS >= deadline_ms || spec_saturating_mul(deadline_ms, CYCLES_PER_MS) == u64::MAX,
{
    if deadline_ms as int * CYCLES_PER_MS as int <= u64::MAX {
        assert(spec_saturating_mul(deadline_ms, CYCLES_PER_MS) == deadline_ms * CYCLES_PER_MS);
        assert(mtime / CYCLES_PER_MS >= deadline_ms) by (nonlinear_arith)
            requires
                mtime >= deadline_ms * 10000,
                CYCLES_PER_MS == 10000u64,
        ;
    }
}

} // verus!
