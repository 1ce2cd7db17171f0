//! Deadline with leeway
//!
//! A deadline is an absolute time in timer cycles. Its leeway is how many
//! cycles after the deadline a wake-up is still acceptable. The leeway is
//! either given by the caller or worked out by the system from the time left
//! until the deadline and the thread's quality of service.

use vstd::prelude::*;

verus! {

/// Frequency of the machine timer (`mtime`).
pub const TIMER_FREQ_HZ: u64 = 10_000_000;

/// Timer cycles per millisecond.
pub const CYCLES_PER_MS: u64 = TIMER_FREQ_HZ / 1_000;

/// Timer cycles per microsecond.
pub const CYCLES_PER_US: u64 = TIMER_FREQ_HZ / 1_000_000;

/// Leeway cap for high quality of service threads: 100 µs.
pub const LEEWAY_DEFAULT_CYCLES: u64 = 100 * CYCLES_PER_US;

/// Leeway cap for low quality of service threads: one second.
pub const LEEWAY_MAX_CYCLES: u64 = 1_000_000 * CYCLES_PER_US;

/// Quality of service of a thread: high quality threads want tight wake-ups,
/// low quality threads tolerate slack.
#[derive(Clone, Copy, Debug, PartialEq, Eq, Structural)]
pub enum Qos {
    High,
    Low,
}

/// `a * b`, or `u64::MAX` if the product does not fit.
pub open spec fn spec_saturating_mul(a: u64, b: u64) -> u64 {
    if a * b > u64::MAX {
        u64::MAX
    } else {
        (a * b) as u64
    }
}

/// Multiplies, saturating at `u64::MAX`.
pub fn saturating_mul(a: u64, b: u64) -> (r: u64)
    ensures
        r == spec_saturating_mul(a, b),
{
    match a.checked_mul(b) {
        Some(p) => p,
        None => u64::MAX,
    }
}

/// The smaller of two values.
pub open spec fn spec_min(a: u64, b: u64) -> u64 {
    if a <= b {
        a
    } else {
        b
    }
}

/// System leeway for a deadline at `at` seen at time `now`: a small share
/// of the time left, capped by the quality of service.
pub open spec fn spec_system_leeway(at: u64, qos: Qos, now: u64) -> u64 {
    let remaining = at.saturating_sub(now);
    match qos {
        Qos::High => spec_min(remaining / 65536, LEEWAY_DEFAULT_CYCLES),
        Qos::Low => spec_min(remaining / 8, LEEWAY_MAX_CYCLES),
    }
}

/// Absolute deadline with leeway, both in timer cycles.
#[derive(Clone, Copy, Debug, PartialEq, Eq, Structural)]
pub struct Deadline {
    pub at: u64,
    pub leeway: u64,
}

impl Deadline {
    /// The latest acceptable wake-up: the deadline plus its leeway,
    /// saturating.
    pub open spec fn spec_latest(self) -> u64 {
        self.at.saturating_add(self.leeway)
    }

    /// Whether `cycles` lies in the window from the deadline to the latest
    /// acceptable wake-up.
    pub open spec fn spec_contains(self, cycles: u64) -> bool {
        self.at <= cycles <= self.spec_latest()
    }

    /// A deadline at `deadline_ms` milliseconds with `leeway_ms`
    /// milliseconds of leeway, both saturating when converted to cycles.
    pub fn from_ms(deadline_ms: u64, leeway_ms: u64) -> (r: Self)
        ensures
            r.at == spec_saturating_mul(deadline_ms, CYCLES_PER_MS),
            r.leeway == spec_saturating_mul(leeway_ms, CYCLES_PER_MS),
    {
        Deadline {
            at: saturating_mul(deadline_ms, CYCLES_PER_MS),
            leeway: saturating_mul(leeway_ms, CYCLES_PER_MS),
        }
    }

    /// A deadline at `deadline_ms` milliseconds with the system leeway for
    /// a thread of quality `qos`, seen at time `now` (cycles).
    pub fn from_ms_with_system_leeway(deadline_ms: u64, qos: Qos, now: u64) -> (r: Self)
        ensures
            r.at == spec_saturating_mul(deadline_ms, CYCLES_PER_MS),
            r.leeway == spec_system_leeway(r.at, qos, now),
    {
        let at = saturating_mul(deadline_ms, CYCLES_PER_MS);
        Deadline { at, leeway: Self::system_leeway_cycles(at, qos, now) }
    }

    /// A deadline `duration_ms` milliseconds after time `now` (cycles, read
    /// in whole milliseconds) with `leeway_ms` milliseconds of leeway.
    pub fn after_ms(duration_ms: u64, leeway_ms: u64, now: u64) -> (r: Self)
        ensures
            r.at == spec_saturating_mul(
                duration_ms.saturating_add(now / CYCLES_PER_MS),
                CYCLES_PER_MS,
            ),
            r.leeway == spec_saturating_mul(leeway_ms, CYCLES_PER_MS),
    {
        Deadline {
            at: saturating_mul(duration_ms.saturating_add(now / CYCLES_PER_MS), CYCLES_PER_MS),
            leeway: saturating_mul(leeway_ms, CYCLES_PER_MS),
        }
    }

    /// A deadline `duration_ms` milliseconds after time `now` (cycles) with
    /// the system leeway for a thread of quality `qos`.
    pub fn after_ms_with_system_leeway(duration_ms: u64, qos: Qos, now: u64) -> (r: Self)
        ensures
            r.at == spec_saturating_mul(
                duration_ms.saturating_add(now / CYCLES_PER_MS),
                CYCLES_PER_MS,
            ),
            r.leeway == spec_system_leeway(r.at, qos, now),
    {
        let at = saturating_mul(duration_ms.saturating_add(now / CYCLES_PER_MS), CYCLES_PER_MS);
        Deadline { at, leeway: Self::system_leeway_cycles(at, qos, now) }
    }

    /// Moves the deadline to `coalesce_cycles`, shrinking the leeway so the
    /// latest acceptable wake-up stays where it was. The point must lie in
    /// the deadline's window.
    pub fn coalesce_to(&mut self, coalesce_cycles: u64)
        requires
            old(self).spec_contains(coalesce_cycles),
        ensures
            final(self).at == coalesce_cycles,
            final(self).leeway == old(self).spec_latest() - coalesce_cycles,
            final(self).spec_latest() == old(self).spec_latest(),
    {
        let leeway = self.latest() - coalesce_cycles;
        self.at = coalesce_cycles;
        self.leeway = leeway;
    }

    /// The deadline in cycles, leeway ignored.
    pub fn at(&self) -> (r: u64)
        ensures
            r == self.at,
    {
        self.at
    }

    /// The leeway in cycles.
    pub fn leeway(&self) -> (r: u64)
        ensures
            r == self.leeway,
    {
        self.leeway
    }

    /// The deadline plus the full leeway, saturating.
    pub fn latest(&self) -> (r: u64)
        ensures
            r == self.spec_latest(),
    {
        self.at.saturating_add(self.leeway)
    }

    /// Whether the deadline lies before time `now`, leeway ignored.
    pub fn has_passed(&self, now: u64) -> (b: bool)
        ensures
            b == (self.at < now),
    {
        self.at < now
    }

    /// Whether `absolute_cycles` lies between the deadline and its latest
    /// acceptable wake-up, both ends included.
    pub fn contains(&self, absolute_cycles: u64) -> (b: bool)
        ensures
            b == self.spec_contains(absolute_cycles),
    {
        self.at <= absolute_cycles && absolute_cycles <= self.latest()
    }

    /// The system leeway for a deadline at `at` seen at time `now`: for
    /// high quality of service 1/65536 of the time left, at most 100 µs;
    /// for low quality of service 1/8 of it, at most one second.
    pub fn system_leeway_cycles(at: u64, qos: Qos, now: u64) -> (r: u64)
        ensures
            r == spec_system_leeway(at, qos, now),
    {
        let remaining = at.saturating_sub(now);
        match qos {
            Qos::High => {
                let share = remaining >> 16u64;
                assert(share == remaining / 65536) by (bit_vector)
                    requires
                        share == remaining >> 16u64,
                ;
                if share < LEEWAY_DEFAULT_CYCLES {
                    share
                } else {
                    LEEWAY_DEFAULT_CYCLES
                }
            },
            Qos::Low => {
                let share = remaining >> 3u64;
                assert(share == remaining / 8) by (bit_vector)
                    requires
                        share == remaining >> 3u64,
                ;
                if share < LEEWAY_MAX_CYCLES {
                    share
                } else {
                    LEEWAY_MAX_CYCLES
                }
            },
        }
    }
}

/// Coalescing a deadline to a point in its window keeps the latest
/// acceptable wake-up and puts the point inside the new window.
pub proof fn law_coalesce_keeps_latest(d: Deadline, c: u64)
    requires
        d.spec_contains(c),
    ensures
        ({
            let e = Deadline { at: c, leeway: (d.spec_latest() - c) as u64 };
            e.spec_latest() == d.spec_latest() && e.spec_contains(c)
        }),
{
}

/// The system leeway never reaches past the deadline window it was made
/// for: it is at most the time left and at most the quality-of-service cap.
pub proof fn law_system_leeway_bounded(at: u64, qos: Qos, now: u64)
    ensures
        spec_system_leeway(at, qos, now) <= at.saturating_sub(now),
        spec_system_leeway(at, qos, now) <= LEEWAY_MAX_CYCLES,
{
}

} // verus!
