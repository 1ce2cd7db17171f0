//! Inter-processor interrupts
//!
//! A hart asks the other hart for work by setting a flag in the other
//! hart's mailbox and raising its software interrupt line. The receiver
//! drains its mailbox to learn why it was interrupted.

use vstd::prelude::*;
use crate::percpu::{HARTS_MAX, PerCpus, other, other_online, that_hart_id};

verus! {

/// Number of distinct reasons a mailbox can hold.
pub const MAILBOX_SIZE: usize = 2;

/// Mailbox reason: run the scheduler.
pub const RESCHEDULE: usize = 0;

/// Mailbox reason: fence the instruction stream (code has been loaded).
pub const FENCEI: usize = 1;

/// Bit of the interrupt-enable register for machine software interrupts.
pub const MSIE: usize = 8;

/// Mailboxes and software interrupt lines of all harts.
pub struct Ipi {
    flags: Vec<bool>,
    msip: Vec<bool>,
}

impl Ipi {
    /// Flag `reason` of the mailbox of `hart`.
    pub closed spec fn flag(&self, hart: int, reason: int) -> bool {
        self.flags@[hart * MAILBOX_SIZE + reason]
    }

    /// Whether the software interrupt line of `hart` is raised.
    pub closed spec fn pending(&self, hart: int) -> bool {
        self.msip@[hart]
    }

    pub closed spec fn wf(&self) -> bool {
        &&& self.flags@.len() == HARTS_MAX * MAILBOX_SIZE
        &&& self.msip@.len() == HARTS_MAX
    }

    /// Empty mailboxes and lowered lines.
    pub fn new() -> (r: Self)
        ensures
            r.wf(),
            forall|h: int, k: int|
                0 <= h < HARTS_MAX && 0 <= k < MAILBOX_SIZE ==> !#[trigger] r.flag(h, k),
            forall|h: int| 0 <= h < HARTS_MAX ==> !#[trigger] r.pending(h),
    {
        let mut flags: Vec<bool> = Vec::new();
        let mut i: usize = 0;
        while i < HARTS_MAX * MAILBOX_SIZE
            invariant
                i <= HARTS_MAX * MAILBOX_SIZE,
                flags@.len() == i,
                forall|j: int| 0 <= j < i ==> !#[trigger] flags@[j],
            decreases HARTS_MAX * MAILBOX_SIZE - i,
        {
            flags.push(false);
            i = i + 1;
        }
        let mut msip: Vec<bool> = Vec::new();
        msip.push(false);
        msip.push(false);
        let r = Ipi { flags, msip };
        assert forall|h: int, k: int| 0 <= h < HARTS_MAX && 0 <= k < MAILBOX_SIZE implies !#[trigger] r.flag(h, k) by {
            assert(0 <= h * MAILBOX_SIZE + k < HARTS_MAX * MAILBOX_SIZE);
        }
        r
    }
}

/// The interrupt-enable register value with machine software interrupts
/// enabled.
pub fn init(mie: usize) -> (r: usize)
    ensures
        r == mie | MSIE,
{
    mie | MSIE
}

/// Sends the other hart an interrupt for `reason`: if that hart is online,
/// sets the flag in its mailbox and raises its line; an offline hart is
/// left alone, as no thread runs there.
pub fn send(ipi: &mut Ipi, cpus: &PerCpus, hart: usize, reason: usize)
    requires
        old(ipi).wf(),
        cpus.wf(),
        hart < HARTS_MAX,
        reason < MAILBOX_SIZE,
    ensures
        final(ipi).wf(),
        forall|h: int, k: int|
            0 <= h < HARTS_MAX && 0 <= k < MAILBOX_SIZE ==> #[trigger] final(ipi).flag(h, k) == (
            old(ipi).flag(h, k) || (cpus@[other(hart) as int].online && h == other(hart) && k
                == reason)),
        forall|h: int|
            0 <= h < HARTS_MAX ==> #[trigger] final(ipi).pending(h) == (old(ipi).pending(h) || (
            cpus@[other(hart) as int].online && h == other(hart))),
{
    let that = that_hart_id(hart);
    if other_online(cpus, hart) {
        let ghost old_ipi = *ipi;
        ipi.flags.set(that * MAILBOX_SIZE + reason, true);
        ipi.msip.set(that, true);
        assert forall|h: int, k: int| 0 <= h < HARTS_MAX && 0 <= k < MAILBOX_SIZE implies #[trigger] ipi.flag(h, k) == (
        old_ipi.flag(h, k) || (h == that && k == reason)) by {
            if h != that || k != reason {
                assert(h * MAILBOX_SIZE + k != that * MAILBOX_SIZE + reason);
            }
        }
    }
}

/// Lowers this hart's software interrupt line.
pub fn clear_self(ipi: &mut Ipi, hart: usize)
    requires
        old(ipi).wf(),
        hart < HARTS_MAX,
    ensures
        final(ipi).wf(),
        forall|h: int, k: int| #[trigger] final(ipi).flag(h, k) == old(ipi).flag(h, k),
        forall|h: int|
            0 <= h < HARTS_MAX ==> #[trigger] final(ipi).pending(h) == (old(ipi).pending(h) && h
                != hart),
{
    ipi.msip.set(hart, false);
}

/// Takes this hart's mailbox: returns its flags, one per reason, and clears
/// them.
pub fn drain(ipi: &mut Ipi, hart: usize) -> (r: Vec<bool>)
    requires
        old(ipi).wf(),
        hart < HARTS_MAX,
    ensures
        final(ipi).wf(),
        r@.len() == MAILBOX_SIZE,
        forall|k: int| 0 <= k < MAILBOX_SIZE ==> #[trigger] r@[k] == old(ipi).flag(hart as int, k),
        forall|h: int, k: int|
            0 <= h < HARTS_MAX && 0 <= k < MAILBOX_SIZE ==> #[trigger] final(ipi).flag(h, k) == (
            old(ipi).flag(h, k) && h != hart),
        forall|h: int| #[trigger] final(ipi).pending(h) == old(ipi).pending(h),
{
    let mut r: Vec<bool> = Vec::new();
    let mut k: usize = 0;
    while k < MAILBOX_SIZE
        invariant
            ipi.wf(),
            hart < HARTS_MAX,
            k <= MAILBOX_SIZE,
            r@.len() == k,
            ipi.msip@ == old(ipi).msip@,
            forall|j: int| 0 <= j < k ==> #[trigger] r@[j] == old(ipi).flag(hart as int, j),
            forall|h: int, j: int|
                0 <= h < HARTS_MAX && 0 <= j < MAILBOX_SIZE ==> #[trigger] ipi.flag(h, j) == (
                old(ipi).flag(h, j) && !(h == hart && j < k)),
        decreases MAILBOX_SIZE - k,
    {
        let at = hart * MAILBOX_SIZE + k;
        let ghost before = *ipi;
        assert(ipi.flag(hart as int, k as int) == old(ipi).flag(hart as int, k as int));
        r.push(ipi.flags[at]);
        ipi.flags.set(at, false);
        assert forall|h: int, j: int| 0 <= h < HARTS_MAX && 0 <= j < MAILBOX_SIZE implies #[trigger] ipi.flag(h, j) == (
        old(ipi).flag(h, j) && !(h == hart && j < k + 1)) by {
            if h != hart || j != k {
                assert(h * MAILBOX_SIZE + j != at);
                assert(ipi.flag(h, j) == before.flag(h, j));
            }
        }
        k = k + 1;
    }
    r
}

/// A reason sent to an online hart is in what that hart drains next.
pub proof fn law_sent_reason_is_drained(a: Ipi, b: Ipi, cpus: PerCpus, hart: usize, reason: usize)
    requires
        a.wf(),
        b.wf(),
        cpus.wf(),
        hart < HARTS_MAX,
        reason < MAILBOX_SIZE,
        cpus@[other(hart) as int].online,
        forall|h: int, k: int|
            0 <= h < HARTS_MAX && 0 <= k < MAILBOX_SIZE ==> #[trigger] b.flag(h, k) == (a.flag(h, k)
                || (cpus@[other(hart) as int].online && h == other(hart) && k == reason)),
    ensures
        b.flag(other(hart) as int, reason as int),
{
    assert(b.flag(other(hart) as int, reason as int));
}

} // verus!
