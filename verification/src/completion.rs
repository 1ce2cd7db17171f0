//! Completion: a one-shot signal one thread can wait on
//!
//! A signal that comes before any wait is kept and consumed by the next
//! wait. A waiting thread registers itself and blocks; the signal wakes it
//! through its handle, so a waiter that has since gone is not woken by
//! mistake. Waiting is a loop of rounds: a round either finds the signal
//! or registers the thread and blocks it, after which the caller parks and,
//! once woken, clears the registration and runs another round.

use vstd::prelude::*;
use crate::deadline::Deadline;
use crate::percpu::HARTS_MAX;
use crate::sched::{Scheduler, bound_elsewhere, condemned, with_state};
use crate::threads::{State, ThreadHandle, THREADS_MAX};

verus! {

/// A wait with a deadline that passed before the signal came.
#[derive(Clone, Copy, Debug, PartialEq, Eq)]
pub struct TimedOut;

/// A wait broken off because the waiting user thread must exit.
#[derive(Clone, Copy, Debug, PartialEq, Eq)]
pub struct Interrupted;

/// The outcome of one round of waiting.
#[derive(Clone, Copy, Debug, PartialEq, Eq)]
pub enum Wait {
    /// The signal had come; the wait is over.
    Done,
    /// The thread is registered and blocked; park it, then call `woken`
    /// and wait again.
    Park,
}

/// A one-shot signal.
pub struct Completion {
    pending: bool,
    waiter: Option<ThreadHandle>,
}

impl Completion {
    /// Whether a signal is waiting to be consumed.
    pub closed spec fn is_pending(&self) -> bool {
        self.pending
    }

    /// The thread registered as waiting, if any.
    pub closed spec fn spec_waiter(&self) -> Option<ThreadHandle> {
        self.waiter
    }

    /// No signal, no waiter.
    pub fn new() -> (r: Self)
        ensures
            !r.is_pending(),
            r.spec_waiter() is None,
    {
        Completion { pending: false, waiter: None }
    }

    /// Signals: the signal is kept, and the registered waiter, if any, is
    /// unregistered and woken by handle from `hart`. Returns whether the
    /// other hart must be interrupted.
    pub fn signal(&mut self, s: &mut Scheduler, hart: usize) -> (kick: bool)
        requires
            old(s).wf(),
            hart < HARTS_MAX,
            old(self).spec_waiter() matches Some(h) ==> h.idx < THREADS_MAX,
        ensures
            final(self).is_pending(),
            final(self).spec_waiter() is None,
            final(s).wf(),
            match old(self).spec_waiter() {
                Some(h) => match old(s).threads@[h.idx as int] {
                    Some(t) => if t.id == h.id && (t.state == State::Blocked || t.state is BlockedUntil) {
                        final(s).threads@ == old(s).threads@.update(h.idx as int, Some(with_state(t, State::Ready)))
                            && kick == bound_elsewhere(t.affinity, hart)
                    } else {
                        !kick && final(s).threads@ == old(s).threads@
                    },
                    None => !kick && final(s).threads@ == old(s).threads@,
                },
                None => !kick && final(s).threads@ == old(s).threads@ && final(s).cpus@ == old(s).cpus@,
            },
            final(s).procs@ == old(s).procs@,
    {
        self.pending = true;
        let handle = self.waiter.take();
        match handle {
            Some(h) => s.unpark(hart, &h),
            None => false,
        }
    }

    /// One round of waiting by the thread `hart` runs: if the signal has
    /// come it is consumed and the wait is over; otherwise the thread is
    /// registered and marked blocked, to be parked by the caller. A user
    /// thread condemned to exit must wait interruptibly instead.
    pub fn wait(&mut self, s: &mut Scheduler, hart: usize) -> (r: Wait)
        requires
            old(s).wf(),
            hart < HARTS_MAX,
            old(s).has_current(hart),
            !condemned(&*old(s), hart),
        ensures
            final(s).wf(),
            if old(self).is_pending() {
                &&& r == Wait::Done
                &&& !final(self).is_pending()
                &&& final(self).spec_waiter() == old(self).spec_waiter()
                &&& final(s).threads@ == old(s).threads@
            } else {
                let c = old(s).curr(hart);
                &&& r == Wait::Park
                &&& !final(self).is_pending()
                &&& final(self).spec_waiter() == Some(ThreadHandle { idx: c, id: old(s).threads@[c as int]->0.id })
                &&& final(s).threads@ == old(s).threads@.update(c as int, Some(with_state(old(s).threads@[c as int]->0, State::Blocked)))
            },
            final(s).procs@ == old(s).procs@,
            final(s).cpus@ == old(s).cpus@,
    {
        if self.pending {
            self.pending = false;
            Wait::Done
        } else {
            self.waiter = Some(s.current_thread(hart));
            s.set_self_blocked(hart);
            Wait::Park
        }
    }

    /// After a parked waiter wakes (perhaps spuriously): unregisters it.
    pub fn woken(&mut self)
        ensures
            final(self).spec_waiter() is None,
            final(self).is_pending() == old(self).is_pending(),
    {
        self.waiter = None;
    }

    /// One round of waiting with a deadline, at time `now`: a signal that
    /// has come is consumed and the wait is over; a deadline that has
    /// passed (leeway ignored) ends it with `TimedOut`; otherwise the
    /// thread is registered and marked blocked until the deadline, to be
    /// parked by the caller.
    pub fn wait_with_deadline(&mut self, s: &mut Scheduler, hart: usize, now: u64, deadline: Deadline) -> (r: Result<Wait, TimedOut>)
        requires
            old(s).wf(),
            hart < HARTS_MAX,
            old(s).has_current(hart),
        ensures
            final(s).wf(),
            if old(self).is_pending() {
                &&& r == Ok::<Wait, TimedOut>(Wait::Done)
                &&& !final(self).is_pending()
                &&& final(self).spec_waiter() is None
                &&& final(s).threads@ == old(s).threads@
            } else if deadline.at < now {
                &&& r == Err::<Wait, TimedOut>(TimedOut)
                &&& final(self).is_pending() == old(self).is_pending()
                &&& final(self).spec_waiter() == old(self).spec_waiter()
                &&& final(s).threads@ == old(s).threads@
            } else {
                let c = old(s).curr(hart);
                &&& r == Ok::<Wait, TimedOut>(Wait::Park)
                &&& !final(self).is_pending()
                &&& final(self).spec_waiter() == Some(ThreadHandle { idx: c, id: old(s).threads@[c as int]->0.id })
                &&& final(s).threads@ == old(s).threads@.update(c as int, Some(with_state(old(s).threads@[c as int]->0, State::BlockedUntil(deadline))))
            },
            final(s).procs@ == old(s).procs@,
            final(s).cpus@ == old(s).cpus@,
    {
        if self.pending {
            self.pending = false;
            self.waiter = None;
            Ok(Wait::Done)
        } else if deadline.has_passed(now) {
            Err(TimedOut)
        } else {
            self.waiter = Some(s.current_thread(hart));
            s.set_self_blocked_until(hart, deadline);
            Ok(Wait::Park)
        }
    }

    /// One round of an interruptible wait: as `wait`.
    pub fn wait_interruptible(&mut self, s: &mut Scheduler, hart: usize) -> (r: Wait)
        requires
            old(s).wf(),
            hart < HARTS_MAX,
            old(s).has_current(hart),
        ensures
            final(s).wf(),
            if old(self).is_pending() {
                &&& r == Wait::Done
                &&& !final(self).is_pending()
                &&& final(s).threads@ == old(s).threads@
            } else {
                let c = old(s).curr(hart);
                &&& r == Wait::Park
                &&& final(self).spec_waiter() == Some(ThreadHandle { idx: c, id: old(s).threads@[c as int]->0.id })
                &&& final(s).threads@ == old(s).threads@.update(c as int, Some(with_state(old(s).threads@[c as int]->0, State::Blocked)))
            },
            final(s).procs@ == old(s).procs@,
    {
        if self.pending {
            self.pending = false;
            Wait::Done
        } else {
            self.waiter = Some(s.current_thread(hart));
            s.set_self_blocked(hart);
            Wait::Park
        }
    }

    /// After a parked interruptible waiter wakes: unregisters it, and breaks
    /// the wait off with `Interrupted` if the thread must exit.
    pub fn woken_interruptible(&mut self, needs_exit: bool) -> (r: Result<(), Interrupted>)
        ensures
            final(self).spec_waiter() is None,
            final(self).is_pending() == old(self).is_pending(),
            r is Err <==> needs_exit,
    {
        self.waiter = None;
        if needs_exit {
            Err(Interrupted)
        } else {
            Ok(())
        }
    }

    /// Forgets any kept signal. No thread may be waiting.
    pub fn reset(&mut self)
        requires
            old(self).spec_waiter() is None,
        ensures
            !final(self).is_pending(),
            final(self).spec_waiter() is None,
    {
        self.pending = false;
    }
}

/// A completion holds one signal, not a count. Whatever state `c` was in,
/// a second signal with no wait between leaves the completion exactly as
/// the first did (`once` and `twice` are as `signal` leaves `c` and then
/// `once`); a wait on it is then `Done` and leaves nothing pending
/// (`taken`, as `wait` leaves `twice`), so the wait after that parks.
pub proof fn law_signal_is_one_shot(c: Completion, once: Completion, twice: Completion, taken: Completion)
    requires
        once.is_pending() && once.spec_waiter() is None,
        twice.is_pending() && twice.spec_waiter() is None,
        !taken.is_pending() && taken.spec_waiter() == twice.spec_waiter(),
    ensures
        twice == once,
        !taken.is_pending(),
        taken.spec_waiter() is None,
{
}

} // verus!
