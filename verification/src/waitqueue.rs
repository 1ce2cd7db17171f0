//! Wait queue
//!
//! Threads interested in some state of the system register on a wait
//! queue and sleep; a wake wakes every registered thread, and each checks
//! its own condition again, going back to sleep if it is still unmet. The
//! queue has one entry per thread slot, holding the registered thread's
//! handle, so an entry left by a thread that has gone does not wake a later
//! thread in the same slot.
//!
//! Waiting is a loop of rounds: register and mark blocked (`begin_wait`);
//! check the condition with the resource locked (`condition_checked`),
//! which ends the wait if it holds; otherwise park, and on waking
//! (`woken`) give up if the thread must exit.

use vstd::prelude::*;
use crate::completion::Interrupted;
use crate::percpu::HARTS_MAX;
use crate::sched::{Scheduler, with_state};
use crate::threads::{State, ThreadHandle, THREADS_MAX};

verus! {

/// A wait queue.
pub struct WaitQueue {
    slots: Vec<Option<ThreadHandle>>,
}

impl View for WaitQueue {
    type V = Seq<Option<ThreadHandle>>;

    closed spec fn view(&self) -> Seq<Option<ThreadHandle>> {
        self.slots@
    }
}

impl WaitQueue {
    /// One entry per thread slot, each holding a handle to that slot.
    pub open spec fn wf(&self) -> bool {
        &&& self@.len() == THREADS_MAX
        &&& forall|i: int| 0 <= i < THREADS_MAX ==> (#[trigger] self@[i] matches Some(h) ==> h.idx == i)
    }

    /// An empty queue.
    pub fn new() -> (r: Self)
        ensures
            r.wf(),
            forall|i: int| 0 <= i < THREADS_MAX ==> #[trigger] r@[i] is None,
    {
        let mut slots: Vec<Option<ThreadHandle>> = Vec::new();
        let mut i: usize = 0;
        while i < THREADS_MAX
            invariant
                i <= THREADS_MAX,
                slots@.len() == i,
                forall|j: int| 0 <= j < i ==> #[trigger] slots@[j] is None,
            decreases THREADS_MAX - i,
        {
            slots.push(None);
            i = i + 1;
        }
        WaitQueue { slots }
    }

    /// Registers `handle` (again, if already registered).
    pub fn register(&mut self, handle: ThreadHandle)
        requires
            old(self).wf(),
            handle.idx < THREADS_MAX,
        ensures
            final(self).wf(),
            final(self)@ == old(self)@.update(handle.idx as int, Some(handle)),
    {
        self.slots.set(handle.idx, Some(handle));
    }

    /// Removes the registration of the slot of `handle`.
    pub fn deregister(&mut self, handle: ThreadHandle)
        requires
            old(self).wf(),
            handle.idx < THREADS_MAX,
        ensures
            final(self).wf(),
            final(self)@ == old(self)@.update(handle.idx as int, None),
    {
        self.slots.set(handle.idx, None);
    }

    /// Takes every registration, leaving the queue empty.
    pub fn drain(&mut self) -> (r: Vec<Option<ThreadHandle>>)
        requires
            old(self).wf(),
        ensures
            final(self).wf(),
            r@ == old(self)@,
            forall|i: int| 0 <= i < THREADS_MAX ==> #[trigger] final(self)@[i] is None,
    {
        let mut fresh = WaitQueue::new();
        core::mem::swap(self, &mut fresh);
        fresh.slots
    }

    /// Starts a round of waiting by the thread `hart` runs: it registers
    /// and is marked blocked. Returns its handle.
    pub fn begin_wait(&mut self, s: &mut Scheduler, hart: usize) -> (h: ThreadHandle)
        requires
            old(self).wf(),
            old(s).wf(),
            hart < HARTS_MAX,
            old(s).has_current(hart),
        ensures
            final(self).wf(),
            final(s).wf(),
            h == (ThreadHandle { idx: old(s).curr(hart), id: old(s).threads@[old(s).curr(hart) as int]->0.id }),
            final(self)@ == old(self)@.update(h.idx as int, Some(h)),
            final(s).threads@ == old(s).threads@.update(h.idx as int, Some(with_state(old(s).threads@[h.idx as int]->0, State::Blocked))),
            final(s).procs@ == old(s).procs@,
            final(s).cpus@ == old(s).cpus@,
    {
        let h = s.current_thread(hart);
        self.register(h);
        s.set_self_blocked(hart);
        h
    }

    /// After checking the condition with the resource locked: if it holds
    /// (`met`), the thread deregisters and runs on, and the wait is over;
    /// otherwise the caller parks the thread.
    pub fn condition_checked(&mut self, s: &mut Scheduler, hart: usize, h: ThreadHandle, met: bool) -> (done: bool)
        requires
            old(self).wf(),
            old(s).wf(),
            hart < HARTS_MAX,
            h.idx < THREADS_MAX,
            old(s).has_current(hart),
        ensures
            final(self).wf(),
            final(s).wf(),
            done == met,
            if met {
                &&& final(self)@ == old(self)@.update(h.idx as int, None)
                &&& final(s).threads@ == old(s).threads@.update(old(s).curr(hart) as int, Some(with_state(old(s).threads@[old(s).curr(hart) as int]->0, State::Running)))
            } else {
                final(self)@ == old(self)@ && final(s).threads@ == old(s).threads@
            },
            final(s).procs@ == old(s).procs@,
            final(s).cpus@ == old(s).cpus@,
    {
        if met {
            self.deregister(h);
            s.set_self_running(hart);
            true
        } else {
            false
        }
    }

    /// After a parked waiter wakes: if the thread must exit, it
    /// deregisters and the wait ends with `Interrupted`; otherwise it waits
    /// another round.
    pub fn woken(&mut self, h: ThreadHandle, needs_exit: bool) -> (r: Result<(), Interrupted>)
        requires
            old(self).wf(),
            h.idx < THREADS_MAX,
        ensures
            final(self).wf(),
            r is Err <==> needs_exit,
            final(self)@ == if needs_exit { old(self)@.update(h.idx as int, None) } else { old(self)@ },
    {
        if needs_exit {
            self.deregister(h);
            Err(Interrupted)
        } else {
            Ok(())
        }
    }

    /// Wakes every registered thread that still lives and is blocked, from
    /// `hart`, and empties the queue. Returns whether the other hart must
    /// be interrupted.
    pub fn wake_all(&mut self, s: &mut Scheduler, hart: usize) -> (kick: bool)
        requires
            old(self).wf(),
            old(s).wf(),
            hart < HARTS_MAX,
        ensures
            final(self).wf(),
            final(s).wf(),
            forall|i: int| 0 <= i < THREADS_MAX ==> #[trigger] final(self)@[i] is None,
            forall|i: int| 0 <= i < THREADS_MAX ==> #[trigger] final(s).threads@[i] == woken_slot(old(s).threads@[i], old(self)@[i]),
            final(s).procs@ == old(s).procs@,
    {
        let queue = self.drain();
        let ghost t0 = s.threads@;
        let mut kick = false;
        let mut i: usize = 0;
        while i < THREADS_MAX
            invariant
                s.wf(),
                hart < HARTS_MAX,
                i <= THREADS_MAX,
                queue@.len() == THREADS_MAX,
                forall|j: int| 0 <= j < THREADS_MAX ==> (#[trigger] queue@[j] matches Some(h) ==> h.idx == j),
                t0 == old(s).threads@,
                forall|j: int| 0 <= j < THREADS_MAX ==> #[trigger] s.threads@[j] == if j < i { woken_slot(t0[j], queue@[j]) } else { t0[j] },
                s.procs@ == old(s).procs@,
            decreases THREADS_MAX - i,
        {
            match queue[i] {
                Some(h) => {
                    if s.unpark(hart, &h) {
                        kick = true;
                    }
                },
                None => {},
            }
            i = i + 1;
        }
        kick
    }
}

/// What waking a queue entry `q` does to the thread slot it names: the
/// thread, if it is the registered one and blocked, becomes ready.
pub open spec fn woken_slot(slot: Option<crate::threads::ThreadControlBlock>, q: Option<ThreadHandle>) -> Option<crate::threads::ThreadControlBlock> {
    match (slot, q) {
        (Some(t), Some(h)) => if t.id == h.id && (t.state == State::Blocked || t.state is BlockedUntil) {
            Some(with_state(t, State::Ready))
        } else {
            slot
        },
        _ => slot,
    }
}

} // verus!
