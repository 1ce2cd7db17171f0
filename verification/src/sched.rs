//! The stride scheduler
//!
//! The scheduler state is the thread table, the process table, a wake-up
//! flag and a run-cycle counter per thread slot, and the per-hart records.
//! Each operation runs on one hart, takes the current timer reading, and
//! returns what the hart must then do: raise a software interrupt on the
//! other hart, program the timer, switch stacks, load a protection map.

use vstd::prelude::*;
use crate::deadline::{
    CYCLES_PER_MS, CYCLES_PER_US, Deadline, Qos, saturating_mul, spec_saturating_mul, spec_system_leeway,
};
use crate::percpu::{
    HARTS_MAX, PerCpu, PerCpus, current_thread_idx, idle_thread_idx, other, other_current_thread_idx,
    other_online, set_current_kernel_stack_base, that_hart_id, set_current_thread_idx, set_idle_thread_idx,
    set_needs_reschedule, set_switching_from_thread_idx, take_needs_reschedule,
    take_switching_from_thread_idx,
};
use crate::process::{ControlBlock, Handle, LoadError, LoadedImage, MAX, Procs, SpawnError};
use crate::region::{MemRegion, Order, Pool};
use crate::threads::{
    ExitReason, PRIORITY_MIN, PostSwitch, State, ThreadControlBlock, ThreadControlBlockSpec,
    ThreadHandle, Threads, THREADS_MAX, any_ready, coalesced_state, first_empty, min_wake,
    same_but_state, spec_pass_baseline,
};
use crate::usermem::PmpEntry;

verus! {

/// Length of a time slice under contention, in microseconds.
pub const SLICE_US: u64 = 16_000;

/// Length of a time slice under contention, in timer cycles.
pub const SLICE: u64 = SLICE_US * CYCLES_PER_US;

/// How far below the pass baseline a woken thread may start, in timer
/// cycles, so that a thread that slept gets the processor soon.
pub const BONUS: u64 = 500 * CYCLES_PER_US;

/// What a hart must do after a scheduler operation.
pub struct Effects {
    /// Interrupt the other hart (send it an inter-processor interrupt).
    pub kick_other: bool,
    /// Program the timer to fire at this cycle count.
    pub timer: Option<u64>,
    /// Switch stacks from the first thread slot to the second.
    pub switch: Option<(usize, usize)>,
    /// Load this protection map: the thread switched to is a user thread.
    pub pmp: Option<Vec<PmpEntry>>,
    /// Where the thread switched to takes its traps, when it is a user
    /// thread: the top of its kernel stack. A kernel thread (`None`) traps
    /// onto the hart's interrupt stack.
    pub trap_stack: Option<usize>,
}

/// Whether `slot` holds a user thread of process `p`.
pub open spec fn in_process(slot: Option<ThreadControlBlock>, p: int) -> bool {
    slot matches Some(t) && t.user matches Some(u) && u.process_idx == p
}

/// Number of slots holding a user thread of process `p`.
pub open spec fn pcount(s: Seq<Option<ThreadControlBlock>>, p: int) -> nat
    decreases s.len(),
{
    if s.len() == 0 {
        0
    } else {
        pcount(s.drop_last(), p) + if in_process(s.last(), p) {
            1nat
        } else {
            0nat
        }
    }
}

/// What every thread record keeps: a well-formed kernel stack, an affinity
/// that names a hart, and for a user thread a process slot and a
/// well-formed user stack.
pub open spec fn thread_ok(t: ThreadControlBlock) -> bool {
    &&& t.kernel_stack.wf()
    &&& (t.affinity matches Some(h) ==> h < HARTS_MAX)
    &&& (t.user matches Some(u) ==> u.process_idx < MAX && u.user_stack.wf())
}

/// A thread record with a new state.
pub open spec fn with_state(t: ThreadControlBlock, st: State) -> ThreadControlBlock {
    ThreadControlBlock { state: st, ..t }
}

/// Whether slot `idx` may be picked to run on `hart`: it holds a ready
/// thread (or, when `fairer`, the current thread `curr`), not the thread
/// the other hart runs while that hart is online, with an affinity for
/// this hart if any, not an idle thread, and with a pass below the
/// largest value.
pub open spec fn pickable(
    s: Seq<Option<ThreadControlBlock>>,
    cpus: Seq<PerCpu>,
    hart: usize,
    curr: usize,
    idx: int,
    fairer: bool,
) -> bool {
    &&& s[idx] matches Some(t)
    &&& (t.state == State::Ready || (fairer && idx == curr))
    &&& (!cpus[other(hart) as int].online || idx != cpus[other(hart) as int].current_thread_idx)
    &&& (t.affinity matches Some(h) ==> h == hart)
    &&& t.priority != PRIORITY_MIN
    &&& t.pass < u64::MAX
}

/// Whether `i` is the pick: pickable, with the lowest pass of all pickable
/// slots, and the lowest such slot.
pub open spec fn is_pick(
    s: Seq<Option<ThreadControlBlock>>,
    cpus: Seq<PerCpu>,
    hart: usize,
    curr: usize,
    i: int,
    fairer: bool,
) -> bool {
    &&& 0 <= i < s.len()
    &&& pickable(s, cpus, hart, curr, i, fairer)
    &&& forall|j: int|
        0 <= j < s.len() && #[trigger] pickable(s, cpus, hart, curr, j, fairer) ==> s[i]->0.pass
            <= s[j]->0.pass && (j < i ==> s[i]->0.pass < s[j]->0.pass)
}

/// The slot to run next on `hart`, as a value: the pick if there is one.
pub open spec fn pick_in(s: Seq<Option<ThreadControlBlock>>, cpus: Seq<PerCpu>, hart: usize, fairer: bool) -> Option<usize> {
    let c = cpus[hart as int].current_thread_idx;
    if exists|i: int| 0 <= i < THREADS_MAX && is_pick(s, cpus, hart, c, i, fairer) {
        Some((choose|i: int| 0 <= i < THREADS_MAX && is_pick(s, cpus, hart, c, i, fairer)) as usize)
    } else {
        None
    }
}

/// The switch `hart` makes, as a value: from the slot it runs to the pick,
/// or to its idle thread when nothing can be picked; none when that is the
/// slot it runs already.
pub open spec fn next_in(s: Seq<Option<ThreadControlBlock>>, cpus: Seq<PerCpu>, hart: usize, fairer: bool) -> Option<(usize, usize)> {
    let c = cpus[hart as int].current_thread_idx;
    let n = match pick_in(s, cpus, hart, fairer) {
        Some(i) => i,
        None => cpus[hart as int].idle_thread_idx,
    };
    if n == c {
        None
    } else {
        Some((c, n))
    }
}

/// The per-hart records after `hart` starts running `idx`, switching from
/// `from`, on a kernel stack based at `base`.
pub open spec fn activated(cpus: Seq<PerCpu>, hart: usize, idx: usize, from: Option<usize>, base: usize) -> Seq<PerCpu> {
    cpus.update(
        hart as int,
        PerCpu {
            current_thread_idx: idx,
            switching_from_thread_idx: from,
            current_kernel_stack_base: base,
            ..cpus[hart as int]
        },
    )
}

/// The scheduler state.
pub struct Scheduler {
    pub threads: Threads,
    pub procs: Procs,
    pub needs_wakeup: Vec<bool>,
    pub run_cycles: Vec<u64>,
    pub wake_overshoot: Vec<u64>,
    pub cpus: PerCpus,
    pub next_thread_id: u16,
    pub next_pid: u32,
}

/// Process slot `p` agrees with the thread table: a live process counts
/// exactly its threads, and no thread names an empty process slot.
pub open spec fn process_consistent(threads: Seq<Option<ThreadControlBlock>>, procs: Seq<Option<crate::process::ControlBlock>>, p: int) -> bool {
    match procs[p] {
        Some(pcb) => pcb.thread_count == pcount(threads, p),
        None => pcount(threads, p) == 0,
    }
}

impl Scheduler {
    /// Tables of the right sizes, every thread record sound, and the
    /// process table in agreement with the thread table.
    pub open spec fn wf(&self) -> bool {
        &&& self.wf_tables()
        &&& forall|p: int| 0 <= p < MAX ==> #[trigger] process_consistent(self.threads@, self.procs@, p)
    }

    /// Everything `wf` asks but the process agreement.
    pub open spec fn wf_tables(&self) -> bool {
        &&& self.threads.wf()
        &&& self.procs.wf()
        &&& self.cpus.wf()
        &&& self.needs_wakeup@.len() == THREADS_MAX
        &&& self.run_cycles@.len() == THREADS_MAX
        &&& self.wake_overshoot@.len() == THREADS_MAX
        &&& forall|i: int|
            0 <= i < THREADS_MAX ==> (#[trigger] self.threads@[i] matches Some(t) ==> thread_ok(t))
    }

    /// The thread slot `hart` runs.
    pub open spec fn curr(&self, hart: usize) -> usize {
        self.cpus@[hart as int].current_thread_idx
    }

    /// Whether the thread `hart` runs has a record.
    pub open spec fn has_current(&self, hart: usize) -> bool {
        self.threads@[self.curr(hart) as int] is Some
    }
}

/// Removing or adding one slot's membership changes the count by one.
pub proof fn lemma_pcount_update(s: Seq<Option<ThreadControlBlock>>, i: int, v: Option<ThreadControlBlock>, p: int)
    requires
        0 <= i < s.len(),
    ensures
        pcount(s.update(i, v), p) + (if in_process(s[i], p) { 1int } else { 0int }) == pcount(s, p)
            + (if in_process(v, p) { 1int } else { 0int }),
    decreases s.len(),
{
    if i == s.len() - 1 {
        assert(s.update(i, v).drop_last() =~= s.drop_last());
    } else {
        lemma_pcount_update(s.drop_last(), i, v, p);
        assert(s.update(i, v).drop_last() =~= s.drop_last().update(i, v));
    }
}

/// Tables whose slots name the same processes have the same counts.
pub proof fn lemma_pcount_frame(a: Seq<Option<ThreadControlBlock>>, b: Seq<Option<ThreadControlBlock>>, p: int)
    requires
        a.len() == b.len(),
        forall|i: int| 0 <= i < a.len() ==> in_process(#[trigger] a[i], p) == in_process(b[i], p),
    ensures
        pcount(a, p) == pcount(b, p),
    decreases a.len(),
{
    if a.len() > 0 {
        lemma_pcount_frame(a.drop_last(), b.drop_last(), p);
        assert(in_process(a[a.len() - 1], p) == in_process(b[b.len() - 1], p));
    }
}

/// A member slot makes the count positive; two member slots make it at
/// least two.
pub proof fn lemma_pcount_member(s: Seq<Option<ThreadControlBlock>>, i: int, j: int, p: int)
    requires
        0 <= i < s.len(),
        0 <= j < s.len(),
        in_process(s[i], p),
    ensures
        pcount(s, p) >= 1,
        i != j && in_process(s[j], p) ==> pcount(s, p) >= 2,
{
    lemma_pcount_update(s, i, None, p);
    if i != j && in_process(s[j], p) {
        lemma_pcount_update(s.update(i, None), j, None, p);
    }
}

/// Keeping every record's affinity and user context keeps every record
/// sound.
pub proof fn lemma_ok_frame(a: Seq<Option<ThreadControlBlock>>, b: Seq<Option<ThreadControlBlock>>)
    requires
        a.len() == b.len(),
        forall|i: int| 0 <= i < a.len() ==> (#[trigger] a[i] matches Some(t) ==> thread_ok(t)),
        forall|i: int| 0 <= i < a.len() ==> (#[trigger] b[i] matches Some(u) ==> a[i] matches Some(t) && u.affinity == t.affinity && u.user == t.user && u.kernel_stack == t.kernel_stack),
    ensures
        forall|i: int| 0 <= i < b.len() ==> (#[trigger] b[i] matches Some(u) ==> thread_ok(u)),
{
    assert forall|i: int| 0 <= i < b.len() implies (#[trigger] b[i] matches Some(u) ==> thread_ok(u)) by {
        if b[i] is Some {
            assert(a[i] matches Some(t) ==> thread_ok(t));
        }
    }
}

/// Keeping every slot's process keeps the scheduler's process agreement.
pub proof fn lemma_consistent_frame(
    a: Seq<Option<ThreadControlBlock>>,
    b: Seq<Option<ThreadControlBlock>>,
    procs: Seq<Option<crate::process::ControlBlock>>,
)
    requires
        a.len() == b.len(),
        forall|i: int| 0 <= i < a.len() ==> (#[trigger] a[i] is Some) == b[i] is Some && (a[i] is Some ==> a[i]->0.user == b[i]->0.user),
        forall|p: int| 0 <= p < MAX ==> #[trigger] process_consistent(a, procs, p),
    ensures
        forall|p: int| 0 <= p < MAX ==> #[trigger] process_consistent(b, procs, p),
{
    assert forall|p: int| 0 <= p < MAX implies #[trigger] process_consistent(b, procs, p) by {
        assert forall|i: int| 0 <= i < a.len() implies in_process(#[trigger] a[i], p) == in_process(b[i], p) by {
            assert(a[i] is Some == b[i] is Some);
        }
        lemma_pcount_frame(a, b, p);
        assert(process_consistent(a, procs, p));
    }
}

impl Scheduler {
    /// An empty scheduler: no threads, no processes, both harts offline.
    pub fn new() -> (r: Self)
        ensures
            r.wf(),
            forall|i: int| 0 <= i < THREADS_MAX ==> #[trigger] r.threads@[i] is None,
            forall|p: int| 0 <= p < MAX ==> #[trigger] r.procs@[p] is None,
            forall|i: int| 0 <= i < THREADS_MAX ==> !#[trigger] r.needs_wakeup@[i],
            forall|i: int| 0 <= i < THREADS_MAX ==> #[trigger] r.run_cycles@[i] == 0,
            r.cpus@ == seq![PerCpu::offline(), PerCpu::offline()],
    {
        let threads = Threads::new();
        let procs = Procs::new();
        let mut needs_wakeup: Vec<bool> = Vec::new();
        let mut run_cycles: Vec<u64> = Vec::new();
        let mut wake_overshoot: Vec<u64> = Vec::new();
        let mut i: usize = 0;
        while i < THREADS_MAX
            invariant
                i <= THREADS_MAX,
                needs_wakeup@.len() == i,
                run_cycles@.len() == i,
                wake_overshoot@.len() == i,
                forall|j: int| 0 <= j < i ==> !#[trigger] needs_wakeup@[j],
                forall|j: int| 0 <= j < i ==> #[trigger] run_cycles@[j] == 0,
            decreases THREADS_MAX - i,
        {
            needs_wakeup.push(false);
            run_cycles.push(0);
            wake_overshoot.push(0);
            i = i + 1;
        }
        let r = Scheduler {
            threads,
            procs,
            needs_wakeup,
            run_cycles,
            wake_overshoot,
            cpus: PerCpus::new(),
            next_thread_id: 0,
            next_pid: 0,
        };
        assert forall|p: int| 0 <= p < MAX implies #[trigger] process_consistent(r.threads@, r.procs@, p) by {
            assert forall|i: int| 0 <= i < THREADS_MAX implies !in_process(#[trigger] r.threads@[i], p) by {}
            lemma_pcount_frame(r.threads@, Seq::new(THREADS_MAX as nat, |i: int| None::<ThreadControlBlock>), p);
            lemma_pcount_zero(THREADS_MAX as nat, p);
        }
        r
    }

    /// Total cycles the thread in slot `tcb_idx` has run.
    pub fn get_current_cycles(&self, tcb_idx: usize) -> (r: u64)
        requires
            self.wf(),
            tcb_idx < THREADS_MAX,
        ensures
            r == self.run_cycles@[tcb_idx as int],
    {
        self.run_cycles[tcb_idx]
    }

    /// The timer overshoot recorded for the thread `hart` runs.
    pub fn current_wake_overshoot(&self, hart: usize) -> (r: u64)
        requires
            self.wf(),
            hart < HARTS_MAX,
        ensures
            r == self.wake_overshoot@[self.curr(hart) as int],
    {
        self.wake_overshoot[current_thread_idx(&self.cpus, hart)]
    }

    /// A handle to the thread `hart` runs.
    pub fn current_thread(&self, hart: usize) -> (r: ThreadHandle)
        requires
            self.wf(),
            hart < HARTS_MAX,
            self.has_current(hart),
        ensures
            r == (ThreadHandle { idx: self.curr(hart), id: self.threads@[self.curr(hart) as int]->0.id }),
    {
        let idx = current_thread_idx(&self.cpus, hart);
        let id = match self.threads.get(idx) {
            Some(t) => t.id,
            None => 0,
        };
        ThreadHandle { idx, id }
    }

    /// Sets the next waiter of the thread `handle` names, if that thread
    /// still lives.
    pub fn set_next_waiter(&mut self, handle: &ThreadHandle, next: Option<ThreadHandle>)
        requires
            old(self).wf(),
            handle.idx < THREADS_MAX,
        ensures
            final(self).wf(),
            final(self).threads@ == with_next_waiter(old(self).threads@, *handle, next),
            final(self).procs@ == old(self).procs@,
            final(self).next_thread_id == old(self).next_thread_id,
            final(self).next_pid == old(self).next_pid,
            final(self).cpus@ == old(self).cpus@,
            final(self).needs_wakeup@ == old(self).needs_wakeup@,
            final(self).run_cycles@ == old(self).run_cycles@,
    {
        let ghost before = self.threads@;
        match self.threads.get_mut(handle.idx) {
            Some(t) => {
                if t.id == handle.id {
                    t.next_waiter = next;
                }
            },
            None => {},
        }
        proof {
            lemma_consistent_frame(before, self.threads@, self.procs@);
        }
    }

    /// The next waiter of the thread `handle` names, or `None` if that
    /// thread is gone.
    pub fn get_next_waiter(&self, handle: &ThreadHandle) -> (r: Option<ThreadHandle>)
        requires
            self.wf(),
            handle.idx < THREADS_MAX,
        ensures
            r == next_waiter_of(self.threads@, *handle),
    {
        match self.threads.get(handle.idx) {
            Some(t) => if t.id == handle.id {
                t.next_waiter
            } else {
                None
            },
            None => None,
        }
    }

    /// Makes the thread in slot `idx` ready if it is blocked (without a
    /// deadline), and asks `hart` to reschedule so it runs soon.
    pub fn unpark_by_index(&mut self, hart: usize, idx: usize)
        requires
            old(self).wf(),
            hart < HARTS_MAX,
            idx < THREADS_MAX,
        ensures
            final(self).wf(),
            match old(self).threads@[idx as int] {
                Some(t) => if t.state == State::Blocked {
                    &&& final(self).threads@ == old(self).threads@.update(idx as int, Some(with_state(t, State::Ready)))
                    &&& final(self).cpus@ == old(self).cpus@.update(hart as int, PerCpu { needs_reschedule: true, ..old(self).cpus@[hart as int] })
                } else {
                    final(self).threads@ == old(self).threads@ && final(self).cpus@ == old(self).cpus@
                },
                None => final(self).threads@ == old(self).threads@ && final(self).cpus@ == old(self).cpus@,
            },
            final(self).procs@ == old(self).procs@,
            final(self).next_thread_id == old(self).next_thread_id,
            final(self).next_pid == old(self).next_pid,
            final(self).needs_wakeup@ == old(self).needs_wakeup@,
            final(self).run_cycles@ == old(self).run_cycles@,
    {
        let ghost before = self.threads@;
        let mut wake = false;
        match self.threads.get_mut(idx) {
            Some(t) => {
                if matches!(t.state, State::Blocked) {
                    t.state = State::Ready;
                    wake = true;
                }
            },
            None => {},
        }
        if wake {
            set_needs_reschedule(&mut self.cpus, hart);
        }
        proof {
            lemma_consistent_frame(before, self.threads@, self.procs@);
        }
    }

    /// Puts the thread `hart` runs into `st` without rescheduling.
    fn set_current_state(&mut self, hart: usize, st: State)
        requires
            old(self).wf(),
            hart < HARTS_MAX,
        ensures
            final(self).wf(),
            final(self).threads@ == match old(self).threads@[old(self).curr(hart) as int] {
                Some(t) => old(self).threads@.update(old(self).curr(hart) as int, Some(with_state(t, st))),
                None => old(self).threads@,
            },
            final(self).procs@ == old(self).procs@,
            final(self).next_thread_id == old(self).next_thread_id,
            final(self).next_pid == old(self).next_pid,
            final(self).cpus@ == old(self).cpus@,
            final(self).needs_wakeup@ == old(self).needs_wakeup@,
            final(self).run_cycles@ == old(self).run_cycles@,
    {
        let ghost before = self.threads@;
        let idx = current_thread_idx(&self.cpus, hart);
        match self.threads.get_mut(idx) {
            Some(t) => {
                t.state = st;
            },
            None => {},
        }
        proof {
            lemma_consistent_frame(before, self.threads@, self.procs@);
        }
    }

    /// Marks the thread `hart` runs as running again, after a wait that
    /// found its condition met without parking.
    pub fn set_self_running(&mut self, hart: usize)
        requires
            old(self).wf(),
            hart < HARTS_MAX,
            old(self).has_current(hart),
        ensures
            final(self).wf(),
            final(self).threads@ == old(self).threads@.update(
                old(self).curr(hart) as int,
                Some(with_state(old(self).threads@[old(self).curr(hart) as int]->0, State::Running)),
            ),
            final(self).procs@ == old(self).procs@,
            final(self).next_thread_id == old(self).next_thread_id,
            final(self).next_pid == old(self).next_pid,
            final(self).cpus@ == old(self).cpus@,
            final(self).needs_wakeup@ == old(self).needs_wakeup@,
            final(self).run_cycles@ == old(self).run_cycles@,
    {
        self.set_current_state(hart, State::Running);
    }

    /// Marks the thread `hart` runs as blocked, without rescheduling.
    pub fn set_self_blocked(&mut self, hart: usize)
        requires
            old(self).wf(),
            hart < HARTS_MAX,
            old(self).has_current(hart),
        ensures
            final(self).wf(),
            final(self).threads@ == old(self).threads@.update(
                old(self).curr(hart) as int,
                Some(with_state(old(self).threads@[old(self).curr(hart) as int]->0, State::Blocked)),
            ),
            final(self).procs@ == old(self).procs@,
            final(self).next_thread_id == old(self).next_thread_id,
            final(self).next_pid == old(self).next_pid,
            final(self).cpus@ == old(self).cpus@,
            final(self).needs_wakeup@ == old(self).needs_wakeup@,
            final(self).run_cycles@ == old(self).run_cycles@,
    {
        self.set_current_state(hart, State::Blocked);
    }

    /// Marks the thread `hart` runs as blocked until `deadline`, without
    /// rescheduling.
    pub fn set_self_blocked_until(&mut self, hart: usize, deadline: Deadline)
        requires
            old(self).wf(),
            hart < HARTS_MAX,
            old(self).has_current(hart),
        ensures
            final(self).wf(),
            final(self).threads@ == old(self).threads@.update(
                old(self).curr(hart) as int,
                Some(with_state(old(self).threads@[old(self).curr(hart) as int]->0, State::BlockedUntil(deadline))),
            ),
            final(self).procs@ == old(self).procs@,
            final(self).next_thread_id == old(self).next_thread_id,
            final(self).next_pid == old(self).next_pid,
            final(self).cpus@ == old(self).cpus@,
            final(self).needs_wakeup@ == old(self).needs_wakeup@,
            final(self).run_cycles@ == old(self).run_cycles@,
    {
        self.set_current_state(hart, State::BlockedUntil(deadline));
    }

    /// Raises the wake-up flag of slot `idx`.
    pub fn set_wakeup_flag(&mut self, idx: usize)
        requires
            old(self).wf(),
            idx < THREADS_MAX,
        ensures
            final(self).wf(),
            final(self).needs_wakeup@ == old(self).needs_wakeup@.update(idx as int, true),
            final(self).threads@ == old(self).threads@,
            final(self).procs@ == old(self).procs@,
            final(self).next_thread_id == old(self).next_thread_id,
            final(self).next_pid == old(self).next_pid,
            final(self).cpus@ == old(self).cpus@,
            final(self).run_cycles@ == old(self).run_cycles@,
    {
        self.needs_wakeup.set(idx, true);
    }

    /// Lowers the wake-up flag of slot `idx`.
    pub fn clear_wakeup_flag(&mut self, idx: usize)
        requires
            old(self).wf(),
            idx < THREADS_MAX,
        ensures
            final(self).wf(),
            final(self).needs_wakeup@ == old(self).needs_wakeup@.update(idx as int, false),
            final(self).threads@ == old(self).threads@,
            final(self).procs@ == old(self).procs@,
            final(self).next_thread_id == old(self).next_thread_id,
            final(self).next_pid == old(self).next_pid,
            final(self).cpus@ == old(self).cpus@,
            final(self).run_cycles@ == old(self).run_cycles@,
    {
        self.needs_wakeup.set(idx, false);
    }

    /// Reads and lowers the wake-up flag of slot `idx`.
    fn take_wakeup_flag(&mut self, idx: usize) -> (r: bool)
        requires
            old(self).wf(),
            idx < THREADS_MAX,
        ensures
            final(self).wf(),
            r == old(self).needs_wakeup@[idx as int],
            final(self).needs_wakeup@ == old(self).needs_wakeup@.update(idx as int, false),
            final(self).threads@ == old(self).threads@,
            final(self).procs@ == old(self).procs@,
            final(self).next_thread_id == old(self).next_thread_id,
            final(self).next_pid == old(self).next_pid,
            final(self).cpus@ == old(self).cpus@,
            final(self).run_cycles@ == old(self).run_cycles@,
    {
        let r = self.needs_wakeup[idx];
        self.needs_wakeup.set(idx, false);
        r
    }

    /// Wakes the blocked thread in slot `idx`: it becomes ready, and the
    /// hart it is bound to is told. Returns whether the other hart must be
    /// interrupted; otherwise, if the thread woke, `hart` is asked to
    /// reschedule.
    pub fn wake_by_index(&mut self, hart: usize, idx: usize) -> (kick: bool)
        requires
            old(self).wf(),
            hart < HARTS_MAX,
            idx < THREADS_MAX,
        ensures
            final(self).wf(),
            final(self).procs@ == old(self).procs@,
            final(self).next_thread_id == old(self).next_thread_id,
            final(self).next_pid == old(self).next_pid,
            final(self).needs_wakeup@ == old(self).needs_wakeup@,
            final(self).run_cycles@ == old(self).run_cycles@,
            match old(self).threads@[idx as int] {
                Some(t) => if t.state == State::Blocked || t.state is BlockedUntil {
                    &&& final(self).threads@ == old(self).threads@.update(idx as int, Some(with_state(t, State::Ready)))
                    &&& kick == (t.affinity matches Some(h) && h != hart)
                    &&& final(self).cpus@ == if kick {
                        old(self).cpus@
                    } else {
                        old(self).cpus@.update(hart as int, PerCpu { needs_reschedule: true, ..old(self).cpus@[hart as int] })
                    }
                } else {
                    !kick && final(self).threads@ == old(self).threads@ && final(self).cpus@ == old(self).cpus@
                },
                None => !kick && final(self).threads@ == old(self).threads@ && final(self).cpus@ == old(self).cpus@,
            },
    {
        let ghost before = self.threads@;
        let (did_unpark, affinity) = self.threads.make_blocked_ready(idx);
        proof {
            lemma_consistent_frame(before, self.threads@, self.procs@);
            if did_unpark {
                let t = before[idx as int]->0;
                assert(self.threads@[idx as int] == Some(with_state(t, State::Ready)));
                assert(self.threads@ =~= before.update(idx as int, Some(with_state(t, State::Ready))));
            }
        }
        if did_unpark {
            match affinity {
                Some(h) => {
                    if h as usize != hart {
                        return true;
                    }
                },
                None => {},
            }
            set_needs_reschedule(&mut self.cpus, hart);
        }
        false
    }

    /// Wakes the thread `handle` names if it still lives and is blocked.
    /// Returns whether the other hart must be interrupted.
    pub fn unpark(&mut self, hart: usize, handle: &ThreadHandle) -> (kick: bool)
        requires
            old(self).wf(),
            hart < HARTS_MAX,
            handle.idx < THREADS_MAX,
        ensures
            final(self).wf(),
            final(self).procs@ == old(self).procs@,
            final(self).next_thread_id == old(self).next_thread_id,
            final(self).next_pid == old(self).next_pid,
            final(self).needs_wakeup@ == old(self).needs_wakeup@,
            final(self).run_cycles@ == old(self).run_cycles@,
            match old(self).threads@[handle.idx as int] {
                Some(t) => if t.id == handle.id && (t.state == State::Blocked || t.state is BlockedUntil) {
                    &&& final(self).threads@ == old(self).threads@.update(handle.idx as int, Some(with_state(t, State::Ready)))
                    &&& kick == (t.affinity matches Some(h) && h != hart)
                    &&& final(self).cpus@ == if kick {
                        old(self).cpus@
                    } else {
                        old(self).cpus@.update(hart as int, PerCpu { needs_reschedule: true, ..old(self).cpus@[hart as int] })
                    }
                } else {
                    !kick && final(self).threads@ == old(self).threads@ && final(self).cpus@ == old(self).cpus@
                },
                None => !kick && final(self).threads@ == old(self).threads@ && final(self).cpus@ == old(self).cpus@,
            },
    {
        let id_ok = match self.threads.get(handle.idx) {
            Some(t) => t.id == handle.id,
            None => false,
        };
        if id_ok {
            self.wake_by_index(hart, handle.idx)
        } else {
            false
        }
    }
}

/// The next waiter recorded in the thread `h` names, or `None` for a
/// stale handle.
pub open spec fn next_waiter_of(s: Seq<Option<ThreadControlBlock>>, h: ThreadHandle) -> Option<ThreadHandle> {
    match s[h.idx as int] {
        Some(t) => if t.id == h.id {
            t.next_waiter
        } else {
            None
        },
        None => None,
    }
}

/// The table `s` with `next` recorded as the next waiter of the thread `h`
/// names; unchanged for a stale handle.
pub open spec fn with_next_waiter(s: Seq<Option<ThreadControlBlock>>, h: ThreadHandle, next: Option<ThreadHandle>) -> Seq<Option<ThreadControlBlock>> {
    match s[h.idx as int] {
        Some(t) => if t.id == h.id {
            s.update(h.idx as int, Some(ThreadControlBlock { next_waiter: next, ..t }))
        } else {
            s
        },
        None => s,
    }
}

/// Recording a next waiter and reading it back through the same live
/// handle gives it back; nothing else in the table changes, not even the
/// other fields of that thread; through a stale handle nothing changes.
pub proof fn law_next_waiter_round_trip(s: Seq<Option<ThreadControlBlock>>, h: ThreadHandle, next: Option<ThreadHandle>)
    requires
        h.idx < s.len(),
    ensures
        ({
            let b = with_next_waiter(s, h, next);
            &&& b.len() == s.len()
            &&& forall|j: int| 0 <= j < s.len() && j != h.idx ==> #[trigger] b[j] == s[j]
            &&& match s[h.idx as int] {
                Some(t) => if t.id == h.id {
                    &&& next_waiter_of(b, h) == next
                    &&& b[h.idx as int] == Some(ThreadControlBlock { next_waiter: next, ..t })
                } else {
                    b == s
                },
                None => b == s,
            }
        }),
{
}

/// Whether the thread in `slot` waits on a deadline that `now` has reached.
pub open spec fn due(slot: Option<ThreadControlBlock>, now: u64) -> bool {
    crate::threads::due_at(slot) matches Some(at) && at <= now
}

/// What the wake-up scan makes of a slot: a thread whose deadline has come
/// becomes ready with its pass raised to at least `floor`; a blocked thread
/// whose wake-up flag is raised becomes ready; anything else stays.
pub open spec fn woken(o: Option<ThreadControlBlock>, flag: bool, now: u64, floor: u64) -> Option<ThreadControlBlock> {
    match o {
        Some(t) => if due(o, now) {
            Some(ThreadControlBlock { state: State::Ready, pass: if t.pass >= floor { t.pass } else { floor }, ready_since: now, ..t })
        } else if flag && (t.state == State::Blocked || t.state is BlockedUntil) {
            Some(with_state(t, State::Ready))
        } else {
            o
        },
        None => None,
    }
}

/// The per-hart records are unchanged but for `hart`'s reschedule request.
pub open spec fn only_resched_changed(a: Seq<PerCpu>, b: Seq<PerCpu>, hart: usize) -> bool {
    &&& b.len() == a.len()
    &&& forall|h: int| 0 <= h < a.len() && h != hart ==> #[trigger] b[h] == a[h]
    &&& b[hart as int] == (PerCpu { needs_reschedule: b[hart as int].needs_reschedule, ..a[hart as int] })
}

impl Scheduler {
    /// Records that `hart` now runs slot `idx`, switching from `from`, and
    /// returns the protection map to load when it is a user thread.
    pub fn activate_thread(&mut self, hart: usize, idx: usize, from: Option<usize>) -> (r: (Option<Vec<PmpEntry>>, Option<usize>))
        requires
            old(self).wf(),
            hart < HARTS_MAX,
            idx < THREADS_MAX,
            from matches Some(f) ==> f < THREADS_MAX,
        ensures
            final(self).wf(),
            final(self).threads@ == old(self).threads@,
            final(self).procs@ == old(self).procs@,
            final(self).next_thread_id == old(self).next_thread_id,
            final(self).next_pid == old(self).next_pid,
            final(self).needs_wakeup@ == old(self).needs_wakeup@,
            final(self).run_cycles@ == old(self).run_cycles@,
            match old(self).threads@[idx as int] {
                Some(t) => {
                    &&& final(self).cpus@ == activated(old(self).cpus@, hart, idx, from, t.kernel_stack.base)
                    &&& match t.user {
                        Some(u) => r.0 matches Some(v) && v@ == crate::usermem::pmp_of(
                            old(self).procs@[u.process_idx as int]->0.mem_map@,
                            u.user_stack,
                        ) && r.1 == Some(stack_top(t.kernel_stack)),
                        None => r.0 is None && r.1 is None,
                    }
                },
                None => final(self).cpus@ == old(self).cpus@ && r.0 is None && r.1 is None,
            },
    {
        let (base, pmp, trap) = match self.threads.get(idx) {
            Some(t) => {
                let trap = match t.user.as_ref() {
                    Some(_) => {
                        proof {
                            assert(thread_ok(self.threads@[idx as int]->0));
                        }
                        Some(t.kernel_stack.top())
                    },
                    None => None,
                };
                let pmp = match t.user.as_ref() {
                    Some(u) => {
                        let p = u.process_idx as usize;
                        proof {
                            assert(thread_ok(self.threads@[idx as int]->0));
                            lemma_pcount_member(self.threads@, idx as int, idx as int, p as int);
                            assert(process_consistent(self.threads@, self.procs@, p as int));
                        }
                        match self.procs.get(p) {
                            Some(pcb) => Some(pcb.mem_map.to_pmp(&u.user_stack)),
                            None => None,
                        }
                    },
                    None => None,
                };
                (Some(t.kernel_stack.base()), pmp, trap)
            },
            None => (None, None, None),
        };
        match base {
            Some(b) => {
                set_current_thread_idx(&mut self.cpus, hart, idx);
                set_switching_from_thread_idx(&mut self.cpus, hart, from);
                set_current_kernel_stack_base(&mut self.cpus, hart, b);
                assert(self.cpus@ =~= activated(old(self).cpus@, hart, idx, from, b));
            },
            None => {},
        }
        (pmp, trap)
    }

    /// Accounts the slice the thread `hart` runs has just had: the cycles
    /// since it started go to its run counter (wrapping) and move its pass
    /// on, and it restarts at `now`.
    pub fn slice_ended(&mut self, hart: usize, now: u64)
        requires
            old(self).wf(),
            hart < HARTS_MAX,
            old(self).has_current(hart),
            now >= old(self).threads@[old(self).curr(hart) as int]->0.last_started_cycles,
        ensures
            final(self).wf(),
            ({
                let c = old(self).curr(hart) as int;
                let t = old(self).threads@[c]->0;
                let ran = (now - t.last_started_cycles) as u64;
                &&& final(self).threads@ == old(self).threads@.update(
                    c,
                    Some(ThreadControlBlock {
                        pass: t.pass.saturating_add(spec_saturating_mul(ran, t.priority as u64)),
                        last_started_cycles: now,
                        ..t
                    }),
                )
                &&& final(self).run_cycles@ == old(self).run_cycles@.update(c, old(self).run_cycles@[c].wrapping_add(ran))
            }),
            final(self).procs@ == old(self).procs@,
            final(self).next_thread_id == old(self).next_thread_id,
            final(self).next_pid == old(self).next_pid,
            final(self).cpus@ == old(self).cpus@,
            final(self).needs_wakeup@ == old(self).needs_wakeup@,
    {
        let ghost before = self.threads@;
        let curr = current_thread_idx(&self.cpus, hart);
        let mut ran: u64 = 0;
        match self.threads.get_mut(curr) {
            Some(t) => {
                ran = now - t.last_started_cycles;
                t.last_started_cycles = now;
                t.stride_forward(ran);
            },
            None => {},
        }
        let total = self.run_cycles[curr].wrapping_add(ran);
        self.run_cycles.set(curr, total);
        proof {
            lemma_consistent_frame(before, self.threads@, self.procs@);
        }
    }

    /// The slot to run next on `hart`: the pickable slot with the lowest
    /// pass, the lowest such slot on a tie, or `None` if no slot is
    /// pickable. With `fairer`, the thread `hart` runs competes too.
    pub fn best_candidate(&self, hart: usize, fairer: bool) -> (r: Option<usize>)
        requires
            self.wf(),
            hart < HARTS_MAX,
        ensures
            match r {
                Some(i) => i < THREADS_MAX && is_pick(self.threads@, self.cpus@, hart, self.curr(hart), i as int, fairer),
                None => forall|j: int| 0 <= j < THREADS_MAX ==> !#[trigger] pickable(self.threads@, self.cpus@, hart, self.curr(hart), j, fairer),
            },
    {
        let curr = current_thread_idx(&self.cpus, hart);
        let other_on = other_online(&self.cpus, hart);
        let other_curr = other_current_thread_idx(&self.cpus, hart);
        let mut best: Option<usize> = None;
        let mut best_pass: u64 = u64::MAX;
        let mut i: usize = 0;
        while i < THREADS_MAX
            invariant
                self.wf(),
                hart < HARTS_MAX,
                curr == self.curr(hart),
                other_on == self.cpus@[other(hart) as int].online,
                other_curr == self.cpus@[other(hart) as int].current_thread_idx,
                i <= THREADS_MAX,
                match best {
                    None => best_pass == u64::MAX && forall|j: int| 0 <= j < i ==> !#[trigger] pickable(self.threads@, self.cpus@, hart, curr, j, fairer),
                    Some(b) => {
                        &&& b < i
                        &&& pickable(self.threads@, self.cpus@, hart, curr, b as int, fairer)
                        &&& best_pass == self.threads@[b as int]->0.pass
                        &&& forall|j: int| 0 <= j < i && #[trigger] pickable(self.threads@, self.cpus@, hart, curr, j, fairer) ==> best_pass <= self.threads@[j]->0.pass && (j < b ==> best_pass < self.threads@[j]->0.pass)
                    },
                },
            decreases THREADS_MAX - i,
        {
            match self.threads.get(i) {
                Some(t) => {
                    let candidate = matches!(t.state, State::Ready) || (fairer && i == curr);
                    let affinity_ok = match t.affinity {
                        Some(h) => h as usize == hart,
                        None => true,
                    };
                    let not_stealing = !other_on || i != other_curr;
                    let pri_ok = t.priority != PRIORITY_MIN;
                    if candidate && not_stealing && affinity_ok && pri_ok && t.pass < best_pass {
                        best = Some(i);
                        best_pass = t.pass;
                    }
                },
                None => {},
            }
            i = i + 1;
        }
        best
    }

    /// The switch `hart` should make: from the thread it runs to the best
    /// candidate, or to its idle thread if there is none; `None` when that
    /// is the thread it already runs.
    pub fn pick_next(&self, hart: usize, fairer: bool) -> (r: Option<(usize, usize)>)
        requires
            self.wf(),
            hart < HARTS_MAX,
        ensures
            r == next_in(self.threads@, self.cpus@, hart, fairer),
    {
        let curr = current_thread_idx(&self.cpus, hart);
        let best = self.best_candidate(hart, fairer);
        proof {
            self.lemma_best_pick_unique(hart, fairer, best);
        }
        let next = match best {
            Some(i) => i,
            None => idle_thread_idx(&self.cpus, hart),
        };
        if curr == next {
            None
        } else {
            Some((curr, next))
        }
    }

    /// There is at most one pick, so what `best_candidate` finds is the
    /// best pick.
    pub proof fn lemma_best_pick_unique(&self, hart: usize, fairer: bool, found: Option<usize>)
        requires
            self.wf(),
            match found {
                Some(i) => i < THREADS_MAX && is_pick(self.threads@, self.cpus@, hart, self.curr(hart), i as int, fairer),
                None => forall|j: int| 0 <= j < THREADS_MAX ==> !#[trigger] pickable(self.threads@, self.cpus@, hart, self.curr(hart), j, fairer),
            },
        ensures
            pick_in(self.threads@, self.cpus@, hart, fairer) == found,
    {
        let s = self.threads@;
        let c = self.curr(hart);
        match found {
            Some(i) => {
                let k = choose|k: int| 0 <= k < THREADS_MAX && is_pick(s, self.cpus@, hart, c, k, fairer);
                assert(is_pick(s, self.cpus@, hart, c, k, fairer));
                assert(pickable(s, self.cpus@, hart, c, k, fairer));
                assert(pickable(s, self.cpus@, hart, c, i as int, fairer));
                assert(k == i);
            },
            None => {
                assert forall|k: int| 0 <= k < THREADS_MAX implies !is_pick(s, self.cpus@, hart, c, k, fairer) by {
                    assert(!pickable(s, self.cpus@, hart, c, k, fairer));
                }
            },
        }
    }
}

/// Why a ready thread is not running.
#[derive(Clone, Copy, Debug, PartialEq, Eq, Structural)]
pub enum MissReason {
    /// It has a higher pass than every runner it may displace: it is
    /// waiting its turn.
    WaitingItsTurn,
    /// It out-ranks the thread running on the hart that looked, which
    /// should have preempted it.
    LocalPreemptMissed,
    /// It out-ranks the thread running on the other hart, which was never
    /// told to reschedule.
    RemoteNotKicked,
    /// It is bound to a hart busy with another thread.
    PinnedElsewhere,
}

/// The diagnosis of a ready thread left waiting: who it is, how long it
/// has waited, and the runner it out-ranks, if any.
#[derive(Clone, Copy, Debug, PartialEq, Eq, Structural)]
pub struct PickMiss {
    pub starved_id: u16,
    pub ready_ms: u64,
    pub blocker_id: u16,
    pub blocker_hart: u8,
    pub local: bool,
    pub reason: MissReason,
}

/// Whether a thread bound by `affinity` may run on `hart`.
pub open spec fn affinity_allows(affinity: Option<u8>, hart: usize) -> bool {
    match affinity {
        Some(h) => h as usize == hart,
        None => true,
    }
}

/// Whether `stalled` out-ranks `runner`, which runs on a hart it may use.
pub open spec fn outranks(stalled: ThreadControlBlock, runner: ThreadControlBlock, hart: usize) -> bool {
    affinity_allows(stalled.affinity, hart) && stalled.pass < runner.pass
}

/// The diagnosis after looking at the runner of one hart.
pub open spec fn miss_step(pm: PickMiss, stalled: ThreadControlBlock, runner: ThreadControlBlock, hart: usize, local: bool) -> PickMiss {
    if outranks(stalled, runner, hart) {
        PickMiss {
            blocker_id: runner.id,
            blocker_hart: hart as u8,
            local,
            reason: if local { MissReason::LocalPreemptMissed } else { MissReason::RemoteNotKicked },
            ..pm
        }
    } else if !affinity_allows(stalled.affinity, hart) {
        PickMiss { reason: MissReason::PinnedElsewhere, ..pm }
    } else {
        pm
    }
}

/// The diagnosis of the ready thread in slot `idx`, looking from `hart`:
/// first at the runner of `hart`, then, unless that settled it, at the
/// runner of the other hart.
pub open spec fn pick_miss(
    threads: Seq<Option<ThreadControlBlock>>,
    cpus: Seq<PerCpu>,
    hart: usize,
    idx: usize,
    ready_ms: u64,
) -> PickMiss {
    let stalled = threads[idx as int]->0;
    let here = threads[cpus[hart as int].current_thread_idx as int]->0;
    let there = threads[cpus[other(hart) as int].current_thread_idx as int]->0;
    let start = PickMiss {
        starved_id: stalled.id,
        ready_ms,
        blocker_id: 0,
        blocker_hart: 0,
        local: false,
        reason: MissReason::WaitingItsTurn,
    };
    let first = miss_step(start, stalled, here, hart, true);
    if outranks(stalled, here, hart) {
        first
    } else {
        miss_step(first, stalled, there, other(hart), false)
    }
}

/// The context a switch sets up: for a switch to a user thread, the
/// protection map of its process with its own stack, and its kernel stack
/// top to trap onto; neither otherwise.
pub open spec fn switch_context(
    threads: Seq<Option<ThreadControlBlock>>,
    procs: Seq<Option<crate::process::ControlBlock>>,
    switch: Option<(usize, usize)>,
    pmp: Option<Vec<PmpEntry>>,
    trap_stack: Option<usize>,
) -> bool {
    match switch {
        Some((_, n)) => match threads[n as int]->0.user {
            Some(u) => {
                &&& pmp matches Some(v) && v@ == crate::usermem::pmp_of(procs[u.process_idx as int]->0.mem_map@, u.user_stack)
                &&& trap_stack == Some(stack_top(threads[n as int]->0.kernel_stack))
            },
            None => pmp is None && trap_stack is None,
        },
        None => pmp is None && trap_stack is None,
    }
}

/// One past the last address of the stack `m`.
pub open spec fn stack_top(m: MemRegion) -> usize {
    (m.base + m.order.spec_size()) as usize
}

impl Scheduler {
    /// Works out why the ready thread in slot `stalled_idx` is passed over,
    /// seen from `hart` at cycle `now`: does it have a lower pass than a
    /// thread running on a hart it may use? Also reports how long it has
    /// been ready, in whole milliseconds.
    pub fn compute_pick_miss(&self, hart: usize, now: u64, stalled_idx: usize) -> (r: PickMiss)
        requires
            self.wf(),
            hart < HARTS_MAX,
            stalled_idx < THREADS_MAX,
            self.threads@[stalled_idx as int] is Some,
            self.has_current(hart),
            self.has_current(other(hart)),
        ensures
            r == pick_miss(
                self.threads@,
                self.cpus@,
                hart,
                stalled_idx,
                ({
                    let since = self.threads@[stalled_idx as int]->0.ready_since;
                    (if now >= since { (now - since) as u64 } else { 0u64 }) / CYCLES_PER_MS
                }),
            ),
    {
        let stalled = self.threads.get(stalled_idx).unwrap();
        let ready_since = stalled.ready_since;
        let waited: u64 = if now >= ready_since { now - ready_since } else { 0 };
        let ready_ms = waited / CYCLES_PER_MS;
        let mut pm = PickMiss {
            starved_id: stalled.id,
            ready_ms,
            blocker_id: 0,
            blocker_hart: 0,
            local: false,
            reason: MissReason::WaitingItsTurn,
        };
        let ghost start = pm;
        let mut step: usize = 0;
        while step < 2
            invariant
                self.wf(),
                hart < HARTS_MAX,
                stalled_idx < THREADS_MAX,
                self.threads@[stalled_idx as int] == Some(*stalled),
                self.has_current(hart),
                self.has_current(other(hart)),
                step <= 2,
                step == 0 ==> pm == start,
                step == 1 ==> pm == miss_step(start, *stalled, self.threads@[self.curr(hart) as int]->0, hart, true)
                    && !outranks(*stalled, self.threads@[self.curr(hart) as int]->0, hart),
                step == 2 ==> pm == pick_miss(self.threads@, self.cpus@, hart, stalled_idx, ready_ms),
                start == (PickMiss {
                    starved_id: stalled.id,
                    ready_ms,
                    blocker_id: 0,
                    blocker_hart: 0,
                    local: false,
                    reason: MissReason::WaitingItsTurn,
                }),
            decreases 2 - step,
        {
            let local = step == 0;
            let h: usize = if local { hart } else { that_hart_id(hart) };
            let cur = if local { current_thread_idx(&self.cpus, hart) } else { other_current_thread_idx(&self.cpus, hart) };
            let runner = self.threads.get(cur).unwrap();
            let affinity_ok = match stalled.affinity {
                Some(a) => a as usize == h,
                None => true,
            };
            if affinity_ok && stalled.pass < runner.pass {
                pm.blocker_id = runner.id;
                pm.blocker_hart = h as u8;
                pm.local = local;
                pm.reason = if local { MissReason::LocalPreemptMissed } else { MissReason::RemoteNotKicked };
                step = 2;
            } else {
                if !affinity_ok {
                    pm.reason = MissReason::PinnedElsewhere;
                }
                step = step + 1;
            }
        }
        pm
    }
}

/// Whether a thread bound by `a` is bound to `hart`.
pub open spec fn bound_here(a: Option<u8>, hart: usize) -> bool {
    match a {
        Some(h) => h == hart,
        None => false,
    }
}

/// What a wake-up scan on `hart` sees in the slot the other hart runs
/// (`other_curr`) when it reaches slot `j`: the slot as the scan left it
/// once it is at or behind `j`, else as it was.
pub open spec fn seen_from_other(
    before: Seq<Option<ThreadControlBlock>>,
    after: Seq<Option<ThreadControlBlock>>,
    other_curr: usize,
    j: int,
) -> Option<ThreadControlBlock> {
    if other_curr <= j {
        after[other_curr as int]
    } else {
        before[other_curr as int]
    }
}

/// Whether waking slot `j` in a scan on `hart` (which runs `curr`) asks
/// for the other hart to be interrupted: a thread whose time has come,
/// not bound to this hart, whose pass after waking is no higher than that
/// of the thread the other hart runs; or a blocked thread with a pending
/// wake-up request, bound to another hart.
pub open spec fn wake_kick(
    before: Seq<Option<ThreadControlBlock>>,
    flags: Seq<bool>,
    after: Seq<Option<ThreadControlBlock>>,
    curr: usize,
    other_curr: usize,
    hart: usize,
    now: u64,
    j: int,
) -> bool {
    &&& j != curr
    &&& if due(before[j], now) {
        let o = seen_from_other(before, after, other_curr, j);
        &&& o is Some
        &&& o->0.pass >= after[j]->0.pass
        &&& !bound_here(before[j]->0.affinity, hart)
    } else {
        &&& flags[j]
        &&& before[j] is Some
        &&& (before[j]->0.state == State::Blocked || before[j]->0.state is BlockedUntil)
        &&& bound_elsewhere(before[j]->0.affinity, hart)
    }
}

/// Whether a wake-up scan asks for the other hart to be interrupted: some
/// slot does, see `wake_kick`.
#[verifier::opaque]
pub open spec fn wake_kicks(
    before: Seq<Option<ThreadControlBlock>>,
    flags: Seq<bool>,
    after: Seq<Option<ThreadControlBlock>>,
    curr: usize,
    other_curr: usize,
    hart: usize,
    now: u64,
) -> bool {
    exists|j: int| 0 <= j < THREADS_MAX && #[trigger] wake_kick(before, flags, after, curr, other_curr, hart, now, j)
}

/// One more slot of a wake-up scan: the slots already scanned keep
/// their values, so the scan's kick so far extends by the new slot's.
proof fn lemma_kick_step(
    orig: Seq<Option<ThreadControlBlock>>,
    flags: Seq<bool>,
    t_in: Seq<Option<ThreadControlBlock>>,
    t_out: Seq<Option<ThreadControlBlock>>,
    curr: usize,
    other_curr: usize,
    hart: usize,
    now: u64,
    idx: int,
    kick_in: bool,
    kick_out: bool,
)
    requires
        0 <= idx < t_in.len(),
        other_curr < t_in.len(),
        t_in.len() == t_out.len(),
        forall|j: int| 0 <= j < t_in.len() && j != idx ==> t_out[j] == t_in[j],
        kick_in == exists|j: int| 0 <= j < idx && #[trigger] wake_kick(orig, flags, t_in, curr, other_curr, hart, now, j),
        kick_out == (kick_in || wake_kick(orig, flags, t_out, curr, other_curr, hart, now, idx)),
    ensures
        kick_out == exists|j: int| 0 <= j < idx + 1 && #[trigger] wake_kick(orig, flags, t_out, curr, other_curr, hart, now, j),
{
    assert forall|j: int| 0 <= j < idx implies #[trigger] wake_kick(orig, flags, t_out, curr, other_curr, hart, now, j)
        == wake_kick(orig, flags, t_in, curr, other_curr, hart, now, j) by {
        if 0 <= j < t_in.len() {
            assert(t_out[j] == t_in[j]);
        }
        if other_curr <= j && other_curr < t_in.len() {
            assert(t_out[other_curr as int] == t_in[other_curr as int]);
        }
    }
    if kick_out {
        if !kick_in {
            assert(wake_kick(orig, flags, t_out, curr, other_curr, hart, now, idx));
        } else {
            let j = choose|j: int| 0 <= j < idx && #[trigger] wake_kick(orig, flags, t_in, curr, other_curr, hart, now, j);
            assert(wake_kick(orig, flags, t_out, curr, other_curr, hart, now, j));
        }
    }
}

/// The floor a wake-up scan raises passes to, once it has worked out the
/// pass baseline `b`.
pub open spec fn floor_of(b: Option<u64>) -> u64 {
    match b {
        Some(x) => x.saturating_sub(BONUS),
        None => 0,
    }
}

/// Whether slot `k` holds the first thread, other than the one in slot
/// `curr`, whose deadline `now` has reached.
pub open spec fn is_first_due(before: Seq<Option<ThreadControlBlock>>, curr: usize, now: u64, k: int) -> bool {
    &&& 0 <= k < before.len()
    &&& k != curr
    &&& due(before[k], now)
    &&& forall|j: int| 0 <= j < k && j != curr ==> !#[trigger] due(before[j], now)
}

/// The table as the wake-up scan has it on reaching slot `k`, when no
/// deadline has come before it: the blocked threads before `k` whose
/// flags are raised are ready.
pub open spec fn prefix_woken(
    before: Seq<Option<ThreadControlBlock>>,
    flags: Seq<bool>,
    curr: usize,
    now: u64,
    k: int,
) -> Seq<Option<ThreadControlBlock>> {
    Seq::new(before.len(), |i: int| if i < k && i != curr { woken(before[i], flags[i], now, 0) } else { before[i] })
}

/// The pass floor of a wake-up scan: the pass baseline (the least pass of
/// the ready and running threads other than idle ones) of the table as the
/// scan has it when it meets the first thread whose deadline has come,
/// less `BONUS` (never below zero). With no such thread nothing is raised.
#[verifier::opaque]
pub open spec fn wake_floor(before: Seq<Option<ThreadControlBlock>>, flags: Seq<bool>, curr: usize, now: u64) -> u64 {
    if exists|k: int| #[trigger] is_first_due(before, curr, now, k) {
        let k = choose|k: int| #[trigger] is_first_due(before, curr, now, k);
        crate::threads::spec_pass_baseline(prefix_woken(before, flags, curr, now, k)).saturating_sub(BONUS)
    } else {
        0
    }
}

/// There is one first due slot.
pub proof fn lemma_first_due_unique(before: Seq<Option<ThreadControlBlock>>, curr: usize, now: u64, a: int, b: int)
    requires
        is_first_due(before, curr, now, a),
        is_first_due(before, curr, now, b),
    ensures
        a == b,
{
    if a < b {
        assert(!due(before[a], now));
    } else if b < a {
        assert(!due(before[b], now));
    }
}

/// Whether the wake-up scan on `hart` wakes the thread in slot `j` by its
/// flag, a blocked thread whose deadline has not come, and that thread
/// may run on `hart`, so that `hart` is asked to reschedule.
pub open spec fn flag_wake_here(
    before: Seq<Option<ThreadControlBlock>>,
    flags: Seq<bool>,
    curr: usize,
    now: u64,
    hart: usize,
    j: int,
) -> bool {
    &&& j != curr
    &&& flags[j]
    &&& !due(before[j], now)
    &&& before[j] matches Some(t)
    &&& (t.state == State::Blocked || t.state is BlockedUntil)
    &&& !(t.affinity matches Some(h) && h != hart)
}

/// The per-hart records `c` after the wake-up scan on `hart`: `hart` is
/// asked to reschedule if it was, or if the scan woke by its flag a thread
/// that may run there.
pub open spec fn wake_resched(
    c: Seq<PerCpu>,
    before: Seq<Option<ThreadControlBlock>>,
    flags: Seq<bool>,
    curr: usize,
    now: u64,
    hart: usize,
) -> Seq<PerCpu> {
    c.update(
        hart as int,
        PerCpu {
            needs_reschedule: c[hart as int].needs_reschedule || exists|j: int| 0 <= j < THREADS_MAX
                && #[trigger] flag_wake_here(before, flags, curr, now, hart, j),
            ..c[hart as int]
        },
    )
}

/// Table `after` is what the wake-up scan makes of table `before` with
/// wake-up flags `flags`, skipping slot `curr`, with pass floor `floor`.
pub open spec fn wake_result(
    before: Seq<Option<ThreadControlBlock>>,
    flags: Seq<bool>,
    curr: usize,
    now: u64,
    floor: u64,
    after: Seq<Option<ThreadControlBlock>>,
) -> bool {
    &&& after.len() == before.len()
    &&& forall|i: int|
        0 <= i < before.len() ==> #[trigger] after[i] == if i == curr {
            before[i]
        } else {
            woken(before[i], flags[i], now, floor)
        }
}

impl Scheduler {
    /// Wakes, on `hart`, every thread other than the one it runs whose
    /// deadline `now` has reached (raising its pass to at least the pass
    /// baseline less `BONUS`, the baseline worked out once when the first
    /// such thread is found), and every blocked thread whose wake-up flag
    /// is raised; the flags of all those slots are lowered. Returns whether
    /// threads contend for the processor afterwards, and whether the other
    /// hart must be interrupted because a woken thread should preempt it.
    pub fn wake_sleeping_threads(&mut self, hart: usize, now: u64) -> (r: (bool, bool))
        requires
            old(self).wf(),
            hart < HARTS_MAX,
        ensures
            final(self).wf(),
            wake_result(old(self).threads@, old(self).needs_wakeup@, old(self).curr(hart), now,
                wake_floor(old(self).threads@, old(self).needs_wakeup@, old(self).curr(hart), now), final(self).threads@),
            forall|i: int| 0 <= i < THREADS_MAX ==> #[trigger] final(self).needs_wakeup@[i] == (i == old(self).curr(hart) && old(self).needs_wakeup@[i]),
            r.0 == crate::threads::any_ready(final(self).threads@),
            r.1 == wake_kicks(
                old(self).threads@,
                old(self).needs_wakeup@,
                final(self).threads@,
                old(self).curr(hart),
                old(self).cpus@[other(hart) as int].current_thread_idx,
                hart,
                now,
            ),
            final(self).cpus@ == wake_resched(old(self).cpus@, old(self).threads@, old(self).needs_wakeup@, old(self).curr(hart), now, hart),
            final(self).procs@ == old(self).procs@,
            final(self).next_thread_id == old(self).next_thread_id,
            final(self).next_pid == old(self).next_pid,
            final(self).run_cycles@ == old(self).run_cycles@,
    {
        proof {
            reveal(wake_floor);
        }
        let curr = current_thread_idx(&self.cpus, hart);
        let other_curr = other_current_thread_idx(&self.cpus, hart);
        let mut pass_baseline: Option<u64> = None;
        let mut kick = false;
        let ghost orig = self.threads@;
        let ghost oflags = self.needs_wakeup@;
        let mut idx: usize = 0;
        while idx < THREADS_MAX
            invariant
                self.wf(),
                hart < HARTS_MAX,
                curr == old(self).curr(hart),
                curr == self.curr(hart),
                other_curr < THREADS_MAX,
                idx <= THREADS_MAX,
                orig == old(self).threads@,
                oflags == old(self).needs_wakeup@,
                orig.len() == THREADS_MAX,
                oflags.len() == THREADS_MAX,
                only_resched_changed(old(self).cpus@, self.cpus@, hart),
                self.procs@ == old(self).procs@,
                self.next_thread_id == old(self).next_thread_id,
                self.next_pid == old(self).next_pid,
                self.run_cycles@ == old(self).run_cycles@,
                pass_baseline is None ==> forall|j: int| 0 <= j < idx && j != curr ==> !#[trigger] due(orig[j], now),
                pass_baseline matches Some(b) ==> exists|k: int| k < idx && #[trigger] is_first_due(orig, curr, now, k)
                    && b == crate::threads::spec_pass_baseline(prefix_woken(orig, oflags, curr, now, k)),
                self.cpus@.len() == old(self).cpus@.len(),
                forall|h: int| 0 <= h < old(self).cpus@.len() && h != hart ==> #[trigger] self.cpus@[h] == old(self).cpus@[h],
                self.cpus@[hart as int] == (PerCpu {
                    needs_reschedule: old(self).cpus@[hart as int].needs_reschedule || exists|j: int| 0 <= j < idx
                        && #[trigger] flag_wake_here(orig, oflags, curr, now, hart, j),
                    ..old(self).cpus@[hart as int]
                }),
                forall|j: int| 0 <= j < THREADS_MAX ==> #[trigger] self.threads@[j] == if j < idx && j != curr {
                    woken(orig[j], oflags[j], now, floor_of(pass_baseline))
                } else {
                    orig[j]
                },
                forall|j: int| 0 <= j < THREADS_MAX ==> #[trigger] self.needs_wakeup@[j] == (oflags[j] && !(j < idx && j != curr)),
                other_curr == old(self).cpus@[other(hart) as int].current_thread_idx,
                kick == exists|j: int| 0 <= j < idx && #[trigger] wake_kick(orig, oflags, self.threads@, curr, other_curr, hart, now, j),
            decreases THREADS_MAX - idx,
        {
            let ghost t_in = self.threads@;
            let ghost kick_in = kick;
            if idx != curr {
                let ghost pb0 = pass_baseline;
                let ghost before = self.threads@;
                let ghost c_in = self.cpus@;
                proof {
                    if pb0 is None {
                        assert(floor_of(pb0) == 0);
                        assert(before.len() == THREADS_MAX && orig.len() == THREADS_MAX);
                        assert forall|i: int| 0 <= i < THREADS_MAX implies #[trigger] before[i] == prefix_woken(orig, oflags, curr, now, idx as int)[i] by {
                            assert(before[i] == if i < idx && i != curr {
                                woken(orig[i], oflags[i], now, floor_of(pb0))
                            } else {
                                orig[i]
                            });
                        }
                        assert(before =~= prefix_woken(orig, oflags, curr, now, idx as int));
                    }
                }
                let w = self.threads.wake_if_due(idx, now, &mut pass_baseline, BONUS);
                proof {
                    if pb0 is None && pass_baseline is Some {
                        assert(is_first_due(orig, curr, now, idx as int));
                    }
                    assert forall|i: int| 0 <= i < THREADS_MAX implies (#[trigger] self.threads@[i] matches Some(t) ==> thread_ok(t)) by {
                        if i != idx {
                            assert(self.threads@[i] == before[i]);
                        }
                    }
                    lemma_consistent_frame(before, self.threads@, self.procs@);
                    assert forall|j: int| 0 <= j < THREADS_MAX && j < idx && j != curr implies #[trigger] woken(orig[j], oflags[j], now, floor_of(pb0)) == woken(orig[j], oflags[j], now, floor_of(pass_baseline)) by {
                        if pb0 is None {
                            assert(!due(orig[j], now));
                        }
                    }
                }
                match w {
                    Some((pass, _at, affinity)) => {
                        let bound_elsewhere = match affinity {
                            Some(a) => a as usize != hart,
                            None => true,
                        };
                        match self.threads.get(other_curr) {
                            Some(o) => {
                                if o.pass >= pass && bound_elsewhere {
                                    kick = true;
                                }
                            },
                            None => {},
                        }
                    },
                    None => {},
                }
                let ghost mid = self.threads@;
                if self.take_wakeup_flag(idx) {
                    if self.wake_by_index(hart, idx) {
                        kick = true;
                    }
                }
                proof {
                    assert(self.threads@[idx as int] == woken(orig[idx as int], oflags[idx as int], now, floor_of(pass_baseline)));
                    assert(self.cpus@[hart as int].needs_reschedule == (c_in[hart as int].needs_reschedule
                        || flag_wake_here(orig, oflags, curr, now, hart, idx as int)));
                    assert((exists|j: int| 0 <= j < idx + 1 && #[trigger] flag_wake_here(orig, oflags, curr, now, hart, j))
                        == ((exists|j: int| 0 <= j < idx && #[trigger] flag_wake_here(orig, oflags, curr, now, hart, j))
                        || flag_wake_here(orig, oflags, curr, now, hart, idx as int)));
                }
            }
            proof {
                lemma_kick_step(orig, oflags, t_in, self.threads@, curr, other_curr, hart, now, idx as int, kick_in, kick);
            }
            idx = idx + 1;
        }
        proof {
            reveal(wake_kicks);
        }
        let contention = self.threads.is_under_contention();
        assert(wake_result(old(self).threads@, old(self).needs_wakeup@, old(self).curr(hart), now, floor_of(pass_baseline), self.threads@));
        proof {
            match pass_baseline {
                Some(b) => {
                    let k = choose|k: int| k < THREADS_MAX && #[trigger] is_first_due(orig, curr, now, k)
                        && b == crate::threads::spec_pass_baseline(prefix_woken(orig, oflags, curr, now, k));
                    let k2 = choose|k: int| #[trigger] is_first_due(orig, curr, now, k);
                    lemma_first_due_unique(orig, curr, now, k, k2);
                },
                None => {
                    assert(!exists|k: int| #[trigger] is_first_due(orig, curr, now, k));
                },
            }
            assert(floor_of(pass_baseline) == wake_floor(orig, oflags, curr, now));
            assert(self.cpus@ =~= wake_resched(old(self).cpus@, orig, oflags, curr, now, hart));
        }
        (contention, kick)
    }
}

/// The table after the slice of the thread in slot `c` ends at `now`.
pub open spec fn after_slice(s: Seq<Option<ThreadControlBlock>>, c: usize, now: u64) -> Seq<Option<ThreadControlBlock>> {
    let t = s[c as int]->0;
    let ran = (now - t.last_started_cycles) as u64;
    s.update(
        c as int,
        Some(ThreadControlBlock {
            pass: t.pass.saturating_add(spec_saturating_mul(ran, t.priority as u64)),
            last_started_cycles: now,
            ..t
        }),
    )
}

/// The table after switching from slot `c`, which goes to state `cs`, to
/// slot `n`, which runs from `now`.
pub open spec fn switched(s: Seq<Option<ThreadControlBlock>>, c: usize, n: usize, cs: State, now: u64) -> Seq<Option<ThreadControlBlock>> {
    s.update(c as int, Some(with_state(s[c as int]->0, cs))).update(
        n as int,
        Some(ThreadControlBlock { state: State::Running, last_started_cycles: now, ..s[n as int]->0 }),
    )
}

/// The end of a slice started at `now`, or never if no thread contends.
pub open spec fn slice_end(s: Seq<Option<ThreadControlBlock>>, now: u64) -> u64 {
    if any_ready(s) {
        (now + SLICE) as u64
    } else {
        u64::MAX
    }
}

/// When the timer should next fire: the slice end, or the soonest wake-up
/// owed if that is earlier.
pub open spec fn timer_value(s: Seq<Option<ThreadControlBlock>>, now: u64) -> u64 {
    match min_wake(s) {
        Some(b) => if slice_end(s, now) <= b {
            slice_end(s, now)
        } else {
            b
        },
        None => slice_end(s, now),
    }
}

/// Table `b` is table `a` with sleeping deadlines coalesced onto the
/// soonest wake-up.
pub open spec fn timer_table(a: Seq<Option<ThreadControlBlock>>, b: Seq<Option<ThreadControlBlock>>) -> bool {
    &&& b.len() == a.len()
    &&& forall|i: int|
        0 <= i < a.len() ==> match #[trigger] a[i] {
            Some(t) => b[i] matches Some(u) && same_but_state(u, t) && u.state == match min_wake(a) {
                Some(w) => coalesced_state(t.state, w),
                None => t.state,
            },
            None => b[i] is None,
        }
}

/// The wake-up flags after a scan that skipped slot `c`.
pub open spec fn wake_flags(f0: Seq<bool>, f1: Seq<bool>, c: usize) -> bool {
    &&& f1.len() == f0.len()
    &&& forall|i: int| 0 <= i < f0.len() ==> #[trigger] f1[i] == (i == c && f0[i])
}

/// Whether switch `pk` goes to slot `n`.
pub open spec fn goes_to(pk: Option<(usize, usize)>, n: usize) -> bool {
    match pk {
        Some((_, m)) => m == n,
        None => false,
    }
}

/// The end of a scheduling pass on `hart` from table `w` and records `cw`:
/// either it stays on its thread, or it switches to the picked slot with
/// the thread it leaves going to `cs`; then the timer is programmed.
/// When `is_yield`, a switch to the idle thread is not made.
pub open spec fn tail(
    w: Seq<Option<ThreadControlBlock>>,
    cw: Seq<PerCpu>,
    hart: usize,
    now: u64,
    fairer: bool,
    is_yield: bool,
    cs: State,
    s1: Seq<Option<ThreadControlBlock>>,
    c1: Seq<PerCpu>,
    timer: Option<u64>,
    switch: Option<(usize, usize)>,
) -> bool {
    let pk = next_in(w, cw, hart, fairer);
    let pk2 = if is_yield && goes_to(pk, cw[hart as int].idle_thread_idx) {
        None
    } else {
        pk
    };
    match pk2 {
        None => timer_table(w, s1) && timer == Some(timer_value(w, now)) && switch is None && c1 == cw,
        Some((cc, n)) => {
            let sw = switched(w, cc, n, cs, now);
            &&& timer_table(sw, s1)
            &&& timer == Some(timer_value(sw, now))
            &&& switch == Some((cc, n))
            &&& c1 == activated(cw, hart, n, Some(cc), w[n as int]->0.kernel_stack.base)
        },
    }
}

/// What a voluntary reschedule on `hart` at `now` does, from table `s0`,
/// records `c0` and flags `f0` to `s1`, `c1`, `f1`: it clears the
/// reschedule request and ends the slice of the thread it runs; if that
/// thread is no longer in `current_state` (when given) it keeps running;
/// otherwise it wakes what is due and switches to the pick, the thread it
/// leaves going to `new_state`, or to a forced exit if it was marked for
/// one. A yield does not give way to the idle thread.
pub open spec fn rescheduled(
    s0: Seq<Option<ThreadControlBlock>>,
    c0: Seq<PerCpu>,
    f0: Seq<bool>,
    s1: Seq<Option<ThreadControlBlock>>,
    c1: Seq<PerCpu>,
    f1: Seq<bool>,
    hart: usize,
    now: u64,
    current_state: Option<State>,
    new_state: PostSwitch,
    kick: bool,
    timer: Option<u64>,
    switch: Option<(usize, usize)>,
) -> bool {
    let c = c0[hart as int].current_thread_idx;
    let sa = after_slice(s0, c, now);
    let ca = c0.update(hart as int, PerCpu { needs_reschedule: false, ..c0[hart as int] });
    if current_state is Some && sa[c as int]->0.state != current_state->0 {
        &&& s1 == sa.update(c as int, Some(with_state(sa[c as int]->0, State::Running)))
        &&& c1 == ca
        &&& f1 == f0
        &&& !kick
        &&& timer is None
        &&& switch is None
    } else {
        exists|w: Seq<Option<ThreadControlBlock>>|
            #[trigger] wake_result(sa, f0, c, now, wake_floor(sa, f0, c, now), w)
            && wake_flags(f0, f1, c) && kick == wake_kicks(sa, f0, w, c, c0[other(hart) as int].current_thread_idx, hart, now)
            && tail(
                w,
                wake_resched(ca, sa, f0, c, now, hart),
                hart,
                now,
                false,
                new_state == PostSwitch::Ready && !w[c as int]->0.marked_for_exit,
                if w[c as int]->0.marked_for_exit {
                    State::Switching(PostSwitch::Dead(ExitReason::Fault))
                } else {
                    State::Switching(new_state)
                },
                s1,
                c1,
                timer,
                switch,
            )
    }
}

impl Scheduler {
    /// Works out when the timer should next fire, coalescing sleeping
    /// deadlines onto the soonest wake-up owed.
    pub fn timer_deadline(&mut self, now: u64) -> (r: u64)
        requires
            old(self).wf(),
            now + SLICE <= u64::MAX,
        ensures
            final(self).wf(),
            r == timer_value(old(self).threads@, now),
            timer_table(old(self).threads@, final(self).threads@),
            final(self).procs@ == old(self).procs@,
            final(self).next_thread_id == old(self).next_thread_id,
            final(self).next_pid == old(self).next_pid,
            final(self).cpus@ == old(self).cpus@,
            final(self).needs_wakeup@ == old(self).needs_wakeup@,
            final(self).run_cycles@ == old(self).run_cycles@,
    {
        let ghost before = self.threads@;
        let r = self.threads.next_timer_deadline(SLICE, now);
        proof {
            assert forall|i: int| 0 <= i < THREADS_MAX implies (#[trigger] self.threads@[i] matches Some(t) ==> thread_ok(t)) by {
                if before[i] is Some {
                    assert(thread_ok(before[i]->0));
                }
            }
            lemma_consistent_frame(before, self.threads@, self.procs@);
        }
        r
    }

    /// Switches from slot `c`, which goes to state `cs`, to slot `n`, which
    /// runs from `now`.
    fn switch_threads(&mut self, c: usize, n: usize, cs: State, now: u64)
        requires
            old(self).wf(),
            c < THREADS_MAX,
            n < THREADS_MAX,
            c != n,
            old(self).threads@[c as int] is Some,
            old(self).threads@[n as int] is Some,
        ensures
            final(self).wf(),
            final(self).threads@ == switched(old(self).threads@, c, n, cs, now),
            final(self).procs@ == old(self).procs@,
            final(self).next_thread_id == old(self).next_thread_id,
            final(self).next_pid == old(self).next_pid,
            final(self).cpus@ == old(self).cpus@,
            final(self).needs_wakeup@ == old(self).needs_wakeup@,
            final(self).run_cycles@ == old(self).run_cycles@,
    {
        let ghost before = self.threads@;
        match self.threads.get_mut(c) {
            Some(t) => {
                t.state = cs;
            },
            None => {},
        }
        let ghost mid = self.threads@;
        match self.threads.get_mut(n) {
            Some(t) => {
                t.state = State::Running;
                t.last_started_cycles = now;
            },
            None => {},
        }
        proof {
            lemma_consistent_frame(before, mid, self.procs@);
            lemma_consistent_frame(mid, self.threads@, self.procs@);
            assert(self.threads@ =~= switched(before, c, n, cs, now));
        }
    }

    /// Ends a scheduling pass on `hart`: makes the switch `pick` (the thread
    /// left going to `cs`) if there is one, and programs the timer.
    fn commit(&mut self, hart: usize, now: u64, pick: Option<(usize, usize)>, cs: State) -> (e: Effects)
        requires
            old(self).wf(),
            hart < HARTS_MAX,
            now + SLICE <= u64::MAX,
            pick matches Some((c, n)) ==> c < THREADS_MAX && n < THREADS_MAX && c != n
                && old(self).threads@[c as int] is Some && old(self).threads@[n as int] is Some,
        ensures
            final(self).wf(),
            !e.kick_other,
            final(self).procs@ == old(self).procs@,
            final(self).next_thread_id == old(self).next_thread_id,
            final(self).next_pid == old(self).next_pid,
            final(self).needs_wakeup@ == old(self).needs_wakeup@,
            match pick {
                None => {
                    &&& timer_table(old(self).threads@, final(self).threads@)
                    &&& e.timer == Some(timer_value(old(self).threads@, now))
                    &&& e.switch is None
                    &&& e.pmp is None
                    &&& e.trap_stack is None
                    &&& final(self).cpus@ == old(self).cpus@
                },
                Some((c, n)) => {
                    let sw = switched(old(self).threads@, c, n, cs, now);
                    &&& timer_table(sw, final(self).threads@)
                    &&& e.timer == Some(timer_value(sw, now))
                    &&& e.switch == Some((c, n))
                    &&& final(self).cpus@ == activated(old(self).cpus@, hart, n, Some(c), old(self).threads@[n as int]->0.kernel_stack.base)
                    &&& match old(self).threads@[n as int]->0.user {
                        Some(u) => e.pmp matches Some(v) && v@ == crate::usermem::pmp_of(
                            old(self).procs@[u.process_idx as int]->0.mem_map@,
                            u.user_stack,
                        ) && e.trap_stack == Some(stack_top(old(self).threads@[n as int]->0.kernel_stack)),
                        None => e.pmp is None && e.trap_stack is None,
                    }
                },
            },
    {
        match pick {
            None => {
                let timer = self.timer_deadline(now);
                Effects { kick_other: false, timer: Some(timer), switch: None, pmp: None, trap_stack: None }
            },
            Some((c, n)) => {
                self.switch_threads(c, n, cs, now);
                let (pmp, trap_stack) = self.activate_thread(hart, n, Some(c));
                let timer = self.timer_deadline(now);
                Effects { kick_other: false, timer: Some(timer), switch: Some((c, n)), pmp, trap_stack }
            },
        }
    }

    /// Reschedules `hart` voluntarily at `now`: see `rescheduled`. The
    /// thread it runs goes to `new_state` once switched out; when
    /// `current_state` is given and that thread is no longer in it (a
    /// racing wake-up), it keeps running instead.
    #[verifier::rlimit(40)]
    pub fn reschedule(&mut self, hart: usize, now: u64, current_state: Option<State>, new_state: PostSwitch) -> (e: Effects)
        requires
            old(self).wf(),
            hart < HARTS_MAX,
            old(self).has_current(hart),
            old(self).threads@[old(self).cpus@[hart as int].idle_thread_idx as int] is Some,
            now >= old(self).threads@[old(self).curr(hart) as int]->0.last_started_cycles,
            now + SLICE <= u64::MAX,
        ensures
            final(self).wf(),
            rescheduled(
                old(self).threads@,
                old(self).cpus@,
                old(self).needs_wakeup@,
                final(self).threads@,
                final(self).cpus@,
                final(self).needs_wakeup@,
                hart,
                now,
                current_state,
                new_state,
                e.kick_other,
                e.timer,
                e.switch,
            ),
            final(self).procs@ == old(self).procs@,
            final(self).next_thread_id == old(self).next_thread_id,
            final(self).next_pid == old(self).next_pid,
            switch_context(old(self).threads@, old(self).procs@, e.switch, e.pmp, e.trap_stack),
    {
        let _ = take_needs_reschedule(&mut self.cpus, hart);
        self.slice_ended(hart, now);
        let curr = current_thread_idx(&self.cpus, hart);
        let ghost sa = self.threads@;
        let ghost ca = self.cpus@;
        assert(sa == after_slice(old(self).threads@, curr, now));
        match current_state {
            Some(st) => {
                let mismatch = match self.threads.get(curr) {
                    Some(t) => t.state != st,
                    None => false,
                };
                if mismatch {
                    self.set_current_state(hart, State::Running);
                    return Effects { kick_other: false, timer: None, switch: None, pmp: None, trap_stack: None };
                }
            },
            None => {},
        }
        let (_, kick) = self.wake_sleeping_threads(hart, now);
        let ghost w = self.threads@;
        let ghost cw = self.cpus@;
        let ghost floor = wake_floor(sa, old(self).needs_wakeup@, curr, now);
        let idle = idle_thread_idx(&self.cpus, hart);
        let marked = match self.threads.get(curr) {
            Some(t) => t.marked_for_exit,
            None => false,
        };
        let is_yield = matches!(new_state, PostSwitch::Ready) && !marked;
        let mut pick = self.pick_next(hart, false);
        if is_yield {
            match pick {
                Some((_, n)) => {
                    if n == idle {
                        pick = None;
                    }
                },
                None => {},
            }
        }
        let cs = if marked {
            State::Switching(PostSwitch::Dead(ExitReason::Fault))
        } else {
            State::Switching(new_state)
        };
        proof {
            assert(w[curr as int] == sa[curr as int]);
            let idle_i = cw[hart as int].idle_thread_idx as int;
            assert(w[idle_i] == if idle_i == curr { sa[idle_i] } else { woken(sa[idle_i], old(self).needs_wakeup@[idle_i], now, floor) });
            match pick {
                Some((c, n)) => {
                    if n != idle {
                        let k = pick_in(w, cw, hart, false)->0;
                        assert(is_pick(w, cw, hart, curr, k as int, false));
                    }
                },
                None => {},
            }
        }
        let mut e = self.commit(hart, now, pick, cs);
        e.kick_other = kick;
        proof {
            assert(wake_result(sa, old(self).needs_wakeup@, curr, now, floor, w) && cw == wake_resched(ca, sa, old(self).needs_wakeup@, curr, now, hart));
            match pick {
                Some((c, n)) => {
                    assert(w[n as int]->0.user == old(self).threads@[n as int]->0.user);
                    assert(w[n as int]->0.kernel_stack == old(self).threads@[n as int]->0.kernel_stack);
                },
                None => {},
            }
        }
        e
    }
}

/// What a preemptive scheduling pass on `hart` at `now` does: nothing
/// unless a reschedule was requested; otherwise it clears the request and
/// ends the running slice; a thread marked for exit then exits as by a
/// voluntary reschedule; any other wakes what is due and switches to the
/// pick, the running thread competing too and going back to ready when it
/// loses.
pub open spec fn scheduled(
    s0: Seq<Option<ThreadControlBlock>>,
    c0: Seq<PerCpu>,
    f0: Seq<bool>,
    s1: Seq<Option<ThreadControlBlock>>,
    c1: Seq<PerCpu>,
    f1: Seq<bool>,
    hart: usize,
    now: u64,
    kick: bool,
    timer: Option<u64>,
    switch: Option<(usize, usize)>,
) -> bool {
    if !c0[hart as int].needs_reschedule {
        &&& s1 == s0
        &&& c1 == c0
        &&& f1 == f0
        &&& !kick
        &&& timer is None
        &&& switch is None
    } else {
        let c = c0[hart as int].current_thread_idx;
        let sa = after_slice(s0, c, now);
        let ca = c0.update(hart as int, PerCpu { needs_reschedule: false, ..c0[hart as int] });
        if sa[c as int]->0.marked_for_exit {
            rescheduled(sa, ca, f0, s1, c1, f1, hart, now, None, PostSwitch::Dead(ExitReason::Fault), kick, timer, switch)
        } else {
            exists|w: Seq<Option<ThreadControlBlock>>|
                #[trigger] wake_result(sa, f0, c, now, wake_floor(sa, f0, c, now), w)
                && wake_flags(f0, f1, c) && kick == wake_kicks(sa, f0, w, c, c0[other(hart) as int].current_thread_idx, hart, now)
                && tail(w, wake_resched(ca, sa, f0, c, now, hart), hart, now, true, false, State::Switching(PostSwitch::Ready), s1, c1, timer, switch)
        }
    }
}

/// The thread id after `id`, wrapping.
pub open spec fn next_id(id: u16) -> u16 {
    if id == u16::MAX {
        0
    } else {
        (id + 1) as u16
    }
}

/// Replacing a slot that holds no user thread by another such slot keeps
/// the process agreement.
pub proof fn lemma_consistent_kernel_update(
    a: Seq<Option<ThreadControlBlock>>,
    i: int,
    v: Option<ThreadControlBlock>,
    procs: Seq<Option<crate::process::ControlBlock>>,
)
    requires
        0 <= i < a.len(),
        !(a[i] matches Some(t) && t.user is Some),
        !(v matches Some(t) && t.user is Some),
        forall|p: int| 0 <= p < MAX ==> #[trigger] process_consistent(a, procs, p),
    ensures
        forall|p: int| 0 <= p < MAX ==> #[trigger] process_consistent(a.update(i, v), procs, p),
{
    assert forall|p: int| 0 <= p < MAX implies #[trigger] process_consistent(a.update(i, v), procs, p) by {
        lemma_pcount_update(a, i, v, p);
        assert(process_consistent(a, procs, p));
    }
}

impl Scheduler {
    /// A preemptive scheduling pass on `hart` at `now`: see `scheduled`.
    pub fn schedule(&mut self, hart: usize, now: u64) -> (e: Effects)
        requires
            old(self).wf(),
            hart < HARTS_MAX,
            old(self).has_current(hart),
            old(self).threads@[old(self).cpus@[hart as int].idle_thread_idx as int] is Some,
            now >= old(self).threads@[old(self).curr(hart) as int]->0.last_started_cycles,
            now + SLICE <= u64::MAX,
        ensures
            final(self).wf(),
            scheduled(
                old(self).threads@,
                old(self).cpus@,
                old(self).needs_wakeup@,
                final(self).threads@,
                final(self).cpus@,
                final(self).needs_wakeup@,
                hart,
                now,
                e.kick_other,
                e.timer,
                e.switch,
            ),
            final(self).procs@ == old(self).procs@,
            final(self).next_thread_id == old(self).next_thread_id,
            final(self).next_pid == old(self).next_pid,
            switch_context(old(self).threads@, old(self).procs@, e.switch, e.pmp, e.trap_stack),
    {
        if !take_needs_reschedule(&mut self.cpus, hart) {
            assert(self.cpus@ =~= old(self).cpus@);
            return Effects { kick_other: false, timer: None, switch: None, pmp: None, trap_stack: None };
        }
        self.slice_ended(hart, now);
        let curr = current_thread_idx(&self.cpus, hart);
        let ghost sa = self.threads@;
        let ghost ca = self.cpus@;
        let marked = match self.threads.get(curr) {
            Some(t) => t.marked_for_exit,
            None => false,
        };
        if marked {
            let e = self.reschedule(hart, now, None, PostSwitch::Dead(ExitReason::Fault));
            proof {
                match e.switch {
                    Some((_, n)) => {
                        assert(sa[n as int]->0.user == old(self).threads@[n as int]->0.user);
                    },
                    None => {},
                }
            }
            return e;
        }
        let (_, kick) = self.wake_sleeping_threads(hart, now);
        let ghost w = self.threads@;
        let ghost cw = self.cpus@;
        let ghost floor = wake_floor(sa, old(self).needs_wakeup@, curr, now);
        let pick = self.pick_next(hart, true);
        proof {
            assert(w[curr as int] == sa[curr as int]);
            let idle_i = cw[hart as int].idle_thread_idx as int;
            assert(w[idle_i] == if idle_i == curr { sa[idle_i] } else { woken(sa[idle_i], old(self).needs_wakeup@[idle_i], now, floor) });
            match pick {
                Some((c, n)) => {
                    if n != cw[hart as int].idle_thread_idx {
                        let k = pick_in(w, cw, hart, true)->0;
                        assert(is_pick(w, cw, hart, curr, k as int, true));
                    }
                },
                None => {},
            }
        }
        let mut e = self.commit(hart, now, pick, State::Switching(PostSwitch::Ready));
        e.kick_other = kick;
        proof {
            assert(wake_result(sa, old(self).needs_wakeup@, curr, now, floor, w) && cw == wake_resched(ca, sa, old(self).needs_wakeup@, curr, now, hart));
            match pick {
                Some((c, n)) => {
                    assert(w[n as int]->0.user == old(self).threads@[n as int]->0.user);
                    assert(w[n as int]->0.kernel_stack == old(self).threads@[n as int]->0.kernel_stack);
                },
                None => {},
            }
        }
        e
    }

    /// Asks `hart` to reschedule and returns the timer deadline to set
    /// meanwhile: a slice from `now`, so the timer does not fire again
    /// before the scheduler has run.
    pub fn mark_for_preempt(&mut self, hart: usize, now: u64) -> (r: u64)
        requires
            old(self).wf(),
            hart < HARTS_MAX,
            now + SLICE <= u64::MAX,
        ensures
            final(self).wf(),
            r == now + SLICE,
            final(self).cpus@ == old(self).cpus@.update(hart as int, PerCpu { needs_reschedule: true, ..old(self).cpus@[hart as int] }),
            final(self).threads@ == old(self).threads@,
            final(self).procs@ == old(self).procs@,
            final(self).next_thread_id == old(self).next_thread_id,
            final(self).next_pid == old(self).next_pid,
            final(self).needs_wakeup@ == old(self).needs_wakeup@,
            final(self).run_cycles@ == old(self).run_cycles@,
    {
        set_needs_reschedule(&mut self.cpus, hart);
        now + SLICE
    }

    /// Sets up the idle thread of `hart` on the fixed 2 KiB stack at
    /// `idle_stack_base` and makes it the thread `hart` runs. A slot must
    /// be free.
    pub fn bootstrap(&mut self, hart: usize, idle_stack_base: usize, now: u64)
        requires
            old(self).wf(),
            hart < HARTS_MAX,
            first_empty(old(self).threads@, 0) < THREADS_MAX,
            idle_stack_base > 0,
            idle_stack_base as nat % Order::KB2.spec_size() == 0,
            idle_stack_base + Order::KB2.spec_size() <= usize::MAX,
        ensures
            final(self).wf(),
            ({
                let i = first_empty(old(self).threads@, 0) as int;
                let stack = MemRegion { base: idle_stack_base, order: Order::KB2, dealloc_pool: None };
                &&& final(self).threads@ == old(self).threads@.update(
                    i,
                    Some(ThreadControlBlock {
                        id: old(self).next_thread_id,
                        state: State::Ready,
                        kernel_stack: stack,
                        sp: (idle_stack_base + Order::KB2.spec_size()) as usize,
                        qos: Qos::Low,
                        priority: PRIORITY_MIN,
                        affinity: None,
                        user: None,
                        pass: spec_pass_baseline(old(self).threads@),
                        last_started_cycles: now,
                        next_waiter: None,
                        marked_for_exit: false,
                        resources_released: false,
                        ready_since: now,
                    }),
                )
                &&& final(self).cpus@ == activated(
                    old(self).cpus@.update(hart as int, PerCpu { idle_thread_idx: i as usize, ..old(self).cpus@[hart as int] }),
                    hart,
                    i as usize,
                    None,
                    idle_stack_base,
                )
                &&& final(self).needs_wakeup@ == old(self).needs_wakeup@.update(i, false)
            }),
            final(self).next_thread_id == next_id(old(self).next_thread_id),
            final(self).procs@ == old(self).procs@,
            final(self).next_pid == old(self).next_pid,
            final(self).run_cycles@ == old(self).run_cycles@,
    {
        let stack = MemRegion::from_fixed(idle_stack_base, Order::KB2);
        let sp = stack.top();
        let spec = ThreadControlBlockSpec {
            kernel_stack: stack,
            qos: Qos::Low,
            priority: PRIORITY_MIN,
            affinity: None,
            user: None,
        };
        let id = self.next_thread_id;
        let ghost before = self.threads@;
        let handle = self.threads.acquire(sp, spec, id, now);
        self.next_thread_id = if id == u16::MAX { 0 } else { id + 1 };
        proof {
            let i = first_empty(before, 0) as int;
            assert(before[i] is None) by {
                Threads::lemma_first_empty_bound(before, 0);
            }
            lemma_consistent_kernel_update(before, i, self.threads@[i], self.procs@);
            assert(self.threads@ =~= before.update(i, self.threads@[i]));
        }
        match handle {
            Some(h) => {
                set_idle_thread_idx(&mut self.cpus, hart, h.idx);
                self.needs_wakeup.set(h.idx, false);
                let _ = self.activate_thread(hart, h.idx, None);
            },
            None => {},
        }
    }

    /// Yields `hart` to another ready thread, if any.
    pub fn yield_now(&mut self, hart: usize, now: u64) -> (e: Effects)
        requires
            old(self).wf(),
            hart < HARTS_MAX,
            old(self).has_current(hart),
            old(self).threads@[old(self).cpus@[hart as int].idle_thread_idx as int] is Some,
            now >= old(self).threads@[old(self).curr(hart) as int]->0.last_started_cycles,
            now + SLICE <= u64::MAX,
        ensures
            final(self).wf(),
            rescheduled(old(self).threads@, old(self).cpus@, old(self).needs_wakeup@, final(self).threads@, final(self).cpus@, final(self).needs_wakeup@, hart, now, None, PostSwitch::Ready, e.kick_other, e.timer, e.switch),
            switch_context(old(self).threads@, old(self).procs@, e.switch, e.pmp, e.trap_stack),
            final(self).procs@ == old(self).procs@,
            final(self).next_thread_id == old(self).next_thread_id,
            final(self).next_pid == old(self).next_pid,
    {
        self.reschedule(hart, now, None, PostSwitch::Ready)
    }

    /// Puts the thread `hart` runs to sleep until `deadline`.
    pub fn sleep_until(&mut self, hart: usize, now: u64, deadline: Deadline) -> (e: Effects)
        requires
            old(self).wf(),
            hart < HARTS_MAX,
            old(self).has_current(hart),
            old(self).threads@[old(self).cpus@[hart as int].idle_thread_idx as int] is Some,
            now >= old(self).threads@[old(self).curr(hart) as int]->0.last_started_cycles,
            now + SLICE <= u64::MAX,
        ensures
            final(self).wf(),
            rescheduled(old(self).threads@, old(self).cpus@, old(self).needs_wakeup@, final(self).threads@, final(self).cpus@, final(self).needs_wakeup@, hart, now, None, PostSwitch::Sleeping(deadline), e.kick_other, e.timer, e.switch),
            switch_context(old(self).threads@, old(self).procs@, e.switch, e.pmp, e.trap_stack),
            final(self).procs@ == old(self).procs@,
            final(self).next_thread_id == old(self).next_thread_id,
            final(self).next_pid == old(self).next_pid,
    {
        self.reschedule(hart, now, None, PostSwitch::Sleeping(deadline))
    }

    /// Ends the thread `hart` runs for `reason`. The hart must switch away;
    /// if no switch is returned there was no thread to switch to.
    pub fn exit(&mut self, hart: usize, now: u64, reason: ExitReason) -> (e: Effects)
        requires
            old(self).wf(),
            hart < HARTS_MAX,
            old(self).has_current(hart),
            old(self).threads@[old(self).cpus@[hart as int].idle_thread_idx as int] is Some,
            now >= old(self).threads@[old(self).curr(hart) as int]->0.last_started_cycles,
            now + SLICE <= u64::MAX,
        ensures
            final(self).wf(),
            rescheduled(old(self).threads@, old(self).cpus@, old(self).needs_wakeup@, final(self).threads@, final(self).cpus@, final(self).needs_wakeup@, hart, now, None, PostSwitch::Dead(reason), e.kick_other, e.timer, e.switch),
            switch_context(old(self).threads@, old(self).procs@, e.switch, e.pmp, e.trap_stack),
            final(self).procs@ == old(self).procs@,
            final(self).next_thread_id == old(self).next_thread_id,
            final(self).next_pid == old(self).next_pid,
    {
        self.reschedule(hart, now, None, PostSwitch::Dead(reason))
    }

    /// Parks the thread `hart` runs: it blocks until woken.
    pub fn park(&mut self, hart: usize, now: u64) -> (e: Effects)
        requires
            old(self).wf(),
            hart < HARTS_MAX,
            old(self).has_current(hart),
            old(self).threads@[old(self).cpus@[hart as int].idle_thread_idx as int] is Some,
            now >= old(self).threads@[old(self).curr(hart) as int]->0.last_started_cycles,
            now + SLICE <= u64::MAX,
        ensures
            final(self).wf(),
            rescheduled(old(self).threads@, old(self).cpus@, old(self).needs_wakeup@, final(self).threads@, final(self).cpus@, final(self).needs_wakeup@, hart, now, None, PostSwitch::Blocked, e.kick_other, e.timer, e.switch),
            switch_context(old(self).threads@, old(self).procs@, e.switch, e.pmp, e.trap_stack),
            final(self).procs@ == old(self).procs@,
            final(self).next_thread_id == old(self).next_thread_id,
            final(self).next_pid == old(self).next_pid,
    {
        self.reschedule(hart, now, None, PostSwitch::Blocked)
    }

    /// Parks the thread `hart` runs if it is still blocked; a wake-up that
    /// came first leaves it running.
    pub fn park_if_blocked(&mut self, hart: usize, now: u64) -> (e: Effects)
        requires
            old(self).wf(),
            hart < HARTS_MAX,
            old(self).has_current(hart),
            old(self).threads@[old(self).cpus@[hart as int].idle_thread_idx as int] is Some,
            now >= old(self).threads@[old(self).curr(hart) as int]->0.last_started_cycles,
            now + SLICE <= u64::MAX,
        ensures
            final(self).wf(),
            rescheduled(old(self).threads@, old(self).cpus@, old(self).needs_wakeup@, final(self).threads@, final(self).cpus@, final(self).needs_wakeup@, hart, now, Some(State::Blocked), PostSwitch::Blocked, e.kick_other, e.timer, e.switch),
            switch_context(old(self).threads@, old(self).procs@, e.switch, e.pmp, e.trap_stack),
            final(self).procs@ == old(self).procs@,
            final(self).next_thread_id == old(self).next_thread_id,
            final(self).next_pid == old(self).next_pid,
    {
        self.reschedule(hart, now, Some(State::Blocked), PostSwitch::Blocked)
    }

    /// Parks the thread `hart` runs until `deadline` if it is still blocked
    /// until that deadline.
    pub fn park_if_blocked_until(&mut self, hart: usize, now: u64, deadline: Deadline) -> (e: Effects)
        requires
            old(self).wf(),
            hart < HARTS_MAX,
            old(self).has_current(hart),
            old(self).threads@[old(self).cpus@[hart as int].idle_thread_idx as int] is Some,
            now >= old(self).threads@[old(self).curr(hart) as int]->0.last_started_cycles,
            now + SLICE <= u64::MAX,
        ensures
            final(self).wf(),
            rescheduled(old(self).threads@, old(self).cpus@, old(self).needs_wakeup@, final(self).threads@, final(self).cpus@, final(self).needs_wakeup@, hart, now, Some(State::BlockedUntil(deadline)), PostSwitch::BlockedUntil(deadline), e.kick_other, e.timer, e.switch),
            switch_context(old(self).threads@, old(self).procs@, e.switch, e.pmp, e.trap_stack),
            final(self).procs@ == old(self).procs@,
            final(self).next_thread_id == old(self).next_thread_id,
            final(self).next_pid == old(self).next_pid,
    {
        self.reschedule(hart, now, Some(State::BlockedUntil(deadline)), PostSwitch::BlockedUntil(deadline))
    }
}

/// What evicting a sibling of a faulting thread does to it: a blocked
/// thread is marked for exit and made ready so it can run to its exit; a
/// ready or sleeping thread is removed at once; a running one (on the other
/// hart) is marked for exit; one switching out will be dead once out.
pub open spec fn evicted(t: ThreadControlBlock, reason: ExitReason) -> Option<ThreadControlBlock> {
    match t.state {
        State::Blocked => Some(ThreadControlBlock { state: State::Ready, marked_for_exit: true, ..t }),
        State::BlockedUntil(_) => Some(ThreadControlBlock { state: State::Ready, marked_for_exit: true, ..t }),
        State::Ready => None,
        State::Sleeping(_) => None,
        State::Running => Some(ThreadControlBlock { marked_for_exit: true, ..t }),
        State::Switching(_) => Some(with_state(t, State::Switching(PostSwitch::Dead(reason)))),
    }
}

/// Whether evicting slot `i` from process `p` (all but slot `surv`) on
/// `hart` asks for the other hart to be interrupted: a sibling running
/// there, or a blocked sibling bound to another hart that is made ready.
pub open spec fn evict_kick(before: Seq<Option<ThreadControlBlock>>, p: int, surv: usize, hart: usize, i: int) -> bool {
    &&& i != surv
    &&& in_process(before[i], p)
    &&& (before[i]->0.state == State::Running || ((before[i]->0.state == State::Blocked || before[i]->0.state is BlockedUntil)
        && bound_elsewhere(before[i]->0.affinity, hart)))
}

/// Table `after` is table `before` with the threads of process `p` other
/// than slot `surv` evicted.
pub open spec fn evict_result(
    before: Seq<Option<ThreadControlBlock>>,
    after: Seq<Option<ThreadControlBlock>>,
    p: int,
    surv: usize,
    reason: ExitReason,
) -> bool {
    &&& after.len() == before.len()
    &&& forall|i: int|
        0 <= i < before.len() ==> #[trigger] after[i] == if i != surv && in_process(before[i], p) {
            evicted(before[i]->0, reason)
        } else {
            before[i]
        }
}

/// Two process records agree on everything but the thread count.
/// The wake-up flags `b` are `a` after the thread in slot `f` of process
/// `p` left for `reason`: its flag and those of the siblings a fault evicts
/// (ready or sleeping) are lowered, and the process's teardown thread `td`,
/// if another, is flagged to wake.
pub open spec fn flags_released(
    a: Seq<bool>,
    b: Seq<bool>,
    threads: Seq<Option<ThreadControlBlock>>,
    p: int,
    f: int,
    reason: ExitReason,
    td: Option<usize>,
) -> bool {
    &&& b.len() == a.len()
    &&& forall|i: int| 0 <= i < a.len() ==> #[trigger] b[i] == if i == f {
        false
    } else if td == Some(i as usize) {
        true
    } else if reason == ExitReason::Fault && in_process(threads[i], p) && removable(threads[i]) {
        false
    } else {
        a[i]
    }
}

/// The process table `b` is `a` after threads of process `p` were given
/// up: other processes are untouched, and `p`, if still there, differs only
/// in its thread count, which is not zero.
pub open spec fn procs_released(a: Seq<Option<crate::process::ControlBlock>>, b: Seq<Option<crate::process::ControlBlock>>, p: int) -> bool {
    &&& forall|q: int| 0 <= q < MAX && q != p ==> #[trigger] b[q] == a[q]
    &&& b[p] matches Some(x) ==> x.thread_count > 0 && a[p] is Some && same_but_count(x, a[p]->0)
}

pub open spec fn same_but_count(a: crate::process::ControlBlock, b: crate::process::ControlBlock) -> bool {
    &&& a.pid == b.pid
    &&& a.name == b.name
    &&& a.mem_map == b.mem_map
    &&& a.fds == b.fds
    &&& a.entry_ra == b.entry_ra
    &&& a.teardown_thread == b.teardown_thread
}

/// Whether slot `i` of `s` is in a state a sibling eviction removes.
pub open spec fn removable(slot: Option<ThreadControlBlock>) -> bool {
    slot matches Some(t) && (t.state == State::Ready || t.state is Sleeping)
}

impl Scheduler {
    /// Gives up one thread of process `p`, the thread in slot `thread_idx`,
    /// whose slot the caller empties: its wake-up flag is lowered, the
    /// process counts one thread fewer, the process's teardown thread (if
    /// another) is flagged to wake, and a process left with no threads is
    /// removed. Its descriptors must all be closed by then.
    pub fn release_process_thread(&mut self, p: u8, thread_idx: usize)
        requires
            old(self).wf_tables(),
            p < MAX,
            thread_idx < THREADS_MAX,
            old(self).procs@[p as int] matches Some(pcb) && pcb.thread_count > 0
                && (pcb.thread_count == 1 ==> crate::fd::all_closed(pcb.fds@)),
        ensures
            final(self).wf_tables(),
            final(self).threads@ == old(self).threads@,
            final(self).cpus@ == old(self).cpus@,
            final(self).run_cycles@ == old(self).run_cycles@,
            final(self).next_thread_id == old(self).next_thread_id,
            final(self).next_pid == old(self).next_pid,
            ({
                let pcb = old(self).procs@[p as int]->0;
                &&& final(self).procs@ == old(self).procs@.update(
                    p as int,
                    if pcb.thread_count == 1 {
                        None
                    } else {
                        Some(crate::process::ControlBlock { thread_count: (pcb.thread_count - 1) as u8, ..pcb })
                    },
                )
                &&& final(self).needs_wakeup@ == match pcb.teardown_thread {
                    Some(td) => if td != thread_idx && td < THREADS_MAX {
                        old(self).needs_wakeup@.update(thread_idx as int, false).update(td as int, true)
                    } else {
                        old(self).needs_wakeup@.update(thread_idx as int, false)
                    },
                    None => old(self).needs_wakeup@.update(thread_idx as int, false),
                }
            }),
    {
        self.needs_wakeup.set(thread_idx, false);
        let pi = p as usize;
        let taken = self.procs.replace(pi, None);
        match taken {
            Some(mut pcb) => {
                let count = pcb.dec_thread_count();
                match pcb.teardown_thread {
                    Some(td) => {
                        if td != thread_idx && td < THREADS_MAX {
                            self.needs_wakeup.set(td, true);
                        }
                    },
                    None => {},
                }
                if count != 0 {
                    let _ = self.procs.replace(pi, Some(pcb));
                } else {
                    assert(self.procs@ =~= old(self).procs@.update(p as int, None));
                }
            },
            None => {},
        }
    }

    /// Marks every thread of process `p` other than slot `surviving` for
    /// exit after a fault: see `evicted`. Removed threads are given up as
    /// by `release_process_thread`; woken threads bound to the other hart
    /// interrupt it, others ask `hart` to reschedule. Returns whether the
    /// other hart must be interrupted.
    pub fn evict_sibling_threads(&mut self, hart: usize, reason: ExitReason, p: u8, surviving: usize) -> (kick: bool)
        requires
            old(self).wf(),
            hart < HARTS_MAX,
            p < MAX,
            surviving < THREADS_MAX,
            in_process(old(self).threads@[surviving as int], p as int),
        ensures
            final(self).wf(),
            evict_result(old(self).threads@, final(self).threads@, p as int, surviving, reason),
            kick == exists|i: int| 0 <= i < THREADS_MAX && #[trigger] evict_kick(old(self).threads@, p as int, surviving, hart, i),
            forall|q: int| 0 <= q < MAX && q != p ==> #[trigger] final(self).procs@[q] == old(self).procs@[q],
            final(self).procs@[p as int] matches Some(b) && same_but_count(b, old(self).procs@[p as int]->0),
            forall|i: int| 0 <= i < THREADS_MAX && !(i != surviving && in_process(old(self).threads@[i], p as int) && removable(old(self).threads@[i])) && Some(i as usize) != old(self).procs@[p as int]->0.teardown_thread ==> #[trigger] final(self).needs_wakeup@[i] == old(self).needs_wakeup@[i],
            forall|i: int| 0 <= i < THREADS_MAX && i != surviving && in_process(old(self).threads@[i], p as int) && removable(old(self).threads@[i]) && Some(i as usize) != old(self).procs@[p as int]->0.teardown_thread ==> !#[trigger] final(self).needs_wakeup@[i],
            only_resched_changed(old(self).cpus@, final(self).cpus@, hart),
            final(self).run_cycles@ == old(self).run_cycles@,
            final(self).next_thread_id == old(self).next_thread_id,
            final(self).next_pid == old(self).next_pid,
    {
        let ghost orig = self.threads@;
        let ghost oprocs = self.procs@;
        let ghost oflags = self.needs_wakeup@;
        let ghost td = oprocs[p as int]->0.teardown_thread;
        let mut kick = false;
        let mut idx: usize = 0;
        proof {
            lemma_pcount_member(orig, surviving as int, surviving as int, p as int);
            assert(process_consistent(orig, oprocs, p as int));
        }
        while idx < THREADS_MAX
            invariant
                self.wf(),
                hart < HARTS_MAX,
                p < MAX,
                surviving < THREADS_MAX,
                idx <= THREADS_MAX,
                orig == old(self).threads@,
                oprocs == old(self).procs@,
                oflags == old(self).needs_wakeup@,
                td == oprocs[p as int]->0.teardown_thread,
                in_process(orig[surviving as int], p as int),
                forall|j: int| 0 <= j < THREADS_MAX ==> #[trigger] self.threads@[j] == if j < idx && j != surviving && in_process(orig[j], p as int) {
                    evicted(orig[j]->0, reason)
                } else {
                    orig[j]
                },
                forall|q: int| 0 <= q < MAX && q != p ==> #[trigger] self.procs@[q] == oprocs[q],
                self.procs@[p as int] matches Some(b) && same_but_count(b, oprocs[p as int]->0),
                forall|i: int| 0 <= i < THREADS_MAX && !(i < idx && i != surviving && in_process(orig[i], p as int) && removable(orig[i])) && Some(i as usize) != td ==> #[trigger] self.needs_wakeup@[i] == oflags[i],
                forall|i: int| 0 <= i < THREADS_MAX && i < idx && i != surviving && in_process(orig[i], p as int) && removable(orig[i]) && Some(i as usize) != td ==> !#[trigger] self.needs_wakeup@[i],
                only_resched_changed(old(self).cpus@, self.cpus@, hart),
                self.run_cycles@ == old(self).run_cycles@,
                self.next_thread_id == old(self).next_thread_id,
                self.next_pid == old(self).next_pid,
                kick == exists|j: int| 0 <= j < idx && #[trigger] evict_kick(orig, p as int, surviving, hart, j),
            decreases THREADS_MAX - idx,
        {
            let ghost kick_in = kick;
            let member = match self.threads.process_idx_of(idx) {
                Some(q) => q == p,
                None => false,
            };
            if idx != surviving && member {
                let ghost before = self.threads@;
                let ghost bprocs = self.procs@;
                let ghost t = before[idx as int]->0;
                assert(before[idx as int] == orig[idx as int]);
                let st = match self.threads.get(idx) {
                    Some(t) => t.state,
                    None => State::Ready,
                };
                match st {
                    State::Blocked | State::BlockedUntil(_) => {
                        match self.threads.get_mut(idx) {
                            Some(t) => {
                                t.marked_for_exit = true;
                            },
                            None => {},
                        }
                        let (_did, affinity) = self.threads.make_blocked_ready(idx);
                        let mut other_hart = false;
                        match affinity {
                            Some(h) => {
                                if h as usize != hart {
                                    other_hart = true;
                                }
                            },
                            None => {},
                        }
                        if other_hart {
                            kick = true;
                        } else {
                            set_needs_reschedule(&mut self.cpus, hart);
                        }
                        proof {
                            assert(self.threads@ =~= before.update(idx as int, evicted(t, reason)));
                            lemma_consistent_frame(before, self.threads@, self.procs@);
                            lemma_ok_frame(before, self.threads@);
                        }
                    },
                    State::Ready | State::Sleeping(_) => {
                        let _ = self.threads.replace(idx, None);
                        proof {
                            lemma_pcount_member(before, surviving as int, idx as int, p as int);
                            assert(process_consistent(before, bprocs, p as int));
                            assert forall|q: int| 0 <= q < MAX && q != p implies #[trigger] process_consistent(self.threads@, self.procs@, q) by {
                                lemma_pcount_update(before, idx as int, None, q);
                                assert(process_consistent(before, bprocs, q));
                            }
                            lemma_pcount_update(before, idx as int, None, p as int);
                        }
                        let ghost pre = self.procs@;
                        self.release_process_thread(p, idx);
                        proof {
                            assert forall|q: int| 0 <= q < MAX && q != p implies #[trigger] process_consistent(self.threads@, self.procs@, q) by {
                                assert(self.procs@[q] == pre[q]);
                                assert(process_consistent(self.threads@, pre, q));
                            }
                            assert(process_consistent(self.threads@, self.procs@, p as int));
                            assert(self.threads@ =~= before.update(idx as int, evicted(t, reason)));
                        }
                    },
                    State::Running => {
                        match self.threads.get_mut(idx) {
                            Some(t) => {
                                t.marked_for_exit = true;
                            },
                            None => {},
                        }
                        kick = true;
                        proof {
                            assert(self.threads@ =~= before.update(idx as int, evicted(t, reason)));
                            lemma_consistent_frame(before, self.threads@, self.procs@);
                            lemma_ok_frame(before, self.threads@);
                        }
                    },
                    State::Switching(_) => {
                        match self.threads.get_mut(idx) {
                            Some(t) => {
                                t.state = State::Switching(PostSwitch::Dead(reason));
                            },
                            None => {},
                        }
                        proof {
                            assert(self.threads@ =~= before.update(idx as int, evicted(t, reason)));
                            lemma_consistent_frame(before, self.threads@, self.procs@);
                            lemma_ok_frame(before, self.threads@);
                        }
                    },
                }
            }
            proof {
                assert(kick == (kick_in || evict_kick(orig, p as int, surviving, hart, idx as int)));
                if kick {
                    if !kick_in {
                        assert(evict_kick(orig, p as int, surviving, hart, idx as int));
                    } else {
                        let k = choose|k: int| 0 <= k < idx && #[trigger] evict_kick(orig, p as int, surviving, hart, k);
                        assert(evict_kick(orig, p as int, surviving, hart, k));
                    }
                }
            }
            idx = idx + 1;
        }
        kick
    }

    /// The process of the thread `hart` runs, if it is a user thread.
    fn current_process(&self, hart: usize) -> (r: Option<u8>)
        requires
            self.wf(),
            hart < HARTS_MAX,
        ensures
            r == match self.threads@[self.curr(hart) as int] {
                Some(t) => match t.user {
                    Some(u) => Some(u.process_idx),
                    None => None::<u8>,
                },
                None => None::<u8>,
            },
            r matches Some(p) ==> p < MAX && self.procs@[p as int] is Some,
    {
        let c = current_thread_idx(&self.cpus, hart);
        match self.threads.get(c) {
            Some(t) => match t.user.as_ref() {
                Some(u) => {
                    let p = u.process_idx;
                    proof {
                        assert(thread_ok(self.threads@[c as int]->0));
                        lemma_pcount_member(self.threads@, c as int, c as int, p as int);
                        assert(process_consistent(self.threads@, self.procs@, p as int));
                    }
                    Some(p)
                },
                None => None,
            },
            None => None,
        }
    }

    /// Opens a file descriptor of kind `kind` in the process of the thread
    /// `hart` runs: the lowest free one. Fails for a kernel thread and
    /// when the process has none free.
    pub fn open_fd(&mut self, hart: usize, kind: crate::fd::Kind) -> (r: Result<usize, crate::fd::Error>)
        requires
            old(self).wf(),
            hart < HARTS_MAX,
        ensures
            final(self).wf(),
            final(self).threads@ == old(self).threads@,
            final(self).cpus@ == old(self).cpus@,
            match old(self).threads@[old(self).curr(hart) as int] {
                Some(t) if t.user is Some => {
                    let p = t.user->0.process_idx as int;
                    let pcb = old(self).procs@[p]->0;
                    let i = crate::fd::first_free(pcb.fds@, 0);
                    &&& forall|q: int| 0 <= q < MAX && q != p ==> #[trigger] final(self).procs@[q] == old(self).procs@[q]
                    &&& final(self).procs@[p] matches Some(b) && b.pid == pcb.pid && b.thread_count == pcb.thread_count
                        && b.teardown_thread == pcb.teardown_thread
                    &&& if i < crate::fd::MAX {
                        r == Ok::<usize, crate::fd::Error>(i as usize) && final(self).procs@[p]->0.fds@ == pcb.fds@.update(i as int, Some(kind))
                    } else {
                        r == Err::<usize, crate::fd::Error>(crate::fd::Error::NotEnoughSlots(kind)) && final(self).procs@[p]->0.fds@ == pcb.fds@
                    }
                },
                _ => r == Err::<usize, crate::fd::Error>(crate::fd::Error::NotAUserProcess) && final(self).procs@ == old(self).procs@,
            },
    {
        let p = match self.current_process(hart) {
            Some(p) => p as usize,
            None => {
                return Err(crate::fd::Error::NotAUserProcess);
            },
        };
        let mut pcb = self.procs.replace(p, None).unwrap();
        let r = pcb.fds.open(kind);
        let _ = self.procs.replace(p, Some(pcb));
        proof {
            assert forall|q: int| 0 <= q < MAX implies #[trigger] process_consistent(self.threads@, self.procs@, q) by {
                assert(process_consistent(self.threads@, old(self).procs@, q));
            }
        }
        r
    }

    /// Closes file descriptor `fd` of the process of the thread `hart`
    /// runs, returning what it was. Fails for a kernel thread, for a number
    /// past the table, and for a descriptor not open.
    pub fn close_fd(&mut self, hart: usize, fd: usize) -> (r: Result<crate::fd::Kind, crate::fd::Error>)
        requires
            old(self).wf(),
            hart < HARTS_MAX,
        ensures
            final(self).wf(),
            final(self).threads@ == old(self).threads@,
            final(self).cpus@ == old(self).cpus@,
            match old(self).threads@[old(self).curr(hart) as int] {
                Some(t) if t.user is Some => {
                    let p = t.user->0.process_idx as int;
                    let pcb = old(self).procs@[p]->0;
                    &&& forall|q: int| 0 <= q < MAX && q != p ==> #[trigger] final(self).procs@[q] == old(self).procs@[q]
                    &&& final(self).procs@[p] matches Some(b) && b.pid == pcb.pid && b.thread_count == pcb.thread_count
                        && b.teardown_thread == pcb.teardown_thread
                    &&& if fd >= crate::fd::MAX {
                        r == Err::<crate::fd::Kind, crate::fd::Error>(crate::fd::Error::UnknownFileDescriptor)
                            && final(self).procs@[p]->0.fds@ == pcb.fds@
                    } else {
                        match pcb.fds@[fd as int] {
                            Some(k) => r == Ok::<crate::fd::Kind, crate::fd::Error>(k) && final(self).procs@[p]->0.fds@ == pcb.fds@.update(fd as int, None),
                            None => r == Err::<crate::fd::Kind, crate::fd::Error>(crate::fd::Error::StaleFileDescriptor)
                                && final(self).procs@[p]->0.fds@ == pcb.fds@,
                        }
                    }
                },
                _ => r == Err::<crate::fd::Kind, crate::fd::Error>(crate::fd::Error::NotAUserProcess) && final(self).procs@ == old(self).procs@,
            },
    {
        let p = match self.current_process(hart) {
            Some(p) => p as usize,
            None => {
                return Err(crate::fd::Error::NotAUserProcess);
            },
        };
        let mut pcb = self.procs.replace(p, None).unwrap();
        let r = pcb.fds.close(fd);
        let _ = self.procs.replace(p, Some(pcb));
        proof {
            assert forall|q: int| 0 <= q < MAX implies #[trigger] process_consistent(self.threads@, self.procs@, q) by {
                assert(process_consistent(self.threads@, old(self).procs@, q));
            }
        }
        r
    }

    /// Marks the thread in slot `thread_idx`, of process `p`, as having let
    /// go of the process resources; if no thread of the process still
    /// holds them, takes the process's descriptor table (leaving it empty)
    /// so the caller can close the descriptors.
    pub fn claim_fds(&mut self, p: u8, thread_idx: usize) -> (r: Option<Vec<Option<crate::fd::Kind>>>)
        requires
            old(self).wf(),
            p < MAX,
            thread_idx < THREADS_MAX,
            in_process(old(self).threads@[thread_idx as int], p as int),
        ensures
            final(self).wf(),
            ({
                let t = old(self).threads@[thread_idx as int]->0;
                let s1 = old(self).threads@.update(thread_idx as int, Some(ThreadControlBlock { resources_released: true, ..t }));
                let pcb = old(self).procs@[p as int]->0;
                &&& final(self).threads@ == s1
                &&& if exists|i: int| 0 <= i < THREADS_MAX && crate::threads::holds_resources(#[trigger] s1[i], p) {
                    r is None && final(self).procs@ == old(self).procs@
                } else {
                    &&& r matches Some(v) && v@ == pcb.fds@
                    &&& final(self).procs@[p as int] matches Some(b) && b.thread_count == pcb.thread_count && crate::fd::all_closed(b.fds@) && b.pid == pcb.pid && b.teardown_thread == pcb.teardown_thread
                    &&& forall|q: int| 0 <= q < MAX && q != p ==> #[trigger] final(self).procs@[q] == old(self).procs@[q]
                }
            }),
            final(self).cpus@ == old(self).cpus@,
            final(self).needs_wakeup@ == old(self).needs_wakeup@,
            final(self).run_cycles@ == old(self).run_cycles@,
            final(self).next_thread_id == old(self).next_thread_id,
            final(self).next_pid == old(self).next_pid,
    {
        let ghost before = self.threads@;
        match self.threads.get_mut(thread_idx) {
            Some(t) => {
                t.resources_released = true;
            },
            None => {},
        }
        proof {
            lemma_consistent_frame(before, self.threads@, self.procs@);
            lemma_pcount_member(before, thread_idx as int, thread_idx as int, p as int);
            assert(process_consistent(before, self.procs@, p as int));
        }
        if !self.threads.any_resource_holders(p) {
            let pi = p as usize;
            let taken = self.procs.replace(pi, None);
            match taken {
                Some(mut pcb) => {
                    let fds = pcb.fds.take_all();
                    let _ = self.procs.replace(pi, Some(pcb));
                    proof {
                        assert forall|q: int| 0 <= q < MAX implies #[trigger] process_consistent(self.threads@, self.procs@, q) by {
                            assert(process_consistent(self.threads@, old(self).procs@, q));
                        }
                    }
                    Some(fds)
                },
                None => None,
            }
        } else {
            None
        }
    }

    /// Records slot `thread_idx` as the thread tearing process `p` down,
    /// unless one already is. Returns whether it was recorded.
    pub fn claim_teardown_role(&mut self, p: u8, thread_idx: usize) -> (r: bool)
        requires
            old(self).wf(),
            p < MAX,
            old(self).procs@[p as int] is Some,
        ensures
            final(self).wf(),
            r == old(self).procs@[p as int]->0.teardown_thread is None,
            final(self).procs@ == old(self).procs@.update(
                p as int,
                Some(ControlBlock {
                    teardown_thread: if r {
                        Some(thread_idx)
                    } else {
                        old(self).procs@[p as int]->0.teardown_thread
                    },
                    ..old(self).procs@[p as int]->0
                }),
            ),
            final(self).threads@ == old(self).threads@,
            final(self).cpus@ == old(self).cpus@,
            final(self).needs_wakeup@ == old(self).needs_wakeup@,
            final(self).run_cycles@ == old(self).run_cycles@,
            final(self).next_thread_id == old(self).next_thread_id,
            final(self).next_pid == old(self).next_pid,
    {
        let pi = p as usize;
        let taken = self.procs.replace(pi, None);
        match taken {
            Some(mut pcb) => {
                let r = pcb.set_teardown_thread(thread_idx);
                let _ = self.procs.replace(pi, Some(pcb));
                proof {
                    assert forall|q: int| 0 <= q < MAX implies #[trigger] process_consistent(self.threads@, self.procs@, q) by {
                        assert(process_consistent(self.threads@, old(self).procs@, q));
                    }
                }
                r
            },
            None => false,
        }
    }

    /// The number of threads process `p` runs.
    pub fn thread_count(&self, p: u8) -> (r: u8)
        requires
            self.wf(),
            p < MAX,
            self.procs@[p as int] is Some,
        ensures
            r == self.procs@[p as int]->0.thread_count,
    {
        match self.procs.get(p as usize) {
            Some(pcb) => pcb.thread_count(),
            None => 0,
        }
    }
}

/// Whether affinity `a` binds a thread to a hart other than `hart`.
pub open spec fn bound_elsewhere(a: Option<u8>, hart: usize) -> bool {
    match a {
        Some(h) => h != hart,
        None => false,
    }
}

/// The state a thread settles in once switched out with `ps`.
pub open spec fn settled(ps: PostSwitch) -> State {
    match ps {
        PostSwitch::Blocked => State::Blocked,
        PostSwitch::BlockedUntil(d) => State::BlockedUntil(d),
        PostSwitch::Ready => State::Ready,
        PostSwitch::Sleeping(d) => State::Sleeping(d),
        PostSwitch::Dead(_) => State::Ready,
    }
}

/// The pass a running thread would have if its slice ended at `now`.
pub open spec fn effective_pass(o: ThreadControlBlock, now: u64) -> u64 {
    o.pass.saturating_add(spec_saturating_mul(now.saturating_sub(o.last_started_cycles), o.priority as u64))
}

/// Whether a thread survives the eviction of its faulting siblings.
pub open spec fn survives_eviction(slot: Option<ThreadControlBlock>, reason: ExitReason) -> bool {
    slot matches Some(t) && (reason == ExitReason::Exit || t.state == State::Running || t.state is Switching)
}

/// What `post_switch_cleanup` needs of the state it finds on `hart`.
pub open spec fn cleanup_ready(s: &Scheduler, hart: usize) -> bool {
    match s.cpus@[hart as int].switching_from_thread_idx {
        Some(f) => {
            &&& f != s.curr(hart)
            &&& s.threads@[f as int] matches Some(t) && t.state is Switching
            &&& match s.threads@[f as int]->0.state {
                State::Switching(PostSwitch::Dead(reason)) => {
                    let t = s.threads@[f as int]->0;
                    &&& (reason == ExitReason::Fault ==> t.user is Some)
                    &&& t.user matches Some(u) ==> {
                        let p = u.process_idx as int;
                        &&& (reason == ExitReason::Fault ==> forall|j: int| 0 <= j < THREADS_MAX && j != f && #[trigger] in_process(s.threads@[j], p)
                            ==> !(s.threads@[j]->0.state == State::Blocked || s.threads@[j]->0.state is BlockedUntil))
                        &&& (crate::fd::all_closed(s.procs@[p]->0.fds@) || exists|j: int| 0 <= j < THREADS_MAX && j != f && #[trigger] in_process(s.threads@[j], p)
                            && survives_eviction(s.threads@[j], reason))
                    }
                },
                State::Switching(ps) => ps == PostSwitch::Ready && s.cpus@[other(hart) as int].online ==> s.threads@[s.cpus@[other(hart) as int].current_thread_idx as int] is Some,
                _ => true,
            }
        },
        None => false,
    }
}

/// What cleaning up after a switch on `hart` at `now` does, from
/// scheduler state `a` to `b`, returning `kick`: the thread switched away
/// from is settled in the state it was switched out for; a dead thread's
/// record goes, and for a fault its process's other threads are evicted;
/// a thread that blocked with a wake-up pending is made ready at once.
pub open spec fn cleaned_up(a: &Scheduler, b: &Scheduler, hart: usize, now: u64, kick: bool) -> bool {
    let f = a.cpus@[hart as int].switching_from_thread_idx->0;
    let t = a.threads@[f as int]->0;
    let ca = a.cpus@.update(hart as int, PerCpu { switching_from_thread_idx: None, ..a.cpus@[hart as int] });
    match t.state {
        State::Switching(PostSwitch::Dead(reason)) => {
            &&& if reason == ExitReason::Fault {
                exists|mid: Seq<Option<ThreadControlBlock>>| #[trigger] evict_result(a.threads@, mid, t.user->0.process_idx as int, f, reason)
                    && b.threads@ == mid.update(f as int, None)
            } else {
                b.threads@ == a.threads@.update(f as int, None)
            }
            &&& only_resched_changed(ca, b.cpus@, hart)
            &&& kick == (reason == ExitReason::Fault && exists|i: int| 0 <= i < THREADS_MAX
                && #[trigger] evict_kick(a.threads@, t.user->0.process_idx as int, f, hart, i))
            &&& match t.user {
                Some(u) => {
                    &&& procs_released(a.procs@, b.procs@, u.process_idx as int)
                    &&& flags_released(a.needs_wakeup@, b.needs_wakeup@, a.threads@, u.process_idx as int, f as int, reason,
                        a.procs@[u.process_idx as int]->0.teardown_thread)
                },
                None => b.procs@ == a.procs@ && b.needs_wakeup@ == a.needs_wakeup@,
            }
        },
        State::Switching(ps) => {
            let ns = settled(ps);
            let flag = a.needs_wakeup@[f as int];
            let wakes = flag && (ns == State::Blocked || ns is BlockedUntil);
            let oth = a.threads@[a.cpus@[other(hart) as int].current_thread_idx as int];
            &&& b.threads@ == a.threads@.update(f as int, Some(with_state(t, if wakes { State::Ready } else { ns })))
            &&& b.needs_wakeup@ == a.needs_wakeup@.update(f as int, false)
            &&& only_resched_changed(ca, b.cpus@, hart)
            &&& kick == ((wakes && bound_elsewhere(t.affinity, hart)) || (ns == State::Ready
                && a.cpus@[other(hart) as int].online && t.pass < effective_pass(oth->0, now)))
        },
        _ => true,
    }
}

impl Scheduler {
    /// Finishes, on `hart` at `now`, the switch away from the thread it
    /// just left. A dead thread is removed (after its faulting process's
    /// other threads are evicted) and given up from its process. A living
    /// one settles in the state it switched out to; if its wake-up flag
    /// was raised meanwhile it is woken; and if it is now ready and would
    /// preempt what the other hart runs, the other hart is to be
    /// interrupted. Returns whether it is.
    pub fn post_switch_cleanup(&mut self, hart: usize, now: u64) -> (kick: bool)
        requires
            old(self).wf(),
            hart < HARTS_MAX,
            cleanup_ready(&*old(self), hart),
        ensures
            final(self).wf(),
            ({
                let f = old(self).cpus@[hart as int].switching_from_thread_idx->0;
                let t = old(self).threads@[f as int]->0;
                let ca = old(self).cpus@.update(hart as int, PerCpu { switching_from_thread_idx: None, ..old(self).cpus@[hart as int] });
                match t.state {
                    State::Switching(PostSwitch::Dead(reason)) => {
                        &&& if reason == ExitReason::Fault {
                            exists|mid: Seq<Option<ThreadControlBlock>>| #[trigger] evict_result(old(self).threads@, mid, t.user->0.process_idx as int, f, reason)
                                && final(self).threads@ == mid.update(f as int, None)
                        } else {
                            final(self).threads@ == old(self).threads@.update(f as int, None)
                        }
                        &&& only_resched_changed(ca, final(self).cpus@, hart)
                        &&& kick == (reason == ExitReason::Fault && exists|i: int| 0 <= i < THREADS_MAX
                            && #[trigger] evict_kick(old(self).threads@, t.user->0.process_idx as int, f, hart, i))
                        &&& match t.user {
                            Some(u) => {
                                &&& procs_released(old(self).procs@, final(self).procs@, u.process_idx as int)
                                &&& flags_released(old(self).needs_wakeup@, final(self).needs_wakeup@, old(self).threads@,
                                    u.process_idx as int, f as int, reason, old(self).procs@[u.process_idx as int]->0.teardown_thread)
                            },
                            None => final(self).procs@ == old(self).procs@ && final(self).needs_wakeup@ == old(self).needs_wakeup@,
                        }
                    },
                    State::Switching(ps) => {
                        let ns = settled(ps);
                        let flag = old(self).needs_wakeup@[f as int];
                        let wakes = flag && (ns == State::Blocked || ns is BlockedUntil);
                        let oth = old(self).threads@[old(self).cpus@[other(hart) as int].current_thread_idx as int];
                        &&& final(self).threads@ == old(self).threads@.update(f as int, Some(with_state(t, if wakes { State::Ready } else { ns })))
                        &&& final(self).needs_wakeup@ == old(self).needs_wakeup@.update(f as int, false)
                        &&& only_resched_changed(ca, final(self).cpus@, hart)
                        &&& kick == ((wakes && bound_elsewhere(t.affinity, hart)) || (ns == State::Ready
                            && old(self).cpus@[other(hart) as int].online && t.pass < effective_pass(oth->0, now)))
                    },
                    _ => true,
                }
            }),
            final(self).run_cycles@ == old(self).run_cycles@,
            final(self).next_thread_id == old(self).next_thread_id,
            final(self).next_pid == old(self).next_pid,
    {
        let ghost s0 = self.threads@;
        let ghost p0 = self.procs@;
        let from = take_switching_from_thread_idx(&mut self.cpus, hart);
        let f = match from {
            Some(f) => f,
            None => {
                return false;
            },
        };
        let ghost ca = self.cpus@;
        let st = match self.threads.get(f) {
            Some(t) => t.state,
            None => State::Running,
        };
        match st {
            State::Switching(PostSwitch::Dead(reason)) => {
                let proc = self.threads.process_idx_of(f);
                let mut kick = false;
                let ghost t = s0[f as int]->0;
                match proc {
                    Some(p) => {
                        if matches!(reason, ExitReason::Fault) {
                            kick = self.evict_sibling_threads(hart, reason, p, f);
                        }
                        let ghost mid = self.threads@;
                        proof {
                            if reason == ExitReason::Fault {
                                assert(evict_result(s0, mid, p as int, f, reason));
                            } else {
                                assert(mid == s0);
                            }
                            assert(mid[f as int] == s0[f as int]);
                            lemma_pcount_member(mid, f as int, f as int, p as int);
                            assert(process_consistent(mid, self.procs@, p as int));
                            if !crate::fd::all_closed(p0[p as int]->0.fds@) {
                                let j = choose|j: int| 0 <= j < THREADS_MAX && j != f && #[trigger] in_process(s0[j], p as int) && survives_eviction(s0[j], reason);
                                if reason == ExitReason::Fault {
                                    assert(mid[j] == evicted(s0[j]->0, reason));
                                }
                                assert(in_process(mid[j], p as int));
                                lemma_pcount_member(mid, f as int, j, p as int);
                            }
                        }
                        let ghost pre = self.procs@;
                        proof {
                            assert(forall|q: int| 0 <= q < MAX && q != p ==> #[trigger] pre[q] == p0[q]);
                            assert(pre[p as int] matches Some(x) && same_but_count(x, p0[p as int]->0));
                        }
                        self.release_process_thread(p, f);
                        let _ = self.threads.replace(f, None);
                        proof {
                            assert(pre[p as int]->0.thread_count > 0);
                            assert forall|q: int| 0 <= q < MAX && q != p implies #[trigger] self.procs@[q] == p0[q] by {
                                assert(self.procs@[q] == pre[q]);
                            }
                            if self.procs@[p as int] is Some {
                                assert(pre[p as int]->0.thread_count != 1);
                                assert(same_but_count(self.procs@[p as int]->0, pre[p as int]->0));
                                assert(self.procs@[p as int]->0.thread_count > 0);
                                assert(p0[p as int] is Some) by {
                                    lemma_pcount_member(s0, f as int, f as int, p as int);
                                    assert(process_consistent(s0, p0, p as int));
                                }
                                assert(same_but_count(self.procs@[p as int]->0, p0[p as int]->0));
                            }
                            assert(procs_released(p0, self.procs@, p as int));
                            assert forall|q: int| 0 <= q < MAX implies #[trigger] process_consistent(self.threads@, self.procs@, q) by {
                                lemma_pcount_update(mid, f as int, None, q);
                                assert(process_consistent(mid, pre, q));
                            }
                            assert forall|i: int| 0 <= i < THREADS_MAX implies (#[trigger] self.threads@[i] matches Some(u) ==> thread_ok(u)) by {
                                if i != f {
                                    assert(self.threads@[i] == mid[i]);
                                }
                            }
                        }
                    },
                    None => {
                        let _ = self.threads.replace(f, None);
                        proof {
                            lemma_consistent_kernel_update(s0, f as int, None, self.procs@);
                        }
                    },
                }
                kick
            },
            State::Switching(ps) => {
                let ns = match ps {
                    PostSwitch::Blocked => State::Blocked,
                    PostSwitch::BlockedUntil(d) => State::BlockedUntil(d),
                    PostSwitch::Ready => State::Ready,
                    PostSwitch::Sleeping(d) => State::Sleeping(d),
                    PostSwitch::Dead(_) => State::Ready,
                };
                match self.threads.get_mut(f) {
                    Some(t) => {
                        t.state = ns;
                    },
                    None => {},
                }
                proof {
                    lemma_consistent_frame(s0, self.threads@, self.procs@);
                    lemma_ok_frame(s0, self.threads@);
                }
                let mut kick = false;
                if self.take_wakeup_flag(f) {
                    if self.wake_by_index(hart, f) {
                        kick = true;
                    }
                }
                if matches!(ns, State::Ready) && other_online(&self.cpus, hart) {
                    let oi = other_current_thread_idx(&self.cpus, hart);
                    let eff = match self.threads.get(oi) {
                        Some(o) => o.pass.saturating_add(saturating_mul(now.saturating_sub(o.last_started_cycles), o.priority as u64)),
                        None => 0,
                    };
                    let mine = match self.threads.get(f) {
                        Some(t) => t.pass,
                        None => u64::MAX,
                    };
                    if mine < eff {
                        kick = true;
                    }
                }
                kick
            },
            _ => false,
        }
    }
}

/// A slot's stack report: the thread's id, kernel stack base and top.
pub open spec fn stack_entry(slot: Option<ThreadControlBlock>) -> (u16, usize, usize) {
    let t = slot->0;
    (t.id, t.kernel_stack.base, (t.kernel_stack.base + t.kernel_stack.order.spec_size()) as usize)
}

/// Whether `e` reports one of the first `n` slots of `s`.
pub open spec fn reported_within(s: Seq<Option<ThreadControlBlock>>, e: (u16, usize, usize), n: int) -> bool {
    exists|j: int| 0 <= j < n && (#[trigger] s[j]) is Some && e == stack_entry(s[j])
}

/// A new ready thread record.
pub open spec fn new_tcb(
    id: u16,
    kernel_stack: MemRegion,
    sp: usize,
    qos: Qos,
    priority: u8,
    affinity: Option<u8>,
    user: Option<crate::threads::UserContext>,
    pass: u64,
    now: u64,
) -> ThreadControlBlock {
    ThreadControlBlock {
        id,
        state: State::Ready,
        kernel_stack,
        sp,
        qos,
        priority,
        affinity,
        user,
        pass,
        last_started_cycles: now,
        next_waiter: None,
        marked_for_exit: false,
        resources_released: false,
        ready_since: now,
    }
}

/// What finishing a spawn on `hart` at `now` does from table `s0`, records
/// `c0` and flags `f0`: it wakes what is due, programs the timer, and
/// tells the hart the new thread is bound to (interrupting the other hart,
/// or asking this one to reschedule); the other hart is also interrupted
/// when a thread the scan woke should preempt it.
pub open spec fn spawn_tail(
    s0: Seq<Option<ThreadControlBlock>>,
    c0: Seq<PerCpu>,
    f0: Seq<bool>,
    s1: Seq<Option<ThreadControlBlock>>,
    c1: Seq<PerCpu>,
    f1: Seq<bool>,
    hart: usize,
    now: u64,
    affinity: Option<u8>,
    kick: bool,
    timer: Option<u64>,
) -> bool {
    let c = c0[hart as int].current_thread_idx;
    let cw = wake_resched(c0, s0, f0, c, now, hart);
    exists|w: Seq<Option<ThreadControlBlock>>|
        #[trigger] wake_result(s0, f0, c, now, wake_floor(s0, f0, c, now), w) && wake_flags(f0, f1, c)
        && timer_table(w, s1) && timer == Some(timer_value(w, now)) && c1 == (if bound_elsewhere(affinity, hart) {
            cw
        } else {
            cw.update(hart as int, PerCpu { needs_reschedule: true, ..cw[hart as int] })
        }) && kick == (bound_elsewhere(affinity, hart) || wake_kicks(s0, f0, w, c, c0[other(hart) as int].current_thread_idx, hart, now))
}

impl Scheduler {
    /// Finishes a spawn: see `spawn_tail`.
    fn finish_spawn(&mut self, hart: usize, now: u64, affinity: Option<u8>) -> (e: Effects)
        requires
            old(self).wf(),
            hart < HARTS_MAX,
            now + SLICE <= u64::MAX,
        ensures
            final(self).wf(),
            spawn_tail(old(self).threads@, old(self).cpus@, old(self).needs_wakeup@, final(self).threads@, final(self).cpus@, final(self).needs_wakeup@, hart, now, affinity, e.kick_other, e.timer),
            e.switch is None,
            e.pmp is None,
            e.trap_stack is None,
            final(self).procs@ == old(self).procs@,
            final(self).run_cycles@ == old(self).run_cycles@,
            final(self).next_thread_id == old(self).next_thread_id,
            final(self).next_pid == old(self).next_pid,
    {
        let curr = current_thread_idx(&self.cpus, hart);
        let (_, wake_kick) = self.wake_sleeping_threads(hart, now);
        let ghost w = self.threads@;
        let ghost cw = self.cpus@;
        let ghost floor = wake_floor(old(self).threads@, old(self).needs_wakeup@, curr, now);
        let timer = self.timer_deadline(now);
        let mut kick = wake_kick;
        let mut elsewhere = false;
        match affinity {
            Some(h) => {
                if h as usize != hart {
                    elsewhere = true;
                }
            },
            None => {},
        }
        if elsewhere {
            kick = true;
        } else {
            set_needs_reschedule(&mut self.cpus, hart);
        }
        proof {
            assert(wake_result(old(self).threads@, old(self).needs_wakeup@, curr, now, floor, w) && cw == wake_resched(old(self).cpus@, old(self).threads@, old(self).needs_wakeup@, curr, now, hart));
        }
        Effects { kick_other: kick, timer: Some(timer), switch: None, pmp: None, trap_stack: None }
    }

    /// Spawns a kernel thread on the stack `stack` (`None` when no memory
    /// could be had for one) whose forged context leaves its stack pointer
    /// at `sp`. The thread takes the lowest free slot, a fresh id and the
    /// pass baseline, and starts ready with its wake-up flag lowered; then
    /// the spawn is finished as by `spawn_tail`. Returns its handle, or
    /// `None`, changing nothing, when there is no stack or no free slot.
    pub fn spawn_kernel_thread_with(
        &mut self,
        hart: usize,
        now: u64,
        stack: Option<MemRegion>,
        sp: usize,
        priority: u8,
        qos: Qos,
        affinity: Option<u8>,
    ) -> (r: (Option<ThreadHandle>, Effects))
        requires
            old(self).wf(),
            hart < HARTS_MAX,
            now + SLICE <= u64::MAX,
            affinity matches Some(h) ==> h < HARTS_MAX,
            stack matches Some(k) ==> k.wf(),
        ensures
            final(self).wf(),
            r.1.switch is None,
            r.1.pmp is None,
            r.1.trap_stack is None,
            final(self).procs@ == old(self).procs@,
            final(self).run_cycles@ == old(self).run_cycles@,
            final(self).next_pid == old(self).next_pid,
            ({
                let i = first_empty(old(self).threads@, 0) as int;
                if stack is Some && i < THREADS_MAX {
                    let tcb = new_tcb(old(self).next_thread_id, stack->0, sp, qos, priority, affinity, None, spec_pass_baseline(old(self).threads@), now);
                    &&& r.0 == Some(ThreadHandle { idx: i as usize, id: old(self).next_thread_id })
                    &&& final(self).next_thread_id == next_id(old(self).next_thread_id)
                    &&& spawn_tail(old(self).threads@.update(i, Some(tcb)), old(self).cpus@, old(self).needs_wakeup@.update(i, false), final(self).threads@, final(self).cpus@, final(self).needs_wakeup@, hart, now, affinity, r.1.kick_other, r.1.timer)
                } else {
                    &&& r.0 is None
                    &&& !r.1.kick_other && r.1.timer is None
                    &&& final(self).threads@ == old(self).threads@
                    &&& final(self).cpus@ == old(self).cpus@
                    &&& final(self).needs_wakeup@ == old(self).needs_wakeup@
                    &&& final(self).next_thread_id == old(self).next_thread_id
                }
            }),
    {
        let none = Effects { kick_other: false, timer: None, switch: None, pmp: None, trap_stack: None };
        let kernel_stack = match stack {
            Some(k) => k,
            None => {
                return (None, none);
            },
        };
        let id = self.next_thread_id;
        let spec = ThreadControlBlockSpec { kernel_stack, qos, priority, affinity, user: None };
        let ghost before = self.threads@;
        let handle = self.threads.acquire(sp, spec, id, now);
        match handle {
            Some(h) => {
                self.next_thread_id = if id == u16::MAX { 0 } else { id + 1 };
                proof {
                    let i = h.idx as int;
                    Threads::lemma_first_empty_bound(before, 0);
                    lemma_consistent_kernel_update(before, i, self.threads@[i], self.procs@);
                    assert(self.threads@ =~= before.update(i, self.threads@[i]));
                }
                self.needs_wakeup.set(h.idx, false);
                let e = self.finish_spawn(hart, now, affinity);
                (Some(h), e)
            },
            None => (None, none),
        }
    }

    /// Adds a user thread to `process`, entering at `entry`, on kernel
    /// stack `kernel_stack` and user stack `user_stack` (each `None` when
    /// no memory could be had) with its forged context leaving its stack
    /// pointer at `sp`. Fails, changing nothing, without both stacks, if
    /// the process is gone, if no slot is free, or if the process already
    /// runs the most threads it may; otherwise the process counts one more
    /// thread and the spawn is finished as by `spawn_tail`.
    pub fn spawn_user(
        &mut self,
        hart: usize,
        now: u64,
        process: &Handle,
        entry: usize,
        priority: u8,
        kernel_stack: Option<MemRegion>,
        user_stack: Option<MemRegion>,
        sp: usize,
        qos: Qos,
        affinity: Option<u8>,
    ) -> (r: (Option<ThreadHandle>, Effects))
        requires
            old(self).wf(),
            hart < HARTS_MAX,
            now + SLICE <= u64::MAX,
            affinity matches Some(h) ==> h < HARTS_MAX,
            process.idx < MAX,
            kernel_stack matches Some(k) ==> k.wf(),
            user_stack matches Some(u) ==> u.wf(),
        ensures
            final(self).wf(),
            r.1.switch is None,
            r.1.pmp is None,
            r.1.trap_stack is None,
            final(self).run_cycles@ == old(self).run_cycles@,
            final(self).next_pid == old(self).next_pid,
            ({
                let i = first_empty(old(self).threads@, 0) as int;
                let pi = process.idx as int;
                let ok_process = old(self).procs@[pi] matches Some(pcb) && pcb.pid == process.pid;
                if kernel_stack is Some && user_stack is Some && ok_process && i < THREADS_MAX
                    && old(self).procs@[pi]->0.thread_count < crate::process::THREADS_PER_PROC_MAX {
                    let uc = crate::threads::UserContext { user_stack: user_stack->0, user_entry: entry, process_idx: process.idx as u8 };
                    let tcb = new_tcb(old(self).next_thread_id, kernel_stack->0, sp, qos, priority, affinity, Some(uc), spec_pass_baseline(old(self).threads@), now);
                    let pcb = old(self).procs@[pi]->0;
                    &&& r.0 == Some(ThreadHandle { idx: i as usize, id: old(self).next_thread_id })
                    &&& final(self).next_thread_id == next_id(old(self).next_thread_id)
                    &&& final(self).procs@ == old(self).procs@.update(pi, Some(ControlBlock { thread_count: (pcb.thread_count + 1) as u8, ..pcb }))
                    &&& spawn_tail(old(self).threads@.update(i, Some(tcb)), old(self).cpus@, old(self).needs_wakeup@.update(i, false), final(self).threads@, final(self).cpus@, final(self).needs_wakeup@, hart, now, affinity, r.1.kick_other, r.1.timer)
                } else {
                    &&& r.0 is None
                    &&& !r.1.kick_other && r.1.timer is None
                    &&& final(self).threads@ == old(self).threads@
                    &&& final(self).procs@ == old(self).procs@
                    &&& final(self).cpus@ == old(self).cpus@
                    &&& final(self).needs_wakeup@ == old(self).needs_wakeup@
                    &&& final(self).next_thread_id == (if kernel_stack is Some && user_stack is Some && ok_process && i < THREADS_MAX {
                        next_id(old(self).next_thread_id)
                    } else {
                        old(self).next_thread_id
                    })
                }
            }),
    {
        let none = Effects { kick_other: false, timer: None, switch: None, pmp: None, trap_stack: None };
        let kstack = match kernel_stack {
            Some(k) => k,
            None => {
                return (None, none);
            },
        };
        let ustack = match user_stack {
            Some(u) => u,
            None => {
                return (None, none);
            },
        };
        let pi = process.idx;
        let ok_process = match self.procs.get(pi) {
            Some(pcb) => pcb.pid == process.pid,
            None => false,
        };
        if !ok_process {
            return (None, none);
        }
        let id = self.next_thread_id;
        let uc = crate::threads::UserContext { user_stack: ustack, user_entry: entry, process_idx: pi as u8 };
        let spec = ThreadControlBlockSpec { kernel_stack: kstack, qos, priority, affinity, user: Some(uc) };
        let ghost before = self.threads@;
        let handle = self.threads.acquire(sp, spec, id, now);
        let h = match handle {
            Some(h) => h,
            None => {
                return (None, none);
            },
        };
        self.next_thread_id = if id == u16::MAX { 0 } else { id + 1 };
        let ghost acquired = self.threads@;
        proof {
            Threads::lemma_first_empty_bound(before, 0);
            assert(acquired =~= before.update(h.idx as int, acquired[h.idx as int]));
        }
        let taken = self.procs.replace(pi, None);
        let mut pcb = match taken {
            Some(pcb) => pcb,
            None => {
                return (None, none);
            },
        };
        if pcb.add_thread_count().is_err() {
            let _ = self.procs.replace(pi, Some(pcb));
            self.threads.release(&h);
            proof {
                assert(self.threads@ =~= before);
                assert(self.procs@ =~= old(self).procs@);
            }
            return (None, none);
        }
        let _ = self.procs.replace(pi, Some(pcb));
        proof {
            assert forall|q: int| 0 <= q < MAX implies #[trigger] process_consistent(self.threads@, self.procs@, q) by {
                lemma_pcount_update(before, h.idx as int, acquired[h.idx as int], q);
                assert(process_consistent(before, old(self).procs@, q));
            }
            assert forall|i: int| 0 <= i < THREADS_MAX implies (#[trigger] self.threads@[i] matches Some(t) ==> thread_ok(t)) by {
                if i != h.idx {
                    assert(self.threads@[i] == before[i]);
                }
            }
        }
        self.needs_wakeup.set(h.idx, false);
        let e = self.finish_spawn(hart, now, affinity);
        (Some(h), e)
    }

    /// Spawns a process named `name` from `image`, its first thread on
    /// kernel stack `kernel_stack` and user stack `user_stack` (each `None`
    /// when no memory could be had) with its forged context leaving its
    /// stack pointer at `sp`. The process takes the next process id
    /// whatever happens. Fails with `NotEnoughMemory` without both stacks,
    /// `TooManyProcesses` without a free process slot and
    /// `NotEnoughThreads` without a free thread slot, changing nothing
    /// else; otherwise the process is installed in the lowest free slot
    /// with one thread and its three standard descriptors, and the spawn
    /// is finished as by `spawn_tail`.
    pub fn spawn_process(
        &mut self,
        hart: usize,
        now: u64,
        name: &'static str,
        priority: u8,
        kernel_stack: Option<MemRegion>,
        user_stack: Option<MemRegion>,
        image: LoadedImage,
        sp: usize,
        qos: Qos,
        affinity: Option<u8>,
    ) -> (r: (Result<Handle, SpawnError>, Effects))
        requires
            old(self).wf(),
            hart < HARTS_MAX,
            now + SLICE <= u64::MAX,
            affinity matches Some(h) ==> h < HARTS_MAX,
            kernel_stack matches Some(k) ==> k.wf(),
            user_stack matches Some(u) ==> u.wf(),
            image.user_mem_map.wf(),
        ensures
            final(self).wf(),
            r.1.switch is None,
            r.1.pmp is None,
            r.1.trap_stack is None,
            final(self).run_cycles@ == old(self).run_cycles@,
            final(self).next_pid == (if old(self).next_pid == u32::MAX { 0 } else { (old(self).next_pid + 1) as u32 }),
            ({
                let pslot = crate::process::first_free_slot(old(self).procs@, 0) as int;
                let i = first_empty(old(self).threads@, 0) as int;
                if kernel_stack is None || user_stack is None {
                    r.0 == Err::<Handle, SpawnError>(SpawnError::NotEnoughMemory) && final(self).threads@ == old(self).threads@
                        && final(self).procs@ == old(self).procs@ && !r.1.kick_other && r.1.timer is None
                } else if pslot >= MAX {
                    r.0 == Err::<Handle, SpawnError>(SpawnError::TooManyProcesses) && final(self).threads@ == old(self).threads@
                        && final(self).procs@ == old(self).procs@ && !r.1.kick_other && r.1.timer is None
                } else if i >= THREADS_MAX {
                    r.0 == Err::<Handle, SpawnError>(SpawnError::NotEnoughThreads) && final(self).threads@ == old(self).threads@
                        && final(self).procs@ == old(self).procs@ && !r.1.kick_other && r.1.timer is None
                } else {
                    let uc = crate::threads::UserContext { user_stack: user_stack->0, user_entry: image.entry, process_idx: pslot as u8 };
                    let tcb = new_tcb(old(self).next_thread_id, kernel_stack->0, sp, qos, priority, affinity, Some(uc), spec_pass_baseline(old(self).threads@), now);
                    &&& r.0 == Ok::<Handle, SpawnError>(Handle { pid: old(self).next_pid, idx: pslot as usize })
                    &&& final(self).procs@[pslot] matches Some(pcb) && pcb.pid == old(self).next_pid && pcb.name == name
                        && pcb.thread_count == 1 && pcb.entry_ra == image.entry_ra && pcb.teardown_thread is None
                        && pcb.mem_map == image.user_mem_map
                        && pcb.fds@ == Seq::new(crate::fd::MAX as nat, |k: int| None::<crate::fd::Kind>).update(0, Some(crate::fd::Kind::Keyboard)).update(1, Some(crate::fd::Kind::Console)).update(2, Some(crate::fd::Kind::DebugConsole))
                    &&& forall|q: int| 0 <= q < MAX && q != pslot ==> #[trigger] final(self).procs@[q] == old(self).procs@[q]
                    &&& final(self).next_thread_id == next_id(old(self).next_thread_id)
                    &&& spawn_tail(old(self).threads@.update(i, Some(tcb)), old(self).cpus@, old(self).needs_wakeup@.update(i, false), final(self).threads@, final(self).cpus@, final(self).needs_wakeup@, hart, now, affinity, r.1.kick_other, r.1.timer)
                }
            }),
    {
        let none = Effects { kick_other: false, timer: None, switch: None, pmp: None, trap_stack: None };
        let pid = self.next_pid;
        self.next_pid = if pid == u32::MAX { 0 } else { pid + 1 };
        let LoadedImage { user_mem_map, entry, entry_ra } = image;
        let mut pcb = ControlBlock::new(name, user_mem_map, entry_ra, pid);
        let kstack = match kernel_stack {
            Some(k) => k,
            None => {
                return (Err(SpawnError::NotEnoughMemory), none);
            },
        };
        let ustack = match user_stack {
            Some(u) => u,
            None => {
                return (Err(SpawnError::NotEnoughMemory), none);
            },
        };
        let pslot = match self.procs.find_process_slot() {
            Some(i) => i,
            None => {
                return (Err(SpawnError::TooManyProcesses), none);
            },
        };
        let id = self.next_thread_id;
        let uc = crate::threads::UserContext { user_stack: ustack, user_entry: entry, process_idx: pslot as u8 };
        let spec = ThreadControlBlockSpec { kernel_stack: kstack, qos, priority, affinity, user: Some(uc) };
        let ghost before = self.threads@;
        let handle = self.threads.acquire(sp, spec, id, now);
        let h = match handle {
            Some(h) => h,
            None => {
                return (Err(SpawnError::NotEnoughThreads), none);
            },
        };
        self.next_thread_id = if id == u16::MAX { 0 } else { id + 1 };
        let ghost acquired = self.threads@;
        proof {
            Threads::lemma_first_empty_bound(before, 0);
            assert(acquired =~= before.update(h.idx as int, acquired[h.idx as int]));
        }
        self.needs_wakeup.set(h.idx, false);
        let _ = pcb.add_thread_count();
        pcb.fds.new_process();
        let ph = self.procs.install_process_control_block(pslot, pcb);
        proof {
            assert(crate::process::first_free_slot(old(self).procs@, 0) == pslot);
            assert forall|q: int| 0 <= q < MAX implies #[trigger] process_consistent(self.threads@, self.procs@, q) by {
                lemma_pcount_update(before, h.idx as int, acquired[h.idx as int], q);
                assert(process_consistent(before, old(self).procs@, q));
            }
            assert forall|i: int| 0 <= i < THREADS_MAX implies (#[trigger] self.threads@[i] matches Some(t) ==> thread_ok(t)) by {
                if i != h.idx {
                    assert(self.threads@[i] == before[i]);
                }
            }
        }
        let e = self.finish_spawn(hart, now, affinity);
        (Ok(ph), e)
    }
}

impl Scheduler {
    /// Begins the exit of the user thread `hart` runs, for `reason`. A
    /// faulting thread takes on tearing its process down unless another
    /// thread already has, and then evicts its siblings. Returns the
    /// thread's process, whether it took on the teardown, and whether the
    /// other hart must be interrupted. The caller then waits for the
    /// siblings (`await_teardown`), claims the descriptors (`claim_fds`)
    /// and exits.
    pub fn exit_user_thread(&mut self, hart: usize, reason: ExitReason) -> (r: (u8, bool, bool))
        requires
            old(self).wf(),
            hart < HARTS_MAX,
            old(self).threads@[old(self).curr(hart) as int] matches Some(t) && t.user is Some,
        ensures
            final(self).wf(),
            ({
                let c = old(self).curr(hart);
                let p = old(self).threads@[c as int]->0.user->0.process_idx;
                let claimed = reason == ExitReason::Fault && old(self).procs@[p as int]->0.teardown_thread is None;
                &&& r.0 == p
                &&& r.1 == claimed
                &&& if claimed {
                    &&& evict_result(old(self).threads@, final(self).threads@, p as int, c, reason)
                    &&& final(self).procs@[p as int] matches Some(b) && b.teardown_thread == Some(c)
                    &&& only_resched_changed(old(self).cpus@, final(self).cpus@, hart)
                } else {
                    &&& !r.2
                    &&& final(self).threads@ == old(self).threads@
                    &&& final(self).procs@ == old(self).procs@
                    &&& final(self).cpus@ == old(self).cpus@
                    &&& final(self).needs_wakeup@ == old(self).needs_wakeup@
                }
            }),
            final(self).run_cycles@ == old(self).run_cycles@,
            final(self).next_thread_id == old(self).next_thread_id,
            final(self).next_pid == old(self).next_pid,
    {
        let curr = current_thread_idx(&self.cpus, hart);
        let p = match self.threads.process_idx_of(curr) {
            Some(p) => p,
            None => 0,
        };
        proof {
            lemma_pcount_member(self.threads@, curr as int, curr as int, p as int);
            assert(process_consistent(self.threads@, self.procs@, p as int));
        }
        let claimed = if matches!(reason, ExitReason::Fault) {
            self.claim_teardown_role(p, curr)
        } else {
            false
        };
        let kick = if claimed {
            self.evict_sibling_threads(hart, reason, p, curr)
        } else {
            false
        };
        (p, claimed, kick)
    }

    /// One round of the teardown thread's wait for its siblings to exit:
    /// done when the process runs only this thread; otherwise the thread
    /// `hart` runs is marked blocked, to be parked by the caller.
    pub fn await_teardown(&mut self, hart: usize, p: u8) -> (done: bool)
        requires
            old(self).wf(),
            hart < HARTS_MAX,
            p < MAX,
            old(self).procs@[p as int] is Some,
        ensures
            final(self).wf(),
            done == (old(self).procs@[p as int]->0.thread_count == 1),
            final(self).threads@ == if done {
                old(self).threads@
            } else {
                match old(self).threads@[old(self).curr(hart) as int] {
                    Some(t) => old(self).threads@.update(old(self).curr(hart) as int, Some(with_state(t, State::Blocked))),
                    None => old(self).threads@,
                }
            },
            final(self).procs@ == old(self).procs@,
            final(self).cpus@ == old(self).cpus@,
            final(self).needs_wakeup@ == old(self).needs_wakeup@,
            final(self).run_cycles@ == old(self).run_cycles@,
            final(self).next_thread_id == old(self).next_thread_id,
            final(self).next_pid == old(self).next_pid,
    {
        if self.thread_count(p) == 1 {
            true
        } else {
            self.set_current_state(hart, State::Blocked);
            false
        }
    }

    /// The kernel stacks of all threads, in slot order, as id, base and
    /// top, for a stack watermark report.
    pub fn stacks(&self) -> (r: Vec<(u16, usize, usize)>)
        requires
            self.wf(),
        ensures
            forall|k: int| 0 <= k < r@.len() ==> #[trigger] reported_within(self.threads@, r@[k], THREADS_MAX as int),
            forall|i: int| 0 <= i < THREADS_MAX && (#[trigger] self.threads@[i]) is Some ==> exists|k: int| 0 <= k < r@.len()
                && #[trigger] r@[k] == stack_entry(self.threads@[i]),
    {
        let mut r: Vec<(u16, usize, usize)> = Vec::new();
        let mut i: usize = 0;
        while i < THREADS_MAX
            invariant
                self.wf(),
                i <= THREADS_MAX,
                forall|k: int| 0 <= k < r@.len() ==> #[trigger] reported_within(self.threads@, r@[k], i as int),
                forall|j: int| 0 <= j < i && (#[trigger] self.threads@[j]) is Some ==> exists|k: int| 0 <= k < r@.len()
                    && #[trigger] r@[k] == stack_entry(self.threads@[j]),
            decreases THREADS_MAX - i,
        {
            let ghost before = r@;
            match self.threads.get(i) {
                Some(t) => {
                    r.push((t.id, t.kernel_stack.base(), t.kernel_stack.top()));
                    proof {
                        assert(r@[r@.len() - 1] == stack_entry(self.threads@[i as int]));
                        assert forall|k: int| 0 <= k < r@.len() implies #[trigger] reported_within(self.threads@, r@[k], i + 1) by {
                            if k < before.len() {
                                assert(r@[k] == before[k]);
                                assert(reported_within(self.threads@, before[k], i as int));
                            } else {
                                assert(self.threads@[i as int] is Some);
                            }
                        }
                        assert forall|j: int| 0 <= j < i + 1 && (#[trigger] self.threads@[j]) is Some implies exists|k: int| 0 <= k < r@.len()
                            && #[trigger] r@[k] == stack_entry(self.threads@[j]) by {
                            if j < i {
                                let k = choose|k: int| 0 <= k < before.len() && #[trigger] before[k] == stack_entry(self.threads@[j]);
                                assert(r@[k] == before[k]);
                            } else {
                                assert(r@[r@.len() - 1] == stack_entry(self.threads@[j]));
                            }
                        }
                    }
                },
                None => {
                    proof {
                        assert forall|k: int| 0 <= k < r@.len() implies #[trigger] reported_within(self.threads@, r@[k], i + 1) by {
                            assert(reported_within(self.threads@, r@[k], i as int));
                        }
                    }
                },
            }
            i = i + 1;
        }
        r
    }
}

impl Scheduler {
    /// Quality of service of the thread `hart` runs.
    pub fn current_qos(&self, hart: usize) -> (r: Qos)
        requires
            self.wf(),
            hart < HARTS_MAX,
            self.has_current(hart),
        ensures
            r == self.threads@[self.curr(hart) as int]->0.qos,
    {
        match self.threads.get(current_thread_idx(&self.cpus, hart)) {
            Some(t) => t.qos,
            None => Qos::High,
        }
    }
}

/// How to spawn a kernel thread: its stack size class, quality of
/// service, priority and hart affinity.
pub struct Builder {
    stack: Order,
    qos: Qos,
    priority: u8,
    affinity: Option<u8>,
}

/// What spawning a kernel thread with stack size `order`, `qos`,
/// `priority` and `affinity` does, on `hart` at `now`, taking scheduler
/// `s0` to `s1` and returning `r`, where `allocated` is where the kernel
/// pool put the stack (`None` if it had no memory) and `sp` the stack
/// pointer its forged context leaves: with a stack and a free slot, the
/// lowest free slot gets a new ready thread with the next id and the pass
/// baseline, its wake-up flag lowered, and the spawn is finished as by
/// `spawn_tail`; otherwise nothing changes. No switch is made.
pub open spec fn kernel_spawned(
    order: Order,
    qos: Qos,
    priority: u8,
    affinity: Option<u8>,
    s0: Scheduler,
    s1: Scheduler,
    hart: usize,
    now: u64,
    allocated: Option<usize>,
    sp: usize,
    r: (Option<ThreadHandle>, Effects),
) -> bool {
    let i = first_empty(s0.threads@, 0) as int;
    &&& if allocated is Some && i < THREADS_MAX {
        let stack = MemRegion { base: allocated->0, order, dealloc_pool: Some(Pool::KernelPd1) };
        let tcb = new_tcb(s0.next_thread_id, stack, sp, qos, priority, affinity, None, spec_pass_baseline(s0.threads@), now);
        &&& r.0 == Some(ThreadHandle { idx: i as usize, id: s0.next_thread_id })
        &&& s1.next_thread_id == next_id(s0.next_thread_id)
        &&& spawn_tail(s0.threads@.update(i, Some(tcb)), s0.cpus@, s0.needs_wakeup@.update(i, false), s1.threads@, s1.cpus@, s1.needs_wakeup@, hart, now, affinity, r.1.kick_other, r.1.timer)
    } else {
        &&& r.0 is None
        &&& !r.1.kick_other && r.1.timer is None
        &&& s1.threads@ == s0.threads@
        &&& s1.cpus@ == s0.cpus@
        &&& s1.needs_wakeup@ == s0.needs_wakeup@
        &&& s1.next_thread_id == s0.next_thread_id
    }
    &&& r.1.switch is None
    &&& r.1.pmp is None
    &&& r.1.trap_stack is None
    &&& s1.procs@ == s0.procs@
    &&& s1.run_cycles@ == s0.run_cycles@
    &&& s1.next_pid == s0.next_pid
}

/// `spawn_tail` leaves one outcome.
proof fn lemma_spawn_tail_unique(
    s0: Seq<Option<ThreadControlBlock>>,
    c0: Seq<PerCpu>,
    f0: Seq<bool>,
    hart: usize,
    now: u64,
    affinity: Option<u8>,
    s1: Seq<Option<ThreadControlBlock>>,
    c1: Seq<PerCpu>,
    f1: Seq<bool>,
    k1: bool,
    t1: Option<u64>,
    s2: Seq<Option<ThreadControlBlock>>,
    c2: Seq<PerCpu>,
    f2: Seq<bool>,
    k2: bool,
    t2: Option<u64>,
)
    requires
        spawn_tail(s0, c0, f0, s1, c1, f1, hart, now, affinity, k1, t1),
        spawn_tail(s0, c0, f0, s2, c2, f2, hart, now, affinity, k2, t2),
    ensures
        s1 == s2,
        c1 == c2,
        f1 == f2,
        k1 == k2,
        t1 == t2,
{
    let c = c0[hart as int].current_thread_idx;
    let fl = wake_floor(s0, f0, c, now);
    let w1 = choose|w: Seq<Option<ThreadControlBlock>>| #[trigger] wake_result(s0, f0, c, now, fl, w) && wake_flags(f0, f1, c)
        && timer_table(w, s1) && t1 == Some(timer_value(w, now)) && c1 == (if bound_elsewhere(affinity, hart) {
            wake_resched(c0, s0, f0, c, now, hart)
        } else {
            wake_resched(c0, s0, f0, c, now, hart).update(hart as int, PerCpu { needs_reschedule: true, ..wake_resched(c0, s0, f0, c, now, hart)[hart as int] })
        }) && k1 == (bound_elsewhere(affinity, hart) || wake_kicks(s0, f0, w, c, c0[other(hart) as int].current_thread_idx, hart, now));
    let w2 = choose|w: Seq<Option<ThreadControlBlock>>| #[trigger] wake_result(s0, f0, c, now, fl, w) && wake_flags(f0, f2, c)
        && timer_table(w, s2) && t2 == Some(timer_value(w, now)) && c2 == (if bound_elsewhere(affinity, hart) {
            wake_resched(c0, s0, f0, c, now, hart)
        } else {
            wake_resched(c0, s0, f0, c, now, hart).update(hart as int, PerCpu { needs_reschedule: true, ..wake_resched(c0, s0, f0, c, now, hart)[hart as int] })
        }) && k2 == (bound_elsewhere(affinity, hart) || wake_kicks(s0, f0, w, c, c0[other(hart) as int].current_thread_idx, hart, now));
    assert(w1 =~= w2);
    assert forall|i: int| 0 <= i < s1.len() implies #[trigger] s1[i] == s2[i] by {
        assert(match w1[i] {
            Some(t) => s1[i] matches Some(u) && same_but_state(u, t),
            None => s1[i] is None,
        });
        assert(match w1[i] {
            Some(t) => s2[i] matches Some(u) && same_but_state(u, t),
            None => s2[i] is None,
        });
    }
    assert(s1 =~= s2);
    assert(f1 =~= f2);
}

/// Spawning with the default builder is what `spawn` does: the same
/// scheduler state and the same result follow from the same state.
pub proof fn law_spawn_is_default_builder(
    b: Builder,
    s0: Scheduler,
    s1: Scheduler,
    r1: (Option<ThreadHandle>, Effects),
    s2: Scheduler,
    r2: (Option<ThreadHandle>, Effects),
    hart: usize,
    now: u64,
    allocated: Option<usize>,
    sp: usize,
)
    requires
        b.spec_stack() == Order::KB4,
        b.spec_qos() == Qos::High,
        b.spec_priority() == crate::threads::PRIORITY_DEFAULT,
        b.spec_affinity() is None,
        kernel_spawned(Order::KB4, Qos::High, crate::threads::PRIORITY_DEFAULT, None, s0, s1, hart, now, allocated, sp, r1),
        kernel_spawned(b.spec_stack(), b.spec_qos(), b.spec_priority(), b.spec_affinity(), s0, s2, hart, now, allocated, sp, r2),
    ensures
        s1.threads@ == s2.threads@,
        s1.cpus@ == s2.cpus@,
        s1.needs_wakeup@ == s2.needs_wakeup@,
        s1.procs@ == s2.procs@,
        s1.run_cycles@ == s2.run_cycles@,
        s1.next_thread_id == s2.next_thread_id,
        s1.next_pid == s2.next_pid,
        r1.0 == r2.0,
        r1.1.kick_other == r2.1.kick_other,
        r1.1.timer == r2.1.timer,
        r1.1.switch == r2.1.switch,
        r1.1.pmp is None && r2.1.pmp is None,
        r1.1.trap_stack == r2.1.trap_stack,
{
    let i = first_empty(s0.threads@, 0) as int;
    if allocated is Some && i < THREADS_MAX {
        let stack = MemRegion { base: allocated->0, order: Order::KB4, dealloc_pool: Some(Pool::KernelPd1) };
        let tcb = new_tcb(s0.next_thread_id, stack, sp, Qos::High, crate::threads::PRIORITY_DEFAULT, None, None, spec_pass_baseline(s0.threads@), now);
        lemma_spawn_tail_unique(
            s0.threads@.update(i, Some(tcb)), s0.cpus@, s0.needs_wakeup@.update(i, false), hart, now, None,
            s1.threads@, s1.cpus@, s1.needs_wakeup@, r1.1.kick_other, r1.1.timer,
            s2.threads@, s2.cpus@, s2.needs_wakeup@, r2.1.kick_other, r2.1.timer,
        );
    }
}

impl Builder {
    pub closed spec fn spec_stack(&self) -> Order {
        self.stack
    }

    pub closed spec fn spec_qos(&self) -> Qos {
        self.qos
    }

    pub closed spec fn spec_priority(&self) -> u8 {
        self.priority
    }

    pub closed spec fn spec_affinity(&self) -> Option<u8> {
        self.affinity
    }

    /// A bound affinity names a hart.
    pub closed spec fn wf(&self) -> bool {
        self.affinity matches Some(h) ==> h < HARTS_MAX
    }

    /// 4 KiB stack, high quality of service, default priority, no affinity.
    pub fn new() -> (r: Self)
        ensures
            r.wf(),
            r.spec_stack() == Order::KB4,
            r.spec_qos() == Qos::High,
            r.spec_priority() == crate::threads::PRIORITY_DEFAULT,
            r.spec_affinity() is None,
    {
        Builder { stack: Order::KB4, qos: Qos::High, priority: crate::threads::PRIORITY_DEFAULT, affinity: None }
    }

    /// Uses a stack of size class `order`.
    pub fn with_stack_class(self, order: Order) -> (r: Self)
        requires
            self.wf(),
        ensures
            r.wf(),
            r.spec_stack() == order,
            r.spec_qos() == self.spec_qos(),
            r.spec_priority() == self.spec_priority(),
            r.spec_affinity() == self.spec_affinity(),
    {
        let mut b = self;
        b.stack = order;
        b
    }

    /// Uses quality of service `qos`.
    pub fn with_qos(self, qos: Qos) -> (r: Self)
        requires
            self.wf(),
        ensures
            r.wf(),
            r.spec_stack() == self.spec_stack(),
            r.spec_qos() == qos,
            r.spec_priority() == self.spec_priority(),
            r.spec_affinity() == self.spec_affinity(),
    {
        let mut b = self;
        b.qos = qos;
        b
    }

    /// Uses priority `priority` (lower numbers run first).
    pub fn with_priority(self, priority: u8) -> (r: Self)
        requires
            self.wf(),
        ensures
            r.wf(),
            r.spec_stack() == self.spec_stack(),
            r.spec_qos() == self.spec_qos(),
            r.spec_priority() == priority,
            r.spec_affinity() == self.spec_affinity(),
    {
        let mut b = self;
        b.priority = priority;
        b
    }

    /// Binds the thread to hart `affinity`; a number that names no hart is
    /// ignored.
    pub fn with_affinity(self, affinity: u8) -> (r: Self)
        requires
            self.wf(),
        ensures
            r.wf(),
            r.spec_stack() == self.spec_stack(),
            r.spec_qos() == self.spec_qos(),
            r.spec_priority() == self.spec_priority(),
            r.spec_affinity() == (if affinity < HARTS_MAX {
                Some(affinity)
            } else {
                self.spec_affinity()
            }),
    {
        let mut b = self;
        if affinity < 2 {
            b.affinity = Some(affinity);
        }
        b
    }

    /// Spawns the thread on `s` from `hart` at `now`, on the stack the
    /// kernel pool handed out at `allocated` (`None` if it had no memory)
    /// with the forged context leaving the stack pointer at `sp`: see
    /// `Scheduler::spawn_kernel_thread_with`.
    pub fn spawn(self, s: &mut Scheduler, hart: usize, now: u64, allocated: Option<usize>, sp: usize) -> (r: (Option<ThreadHandle>, Effects))
        requires
            self.wf(),
            old(s).wf(),
            hart < HARTS_MAX,
            now + SLICE <= u64::MAX,
            allocated matches Some(b) ==> b > 0 && b as nat % self.spec_stack().spec_size() == 0 && b + self.spec_stack().spec_size() <= usize::MAX,
        ensures
            final(s).wf(),
            kernel_spawned(self.spec_stack(), self.spec_qos(), self.spec_priority(), self.spec_affinity(), *old(s), *final(s), hart, now, allocated, sp, r),
    {
        let stack = MemRegion::from_heap(Pool::KernelPd1, self.stack, allocated);
        s.spawn_kernel_thread_with(hart, now, stack, sp, self.priority, self.qos, self.affinity)
    }
}

impl Default for Builder {
    fn default() -> (r: Self)
        ensures
            r.wf(),
            r.spec_stack() == Order::KB4,
            r.spec_qos() == Qos::High,
            r.spec_priority() == crate::threads::PRIORITY_DEFAULT,
            r.spec_affinity() is None,
    {
        Builder::new()
    }
}

/// One round of the idle thread on `hart`: whether to wait for an
/// interrupt before scheduling, which it does unless a reschedule is
/// already requested.
pub fn idle_thread(s: &Scheduler, hart: usize) -> (wait: bool)
    requires
        s.wf(),
        hart < HARTS_MAX,
    ensures
        wait == !s.cpus@[hart as int].needs_reschedule,
{
    !crate::percpu::needs_reschedule(&s.cpus, hart)
}

/// Spawns a kernel thread with the default settings: see `Builder::spawn`.
pub fn spawn(s: &mut Scheduler, hart: usize, now: u64, allocated: Option<usize>, sp: usize) -> (r: (Option<ThreadHandle>, Effects))
    requires
        old(s).wf(),
        hart < HARTS_MAX,
        now + SLICE <= u64::MAX,
        allocated matches Some(b) ==> b > 0 && b as nat % Order::KB4.spec_size() == 0 && b + Order::KB4.spec_size() <= usize::MAX,
    ensures
        final(s).wf(),
        kernel_spawned(Order::KB4, Qos::High, crate::threads::PRIORITY_DEFAULT, None, *old(s), *final(s), hart, now, allocated, sp, r),
{
    Builder::new().spawn(s, hart, now, allocated, sp)
}

/// Sets up the idle thread of `hart`: see `Scheduler::bootstrap`.
pub fn bootstrap(s: &mut Scheduler, hart: usize, idle_stack_base: usize, now: u64)
    requires
        old(s).wf(),
        hart < HARTS_MAX,
        first_empty(old(s).threads@, 0) < THREADS_MAX,
        idle_stack_base > 0,
        idle_stack_base as nat % Order::KB2.spec_size() == 0,
        idle_stack_base + Order::KB2.spec_size() <= usize::MAX,
    ensures
        final(s).wf(),
        ({
            let i = first_empty(old(s).threads@, 0) as int;
            let stack = MemRegion { base: idle_stack_base, order: Order::KB2, dealloc_pool: None };
            &&& final(s).threads@ == old(s).threads@.update(
                i,
                Some(ThreadControlBlock {
                    id: old(s).next_thread_id,
                    state: State::Ready,
                    kernel_stack: stack,
                    sp: (idle_stack_base + Order::KB2.spec_size()) as usize,
                    qos: Qos::Low,
                    priority: PRIORITY_MIN,
                    affinity: None,
                    user: None,
                    pass: spec_pass_baseline(old(s).threads@),
                    last_started_cycles: now,
                    next_waiter: None,
                    marked_for_exit: false,
                    resources_released: false,
                    ready_since: now,
                }),
            )
            &&& final(s).cpus@ == activated(
                old(s).cpus@.update(hart as int, PerCpu { idle_thread_idx: i as usize, ..old(s).cpus@[hart as int] }),
                hart,
                i as usize,
                None,
                idle_stack_base,
            )
            &&& final(s).needs_wakeup@ == old(s).needs_wakeup@.update(i, false)
        }),
        final(s).next_thread_id == next_id(old(s).next_thread_id),
        final(s).procs@ == old(s).procs@,
        final(s).next_pid == old(s).next_pid,
        final(s).run_cycles@ == old(s).run_cycles@,
{
    s.bootstrap(hart, idle_stack_base, now)
}

/// Yields `hart`: see `Scheduler::yield_now`.
pub fn yield_now(s: &mut Scheduler, hart: usize, now: u64) -> (e: Effects)
    requires
        old(s).wf(),
        hart < HARTS_MAX,
        old(s).has_current(hart),
        old(s).threads@[old(s).cpus@[hart as int].idle_thread_idx as int] is Some,
        now >= old(s).threads@[old(s).curr(hart) as int]->0.last_started_cycles,
        now + SLICE <= u64::MAX,
    ensures
        final(s).wf(),
        rescheduled(old(s).threads@, old(s).cpus@, old(s).needs_wakeup@, final(s).threads@, final(s).cpus@, final(s).needs_wakeup@, hart, now, None, PostSwitch::Ready, e.kick_other, e.timer, e.switch),
        switch_context(old(s).threads@, old(s).procs@, e.switch, e.pmp, e.trap_stack),
        final(s).procs@ == old(s).procs@,
        final(s).next_thread_id == old(s).next_thread_id,
        final(s).next_pid == old(s).next_pid,
{
    s.yield_now(hart, now)
}

/// Total cycles the thread in slot `tcb_idx` has run.
pub fn get_current_cycles(s: &Scheduler, tcb_idx: usize) -> (r: u64)
    requires
        s.wf(),
        tcb_idx < THREADS_MAX,
    ensures
        r == s.run_cycles@[tcb_idx as int],
{
    s.get_current_cycles(tcb_idx)
}

/// Finishes the switch `hart` has made: see
/// `Scheduler::post_switch_cleanup`.
pub fn post_switch_cleanup(s: &mut Scheduler, hart: usize, now: u64) -> (kick: bool)
    requires
        old(s).wf(),
        hart < HARTS_MAX,
        cleanup_ready(&*old(s), hart),
    ensures
        final(s).wf(),
        cleaned_up(&*old(s), &*final(s), hart, now, kick),
{
    let r = s.post_switch_cleanup(hart, now);
    r
}

/// Sleeps the thread `hart` runs until `deadline_ms` milliseconds, with
/// the system leeway for its quality of service.
pub fn sleep_until(s: &mut Scheduler, hart: usize, now: u64, deadline_ms: u64) -> (e: Effects)
    requires
        old(s).wf(),
        hart < HARTS_MAX,
        old(s).has_current(hart),
        old(s).threads@[old(s).cpus@[hart as int].idle_thread_idx as int] is Some,
        now >= old(s).threads@[old(s).curr(hart) as int]->0.last_started_cycles,
        now + SLICE <= u64::MAX,
    ensures
        final(s).wf(),
        ({
            let at = spec_saturating_mul(deadline_ms, CYCLES_PER_MS);
            let d = Deadline { at, leeway: spec_system_leeway(at, old(s).threads@[old(s).curr(hart) as int]->0.qos, now) };
            rescheduled(old(s).threads@, old(s).cpus@, old(s).needs_wakeup@, final(s).threads@, final(s).cpus@, final(s).needs_wakeup@, hart, now, None, PostSwitch::Sleeping(d), e.kick_other, e.timer, e.switch)
        }),
        switch_context(old(s).threads@, old(s).procs@, e.switch, e.pmp, e.trap_stack),
        final(s).procs@ == old(s).procs@,
        final(s).next_thread_id == old(s).next_thread_id,
        final(s).next_pid == old(s).next_pid,
{
    let qos = s.current_qos(hart);
    let d = Deadline::from_ms_with_system_leeway(deadline_ms, qos, now);
    s.sleep_until(hart, now, d)
}

/// Sleeps the thread `hart` runs for `duration_ms` milliseconds, with the
/// system leeway for its quality of service.
pub fn sleep(s: &mut Scheduler, hart: usize, now: u64, duration_ms: u64) -> (e: Effects)
    requires
        old(s).wf(),
        hart < HARTS_MAX,
        old(s).has_current(hart),
        old(s).threads@[old(s).cpus@[hart as int].idle_thread_idx as int] is Some,
        now >= old(s).threads@[old(s).curr(hart) as int]->0.last_started_cycles,
        now + SLICE <= u64::MAX,
    ensures
        final(s).wf(),
        ({
            let at = spec_saturating_mul(duration_ms.saturating_add(now / CYCLES_PER_MS), CYCLES_PER_MS);
            let d = Deadline { at, leeway: spec_system_leeway(at, old(s).threads@[old(s).curr(hart) as int]->0.qos, now) };
            rescheduled(old(s).threads@, old(s).cpus@, old(s).needs_wakeup@, final(s).threads@, final(s).cpus@, final(s).needs_wakeup@, hart, now, None, PostSwitch::Sleeping(d), e.kick_other, e.timer, e.switch)
        }),
        switch_context(old(s).threads@, old(s).procs@, e.switch, e.pmp, e.trap_stack),
        final(s).procs@ == old(s).procs@,
        final(s).next_thread_id == old(s).next_thread_id,
        final(s).next_pid == old(s).next_pid,
{
    let qos = s.current_qos(hart);
    let d = Deadline::after_ms_with_system_leeway(duration_ms, qos, now);
    s.sleep_until(hart, now, d)
}

/// Sleeps the thread `hart` runs for `duration_ms` milliseconds with
/// `leeway_ms` milliseconds of leeway.
pub fn sleep_with_leeway_ms(s: &mut Scheduler, hart: usize, now: u64, duration_ms: u64, leeway_ms: u64) -> (e: Effects)
    requires
        old(s).wf(),
        hart < HARTS_MAX,
        old(s).has_current(hart),
        old(s).threads@[old(s).cpus@[hart as int].idle_thread_idx as int] is Some,
        now >= old(s).threads@[old(s).curr(hart) as int]->0.last_started_cycles,
        now + SLICE <= u64::MAX,
    ensures
        final(s).wf(),
        ({
            let d = Deadline {
                at: spec_saturating_mul(duration_ms.saturating_add(now / CYCLES_PER_MS), CYCLES_PER_MS),
                leeway: spec_saturating_mul(leeway_ms, CYCLES_PER_MS),
            };
            rescheduled(old(s).threads@, old(s).cpus@, old(s).needs_wakeup@, final(s).threads@, final(s).cpus@, final(s).needs_wakeup@, hart, now, None, PostSwitch::Sleeping(d), e.kick_other, e.timer, e.switch)
        }),
        switch_context(old(s).threads@, old(s).procs@, e.switch, e.pmp, e.trap_stack),
        final(s).procs@ == old(s).procs@,
        final(s).next_thread_id == old(s).next_thread_id,
        final(s).next_pid == old(s).next_pid,
{
    let d = Deadline::after_ms(duration_ms, leeway_ms, now);
    s.sleep_until(hart, now, d)
}

/// Parks the thread `hart` runs.
pub fn park(s: &mut Scheduler, hart: usize, now: u64) -> (e: Effects)
    requires
        old(s).wf(),
        hart < HARTS_MAX,
        old(s).has_current(hart),
        old(s).threads@[old(s).cpus@[hart as int].idle_thread_idx as int] is Some,
        now >= old(s).threads@[old(s).curr(hart) as int]->0.last_started_cycles,
        now + SLICE <= u64::MAX,
    ensures
        final(s).wf(),
        rescheduled(old(s).threads@, old(s).cpus@, old(s).needs_wakeup@, final(s).threads@, final(s).cpus@, final(s).needs_wakeup@, hart, now, None, PostSwitch::Blocked, e.kick_other, e.timer, e.switch),
        switch_context(old(s).threads@, old(s).procs@, e.switch, e.pmp, e.trap_stack),
        final(s).procs@ == old(s).procs@,
        final(s).next_thread_id == old(s).next_thread_id,
        final(s).next_pid == old(s).next_pid,
{
    s.park(hart, now)
}

/// Parks the thread `hart` runs if it is still blocked.
pub fn park_if_blocked(s: &mut Scheduler, hart: usize, now: u64) -> (e: Effects)
    requires
        old(s).wf(),
        hart < HARTS_MAX,
        old(s).has_current(hart),
        old(s).threads@[old(s).cpus@[hart as int].idle_thread_idx as int] is Some,
        now >= old(s).threads@[old(s).curr(hart) as int]->0.last_started_cycles,
        now + SLICE <= u64::MAX,
    ensures
        final(s).wf(),
        rescheduled(old(s).threads@, old(s).cpus@, old(s).needs_wakeup@, final(s).threads@, final(s).cpus@, final(s).needs_wakeup@, hart, now, Some(State::Blocked), PostSwitch::Blocked, e.kick_other, e.timer, e.switch),
        switch_context(old(s).threads@, old(s).procs@, e.switch, e.pmp, e.trap_stack),
        final(s).procs@ == old(s).procs@,
        final(s).next_thread_id == old(s).next_thread_id,
        final(s).next_pid == old(s).next_pid,
{
    s.park_if_blocked(hart, now)
}

/// Wakes the thread `handle` names: see `Scheduler::unpark`.
pub fn unpark(s: &mut Scheduler, hart: usize, handle: &ThreadHandle) -> (kick: bool)
    requires
        old(s).wf(),
        hart < HARTS_MAX,
        handle.idx < THREADS_MAX,
    ensures
        final(s).wf(),
        final(s).procs@ == old(s).procs@,
        final(s).next_thread_id == old(s).next_thread_id,
        final(s).next_pid == old(s).next_pid,
        final(s).needs_wakeup@ == old(s).needs_wakeup@,
        final(s).run_cycles@ == old(s).run_cycles@,
        match old(s).threads@[handle.idx as int] {
            Some(t) => if t.id == handle.id && (t.state == State::Blocked || t.state is BlockedUntil) {
                &&& final(s).threads@ == old(s).threads@.update(handle.idx as int, Some(with_state(t, State::Ready)))
                &&& kick == (t.affinity matches Some(h) && h != hart)
                &&& final(s).cpus@ == if kick {
                    old(s).cpus@
                } else {
                    old(s).cpus@.update(hart as int, PerCpu { needs_reschedule: true, ..old(s).cpus@[hart as int] })
                }
            } else {
                !kick && final(s).threads@ == old(s).threads@ && final(s).cpus@ == old(s).cpus@
            },
            None => !kick && final(s).threads@ == old(s).threads@ && final(s).cpus@ == old(s).cpus@,
        },
{
    s.unpark(hart, handle)
}

/// A handle to the thread `hart` runs.
pub fn current_thread(s: &Scheduler, hart: usize) -> (r: ThreadHandle)
    requires
        s.wf(),
        hart < HARTS_MAX,
        s.has_current(hart),
    ensures
        r == (ThreadHandle { idx: s.curr(hart), id: s.threads@[s.curr(hart) as int]->0.id }),
{
    s.current_thread(hart)
}

/// Sets the next waiter of the thread `handle` names.
pub fn set_next_waiter(s: &mut Scheduler, handle: &ThreadHandle, next: Option<ThreadHandle>)
    requires
        old(s).wf(),
        handle.idx < THREADS_MAX,
    ensures
        final(s).wf(),
        final(s).threads@ == with_next_waiter(old(s).threads@, *handle, next),
        final(s).procs@ == old(s).procs@,
        final(s).next_thread_id == old(s).next_thread_id,
        final(s).next_pid == old(s).next_pid,
        final(s).cpus@ == old(s).cpus@,
        final(s).needs_wakeup@ == old(s).needs_wakeup@,
        final(s).run_cycles@ == old(s).run_cycles@,
{
    s.set_next_waiter(handle, next)
}

/// The next waiter of the thread `handle` names.
pub fn get_next_waiter(s: &Scheduler, handle: &ThreadHandle) -> (r: Option<ThreadHandle>)
    requires
        s.wf(),
        handle.idx < THREADS_MAX,
    ensures
        r == next_waiter_of(s.threads@, *handle),
{
    s.get_next_waiter(handle)
}

/// Makes the blocked thread in slot `idx` ready.
pub fn unpark_by_index(s: &mut Scheduler, hart: usize, idx: usize)
    requires
        old(s).wf(),
        hart < HARTS_MAX,
        idx < THREADS_MAX,
    ensures
        final(s).wf(),
        match old(s).threads@[idx as int] {
            Some(t) => if t.state == State::Blocked {
                &&& final(s).threads@ == old(s).threads@.update(idx as int, Some(with_state(t, State::Ready)))
                &&& final(s).cpus@ == old(s).cpus@.update(hart as int, PerCpu { needs_reschedule: true, ..old(s).cpus@[hart as int] })
            } else {
                final(s).threads@ == old(s).threads@ && final(s).cpus@ == old(s).cpus@
            },
            None => final(s).threads@ == old(s).threads@ && final(s).cpus@ == old(s).cpus@,
        },
        final(s).procs@ == old(s).procs@,
        final(s).next_thread_id == old(s).next_thread_id,
        final(s).next_pid == old(s).next_pid,
        final(s).needs_wakeup@ == old(s).needs_wakeup@,
        final(s).run_cycles@ == old(s).run_cycles@,
{
    s.unpark_by_index(hart, idx)
}

/// Marks the thread `hart` runs as blocked.
pub fn set_self_blocked(s: &mut Scheduler, hart: usize)
    requires
        old(s).wf(),
        hart < HARTS_MAX,
        old(s).has_current(hart),
    ensures
        final(s).wf(),
        final(s).threads@ == old(s).threads@.update(
            old(s).curr(hart) as int,
            Some(with_state(old(s).threads@[old(s).curr(hart) as int]->0, State::Blocked)),
        ),
        final(s).procs@ == old(s).procs@,
        final(s).next_thread_id == old(s).next_thread_id,
        final(s).next_pid == old(s).next_pid,
        final(s).cpus@ == old(s).cpus@,
        final(s).needs_wakeup@ == old(s).needs_wakeup@,
        final(s).run_cycles@ == old(s).run_cycles@,
{
    s.set_self_blocked(hart)
}

/// Marks the thread `hart` runs as blocked until `deadline`.
pub fn set_self_blocked_until(s: &mut Scheduler, hart: usize, deadline: Deadline)
    requires
        old(s).wf(),
        hart < HARTS_MAX,
        old(s).has_current(hart),
    ensures
        final(s).wf(),
        final(s).threads@ == old(s).threads@.update(
            old(s).curr(hart) as int,
            Some(with_state(old(s).threads@[old(s).curr(hart) as int]->0, State::BlockedUntil(deadline))),
        ),
        final(s).procs@ == old(s).procs@,
        final(s).next_thread_id == old(s).next_thread_id,
        final(s).next_pid == old(s).next_pid,
        final(s).cpus@ == old(s).cpus@,
        final(s).needs_wakeup@ == old(s).needs_wakeup@,
        final(s).run_cycles@ == old(s).run_cycles@,
{
    s.set_self_blocked_until(hart, deadline)
}

/// Parks the thread `hart` runs until `deadline` if still blocked until it.
pub fn park_if_blocked_until(s: &mut Scheduler, hart: usize, now: u64, deadline: Deadline) -> (e: Effects)
    requires
        old(s).wf(),
        hart < HARTS_MAX,
        old(s).has_current(hart),
        old(s).threads@[old(s).cpus@[hart as int].idle_thread_idx as int] is Some,
        now >= old(s).threads@[old(s).curr(hart) as int]->0.last_started_cycles,
        now + SLICE <= u64::MAX,
    ensures
        final(s).wf(),
        rescheduled(old(s).threads@, old(s).cpus@, old(s).needs_wakeup@, final(s).threads@, final(s).cpus@, final(s).needs_wakeup@, hart, now, Some(State::BlockedUntil(deadline)), PostSwitch::BlockedUntil(deadline), e.kick_other, e.timer, e.switch),
        switch_context(old(s).threads@, old(s).procs@, e.switch, e.pmp, e.trap_stack),
        final(s).procs@ == old(s).procs@,
        final(s).next_thread_id == old(s).next_thread_id,
        final(s).next_pid == old(s).next_pid,
{
    s.park_if_blocked_until(hart, now, deadline)
}

/// Asks `hart` to reschedule: see `Scheduler::mark_for_preempt`.
pub fn mark_for_preempt(s: &mut Scheduler, hart: usize, now: u64) -> (r: u64)
    requires
        old(s).wf(),
        hart < HARTS_MAX,
        now + SLICE <= u64::MAX,
    ensures
        final(s).wf(),
        r == now + SLICE,
        final(s).cpus@ == old(s).cpus@.update(hart as int, PerCpu { needs_reschedule: true, ..old(s).cpus@[hart as int] }),
        final(s).threads@ == old(s).threads@,
        final(s).procs@ == old(s).procs@,
        final(s).next_thread_id == old(s).next_thread_id,
        final(s).next_pid == old(s).next_pid,
        final(s).needs_wakeup@ == old(s).needs_wakeup@,
        final(s).run_cycles@ == old(s).run_cycles@,
{
    s.mark_for_preempt(hart, now)
}

/// A preemptive scheduling pass: see `Scheduler::schedule`.
pub fn schedule(s: &mut Scheduler, hart: usize, now: u64) -> (e: Effects)
    requires
        old(s).wf(),
        hart < HARTS_MAX,
        old(s).has_current(hart),
        old(s).threads@[old(s).cpus@[hart as int].idle_thread_idx as int] is Some,
        now >= old(s).threads@[old(s).curr(hart) as int]->0.last_started_cycles,
        now + SLICE <= u64::MAX,
    ensures
        final(s).wf(),
        scheduled(
            old(s).threads@,
            old(s).cpus@,
            old(s).needs_wakeup@,
            final(s).threads@,
            final(s).cpus@,
            final(s).needs_wakeup@,
            hart,
            now,
            e.kick_other,
            e.timer,
            e.switch,
        ),
        final(s).procs@ == old(s).procs@,
        final(s).next_thread_id == old(s).next_thread_id,
        final(s).next_pid == old(s).next_pid,
        switch_context(old(s).threads@, old(s).procs@, e.switch, e.pmp, e.trap_stack),
{
    s.schedule(hart, now)
}

/// The timer overshoot recorded for the thread `hart` runs.
pub fn current_wake_overshoot(s: &Scheduler, hart: usize) -> (r: u64)
    requires
        s.wf(),
        hart < HARTS_MAX,
    ensures
        r == s.wake_overshoot@[s.curr(hart) as int],
{
    s.current_wake_overshoot(hart)
}

/// Spawns the program `name`: `image` is `None` when there is no such
/// program, else the outcome of loading it. Fails with `NotFound` or with
/// the load error; otherwise spawns as `Scheduler::spawn_process` does,
/// with the default priority, high quality of service and no affinity.
pub fn spawn_process(
    s: &mut Scheduler,
    hart: usize,
    now: u64,
    name: &'static str,
    image: Option<Result<LoadedImage, LoadError>>,
    kernel_stack: Option<MemRegion>,
    user_stack: Option<MemRegion>,
    sp: usize,
) -> (r: (Result<Handle, SpawnError>, Effects))
    requires
        old(s).wf(),
        hart < HARTS_MAX,
        now + SLICE <= u64::MAX,
        kernel_stack matches Some(k) ==> k.wf(),
        user_stack matches Some(u) ==> u.wf(),
        image matches Some(Ok(img)) ==> img.user_mem_map.wf(),
    ensures
        final(s).wf(),
        match image {
            None => r.0 == Err::<Handle, SpawnError>(SpawnError::NotFound) && *final(s) == *old(s) && !r.1.kick_other
                && r.1.timer is None && r.1.switch is None && r.1.pmp is None && r.1.trap_stack is None,
            Some(Err(le)) => r.0 == Err::<Handle, SpawnError>(SpawnError::Load(le)) && *final(s) == *old(s) && !r.1.kick_other
                && r.1.timer is None && r.1.switch is None && r.1.pmp is None && r.1.trap_stack is None,
            Some(Ok(img)) => {
                &&& r.1.switch is None
                &&& r.1.pmp is None
                &&& r.1.trap_stack is None
                &&& final(s).run_cycles@ == old(s).run_cycles@
                &&& final(s).next_pid == (if old(s).next_pid == u32::MAX { 0 } else { (old(s).next_pid + 1) as u32 })
                &&& {
                    let pslot = crate::process::first_free_slot(old(s).procs@, 0) as int;
                    let i = first_empty(old(s).threads@, 0) as int;
                    if kernel_stack is None || user_stack is None {
                        r.0 == Err::<Handle, SpawnError>(SpawnError::NotEnoughMemory) && final(s).threads@ == old(s).threads@
                            && final(s).procs@ == old(s).procs@ && !r.1.kick_other && r.1.timer is None
                    } else if pslot >= MAX {
                        r.0 == Err::<Handle, SpawnError>(SpawnError::TooManyProcesses) && final(s).threads@ == old(s).threads@
                            && final(s).procs@ == old(s).procs@ && !r.1.kick_other && r.1.timer is None
                    } else if i >= THREADS_MAX {
                        r.0 == Err::<Handle, SpawnError>(SpawnError::NotEnoughThreads) && final(s).threads@ == old(s).threads@
                            && final(s).procs@ == old(s).procs@ && !r.1.kick_other && r.1.timer is None
                    } else {
                        let uc = crate::threads::UserContext { user_stack: user_stack->0, user_entry: img.entry, process_idx: pslot as u8 };
                        let tcb = new_tcb(old(s).next_thread_id, kernel_stack->0, sp, Qos::High, crate::threads::PRIORITY_DEFAULT, None, Some(uc), spec_pass_baseline(old(s).threads@), now);
                        &&& r.0 == Ok::<Handle, SpawnError>(Handle { pid: old(s).next_pid, idx: pslot as usize })
                        &&& final(s).procs@[pslot] matches Some(pcb) && pcb.pid == old(s).next_pid && pcb.name == name
                            && pcb.thread_count == 1 && pcb.entry_ra == img.entry_ra && pcb.teardown_thread is None
                            && pcb.mem_map == img.user_mem_map
                            && pcb.fds@ == Seq::new(crate::fd::MAX as nat, |k: int| None::<crate::fd::Kind>).update(0, Some(crate::fd::Kind::Keyboard)).update(1, Some(crate::fd::Kind::Console)).update(2, Some(crate::fd::Kind::DebugConsole))
                        &&& forall|q: int| 0 <= q < MAX && q != pslot ==> #[trigger] final(s).procs@[q] == old(s).procs@[q]
                        &&& final(s).next_thread_id == next_id(old(s).next_thread_id)
                        &&& spawn_tail(old(s).threads@.update(i, Some(tcb)), old(s).cpus@, old(s).needs_wakeup@.update(i, false), final(s).threads@, final(s).cpus@, final(s).needs_wakeup@, hart, now, None, r.1.kick_other, r.1.timer)
                    }
                }
            },
        },
{
    let none = Effects { kick_other: false, timer: None, switch: None, pmp: None, trap_stack: None };
    match image {
        None => (Err(SpawnError::NotFound), none),
        Some(Err(e)) => (Err(SpawnError::Load(e)), none),
        Some(Ok(img)) => s.spawn_process(hart, now, name, crate::threads::PRIORITY_DEFAULT, kernel_stack, user_stack, img, sp, Qos::High, None),
    }
}

/// Adds a user thread to `process`: see `Scheduler::spawn_user`, with the
/// default priority, high quality of service and no affinity.
pub fn spawn_user(
    s: &mut Scheduler,
    hart: usize,
    now: u64,
    process: &Handle,
    entry: usize,
    kernel_stack: Option<MemRegion>,
    user_stack: Option<MemRegion>,
    sp: usize,
) -> (r: (Option<ThreadHandle>, Effects))
    requires
        old(s).wf(),
        hart < HARTS_MAX,
        now + SLICE <= u64::MAX,
        process.idx < MAX,
        kernel_stack matches Some(k) ==> k.wf(),
        user_stack matches Some(u) ==> u.wf(),
    ensures
        final(s).wf(),
        r.1.switch is None,
        r.1.pmp is None,
        r.1.trap_stack is None,
        final(s).run_cycles@ == old(s).run_cycles@,
        final(s).next_pid == old(s).next_pid,
        ({
            let i = first_empty(old(s).threads@, 0) as int;
            let pi = process.idx as int;
            let ok_process = old(s).procs@[pi] matches Some(pcb) && pcb.pid == process.pid;
            if kernel_stack is Some && user_stack is Some && ok_process && i < THREADS_MAX
                && old(s).procs@[pi]->0.thread_count < crate::process::THREADS_PER_PROC_MAX {
                let uc = crate::threads::UserContext { user_stack: user_stack->0, user_entry: entry, process_idx: process.idx as u8 };
                let tcb = new_tcb(old(s).next_thread_id, kernel_stack->0, sp, Qos::High, crate::threads::PRIORITY_DEFAULT, None, Some(uc), spec_pass_baseline(old(s).threads@), now);
                let pcb = old(s).procs@[pi]->0;
                &&& r.0 == Some(ThreadHandle { idx: i as usize, id: old(s).next_thread_id })
                &&& final(s).next_thread_id == next_id(old(s).next_thread_id)
                &&& final(s).procs@ == old(s).procs@.update(pi, Some(ControlBlock { thread_count: (pcb.thread_count + 1) as u8, ..pcb }))
                &&& spawn_tail(old(s).threads@.update(i, Some(tcb)), old(s).cpus@, old(s).needs_wakeup@.update(i, false), final(s).threads@, final(s).cpus@, final(s).needs_wakeup@, hart, now, None, r.1.kick_other, r.1.timer)
            } else {
                &&& r.0 is None
                &&& !r.1.kick_other && r.1.timer is None
                &&& final(s).threads@ == old(s).threads@
                &&& final(s).procs@ == old(s).procs@
                &&& final(s).cpus@ == old(s).cpus@
                &&& final(s).needs_wakeup@ == old(s).needs_wakeup@
                &&& final(s).next_thread_id == (if kernel_stack is Some && user_stack is Some && ok_process && i < THREADS_MAX {
                    next_id(old(s).next_thread_id)
                } else {
                    old(s).next_thread_id
                })
            }
        }),
{
    s.spawn_user(hart, now, process, entry, crate::threads::PRIORITY_DEFAULT, kernel_stack, user_stack, sp, Qos::High, None)
}

/// Raises the wake-up flag of slot `idx`; a number that names no slot is
/// Whether the thread `hart` runs is a user thread condemned to exit (its
/// process is being torn down after a fault).
pub open spec fn condemned(s: &Scheduler, hart: usize) -> bool {
    s.threads@[s.curr(hart) as int] matches Some(t) && t.user is Some && t.marked_for_exit
}

/// Whether the thread `hart` runs is a user thread that must exit: a
/// blocking wait that holds locks turns this into an error and unwinds.
pub fn current_user_thread_needs_exit(s: &Scheduler, hart: usize) -> (r: bool)
    requires
        s.wf(),
        hart < HARTS_MAX,
    ensures
        r == condemned(s, hart),
{
    match s.threads.get(current_thread_idx(&s.cpus, hart)) {
        Some(t) => t.user.is_some() && t.marked_for_exit,
        None => false,
    }
}

/// Ends the kernel thread `hart` runs, for `reason`: it switches out dead
/// and never runs again.
pub fn exit_kernel_thread(s: &mut Scheduler, hart: usize, now: u64, reason: ExitReason) -> (e: Effects)
    requires
        old(s).wf(),
        hart < HARTS_MAX,
        old(s).has_current(hart),
        old(s).threads@[old(s).cpus@[hart as int].idle_thread_idx as int] is Some,
        now >= old(s).threads@[old(s).curr(hart) as int]->0.last_started_cycles,
        now + SLICE <= u64::MAX,
    ensures
        final(s).wf(),
        rescheduled(old(s).threads@, old(s).cpus@, old(s).needs_wakeup@, final(s).threads@, final(s).cpus@, final(s).needs_wakeup@, hart, now, None, PostSwitch::Dead(reason), e.kick_other, e.timer, e.switch),
        switch_context(old(s).threads@, old(s).procs@, e.switch, e.pmp, e.trap_stack),
        final(s).procs@ == old(s).procs@,
        final(s).next_thread_id == old(s).next_thread_id,
        final(s).next_pid == old(s).next_pid,
{
    s.exit(hart, now, reason)
}

/// Begins the exit of the user thread `hart` runs if it has been
/// condemned: see `Scheduler::exit_user_thread`, with a fault as the
/// reason. Returns `None`, changing nothing, for a thread that may go on.
pub fn exit_user_thread_if_needs_exit(s: &mut Scheduler, hart: usize) -> (r: Option<(u8, bool, bool)>)
    requires
        old(s).wf(),
        hart < HARTS_MAX,
    ensures
        final(s).wf(),
        !condemned(&*old(s), hart) ==> r is None && final(s).threads@ == old(s).threads@ && final(s).procs@ == old(s).procs@
            && final(s).cpus@ == old(s).cpus@ && final(s).needs_wakeup@ == old(s).needs_wakeup@,
        condemned(&*old(s), hart) ==> ({
            let c = old(s).curr(hart);
            let p = old(s).threads@[c as int]->0.user->0.process_idx;
            let claimed = old(s).procs@[p as int]->0.teardown_thread is None;
            &&& r matches Some(v) && v.0 == p && v.1 == claimed
            &&& if claimed {
                &&& evict_result(old(s).threads@, final(s).threads@, p as int, c, ExitReason::Fault)
                &&& final(s).procs@[p as int] matches Some(b) && b.teardown_thread == Some(c)
            } else {
                final(s).threads@ == old(s).threads@ && final(s).procs@ == old(s).procs@
            }
        }),
{
    if current_user_thread_needs_exit(s, hart) {
        Some(s.exit_user_thread(hart, ExitReason::Fault))
    } else {
        None
    }
}

/// Opens a file descriptor in the process of the thread `hart` runs: see
/// `Scheduler::open_fd`.
pub fn open_file_descriptor(s: &mut Scheduler, hart: usize, kind: crate::fd::Kind) -> (r: Result<usize, crate::fd::Error>)
    requires
        old(s).wf(),
        hart < HARTS_MAX,
    ensures
        final(s).wf(),
        final(s).threads@ == old(s).threads@,
        match old(s).threads@[old(s).curr(hart) as int] {
            Some(t) if t.user is Some => {
                let p = t.user->0.process_idx as int;
                let pcb = old(s).procs@[p]->0;
                let i = crate::fd::first_free(pcb.fds@, 0);
                &&& forall|q: int| 0 <= q < MAX && q != p ==> #[trigger] final(s).procs@[q] == old(s).procs@[q]
                &&& if i < crate::fd::MAX {
                    r == Ok::<usize, crate::fd::Error>(i as usize) && final(s).procs@[p]->0.fds@ == pcb.fds@.update(i as int, Some(kind))
                } else {
                    r == Err::<usize, crate::fd::Error>(crate::fd::Error::NotEnoughSlots(kind)) && final(s).procs@[p]->0.fds@ == pcb.fds@
                }
            },
            _ => r == Err::<usize, crate::fd::Error>(crate::fd::Error::NotAUserProcess) && final(s).procs@ == old(s).procs@,
        },
{
    s.open_fd(hart, kind)
}

/// Closes a file descriptor of the process of the thread `hart` runs: see
/// `Scheduler::close_fd`.
pub fn close_file_descriptor(s: &mut Scheduler, hart: usize, fd: usize) -> (r: Result<crate::fd::Kind, crate::fd::Error>)
    requires
        old(s).wf(),
        hart < HARTS_MAX,
    ensures
        final(s).wf(),
        final(s).threads@ == old(s).threads@,
        match old(s).threads@[old(s).curr(hart) as int] {
            Some(t) if t.user is Some => {
                let p = t.user->0.process_idx as int;
                let pcb = old(s).procs@[p]->0;
                &&& forall|q: int| 0 <= q < MAX && q != p ==> #[trigger] final(s).procs@[q] == old(s).procs@[q]
                &&& if fd >= crate::fd::MAX {
                    r == Err::<crate::fd::Kind, crate::fd::Error>(crate::fd::Error::UnknownFileDescriptor)
                        && final(s).procs@[p]->0.fds@ == pcb.fds@
                } else {
                    match pcb.fds@[fd as int] {
                        Some(k) => r == Ok::<crate::fd::Kind, crate::fd::Error>(k) && final(s).procs@[p]->0.fds@ == pcb.fds@.update(fd as int, None),
                        None => r == Err::<crate::fd::Kind, crate::fd::Error>(crate::fd::Error::StaleFileDescriptor)
                            && final(s).procs@[p]->0.fds@ == pcb.fds@,
                    }
                }
            },
            _ => r == Err::<crate::fd::Kind, crate::fd::Error>(crate::fd::Error::NotAUserProcess) && final(s).procs@ == old(s).procs@,
        },
{
    s.close_fd(hart, fd)
}

/// ignored.
pub fn set_needs_wakeup(s: &mut Scheduler, idx: usize)
    requires
        old(s).wf(),
    ensures
        final(s).wf(),
        final(s).needs_wakeup@ == if idx < THREADS_MAX {
            old(s).needs_wakeup@.update(idx as int, true)
        } else {
            old(s).needs_wakeup@
        },
        final(s).threads@ == old(s).threads@,
        final(s).procs@ == old(s).procs@,
        final(s).next_thread_id == old(s).next_thread_id,
        final(s).next_pid == old(s).next_pid,
        final(s).cpus@ == old(s).cpus@,
        final(s).run_cycles@ == old(s).run_cycles@,
{
    if idx < THREADS_MAX {
        s.set_wakeup_flag(idx);
    }
}

/// Lowers the wake-up flag of slot `idx`; a number that names no slot is
/// ignored.
pub fn clear_wakeup_signal(s: &mut Scheduler, idx: usize)
    requires
        old(s).wf(),
    ensures
        final(s).wf(),
        final(s).needs_wakeup@ == if idx < THREADS_MAX {
            old(s).needs_wakeup@.update(idx as int, false)
        } else {
            old(s).needs_wakeup@
        },
        final(s).threads@ == old(s).threads@,
        final(s).procs@ == old(s).procs@,
        final(s).next_thread_id == old(s).next_thread_id,
        final(s).next_pid == old(s).next_pid,
        final(s).cpus@ == old(s).cpus@,
        final(s).run_cycles@ == old(s).run_cycles@,
{
    if idx < THREADS_MAX {
        s.clear_wakeup_flag(idx);
    }
}

/// The kernel stacks of all threads: see `Scheduler::stacks`.
pub fn stacks(s: &Scheduler) -> (r: Vec<(u16, usize, usize)>)
    requires
        s.wf(),
    ensures
        forall|k: int| 0 <= k < r@.len() ==> #[trigger] reported_within(s.threads@, r@[k], THREADS_MAX as int),
        forall|i: int| 0 <= i < THREADS_MAX && (#[trigger] s.threads@[i]) is Some ==> exists|k: int| 0 <= k < r@.len()
            && #[trigger] r@[k] == stack_entry(s.threads@[i]),
{
    s.stacks()
}

/// An all-empty table counts no process's threads.
pub proof fn lemma_pcount_zero(n: nat, p: int)
    ensures
        pcount(Seq::new(n, |i: int| None::<ThreadControlBlock>), p) == 0,
    decreases n,
{
    if n > 0 {
        lemma_pcount_zero((n - 1) as nat, p);
        assert(Seq::new(n, |i: int| None::<ThreadControlBlock>).drop_last() =~= Seq::new(
            (n - 1) as nat,
            |i: int| None::<ThreadControlBlock>,
        ));
    }
}

} // verus!
