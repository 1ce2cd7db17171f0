//! Thread control blocks
//!
//! The scheduler keeps a fixed table of `THREADS_MAX` slots, each empty or
//! holding a thread control block. Scheduling is by stride: every thread has
//! a pass value that grows with the cycles it runs, weighted by its priority
//! number, and the ready thread with the lowest pass runs next.

use vstd::prelude::*;
use crate::deadline::{Deadline, Qos, saturating_mul, spec_saturating_mul};
use crate::region::MemRegion;

verus! {

/// Number of thread slots.
pub const THREADS_MAX: usize = 16;

/// Priority given to threads unless asked otherwise. Lower numbers are
/// higher priority.
pub const PRIORITY_DEFAULT: u8 = 127;

/// Priority of the idle threads. Threads at this priority are never picked
/// by the pass comparison and do not count towards the pass baseline.
pub const PRIORITY_MIN: u8 = 254;

/// Names a thread: its slot index and the id it was given when created, so
/// a handle to a finished thread does not match a later thread in the same
/// slot.
#[derive(Clone, Copy, Debug, PartialEq, Eq)]
pub struct ThreadHandle {
    pub idx: usize,
    pub id: u16,
}

impl ThreadHandle {
    /// The thread's id.
    pub fn id(&self) -> (r: u16)
        ensures
            r == self.id,
    {
        self.id
    }

    /// The thread's slot index.
    pub fn idx(&self) -> (r: usize)
        ensures
            r == self.idx,
    {
        self.idx
    }
}

/// Why a thread ended.
#[derive(Clone, Copy, Debug, PartialEq, Eq, Structural)]
pub enum ExitReason {
    Exit,
    Fault,
}

/// The state a thread goes to once the switch away from it is complete.
#[derive(Clone, Copy, Debug, PartialEq, Eq, Structural)]
pub enum PostSwitch {
    Blocked,
    BlockedUntil(Deadline),
    Ready,
    Sleeping(Deadline),
    Dead(ExitReason),
}

/// Scheduling state of a thread.
#[derive(Clone, Copy, Debug, PartialEq, Eq, Structural)]
pub enum State {
    Blocked,
    BlockedUntil(Deadline),
    Ready,
    Running,
    Switching(PostSwitch),
    Sleeping(Deadline),
}

/// What a user thread runs on: its user stack, entry address and process.
#[derive(Debug)]
pub struct UserContext {
    pub user_stack: MemRegion,
    pub user_entry: usize,
    pub process_idx: u8,
}

/// One thread's scheduling record.
#[derive(Debug)]
pub struct ThreadControlBlock {
    pub id: u16,
    pub state: State,
    pub kernel_stack: MemRegion,
    pub sp: usize,
    pub qos: Qos,
    pub priority: u8,
    pub affinity: Option<u8>,
    pub user: Option<UserContext>,
    pub pass: u64,
    pub last_started_cycles: u64,
    pub next_waiter: Option<ThreadHandle>,
    pub marked_for_exit: bool,
    pub resources_released: bool,
    /// When the thread last became ready on its own: made, or woken when
    /// its time came. For tracing how long ready threads wait.
    pub ready_since: u64,
}

/// What a new thread is made from.
#[derive(Debug)]
pub struct ThreadControlBlockSpec {
    pub kernel_stack: MemRegion,
    pub qos: Qos,
    pub priority: u8,
    pub affinity: Option<u8>,
    pub user: Option<UserContext>,
}

/// The latest time a thread must be woken by, if it is waiting on a
/// deadline (sleeping or blocked until, possibly still switching out).
pub open spec fn spec_must_wake_by(t: ThreadControlBlock) -> Option<u64> {
    match t.state {
        State::Sleeping(d) => Some(d.spec_latest()),
        State::Switching(PostSwitch::Sleeping(d)) => Some(d.spec_latest()),
        State::BlockedUntil(d) => Some(d.spec_latest()),
        State::Switching(PostSwitch::BlockedUntil(d)) => Some(d.spec_latest()),
        _ => None,
    }
}

/// Whether a thread counts towards the pass baseline: ready or running,
/// and not an idle thread.
pub open spec fn counts_for_baseline(t: ThreadControlBlock) -> bool {
    (t.state == State::Ready || t.state == State::Running) && t.priority != PRIORITY_MIN
}

/// The smaller of two optional values, `None` counting as no bound.
pub open spec fn min_opt(a: Option<u64>, b: Option<u64>) -> Option<u64> {
    match (a, b) {
        (Some(x), Some(y)) => Some(if x <= y { x } else { y }),
        (Some(x), None) => Some(x),
        (None, _) => b,
    }
}

/// Lowest pass among the threads that count for the baseline.
pub open spec fn min_pass(s: Seq<Option<ThreadControlBlock>>) -> Option<u64>
    decreases s.len(),
{
    if s.len() == 0 {
        None
    } else {
        let here = match s.last() {
            Some(t) => if counts_for_baseline(t) {
                Some(t.pass)
            } else {
                None
            },
            None => None,
        };
        min_opt(min_pass(s.drop_last()), here)
    }
}

/// Pass given to threads joining the run: the lowest pass among ready and
/// running non-idle threads, or zero if there are none.
pub open spec fn spec_pass_baseline(s: Seq<Option<ThreadControlBlock>>) -> u64 {
    match min_pass(s) {
        Some(p) => p,
        None => 0,
    }
}

/// The soonest deadline any thread must be woken by.
pub open spec fn min_wake(s: Seq<Option<ThreadControlBlock>>) -> Option<u64>
    decreases s.len(),
{
    if s.len() == 0 {
        None
    } else {
        let here = match s.last() {
            Some(t) => spec_must_wake_by(t),
            None => None,
        };
        min_opt(min_wake(s.drop_last()), here)
    }
}

/// Whether a slot holds a ready thread.
pub open spec fn is_ready_slot(slot: Option<ThreadControlBlock>) -> bool {
    slot matches Some(t) && t.state == State::Ready
}

/// Whether any thread is ready to run.
pub open spec fn any_ready(s: Seq<Option<ThreadControlBlock>>) -> bool {
    exists|i: int| 0 <= i < s.len() && is_ready_slot(#[trigger] s[i])
}

/// Index of the first empty slot at or after `start`, or the slot count.
pub open spec fn first_empty(s: Seq<Option<ThreadControlBlock>>, start: nat) -> nat
    decreases s.len() - start,
{
    if start >= s.len() {
        s.len()
    } else if s[start as int] is None {
        start
    } else {
        first_empty(s, start + 1)
    }
}

/// A sleeping deadline after the timer was coalesced onto `b`: a deadline
/// whose window holds `b` moves to `b`, keeping its latest wake-up.
pub open spec fn coalesced(d: Deadline, b: u64) -> Deadline {
    if d.spec_contains(b) {
        Deadline { at: b, leeway: (d.spec_latest() - b) as u64 }
    } else {
        d
    }
}

/// A thread's state after the timer was coalesced onto `b`. Only sleeping
/// threads move; blocked-until threads keep their deadline.
pub open spec fn coalesced_state(st: State, b: u64) -> State {
    match st {
        State::Sleeping(d) => State::Sleeping(coalesced(d, b)),
        State::Switching(PostSwitch::Sleeping(d)) => State::Switching(
            PostSwitch::Sleeping(coalesced(d, b)),
        ),
        _ => st,
    }
}

/// Whether two thread records agree on everything but the state.
pub open spec fn same_but_state(a: ThreadControlBlock, b: ThreadControlBlock) -> bool {
    &&& a.id == b.id
    &&& a.kernel_stack == b.kernel_stack
    &&& a.sp == b.sp
    &&& a.qos == b.qos
    &&& a.priority == b.priority
    &&& a.affinity == b.affinity
    &&& a.user == b.user
    &&& a.pass == b.pass
    &&& a.last_started_cycles == b.last_started_cycles
    &&& a.next_waiter == b.next_waiter
    &&& a.marked_for_exit == b.marked_for_exit
    &&& a.resources_released == b.resources_released
    &&& a.ready_since == b.ready_since
}

/// Whether two thread records agree on everything but state and pass, and
/// when they became ready.
pub open spec fn same_but_state_and_pass(a: ThreadControlBlock, b: ThreadControlBlock) -> bool {
    &&& a.id == b.id
    &&& a.kernel_stack == b.kernel_stack
    &&& a.sp == b.sp
    &&& a.qos == b.qos
    &&& a.priority == b.priority
    &&& a.affinity == b.affinity
    &&& a.user == b.user
    &&& a.last_started_cycles == b.last_started_cycles
    &&& a.next_waiter == b.next_waiter
    &&& a.marked_for_exit == b.marked_for_exit
    &&& a.resources_released == b.resources_released
}

impl ThreadControlBlock {
    /// Moves the pass on by the cycles run, weighted by the priority number,
    /// saturating. Priority zero threads never move.
    pub fn stride_forward(&mut self, ran_cycles: u64)
        ensures
            final(self).pass == old(self).pass.saturating_add(
                spec_saturating_mul(ran_cycles, old(self).priority as u64),
            ),
            same_but_state_and_pass(*final(self), *old(self)),
            final(self).state == old(self).state,
            final(self).ready_since == old(self).ready_since,
    {
        self.pass = self.pass.saturating_add(saturating_mul(ran_cycles, self.priority as u64));
    }

    /// The latest time the thread must be woken by, including leeway, or
    /// `None` if it is not waiting on a deadline.
    pub fn must_wake_by(&self) -> (r: Option<u64>)
        ensures
            r == spec_must_wake_by(*self),
    {
        match self.state {
            State::Sleeping(deadline) => Some(deadline.latest()),
            State::Switching(PostSwitch::Sleeping(deadline)) => Some(deadline.latest()),
            State::BlockedUntil(deadline) => Some(deadline.latest()),
            State::Switching(PostSwitch::BlockedUntil(deadline)) => Some(deadline.latest()),
            _ => None,
        }
    }
}

/// The thread table.
pub struct Threads {
    slots: Vec<Option<ThreadControlBlock>>,
}

impl View for Threads {
    type V = Seq<Option<ThreadControlBlock>>;

    /// The slots in index order.
    closed spec fn view(&self) -> Seq<Option<ThreadControlBlock>> {
        self.slots@
    }
}

impl Threads {
    /// The table has `THREADS_MAX` slots.
    pub open spec fn wf(&self) -> bool {
        self@.len() == THREADS_MAX
    }

    /// A table of empty slots.
    pub fn new() -> (r: Self)
        ensures
            r.wf(),
            forall|i: int| 0 <= i < THREADS_MAX ==> #[trigger] r@[i] is None,
    {
        let mut slots: Vec<Option<ThreadControlBlock>> = Vec::new();
        let mut i: usize = 0;
        while i < THREADS_MAX
            invariant
                i <= THREADS_MAX,
                slots@.len() == i,
                forall|j: int| 0 <= j < i ==> #[trigger] slots@[j] is None,
            decreases THREADS_MAX - i,
        {
            slots.push(None);
            i = i + 1;
        }
        Threads { slots }
    }

    /// The thread in slot `idx`, if any.
    pub fn get(&self, idx: usize) -> (r: Option<&ThreadControlBlock>)
        requires
            self.wf(),
            idx < THREADS_MAX,
        ensures
            match r {
                Some(t) => self@[idx as int] == Some(*t),
                None => self@[idx as int] is None,
            },
    {
        self.slots[idx].as_ref()
    }

    /// A mutable reference to the thread in slot `idx`, if any.
    pub fn get_mut(&mut self, idx: usize) -> (r: Option<&mut ThreadControlBlock>)
        requires
            old(self).wf(),
            idx < THREADS_MAX,
        ensures
            match r {
                Some(t) => {
                    &&& old(self)@[idx as int] == Some(*t)
                    &&& final(self)@ == old(self)@.update(idx as int, Some(*final(t)))
                },
                None => old(self)@[idx as int] is None && final(self)@ == old(self)@,
            },
    {
        let slot = &mut self.slots[idx];
        slot.as_mut()
    }

    /// Replaces slot `idx` with `value` and returns what it held.
    pub fn replace(&mut self, idx: usize, value: Option<ThreadControlBlock>) -> (r: Option<
        ThreadControlBlock,
    >)
        requires
            old(self).wf(),
            idx < THREADS_MAX,
        ensures
            final(self).wf(),
            r == old(self)@[idx as int],
            final(self)@ == old(self)@.update(idx as int, value),
    {
        let mut v = value;
        self.slots.set_and_swap(idx, &mut v);
        v
    }

    /// The occupied slots with their threads, in index order.
    pub fn iter_indexed(&self) -> (r: Vec<(usize, &ThreadControlBlock)>)
        requires
            self.wf(),
        ensures
            forall|k: int| 0 <= k < r@.len() ==> {
                let (i, t) = #[trigger] r@[k];
                i < THREADS_MAX && self@[i as int] == Some(*t)
            },
            forall|i: int| 0 <= i < THREADS_MAX && (#[trigger] self@[i]) is Some ==> exists|k: int|
                0 <= k < r@.len() && (#[trigger] r@[k]).0 == i,
            forall|k1: int, k2: int| 0 <= k1 < k2 < r@.len() ==> (#[trigger] r@[k1]).0 < (
            #[trigger] r@[k2]).0,
    {
        let mut r: Vec<(usize, &ThreadControlBlock)> = Vec::new();
        let mut i: usize = 0;
        while i < THREADS_MAX
            invariant
                self.wf(),
                i <= THREADS_MAX,
                forall|k: int| 0 <= k < r@.len() ==> {
                    let (j, t) = #[trigger] r@[k];
                    j < i && self@[j as int] == Some(*t)
                },
                forall|j: int| 0 <= j < i && (#[trigger] self@[j]) is Some ==> exists|k: int|
                    0 <= k < r@.len() && (#[trigger] r@[k]).0 == j,
                forall|k1: int, k2: int| 0 <= k1 < k2 < r@.len() ==> (#[trigger] r@[k1]).0 < (
                #[trigger] r@[k2]).0,
            decreases THREADS_MAX - i,
        {
            let ghost old_r = r@;
            if let Some(t) = self.slots[i].as_ref() {
                r.push((i, t));
                assert(r@[r@.len() - 1].0 == i);
            }
            proof {
                assert forall|j: int| 0 <= j < i + 1 && (#[trigger] self@[j]) is Some implies exists|
                    k: int,
                | 0 <= k < r@.len() && (#[trigger] r@[k]).0 == j by {
                    if j < i {
                        let k = choose|k: int| 0 <= k < old_r.len() && (#[trigger] old_r[k]).0 == j;
                        assert(r@[k] == old_r[k]);
                    } else {
                        assert(r@[r@.len() - 1].0 == j);
                    }
                }
            }
            i = i + 1;
        }
        r
    }

    pub proof fn lemma_first_empty_bound(s: Seq<Option<ThreadControlBlock>>, i: nat)
        ensures
            first_empty(s, i) <= s.len(),
            first_empty(s, i) >= i || first_empty(s, i) == s.len(),
            first_empty(s, i) < s.len() ==> s[first_empty(s, i) as int] is None,
        decreases s.len() - i,
    {
        if i < s.len() && s[i as int] is Some {
            Self::lemma_first_empty_bound(s, i + 1);
        }
    }

    /// Sets up a thread in the lowest empty slot, ready to run, with stack
    /// pointer `sp`, id `id`, the current pass baseline and `now` as its
    /// start stamp. Returns its handle, or `None` if every slot is in use.
    pub fn acquire(&mut self, sp: usize, spec: ThreadControlBlockSpec, id: u16, now: u64) -> (r:
        Option<ThreadHandle>)
        requires
            old(self).wf(),
        ensures
            final(self).wf(),
            ({
                let i = first_empty(old(self)@, 0) as int;
                if i < THREADS_MAX {
                    &&& r == Some(ThreadHandle { idx: i as usize, id })
                    &&& final(self)@ == old(self)@.update(
                        i,
                        Some(
                            ThreadControlBlock {
                                id,
                                state: State::Ready,
                                kernel_stack: spec.kernel_stack,
                                sp,
                                qos: spec.qos,
                                priority: spec.priority,
                                affinity: spec.affinity,
                                user: spec.user,
                                pass: spec_pass_baseline(old(self)@),
                                last_started_cycles: now,
                                next_waiter: None,
                                marked_for_exit: false,
                                resources_released: false,
                                ready_since: now,
                            },
                        ),
                    )
                } else {
                    r.is_none() && final(self)@ == old(self)@
                }
            }),
    {
        let ghost s = self.slots@;
        let mut i: usize = 0;
        while i < THREADS_MAX
            invariant
                self.slots@ == s,
                s == old(self)@,
                s.len() == THREADS_MAX,
                i <= THREADS_MAX,
                first_empty(s, 0) == first_empty(s, i as nat),
            decreases THREADS_MAX - i,
        {
            if self.slots[i].is_none() {
                proof {
                    Self::lemma_first_empty_bound(s, 0);
                }
                let pass = self.pass_baseline();
                let ThreadControlBlockSpec { kernel_stack, qos, priority, affinity, user } = spec;
                let tcb = ThreadControlBlock {
                    id,
                    state: State::Ready,
                    kernel_stack,
                    sp,
                    qos,
                    priority,
                    affinity,
                    user,
                    pass,
                    last_started_cycles: now,
                    next_waiter: None,
                    marked_for_exit: false,
                    resources_released: false,
                    ready_since: now,
                };
                self.slots.set(i, Some(tcb));
                return Some(ThreadHandle { idx: i, id });
            }
            i = i + 1;
        }
        None
    }

    /// Empties the slot of `thread`, which must hold that very thread.
    pub fn release(&mut self, thread: &ThreadHandle)
        requires
            old(self).wf(),
            thread.idx < THREADS_MAX,
            old(self)@[thread.idx as int] matches Some(t) && t.id == thread.id,
        ensures
            final(self).wf(),
            final(self)@ == old(self)@.update(thread.idx as int, None),
    {
        self.slots.set(thread.idx, None);
    }

    /// The lowest pass among ready and running threads other than the idle
    /// threads, or zero if there are none. Threads joining the run start
    /// from it so they neither starve nor monopolise the processor.
    pub fn pass_baseline(&self) -> (r: u64)
        requires
            self.wf(),
        ensures
            r == spec_pass_baseline(self@),
    {
        let ghost s = self.slots@;
        let mut best: Option<u64> = None;
        let mut i: usize = 0;
        while i < self.slots.len()
            invariant
                self.slots@ == s,
                i <= s.len(),
                best == min_pass(s.take(i as int)),
            decreases s.len() - i,
        {
            proof {
                assert(s.take(i + 1).drop_last() =~= s.take(i as int));
            }
            if let Some(t) = self.slots[i].as_ref() {
                let counts = match t.state {
                    State::Ready => true,
                    State::Running => true,
                    _ => false,
                };
                if counts && t.priority != PRIORITY_MIN {
                    best = match best {
                        Some(b) => Some(
                            if b <= t.pass {
                                b
                            } else {
                                t.pass
                            },
                        ),
                        None => Some(t.pass),
                    };
                }
            }
            i = i + 1;
        }
        proof {
            assert(s.take(s.len() as int) =~= s);
        }
        match best {
            Some(b) => b,
            None => 0,
        }
    }

    /// The soonest latest-wake-up among threads waiting on a deadline,
    /// including threads still switching out, or `None` if none is waiting.
    pub fn next_wake_due(&self) -> (r: Option<u64>)
        requires
            self.wf(),
        ensures
            r == min_wake(self@),
    {
        let ghost s = self.slots@;
        let mut best: Option<u64> = None;
        let mut i: usize = 0;
        while i < self.slots.len()
            invariant
                self.slots@ == s,
                i <= s.len(),
                best == min_wake(s.take(i as int)),
            decreases s.len() - i,
        {
            proof {
                assert(s.take(i + 1).drop_last() =~= s.take(i as int));
            }
            if let Some(t) = self.slots[i].as_ref() {
                if let Some(w) = t.must_wake_by() {
                    best = match best {
                        Some(b) => Some(
                            if b <= w {
                                b
                            } else {
                                w
                            },
                        ),
                        None => Some(w),
                    };
                }
            }
            i = i + 1;
        }
        proof {
            assert(s.take(s.len() as int) =~= s);
        }
        best
    }

    /// Whether any thread is ready to run.
    pub fn is_under_contention(&self) -> (b: bool)
        requires
            self.wf(),
        ensures
            b == any_ready(self@),
    {
        let mut i: usize = 0;
        while i < self.slots.len()
            invariant
                self.wf(),
                i <= self@.len(),
                forall|j: int| 0 <= j < i ==> !is_ready_slot(#[trigger] self@[j]),
            decreases self@.len() - i,
        {
            if let Some(t) = self.slots[i].as_ref() {
                if matches!(t.state, State::Ready) {
                    assert(is_ready_slot(self@[i as int]));
                    return true;
                }
            }
            i = i + 1;
        }
        false
    }

    /// Wakes the thread in slot `idx` if it sleeps or is blocked with a
    /// deadline at or before `now`: it becomes ready and its pass is raised
    /// to at least the pass baseline less `bonus`. The baseline is worked
    /// out once per scan and kept in `pass_baseline`. Returns the new pass,
    /// the deadline and the thread's affinity when it woke the thread.
    pub fn wake_if_due(
        &mut self,
        idx: usize,
        now: u64,
        pass_baseline: &mut Option<u64>,
        bonus: u64,
    ) -> (r: Option<(u64, u64, Option<u8>)>)
        requires
            old(self).wf(),
            idx < THREADS_MAX,
        ensures
            final(self).wf(),
            match due_at(old(self)@[idx as int]) {
                Some(at) if at <= now => {
                    let t = old(self)@[idx as int]->0;
                    let baseline = match *old(pass_baseline) {
                        Some(b) => b,
                        None => spec_pass_baseline(old(self)@),
                    };
                    let pass = if t.pass >= baseline.saturating_sub(bonus) {
                        t.pass
                    } else {
                        baseline.saturating_sub(bonus)
                    };
                    &&& *final(pass_baseline) == Some(baseline)
                    &&& r == Some((pass, at, t.affinity))
                    &&& final(self)@[idx as int] matches Some(u) && u.state == State::Ready
                        && u.pass == pass && u.ready_since == now && same_but_state_and_pass(u, t)
                    &&& final(self)@ == old(self)@.update(idx as int, final(self)@[idx as int])
                },
                _ => r.is_none() && final(self)@ == old(self)@ && *final(pass_baseline) == *old(
                    pass_baseline,
                ),
            },
    {
        let at = match self.slots[idx].as_ref() {
            Some(t) => match t.state {
                State::Sleeping(d) => d.at,
                State::BlockedUntil(d) => d.at,
                _ => {
                    return None;
                },
            },
            None => {
                return None;
            },
        };
        if at <= now {
            let baseline = match *pass_baseline {
                Some(b) => b,
                None => {
                    let b = self.pass_baseline();
                    *pass_baseline = Some(b);
                    b
                },
            };
            *pass_baseline = Some(baseline);
            let floor = baseline.saturating_sub(bonus);
            let mut slot = None;
            self.slots.set_and_swap(idx, &mut slot);
            let mut t = slot.unwrap();
            t.state = State::Ready;
            t.ready_since = now;
            if t.pass < floor {
                t.pass = floor;
            }
            let pass = t.pass;
            let affinity = t.affinity;
            self.slots.set(idx, Some(t));
            Some((pass, at, affinity))
        } else {
            None
        }
    }

    /// Works out when the timer should next fire: the end of the current
    /// slice if threads contend for the processor, else never, and in any
    /// case no later than the soonest wake-up owed. Sleeping threads whose
    /// window holds that wake-up are coalesced onto it, so one timer
    /// interrupt serves them all.
    pub fn next_timer_deadline(&mut self, slice: u64, now: u64) -> (r: u64)
        requires
            old(self).wf(),
            slice + now <= u64::MAX,
        ensures
            final(self).wf(),
            ({
                let slice_end: u64 = if any_ready(old(self)@) {
                    (slice + now) as u64
                } else {
                    u64::MAX
                };
                match min_wake(old(self)@) {
                    Some(b) => {
                        &&& r == (if slice_end <= b { slice_end } else { b })
                        &&& final(self)@.len() == old(self)@.len()
                        &&& forall|i: int| #![trigger final(self)@[i]]
                            0 <= i < THREADS_MAX ==> match old(self)@[i] {
                                Some(t) => final(self)@[i] matches Some(u) && same_but_state(u, t)
                                    && u.state == coalesced_state(t.state, b),
                                None => final(self)@[i] is None,
                            }
                    },
                    None => r == slice_end && final(self)@ == old(self)@,
                }
            }),
    {
        let slice_end = if self.is_under_contention() {
            slice + now
        } else {
            u64::MAX
        };
        let next_wake = self.next_wake_due();
        match next_wake {
            Some(b) => {
                let ghost s = self.slots@;
                let mut i: usize = 0;
                while i < THREADS_MAX
                    invariant
                        self.wf(),
                        s.len() == THREADS_MAX,
                        i <= THREADS_MAX,
                        forall|j: int| #![trigger self@[j]]
                            0 <= j < i ==> match s[j] {
                                Some(t) => self@[j] matches Some(u) && same_but_state(u, t)
                                    && u.state == coalesced_state(t.state, b),
                                None => self@[j] is None,
                            },
                        forall|j: int| i <= j < THREADS_MAX ==> #[trigger] self@[j] == s[j],
                    decreases THREADS_MAX - i,
                {
                    let mut slot = None;
                    self.slots.set_and_swap(i, &mut slot);
                    if let Some(mut t) = slot {
                        match t.state {
                            State::Sleeping(mut d) => {
                                if d.contains(b) {
                                    d.coalesce_to(b);
                                }
                                t.state = State::Sleeping(d);
                            },
                            State::Switching(PostSwitch::Sleeping(mut d)) => {
                                if d.contains(b) {
                                    d.coalesce_to(b);
                                }
                                t.state = State::Switching(PostSwitch::Sleeping(d));
                            },
                            _ => {},
                        }
                        self.slots.set(i, Some(t));
                    } else {
                        self.slots.set(i, None);
                    }
                    i = i + 1;
                }
                if slice_end <= b {
                    slice_end
                } else {
                    b
                }
            },
            None => slice_end,
        }
    }

    /// Whether the thread in slot `idx` is a user thread of process `pid`.
    pub fn belongs_to_process(&self, idx: usize, pid: usize) -> (b: bool)
        requires
            self.wf(),
            idx < THREADS_MAX,
        ensures
            b == (self@[idx as int] matches Some(t) && t.user matches Some(u) && u.process_idx
                == pid),
    {
        match self.slots[idx].as_ref() {
            Some(t) => match t.user.as_ref() {
                Some(u) => u.process_idx as usize == pid,
                None => false,
            },
            None => false,
        }
    }

    /// The process of the user thread in slot `idx`, or `None` for an empty
    /// slot or a kernel thread.
    pub fn process_idx_of(&self, idx: usize) -> (r: Option<u8>)
        requires
            self.wf(),
            idx < THREADS_MAX,
        ensures
            r == spec_process_idx_of(self@[idx as int]),
    {
        match self.slots[idx].as_ref() {
            Some(t) => match t.user.as_ref() {
                Some(u) => Some(u.process_idx),
                None => None,
            },
            None => None,
        }
    }

    /// Makes the thread in slot `idx` ready if it is blocked, with or without
    /// a deadline. Returns whether it did, and the thread's affinity.
    pub fn make_blocked_ready(&mut self, idx: usize) -> (r: (bool, Option<u8>))
        requires
            old(self).wf(),
            idx < THREADS_MAX,
        ensures
            final(self).wf(),
            match old(self)@[idx as int] {
                Some(t) => if t.state == State::Blocked || t.state is BlockedUntil {
                    &&& r == (true, t.affinity)
                    &&& final(self)@[idx as int] matches Some(u) && u.state == State::Ready
                        && same_but_state(u, t)
                    &&& final(self)@ == old(self)@.update(idx as int, final(self)@[idx as int])
                } else {
                    r == (false, t.affinity) && final(self)@ == old(self)@
                },
                None => r == (false, None::<u8>) && final(self)@ == old(self)@,
            },
    {
        let mut slot = None;
        self.slots.set_and_swap(idx, &mut slot);
        match slot {
            Some(mut t) => {
                let affinity = t.affinity;
                let blocked = match t.state {
                    State::Blocked => true,
                    State::BlockedUntil(_) => true,
                    _ => false,
                };
                if blocked {
                    t.state = State::Ready;
                }
                self.slots.set(idx, Some(t));
                (blocked, affinity)
            },
            None => {
                self.slots.set(idx, None);
                (false, None)
            },
        }
    }

    /// Whether some thread of process `process_idx` still holds process
    /// resources.
    pub fn any_resource_holders(&self, process_idx: u8) -> (b: bool)
        requires
            self.wf(),
        ensures
            b == exists|i: int|
                0 <= i < THREADS_MAX && holds_resources(#[trigger] self@[i], process_idx),
    {
        let mut i: usize = 0;
        while i < THREADS_MAX
            invariant
                self.wf(),
                i <= THREADS_MAX,
                forall|j: int| 0 <= j < i ==> !holds_resources(#[trigger] self@[j], process_idx),
            decreases THREADS_MAX - i,
        {
            if let Some(t) = self.slots[i].as_ref() {
                if let Some(u) = t.user.as_ref() {
                    if u.process_idx == process_idx && !t.resources_released {
                        assert(holds_resources(self@[i as int], process_idx));
                        return true;
                    }
                }
            }
            i = i + 1;
        }
        false
    }
}

/// The state a thread waiting on a deadline sleeps or blocks until: its
/// deadline, if it is sleeping or blocked with one (not while switching).
pub open spec fn due_at(slot: Option<ThreadControlBlock>) -> Option<u64> {
    match slot {
        Some(t) => match t.state {
            State::Sleeping(d) => Some(d.at),
            State::BlockedUntil(d) => Some(d.at),
            _ => None,
        },
        None => None,
    }
}

/// The process a slot's user thread belongs to.
pub open spec fn spec_process_idx_of(slot: Option<ThreadControlBlock>) -> Option<u8> {
    match slot {
        Some(t) => match t.user {
            Some(u) => Some(u.process_idx),
            None => None,
        },
        None => None,
    }
}

/// Whether a slot holds a user thread of `process_idx` that has not yet
/// given up its share of the process resources.
pub open spec fn holds_resources(slot: Option<ThreadControlBlock>, process_idx: u8) -> bool {
    slot matches Some(t) && t.user matches Some(u) && u.process_idx == process_idx
        && !t.resources_released
}

} // verus!
