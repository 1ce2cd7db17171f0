//! Per-hart state
//!
//! Each hart keeps a small record: whether it is online, which thread it
//! runs, which thread is its idle thread, the thread it is switching away
//! from, its reschedule request flag and the values a trap return resumes
//! with. Every function takes the hart it runs on; "other" means the hart
//! `hart ^ 1`.

use vstd::prelude::*;
use crate::threads::THREADS_MAX;

verus! {

/// Number of harts.
pub const HARTS_MAX: usize = 2;

/// One hart's record.
#[derive(Clone, Copy, Debug, PartialEq, Eq)]
pub struct PerCpu {
    pub online: bool,
    pub idle_thread_idx: usize,
    pub current_thread_idx: usize,
    pub current_kernel_stack_base: usize,
    pub current_kernel_stack_top: usize,
    pub current_user_stack_base: Option<usize>,
    pub resume_sp: usize,
    pub switching_from_thread_idx: Option<usize>,
    pub needs_reschedule: bool,
    pub resume_mstatus: usize,
    pub resume_mepc: usize,
}

impl PerCpu {
    /// A record with every field cleared, as a hart has before it comes
    /// online.
    pub open spec fn offline() -> PerCpu {
        PerCpu {
            online: false,
            idle_thread_idx: 0,
            current_thread_idx: 0,
            current_kernel_stack_base: 0,
            current_kernel_stack_top: 0,
            current_user_stack_base: None,
            resume_sp: 0,
            switching_from_thread_idx: None,
            needs_reschedule: false,
            resume_mstatus: 0,
            resume_mepc: 0,
        }
    }

    /// The record of a hart that has not come online.
    pub fn new() -> (r: Self)
        ensures
            r == PerCpu::offline(),
    {
        PerCpu {
            online: false,
            idle_thread_idx: 0,
            current_thread_idx: 0,
            current_kernel_stack_base: 0,
            current_kernel_stack_top: 0,
            current_user_stack_base: None,
            resume_sp: 0,
            switching_from_thread_idx: None,
            needs_reschedule: false,
            resume_mstatus: 0,
            resume_mepc: 0,
        }
    }

    /// Thread indices held by the record are slot indices.
    pub open spec fn wf(self) -> bool {
        &&& self.idle_thread_idx < THREADS_MAX
        &&& self.current_thread_idx < THREADS_MAX
        &&& (self.switching_from_thread_idx matches Some(i) ==> i < THREADS_MAX)
    }
}

/// The records of all harts.
pub struct PerCpus {
    harts: Vec<PerCpu>,
}

impl View for PerCpus {
    type V = Seq<PerCpu>;

    closed spec fn view(&self) -> Seq<PerCpu> {
        self.harts@
    }
}

/// The hart other than `hart`.
pub open spec fn other(hart: usize) -> usize {
    if hart == 0 {
        1
    } else {
        0
    }
}

impl PerCpus {
    /// One well-formed record per hart.
    pub open spec fn wf(&self) -> bool {
        &&& self@.len() == HARTS_MAX
        &&& forall|h: int| 0 <= h < HARTS_MAX ==> (#[trigger] self@[h]).wf()
    }

    /// Records for harts that have not come online.
    pub fn new() -> (r: Self)
        ensures
            r.wf(),
            r@ == seq![PerCpu::offline(), PerCpu::offline()],
    {
        let mut harts: Vec<PerCpu> = Vec::new();
        harts.push(PerCpu::new());
        harts.push(PerCpu::new());
        PerCpus { harts }
    }

    /// The record of `hart`.
    pub fn record(&self, hart: usize) -> (r: PerCpu)
        requires
            self.wf(),
            hart < HARTS_MAX,
        ensures
            r == self@[hart as int],
            r.wf(),
    {
        self.harts[hart]
    }

    fn store(&mut self, hart: usize, c: PerCpu)
        requires
            old(self).wf(),
            hart < HARTS_MAX,
            c.wf(),
        ensures
            final(self).wf(),
            final(self)@ == old(self)@.update(hart as int, c),
    {
        self.harts.set(hart, c);
    }
}

/// The hart other than `hart`.
pub fn that_hart_id(hart: usize) -> (r: usize)
    requires
        hart < HARTS_MAX,
    ensures
        r == other(hart),
        r < HARTS_MAX,
        r == hart ^ 1,
{
    assert(hart < 2 ==> hart ^ 1 == if hart == 0 { 1usize } else { 0usize }) by (bit_vector);
    hart ^ 1
}

/// Whether this hart is online.
pub fn online(cpus: &PerCpus, hart: usize) -> (r: bool)
    requires
        cpus.wf(),
        hart < HARTS_MAX,
    ensures
        r == cpus@[hart as int].online,
{
    cpus.record(hart).online
}

/// Whether the other hart is online.
pub fn other_online(cpus: &PerCpus, hart: usize) -> (r: bool)
    requires
        cpus.wf(),
        hart < HARTS_MAX,
    ensures
        r == cpus@[other(hart) as int].online,
{
    cpus.record(that_hart_id(hart)).online
}

/// Marks this hart online.
pub fn set_online(cpus: &mut PerCpus, hart: usize)
    requires
        old(cpus).wf(),
        hart < HARTS_MAX,
    ensures
        final(cpus).wf(),
        final(cpus)@ == old(cpus)@.update(hart as int, PerCpu { online: true, ..old(cpus)@[hart as int] }),
{
    let mut c = cpus.record(hart);
    c.online = true;
    cpus.store(hart, c);
}

/// This hart's idle thread.
pub fn idle_thread_idx(cpus: &PerCpus, hart: usize) -> (r: usize)
    requires
        cpus.wf(),
        hart < HARTS_MAX,
    ensures
        r == cpus@[hart as int].idle_thread_idx,
        r < THREADS_MAX,
{
    cpus.record(hart).idle_thread_idx
}

/// The other hart's idle thread.
pub fn other_idle_thread_idx(cpus: &PerCpus, hart: usize) -> (r: usize)
    requires
        cpus.wf(),
        hart < HARTS_MAX,
    ensures
        r == cpus@[other(hart) as int].idle_thread_idx,
{
    cpus.record(that_hart_id(hart)).idle_thread_idx
}

/// Records this hart's idle thread, a slot index.
pub fn set_idle_thread_idx(cpus: &mut PerCpus, hart: usize, thread_idx: usize)
    requires
        old(cpus).wf(),
        hart < HARTS_MAX,
        thread_idx < THREADS_MAX,
    ensures
        final(cpus).wf(),
        final(cpus)@ == old(cpus)@.update(
            hart as int,
            PerCpu { idle_thread_idx: thread_idx, ..old(cpus)@[hart as int] },
        ),
{
    let mut c = cpus.record(hart);
    c.idle_thread_idx = thread_idx;
    cpus.store(hart, c);
}

/// The thread this hart runs.
pub fn current_thread_idx(cpus: &PerCpus, hart: usize) -> (r: usize)
    requires
        cpus.wf(),
        hart < HARTS_MAX,
    ensures
        r == cpus@[hart as int].current_thread_idx,
        r < THREADS_MAX,
{
    cpus.record(hart).current_thread_idx
}

/// The thread the other hart runs.
pub fn other_current_thread_idx(cpus: &PerCpus, hart: usize) -> (r: usize)
    requires
        cpus.wf(),
        hart < HARTS_MAX,
    ensures
        r == cpus@[other(hart) as int].current_thread_idx,
        r < THREADS_MAX,
{
    cpus.record(that_hart_id(hart)).current_thread_idx
}

/// Records the thread this hart runs, a slot index.
pub fn set_current_thread_idx(cpus: &mut PerCpus, hart: usize, thread_idx: usize)
    requires
        old(cpus).wf(),
        hart < HARTS_MAX,
        thread_idx < THREADS_MAX,
    ensures
        final(cpus).wf(),
        final(cpus)@ == old(cpus)@.update(
            hart as int,
            PerCpu { current_thread_idx: thread_idx, ..old(cpus)@[hart as int] },
        ),
{
    let mut c = cpus.record(hart);
    c.current_thread_idx = thread_idx;
    cpus.store(hart, c);
}

/// Base of the kernel stack of the thread this hart runs.
pub fn current_kernel_stack_base(cpus: &PerCpus, hart: usize) -> (r: usize)
    requires
        cpus.wf(),
        hart < HARTS_MAX,
    ensures
        r == cpus@[hart as int].current_kernel_stack_base,
{
    cpus.record(hart).current_kernel_stack_base
}

/// Records the base of the running thread's kernel stack.
pub fn set_current_kernel_stack_base(cpus: &mut PerCpus, hart: usize, stack_base: usize)
    requires
        old(cpus).wf(),
        hart < HARTS_MAX,
    ensures
        final(cpus).wf(),
        final(cpus)@ == old(cpus)@.update(
            hart as int,
            PerCpu { current_kernel_stack_base: stack_base, ..old(cpus)@[hart as int] },
        ),
{
    let mut c = cpus.record(hart);
    c.current_kernel_stack_base = stack_base;
    cpus.store(hart, c);
}

/// Top of the kernel stack of the thread this hart runs.
pub fn current_kernel_stack_top(cpus: &PerCpus, hart: usize) -> (r: usize)
    requires
        cpus.wf(),
        hart < HARTS_MAX,
    ensures
        r == cpus@[hart as int].current_kernel_stack_top,
{
    cpus.record(hart).current_kernel_stack_top
}

/// Records the top of the running thread's kernel stack.
pub fn set_current_kernel_stack_top(cpus: &mut PerCpus, hart: usize, stack_top: usize)
    requires
        old(cpus).wf(),
        hart < HARTS_MAX,
    ensures
        final(cpus).wf(),
        final(cpus)@ == old(cpus)@.update(
            hart as int,
            PerCpu { current_kernel_stack_top: stack_top, ..old(cpus)@[hart as int] },
        ),
{
    let mut c = cpus.record(hart);
    c.current_kernel_stack_top = stack_top;
    cpus.store(hart, c);
}

/// Base of the user stack of the thread this hart runs, for a user thread.
pub fn current_user_stack_base(cpus: &PerCpus, hart: usize) -> (r: Option<usize>)
    requires
        cpus.wf(),
        hart < HARTS_MAX,
    ensures
        r == cpus@[hart as int].current_user_stack_base,
{
    cpus.record(hart).current_user_stack_base
}

/// Records the base of the running thread's user stack.
pub fn set_current_user_stack_base(cpus: &mut PerCpus, hart: usize, stack_base: Option<usize>)
    requires
        old(cpus).wf(),
        hart < HARTS_MAX,
    ensures
        final(cpus).wf(),
        final(cpus)@ == old(cpus)@.update(
            hart as int,
            PerCpu { current_user_stack_base: stack_base, ..old(cpus)@[hart as int] },
        ),
{
    let mut c = cpus.record(hart);
    c.current_user_stack_base = stack_base;
    cpus.store(hart, c);
}

/// The stack pointer a trap return resumes with.
pub fn resume_sp(cpus: &PerCpus, hart: usize) -> (r: usize)
    requires
        cpus.wf(),
        hart < HARTS_MAX,
    ensures
        r == cpus@[hart as int].resume_sp,
{
    cpus.record(hart).resume_sp
}

/// Records the stack pointer a trap return resumes with.
pub fn set_resume_sp(cpus: &mut PerCpus, hart: usize, sp: usize)
    requires
        old(cpus).wf(),
        hart < HARTS_MAX,
    ensures
        final(cpus).wf(),
        final(cpus)@ == old(cpus)@.update(hart as int, PerCpu { resume_sp: sp, ..old(cpus)@[hart as int] }),
{
    let mut c = cpus.record(hart);
    c.resume_sp = sp;
    cpus.store(hart, c);
}

/// The thread this hart is switching away from, if any.
pub fn switching_from_thread_idx(cpus: &PerCpus, hart: usize) -> (r: Option<usize>)
    requires
        cpus.wf(),
        hart < HARTS_MAX,
    ensures
        r == cpus@[hart as int].switching_from_thread_idx,
{
    cpus.record(hart).switching_from_thread_idx
}

/// The thread the other hart is switching away from, if any.
pub fn other_switching_from_thread_idx(cpus: &PerCpus, hart: usize) -> (r: Option<usize>)
    requires
        cpus.wf(),
        hart < HARTS_MAX,
    ensures
        r == cpus@[other(hart) as int].switching_from_thread_idx,
{
    cpus.record(that_hart_id(hart)).switching_from_thread_idx
}

/// Records the thread this hart is switching away from.
pub fn set_switching_from_thread_idx(cpus: &mut PerCpus, hart: usize, thread_idx: Option<usize>)
    requires
        old(cpus).wf(),
        hart < HARTS_MAX,
        thread_idx matches Some(i) ==> i < THREADS_MAX,
    ensures
        final(cpus).wf(),
        final(cpus)@ == old(cpus)@.update(
            hart as int,
            PerCpu { switching_from_thread_idx: thread_idx, ..old(cpus)@[hart as int] },
        ),
{
    let mut c = cpus.record(hart);
    c.switching_from_thread_idx = thread_idx;
    cpus.store(hart, c);
}

/// Takes the thread this hart is switching away from, leaving none.
pub fn take_switching_from_thread_idx(cpus: &mut PerCpus, hart: usize) -> (r: Option<usize>)
    requires
        old(cpus).wf(),
        hart < HARTS_MAX,
    ensures
        final(cpus).wf(),
        r == old(cpus)@[hart as int].switching_from_thread_idx,
        final(cpus)@ == old(cpus)@.update(
            hart as int,
            PerCpu { switching_from_thread_idx: None, ..old(cpus)@[hart as int] },
        ),
{
    let mut c = cpus.record(hart);
    let r = c.switching_from_thread_idx;
    c.switching_from_thread_idx = None;
    cpus.store(hart, c);
    r
}

/// Whether this hart has been asked to reschedule.
pub fn needs_reschedule(cpus: &PerCpus, hart: usize) -> (r: bool)
    requires
        cpus.wf(),
        hart < HARTS_MAX,
    ensures
        r == cpus@[hart as int].needs_reschedule,
{
    cpus.record(hart).needs_reschedule
}

/// Whether the other hart has been asked to reschedule.
pub fn other_needs_reschedule(cpus: &PerCpus, hart: usize) -> (r: bool)
    requires
        cpus.wf(),
        hart < HARTS_MAX,
    ensures
        r == cpus@[other(hart) as int].needs_reschedule,
{
    cpus.record(that_hart_id(hart)).needs_reschedule
}

/// Reads and clears this hart's reschedule request.
pub fn take_needs_reschedule(cpus: &mut PerCpus, hart: usize) -> (r: bool)
    requires
        old(cpus).wf(),
        hart < HARTS_MAX,
    ensures
        final(cpus).wf(),
        r == old(cpus)@[hart as int].needs_reschedule,
        final(cpus)@ == old(cpus)@.update(
            hart as int,
            PerCpu { needs_reschedule: false, ..old(cpus)@[hart as int] },
        ),
{
    let mut c = cpus.record(hart);
    let r = c.needs_reschedule;
    c.needs_reschedule = false;
    cpus.store(hart, c);
    r
}

/// Asks this hart to reschedule.
pub fn set_needs_reschedule(cpus: &mut PerCpus, hart: usize)
    requires
        old(cpus).wf(),
        hart < HARTS_MAX,
    ensures
        final(cpus).wf(),
        final(cpus)@ == old(cpus)@.update(
            hart as int,
            PerCpu { needs_reschedule: true, ..old(cpus)@[hart as int] },
        ),
{
    let mut c = cpus.record(hart);
    c.needs_reschedule = true;
    cpus.store(hart, c);
}

/// The program counter deferred work resumes at.
pub fn resume_mepc(cpus: &PerCpus, hart: usize) -> (r: usize)
    requires
        cpus.wf(),
        hart < HARTS_MAX,
    ensures
        r == cpus@[hart as int].resume_mepc,
{
    cpus.record(hart).resume_mepc
}

/// Records the program counter deferred work resumes at.
pub fn set_resume_mepc(cpus: &mut PerCpus, hart: usize, mepc: usize)
    requires
        old(cpus).wf(),
        hart < HARTS_MAX,
    ensures
        final(cpus).wf(),
        final(cpus)@ == old(cpus)@.update(hart as int, PerCpu { resume_mepc: mepc, ..old(cpus)@[hart as int] }),
{
    let mut c = cpus.record(hart);
    c.resume_mepc = mepc;
    cpus.store(hart, c);
}

/// The status register value deferred work resumes with.
pub fn resume_mstatus(cpus: &PerCpus, hart: usize) -> (r: usize)
    requires
        cpus.wf(),
        hart < HARTS_MAX,
    ensures
        r == cpus@[hart as int].resume_mstatus,
{
    cpus.record(hart).resume_mstatus
}

/// Records the status register value deferred work resumes with.
pub fn set_resume_mstatus(cpus: &mut PerCpus, hart: usize, mstatus: usize)
    requires
        old(cpus).wf(),
        hart < HARTS_MAX,
    ensures
        final(cpus).wf(),
        final(cpus)@ == old(cpus)@.update(
            hart as int,
            PerCpu { resume_mstatus: mstatus, ..old(cpus)@[hart as int] },
        ),
{
    let mut c = cpus.record(hart);
    c.resume_mstatus = mstatus;
    cpus.store(hart, c);
}

/// A reschedule request is seen until it is taken, and taking it clears it:
/// after a request (`c0` to `c1`) the hart's flag is set and the other
/// hart's record is untouched; the first take (`c1` to `c2`) returns true,
/// and a take repeated at once (`c2` to `c3`) returns false and changes
/// nothing.
pub proof fn law_reschedule_request_taken_once(c0: PerCpus, c1: PerCpus, c2: PerCpus, c3: PerCpus, hart: usize)
    requires
        c0.wf(),
        hart < HARTS_MAX,
        c1@ == c0@.update(hart as int, PerCpu { needs_reschedule: true, ..c0@[hart as int] }),
        c2@ == c1@.update(hart as int, PerCpu { needs_reschedule: false, ..c1@[hart as int] }),
        c3@ == c2@.update(hart as int, PerCpu { needs_reschedule: false, ..c2@[hart as int] }),
    ensures
        c1@[hart as int].needs_reschedule,
        c1@[other(hart) as int] == c0@[other(hart) as int],
        !c2@[hart as int].needs_reschedule,
        c2@[other(hart) as int] == c0@[other(hart) as int],
        c3@ == c2@,
{
    assert(c3@ =~= c2@);
}

} // verus!
