//! Scheduler trace
//!
//! A ring of snapshots of the scheduler: each hart's record and every
//! thread's state, pass and timing, taken at points of interest and
//! replayed oldest first when the kernel panics. A snapshot taken because
//! a ready thread waited too long carries the diagnosis of why. The dump
//! shows one row per snapshot and one cell per thread: its state in a
//! compact form, the hart running it, and its pass above the row's lowest.
//! The caller prints the rows.

use vstd::prelude::*;
use crate::commands::{decimal, push_bytes, push_decimal};
use crate::deadline::{CYCLES_PER_MS, Deadline, Qos};
use crate::percpu::{HARTS_MAX, PerCpu, other};
use crate::sched::{PickMiss, Scheduler, pick_miss};
use crate::threads::{ExitReason, PRIORITY_MIN, PostSwitch, State, THREADS_MAX, ThreadControlBlock};

verus! {

/// Snapshots kept.
pub const TRACE_BUFFER_SIZE: usize = 512;

/// Most bytes of a rendered cell.
pub const CELL_CAP: usize = 24;

/// A hart's record in a snapshot.
#[derive(Clone, Copy, Debug, PartialEq, Eq, Structural)]
pub struct PerCpuTracePoint {
    pub idle_thread_idx: usize,
    pub current_thread_idx: usize,
    pub switching_from_thread_idx: Option<usize>,
    pub needs_reschedule: bool,
}

/// A thread in a snapshot.
#[derive(Clone, Copy, Debug, PartialEq, Eq, Structural)]
pub struct TcbTracePoint {
    pub state: State,
    pub id: u16,
    pub qos: Qos,
    pub priority: u8,
    pub pass: u64,
    pub last_started_cycles: u64,
    pub next_waiter: Option<usize>,
    pub affinity: Option<u8>,
    pub user_thread: bool,
    pub needs_user_exit: bool,
    pub ready_since: u64,
}

/// A snapshot: when, why, the harts, the threads, the last wake-up
/// overshoot of each slot, and for a ready-stall the diagnosis.
#[derive(Debug)]
pub struct TracePoint {
    pub time_stamp: u64,
    pub label: &'static str,
    pub per_cpu: Vec<PerCpuTracePoint>,
    pub threads: Vec<Option<TcbTracePoint>>,
    pub wake_overshoot: Vec<u64>,
    pub pick_miss: Option<PickMiss>,
}

/// A hart's record as a snapshot keeps it.
pub open spec fn cpu_point(c: PerCpu) -> PerCpuTracePoint {
    PerCpuTracePoint {
        idle_thread_idx: c.idle_thread_idx,
        current_thread_idx: c.current_thread_idx,
        switching_from_thread_idx: c.switching_from_thread_idx,
        needs_reschedule: c.needs_reschedule,
    }
}

/// A thread as a snapshot keeps it: a user thread marked for exit is one
/// that must exit.
pub open spec fn tcb_point(t: ThreadControlBlock) -> TcbTracePoint {
    TcbTracePoint {
        state: t.state,
        id: t.id,
        qos: t.qos,
        priority: t.priority,
        pass: t.pass,
        last_started_cycles: t.last_started_cycles,
        next_waiter: match t.next_waiter {
            Some(h) => Some(h.idx),
            None => None,
        },
        affinity: t.affinity,
        user_thread: t.user is Some,
        needs_user_exit: t.user is Some && t.marked_for_exit,
        ready_since: t.ready_since,
    }
}

/// A thread slot as a snapshot keeps it.
pub open spec fn slot_point(slot: Option<ThreadControlBlock>) -> Option<TcbTracePoint> {
    match slot {
        Some(t) => Some(tcb_point(t)),
        None => None,
    }
}

/// Whether `tp` is a snapshot of `s`, taken at `now` for `label`.
pub open spec fn snapshot_of(tp: &TracePoint, s: &Scheduler, label: &'static str, now: u64) -> bool {
    &&& tp.time_stamp == now
    &&& tp.label == label
    &&& tp.per_cpu@ == Seq::new(HARTS_MAX as nat, |h: int| cpu_point(s.cpus@[h]))
    &&& tp.threads@ == Seq::new(THREADS_MAX as nat, |i: int| slot_point(s.threads@[i]))
    &&& tp.wake_overshoot@ == s.wake_overshoot@
}

impl Scheduler {
    /// A snapshot of the scheduler at `now`, for `label`.
    pub fn snapshot(&self, label: &'static str, now: u64) -> (r: TracePoint)
        requires
            self.wf(),
        ensures
            snapshot_of(&r, self, label, now),
            r.pick_miss is None,
    {
        let mut per_cpu: Vec<PerCpuTracePoint> = Vec::new();
        let mut h: usize = 0;
        while h < HARTS_MAX
            invariant
                self.wf(),
                h <= HARTS_MAX,
                per_cpu@ == Seq::new(h as nat, |k: int| cpu_point(self.cpus@[k])),
            decreases HARTS_MAX - h,
        {
            let c = self.cpus.record(h);
            per_cpu.push(PerCpuTracePoint {
                idle_thread_idx: c.idle_thread_idx,
                current_thread_idx: c.current_thread_idx,
                switching_from_thread_idx: c.switching_from_thread_idx,
                needs_reschedule: c.needs_reschedule,
            });
            h = h + 1;
            assert(per_cpu@ =~= Seq::new(h as nat, |k: int| cpu_point(self.cpus@[k])));
        }
        let mut threads: Vec<Option<TcbTracePoint>> = Vec::new();
        let mut i: usize = 0;
        while i < THREADS_MAX
            invariant
                self.wf(),
                i <= THREADS_MAX,
                threads@ == Seq::new(i as nat, |k: int| slot_point(self.threads@[k])),
            decreases THREADS_MAX - i,
        {
            let p = match self.threads.get(i) {
                Some(t) => Some(TcbTracePoint {
                    state: t.state,
                    id: t.id,
                    qos: t.qos,
                    priority: t.priority,
                    pass: t.pass,
                    last_started_cycles: t.last_started_cycles,
                    next_waiter: match t.next_waiter {
                        Some(w) => Some(w.idx),
                        None => None,
                    },
                    affinity: t.affinity,
                    user_thread: t.user.is_some(),
                    needs_user_exit: t.user.is_some() && t.marked_for_exit,
                    ready_since: t.ready_since,
                }),
                None => None,
            };
            threads.push(p);
            i = i + 1;
            assert(threads@ =~= Seq::new(i as nat, |k: int| slot_point(self.threads@[k])));
        }
        let wake_overshoot = self.wake_overshoot.clone();
        assert(wake_overshoot@ =~= self.wake_overshoot@);
        TracePoint { time_stamp: now, label, per_cpu, threads, wake_overshoot, pick_miss: None }
    }

    /// A snapshot at `now` seen from `hart`, because the ready thread in
    /// slot `stalled_idx` has waited too long: labelled `ready-stall`, with
    /// the diagnosis of why it waits.
    pub fn snapshot_ready_stall(&self, hart: usize, now: u64, stalled_idx: usize) -> (r: TracePoint)
        requires
            self.wf(),
            hart < HARTS_MAX,
            stalled_idx < THREADS_MAX,
            self.threads@[stalled_idx as int] is Some,
            self.has_current(hart),
            self.has_current(other(hart)),
        ensures
            snapshot_of(&r, self, "ready-stall", now),
            ({
                let since = self.threads@[stalled_idx as int]->0.ready_since;
                r.pick_miss == Some(pick_miss(
                    self.threads@,
                    self.cpus@,
                    hart,
                    stalled_idx,
                    (if now >= since { (now - since) as u64 } else { 0u64 }) / CYCLES_PER_MS,
                ))
            }),
    {
        let mut tp = self.snapshot("ready-stall", now);
        tp.pick_miss = Some(self.compute_pick_miss(hart, now, stalled_idx));
        tp
    }
}

/// The ring of snapshots.
pub struct TraceBuf {
    points: Vec<Option<TracePoint>>,
    seq: usize,
}

/// The slots of a full replay, oldest first: after `total` snapshots
/// into `n` slots, the last `n` of them (or all, if fewer).
pub open spec fn replay_order(total: nat, n: nat) -> Seq<usize> {
    let count = if total < n { total } else { n };
    let oldest = if total <= n { 0 } else { total % n };
    Seq::new(count, |k: int| ((oldest + k) % (n as int)) as usize)
}

impl TraceBuf {
    /// The slots.
    pub closed spec fn slots(&self) -> Seq<Option<TracePoint>> {
        self.points@
    }

    /// Snapshots taken since the last reset, wrapping.
    pub closed spec fn taken(&self) -> usize {
        self.seq
    }

    pub open spec fn wf(&self) -> bool {
        self.slots().len() == TRACE_BUFFER_SIZE
    }

    /// An empty ring.
    pub fn new() -> (r: Self)
        ensures
            r.wf(),
            r.taken() == 0,
            forall|i: int| 0 <= i < TRACE_BUFFER_SIZE ==> #[trigger] r.slots()[i] is None,
    {
        let mut points: Vec<Option<TracePoint>> = Vec::new();
        let mut i: usize = 0;
        while i < TRACE_BUFFER_SIZE
            invariant
                i <= TRACE_BUFFER_SIZE,
                points@.len() == i,
                forall|j: int| 0 <= j < i ==> #[trigger] points@[j] is None,
            decreases TRACE_BUFFER_SIZE - i,
        {
            points.push(None);
            i = i + 1;
        }
        TraceBuf { points, seq: 0 }
    }

    /// Keeps `tp` in the next slot, overwriting the oldest once full.
    pub fn record(&mut self, tp: TracePoint)
        requires
            old(self).wf(),
        ensures
            final(self).wf(),
            final(self).slots() == old(self).slots().update(old(self).taken() as int % TRACE_BUFFER_SIZE as int, Some(tp)),
            final(self).taken() == old(self).taken().wrapping_add(1),
    {
        let idx = self.seq % TRACE_BUFFER_SIZE;
        self.seq = self.seq.wrapping_add(1);
        self.points.set(idx, Some(tp));
    }

    /// Discards the snapshots: the next ones are the only live entries.
    pub fn reset(&mut self)
        ensures
            final(self).taken() == 0,
            final(self).slots() == old(self).slots(),
    {
        self.seq = 0;
    }

    /// The slots to replay, oldest first.
    pub fn replay(&self) -> (r: Vec<usize>)
        requires
            self.wf(),
        ensures
            r@ == replay_order(self.taken() as nat, TRACE_BUFFER_SIZE as nat),
    {
        let total = self.seq;
        let count = if total < TRACE_BUFFER_SIZE { total } else { TRACE_BUFFER_SIZE };
        let oldest = if total <= TRACE_BUFFER_SIZE { 0 } else { total % TRACE_BUFFER_SIZE };
        let mut r: Vec<usize> = Vec::new();
        let mut k: usize = 0;
        while k < count
            invariant
                count <= TRACE_BUFFER_SIZE,
                oldest < TRACE_BUFFER_SIZE,
                count == if total < TRACE_BUFFER_SIZE { total } else { TRACE_BUFFER_SIZE },
                oldest == if total <= TRACE_BUFFER_SIZE { 0 } else { total % TRACE_BUFFER_SIZE },
                total == self.taken(),
                k <= count,
                r@ == Seq::new(k as nat, |j: int| ((oldest + j) % (TRACE_BUFFER_SIZE as int)) as usize),
            decreases count - k,
        {
            r.push((oldest + k) % TRACE_BUFFER_SIZE);
            k = k + 1;
            assert(r@ =~= Seq::new(k as nat, |j: int| ((oldest + j) % (TRACE_BUFFER_SIZE as int)) as usize));
        }
        r
    }

    /// The snapshot in slot `i`, if any.
    pub fn get(&self, i: usize) -> (r: Option<&TracePoint>)
        requires
            self.wf(),
            i < TRACE_BUFFER_SIZE,
        ensures
            match self.slots()[i as int] {
                Some(tp) => r == Some(&tp),
                None => r is None,
            },
    {
        self.points[i].as_ref()
    }
}

/// How a deadline shows in a cell: the tag, `@`, and the wake-up time in
/// milliseconds, or `MAX` for the park-forever deadline.
pub open spec fn deadline_text(tag: Seq<u8>, d: Deadline) -> Seq<u8> {
    tag.push(0x40u8) + if d.at == u64::MAX {
        seq![0x4Du8, 0x41u8, 0x58u8]
    } else {
        decimal((d.at / CYCLES_PER_MS) as nat)
    }
}

/// `Blk`.
pub open spec fn blk() -> Seq<u8> {
    seq![0x42u8, 0x6Cu8, 0x6Bu8]
}

/// `BlkU`.
pub open spec fn blku() -> Seq<u8> {
    seq![0x42u8, 0x6Cu8, 0x6Bu8, 0x55u8]
}

/// `Rdy`.
pub open spec fn rdy() -> Seq<u8> {
    seq![0x52u8, 0x64u8, 0x79u8]
}

/// `Slp`.
pub open spec fn slp() -> Seq<u8> {
    seq![0x53u8, 0x6Cu8, 0x70u8]
}

/// How the state a thread is switching out to shows in a cell.
pub open spec fn post_switch_text(ps: PostSwitch) -> Seq<u8> {
    match ps {
        PostSwitch::Blocked => blk(),
        PostSwitch::BlockedUntil(d) => deadline_text(blku(), d),
        PostSwitch::Ready => rdy(),
        PostSwitch::Sleeping(d) => deadline_text(slp(), d),
        PostSwitch::Dead(ExitReason::Exit) => seq![0x44u8, 0x65u8, 0x61u8, 0x64u8],
        PostSwitch::Dead(ExitReason::Fault) => seq![0x46u8, 0x61u8, 0x75u8, 0x6Cu8, 0x74u8],
    }
}

/// How a thread state shows in a cell, in a compact fixed vocabulary.
pub open spec fn state_text(s: State) -> Seq<u8> {
    match s {
        State::Blocked => blk(),
        State::BlockedUntil(d) => deadline_text(blku(), d),
        State::Ready => rdy(),
        State::Running => seq![0x52u8, 0x75u8, 0x6Eu8],
        State::Sleeping(d) => deadline_text(slp(), d),
        State::Switching(ps) => seq![0x53u8, 0x77u8, 0x3Eu8] + post_switch_text(ps),
    }
}

/// Appends how a deadline shows: see `deadline_text`.
fn push_deadline(out: &mut Vec<u8>, tag: &[u8], d: &Deadline)
    ensures
        final(out)@ == old(out)@ + deadline_text(tag@, *d),
{
    push_bytes(out, tag);
    out.push(0x40);
    if d.at == u64::MAX {
        out.push(0x4D);
        out.push(0x41);
        out.push(0x58);
        assert(final(out)@ =~= old(out)@ + deadline_text(tag@, *d));
    } else {
        let ghost mid = out@;
        push_decimal(out, d.at / CYCLES_PER_MS);
        assert(final(out)@ =~= old(out)@ + deadline_text(tag@, *d));
    }
}

/// Appends how the state a thread is switching out to shows.
fn push_post_switch(out: &mut Vec<u8>, ps: &PostSwitch)
    ensures
        final(out)@ == old(out)@ + post_switch_text(*ps),
{
    match ps {
        PostSwitch::Blocked => {
            out.push(0x42);
            out.push(0x6C);
            out.push(0x6B);
        },
        PostSwitch::BlockedUntil(d) => {
            let tag: [u8; 4] = [0x42, 0x6C, 0x6B, 0x55];
            assert(tag@ =~= blku());
            push_deadline(out, &tag, d);
        },
        PostSwitch::Ready => {
            out.push(0x52);
            out.push(0x64);
            out.push(0x79);
        },
        PostSwitch::Sleeping(d) => {
            let tag: [u8; 3] = [0x53, 0x6C, 0x70];
            assert(tag@ =~= slp());
            push_deadline(out, &tag, d);
        },
        PostSwitch::Dead(ExitReason::Exit) => {
            out.push(0x44);
            out.push(0x65);
            out.push(0x61);
            out.push(0x64);
        },
        PostSwitch::Dead(ExitReason::Fault) => {
            out.push(0x46);
            out.push(0x61);
            out.push(0x75);
            out.push(0x6C);
            out.push(0x74);
        },
    }
    assert(final(out)@ =~= old(out)@ + post_switch_text(*ps));
}

/// How a thread state shows: see `state_text`.
pub fn state_text_of(st: &State) -> (r: Vec<u8>)
    ensures
        r@ == state_text(*st),
{
    let mut out: Vec<u8> = Vec::new();
    match st {
        State::Blocked => {
            out.push(0x42);
            out.push(0x6C);
            out.push(0x6B);
        },
        State::BlockedUntil(d) => {
            let tag: [u8; 4] = [0x42, 0x6C, 0x6B, 0x55];
            assert(tag@ =~= blku());
            push_deadline(&mut out, &tag, d);
        },
        State::Ready => {
            out.push(0x52);
            out.push(0x64);
            out.push(0x79);
        },
        State::Running => {
            out.push(0x52);
            out.push(0x75);
            out.push(0x6E);
        },
        State::Sleeping(d) => {
            let tag: [u8; 3] = [0x53, 0x6C, 0x70];
            assert(tag@ =~= slp());
            push_deadline(&mut out, &tag, d);
        },
        State::Switching(ps) => {
            out.push(0x53);
            out.push(0x77);
            out.push(0x3E);
            push_post_switch(&mut out, ps);
        },
    }
    assert(out@ =~= state_text(*st));
    out
}

/// The lowest pass among the first `n` slots' threads, idle threads
/// left out; the largest value when there are none.
pub open spec fn min_pass(threads: Seq<Option<TcbTracePoint>>, n: int) -> u64
    decreases n,
{
    if n <= 0 {
        u64::MAX
    } else {
        let m = min_pass(threads, n - 1);
        match threads[n - 1] {
            Some(t) => if t.priority != PRIORITY_MIN && t.pass < m { t.pass } else { m },
            None => m,
        }
    }
}

/// The floor of a snapshot row: the lowest pass among its threads, idle
/// threads left out, or zero when there is none.
pub open spec fn row_floor_of(threads: Seq<Option<TcbTracePoint>>) -> u64 {
    let m = min_pass(threads, threads.len() as int);
    if m == u64::MAX { 0 } else { m }
}

/// The floor of the row for snapshot threads `threads`: see
/// `row_floor_of`.
pub fn row_floor(threads: &Vec<Option<TcbTracePoint>>) -> (r: u64)
    ensures
        r == row_floor_of(threads@),
{
    let mut m: u64 = u64::MAX;
    let mut j: usize = 0;
    while j < threads.len()
        invariant
            j <= threads@.len(),
            m == min_pass(threads@, j as int),
        decreases threads@.len() - j,
    {
        match &threads[j] {
            Some(t) => {
                if t.priority != PRIORITY_MIN && t.pass < m {
                    m = t.pass;
                }
            },
            None => {},
        }
        j = j + 1;
    }
    if m == u64::MAX { 0 } else { m }
}

/// The last of the first `n` harts whose current thread is in slot `i`.
pub open spec fn last_hart(per_cpu: Seq<PerCpuTracePoint>, i: usize, n: int) -> Option<usize>
    decreases n,
{
    if n <= 0 {
        None
    } else if per_cpu[n - 1].current_thread_idx == i {
        Some((n - 1) as usize)
    } else {
        last_hart(per_cpu, i, n - 1)
    }
}

/// ` +` or ` w`, a number of milliseconds, and `ms`.
pub open spec fn ms_tag(letter: u8, ms: u64) -> Seq<u8> {
    seq![0x20u8, letter] + decimal(ms as nat) + seq![0x6Du8, 0x73u8]
}

/// The text of a cell before it is cut to `CELL_CAP` bytes: the state;
/// the last wake-up overshoot when over a millisecond; and, for a ready
/// thread, how long it has waited for a processor, when a millisecond or
/// more.
pub open spec fn cell_text_full(t: TcbTracePoint, overshoot: u64, stamp: u64) -> Seq<u8> {
    let waited = (if stamp >= t.ready_since { (stamp - t.ready_since) as u64 } else { 0u64 }) / CYCLES_PER_MS;
    state_text(t.state) + (if overshoot > CYCLES_PER_MS {
        ms_tag(0x2Bu8, overshoot / CYCLES_PER_MS)
    } else {
        Seq::empty()
    }) + (if t.state == State::Ready && waited >= 1 {
        ms_tag(0x77u8, waited)
    } else {
        Seq::empty()
    })
}

/// The text of a cell: see `cell_text_full`, cut to `CELL_CAP` bytes.
pub open spec fn cell_text(t: TcbTracePoint, overshoot: u64, stamp: u64) -> Seq<u8> {
    let full = cell_text_full(t, overshoot, stamp);
    if full.len() <= CELL_CAP { full } else { full.take(CELL_CAP as int) }
}

/// One cell of a dump row: the slot, the thread's id and whether its
/// quality of service is high, the text, the hart running it, and its pass
/// above the row floor.
#[derive(Debug)]
pub struct TraceCell {
    pub slot: usize,
    pub id: u16,
    pub qos_high: bool,
    pub text: Vec<u8>,
    pub on_hart: Option<usize>,
    pub delta: u64,
}

/// Appends ` <letter><ms>ms`.
fn push_ms_tag(out: &mut Vec<u8>, letter: u8, ms: u64)
    ensures
        final(out)@ == old(out)@ + ms_tag(letter, ms),
{
    out.push(0x20);
    out.push(letter);
    push_decimal(out, ms);
    out.push(0x6D);
    out.push(0x73);
    assert(final(out)@ =~= old(out)@ + ms_tag(letter, ms));
}

/// The cell for slot `i` of snapshot `tp` in a row with floor `floor`, or
/// `None` for an empty slot.
pub fn trace_cell(tp: &TracePoint, i: usize, floor: u64) -> (r: Option<TraceCell>)
    requires
        i < tp.threads@.len(),
        i < tp.wake_overshoot@.len(),
    ensures
        match tp.threads@[i as int] {
            None => r is None,
            Some(t) => r matches Some(c) && {
                &&& c.slot == i
                &&& c.id == t.id
                &&& c.qos_high == (t.qos == Qos::High)
                &&& c.text@ == cell_text(t, tp.wake_overshoot@[i as int], tp.time_stamp)
                &&& c.on_hart == last_hart(tp.per_cpu@, i, tp.per_cpu@.len() as int)
                &&& c.delta == (if t.pass >= floor { (t.pass - floor) as u64 } else { 0u64 })
            },
        },
{
    let t = match &tp.threads[i] {
        Some(t) => *t,
        None => {
            return None;
        },
    };
    let mut on_hart: Option<usize> = None;
    let mut h: usize = 0;
    while h < tp.per_cpu.len()
        invariant
            h <= tp.per_cpu@.len(),
            on_hart == last_hart(tp.per_cpu@, i, h as int),
        decreases tp.per_cpu@.len() - h,
    {
        if tp.per_cpu[h].current_thread_idx == i {
            on_hart = Some(h);
        }
        h = h + 1;
    }
    let mut text = state_text_of(&t.state);
    let overshoot = tp.wake_overshoot[i];
    if overshoot > CYCLES_PER_MS {
        push_ms_tag(&mut text, 0x2B, overshoot / CYCLES_PER_MS);
    }
    let stamp = tp.time_stamp;
    let waited = (if stamp >= t.ready_since { stamp - t.ready_since } else { 0 }) / CYCLES_PER_MS;
    let ready = match t.state {
        State::Ready => true,
        _ => false,
    };
    if ready && waited >= 1 {
        push_ms_tag(&mut text, 0x77, waited);
    }
    assert(text@ =~= cell_text_full(t, overshoot, stamp));
    if text.len() > CELL_CAP {
        text.truncate(CELL_CAP);
        assert(text@ =~= cell_text(t, overshoot, stamp));
    }
    Some(TraceCell {
        slot: i,
        id: t.id,
        qos_high: match t.qos {
            Qos::High => true,
            Qos::Low => false,
        },
        text,
        on_hart,
        delta: if t.pass >= floor { t.pass - floor } else { 0 },
    })
}

/// The live threads among the first `n` slots: id and state of each that
/// is not an idle thread, in slot order.
pub open spec fn live_entries(threads: Seq<Option<ThreadControlBlock>>, n: int) -> Seq<(u16, State)>
    decreases n,
{
    if n <= 0 {
        Seq::empty()
    } else {
        let e = live_entries(threads, n - 1);
        match threads[n - 1] {
            Some(t) => if t.priority != PRIORITY_MIN { e.push((t.id, t.state)) } else { e },
            None => e,
        }
    }
}

/// How many of the live threads among the first `n` slots are ready or
/// running.
pub open spec fn runnable_count(threads: Seq<Option<ThreadControlBlock>>, n: int) -> nat
    decreases n,
{
    if n <= 0 {
        0
    } else {
        runnable_count(threads, n - 1) + match threads[n - 1] {
            Some(t) => if t.priority != PRIORITY_MIN && (t.state == State::Ready || t.state == State::Running) {
                1nat
            } else {
                0nat
            },
            None => 0nat,
        }
    }
}

/// The live threads at a test boundary: each with its state, and how many
/// are runnable and live. A test that leaves runnable threads behind shows
/// as more of them entering the next.
pub struct LiveReport {
    pub entries: Vec<(u16, State)>,
    pub runnable: usize,
    pub live: usize,
}

impl Scheduler {
    /// The live threads (all but the idle threads): see `LiveReport`.
    pub fn report_live(&self) -> (r: LiveReport)
        requires
            self.wf(),
        ensures
            r.entries@ == live_entries(self.threads@, THREADS_MAX as int),
            r.live == r.entries@.len(),
            r.runnable == runnable_count(self.threads@, THREADS_MAX as int),
    {
        let mut entries: Vec<(u16, State)> = Vec::new();
        let mut runnable: usize = 0;
        let mut i: usize = 0;
        while i < THREADS_MAX
            invariant
                self.wf(),
                i <= THREADS_MAX,
                entries@ == live_entries(self.threads@, i as int),
                runnable == runnable_count(self.threads@, i as int),
                runnable <= i,
                entries@.len() <= i,
            decreases THREADS_MAX - i,
        {
            match self.threads.get(i) {
                Some(t) => {
                    if t.priority != PRIORITY_MIN {
                        let run = match t.state {
                            State::Ready | State::Running => true,
                            _ => false,
                        };
                        if run {
                            runnable = runnable + 1;
                        }
                        entries.push((t.id, t.state));
                    }
                },
                None => {},
            }
            i = i + 1;
        }
        let live = entries.len();
        LiveReport { entries, runnable, live }
    }
}

} // verus!
