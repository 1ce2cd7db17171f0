//! Function-level profiling
//!
//! Each hart has a ring buffer of records, pushed on entry to and exit
//! from profiled functions: the function's name, the time, and the stack
//! pointer. The buffer keeps the last records it was given and remembers,
//! apart for the interrupt stack and for thread stacks, the deepest stack
//! pointer seen and the function that reached it. A dump lays the records
//! out as an indented call trace; the caller prints the lines.

use vstd::prelude::*;
use vstd::string::StrSliceExecFns;
use crate::commands::{decimal, push_decimal};
use crate::deadline::CYCLES_PER_US;

verus! {

/// Records kept per hart.
pub const RECORDS_MAX: usize = 1024;

/// Width of the indentation and the name together in a dump line.
pub const NAME_FIELD: usize = 50;

/// Whether a record marks entry to or exit from a function.
#[derive(Clone, Copy, Debug, PartialEq, Eq, Structural)]
pub enum ProfileKind {
    Entry,
    Exit,
}

/// One profile record.
#[derive(Clone, Copy, Debug)]
pub struct ProfileRecord {
    pub name: &'static str,
    pub kind: ProfileKind,
    pub cycle_stamp: u64,
    pub sp: usize,
}

impl ProfileRecord {
    /// A record for `name`, taken at time `cycle_stamp` with stack pointer
    /// `sp`.
    pub fn build(name: &'static str, kind: ProfileKind, cycle_stamp: u64, sp: usize) -> (r: ProfileRecord)
        ensures
            r == (ProfileRecord { name, kind, cycle_stamp, sp }),
    {
        ProfileRecord { name, kind, cycle_stamp, sp }
    }
}

/// The records a dump reads from `slots`, for pushes `start` up to `end`:
/// the slot of each, in push order, skipping slots never written.
pub open spec fn drained(slots: Seq<Option<ProfileRecord>>, start: int, end: int) -> Seq<ProfileRecord>
    decreases end - start,
{
    if end <= start {
        Seq::empty()
    } else {
        let prefix = drained(slots, start, end - 1);
        match slots[(end - 1) % slots.len() as int] {
            Some(r) => prefix.push(r),
            None => prefix,
        }
    }
}

/// A ring buffer of `N` profile records for one hart.
pub struct ProfileBuf<const N: usize> {
    buf: Vec<Option<ProfileRecord>>,
    counter: u16,
    deepest_irq_sp: usize,
    deepest_irq_name: &'static str,
    deepest_thread_sp: usize,
    deepest_thread_name: &'static str,
    irq_stack_lo: usize,
    irq_stack_hi: usize,
}

impl<const N: usize> ProfileBuf<N> {
    /// The slots.
    pub closed spec fn slots(&self) -> Seq<Option<ProfileRecord>> {
        self.buf@
    }

    /// Records pushed, modulo 2^16.
    pub closed spec fn pushed(&self) -> u16 {
        self.counter
    }

    /// The deepest stack pointer on the interrupt stack and its function.
    pub closed spec fn deepest_irq_spec(&self) -> (usize, &'static str) {
        (self.deepest_irq_sp, self.deepest_irq_name)
    }

    /// The deepest stack pointer on a thread stack and its function.
    pub closed spec fn deepest_thread_spec(&self) -> (usize, &'static str) {
        (self.deepest_thread_sp, self.deepest_thread_name)
    }

    /// The bounds of this hart's interrupt stack.
    pub closed spec fn irq_stack(&self) -> (usize, usize) {
        (self.irq_stack_lo, self.irq_stack_hi)
    }

    pub open spec fn wf(&self) -> bool {
        &&& N > 0
        &&& self.slots().len() == N
    }

    /// An empty buffer for a hart whose interrupt stack spans
    /// `irq_stack_lo` up to `irq_stack_hi`.
    pub fn new(irq_stack_lo: usize, irq_stack_hi: usize) -> (r: Self)
        requires
            N > 0,
        ensures
            r.wf(),
            forall|i: int| 0 <= i < N ==> #[trigger] r.slots()[i] is None,
            r.pushed() == 0,
            r.deepest_irq_spec().0 == usize::MAX,
            r.deepest_thread_spec().0 == usize::MAX,
            r.irq_stack() == (irq_stack_lo, irq_stack_hi),
    {
        let mut buf: Vec<Option<ProfileRecord>> = Vec::new();
        let mut i: usize = 0;
        while i < N
            invariant
                i <= N,
                buf@.len() == i,
                forall|j: int| 0 <= j < i ==> #[trigger] buf@[j] is None,
            decreases N - i,
        {
            buf.push(None);
            i = i + 1;
        }
        ProfileBuf {
            buf,
            counter: 0,
            deepest_irq_sp: usize::MAX,
            deepest_irq_name: "(none)",
            deepest_thread_sp: usize::MAX,
            deepest_thread_name: "(none)",
            irq_stack_lo,
            irq_stack_hi,
        }
    }

    /// Starts profiling afresh: nothing pushed, no deepest pointers, and
    /// the interrupt stack bounds set. Old slots stay; a dump reads only
    /// the pushes since.
    pub fn init(&mut self, irq_stack_lo: usize, irq_stack_hi: usize)
        requires
            old(self).wf(),
        ensures
            final(self).wf(),
            final(self).slots() == old(self).slots(),
            final(self).pushed() == 0,
            final(self).deepest_irq_spec() == (usize::MAX, old(self).deepest_irq_spec().1),
            final(self).deepest_thread_spec() == (usize::MAX, old(self).deepest_thread_spec().1),
            final(self).irq_stack() == (irq_stack_lo, irq_stack_hi),
    {
        self.counter = 0;
        self.deepest_irq_sp = usize::MAX;
        self.deepest_thread_sp = usize::MAX;
        self.irq_stack_lo = irq_stack_lo;
        self.irq_stack_hi = irq_stack_hi;
    }

    /// Pushes `record` into the next slot, overwriting the oldest record
    /// once the buffer is full, and keeps its stack pointer as the deepest
    /// of its stack (the interrupt stack if it lies within its bounds, a
    /// thread stack otherwise) if it is lower than any before.
    pub fn push(&mut self, record: ProfileRecord)
        requires
            old(self).wf(),
        ensures
            final(self).wf(),
            final(self).slots() == old(self).slots().update(old(self).pushed() as int % N as int, Some(record)),
            final(self).pushed() == old(self).pushed().wrapping_add(1),
            final(self).irq_stack() == old(self).irq_stack(),
            ({
                let (lo, hi) = old(self).irq_stack();
                if lo <= record.sp < hi {
                    &&& final(self).deepest_irq_spec() == if record.sp < old(self).deepest_irq_spec().0 {
                        (record.sp, record.name)
                    } else {
                        old(self).deepest_irq_spec()
                    }
                    &&& final(self).deepest_thread_spec() == old(self).deepest_thread_spec()
                } else {
                    &&& final(self).deepest_thread_spec() == if record.sp < old(self).deepest_thread_spec().0 {
                        (record.sp, record.name)
                    } else {
                        old(self).deepest_thread_spec()
                    }
                    &&& final(self).deepest_irq_spec() == old(self).deepest_irq_spec()
                }
            }),
    {
        let idx = self.counter as usize % N;
        self.counter = self.counter.wrapping_add(1);
        self.buf.set(idx, Some(record));
        let in_irq = record.sp >= self.irq_stack_lo && record.sp < self.irq_stack_hi;
        if in_irq {
            if record.sp < self.deepest_irq_sp {
                self.deepest_irq_sp = record.sp;
                self.deepest_irq_name = record.name;
            }
        } else {
            if record.sp < self.deepest_thread_sp {
                self.deepest_thread_sp = record.sp;
                self.deepest_thread_name = record.name;
            }
        }
    }

    /// The records still held, oldest first: the last `N` pushes (or all
    /// of them, if fewer), skipping slots never written.
    pub fn drain(&self) -> (r: Vec<ProfileRecord>)
        requires
            self.wf(),
        ensures
            r@ == drained(
                self.slots(),
                if self.pushed() >= N { self.pushed() - N } else { 0 },
                self.pushed() as int,
            ),
    {
        let head = self.counter as usize;
        let start = if head >= N { head - N } else { 0 };
        let mut out: Vec<ProfileRecord> = Vec::new();
        let mut i = start;
        while i < head
            invariant
                self.wf(),
                head == self.pushed(),
                start <= i <= head,
                start == if self.pushed() >= N { self.pushed() - N } else { 0 },
                out@ == drained(self.slots(), start as int, i as int),
            decreases head - i,
        {
            match self.buf[i % N] {
                Some(r) => out.push(r),
                None => {},
            }
            i = i + 1;
        }
        out
    }

    /// The deepest stack pointer pushed on the interrupt stack and the
    /// function that reached it, or `None` if there was no such push.
    pub fn deepest_irq(&self) -> (r: Option<(usize, &'static str)>)
        ensures
            r == if self.deepest_irq_spec().0 == usize::MAX {
                None
            } else {
                Some(self.deepest_irq_spec())
            },
    {
        if self.deepest_irq_sp == usize::MAX {
            None
        } else {
            Some((self.deepest_irq_sp, self.deepest_irq_name))
        }
    }

    /// The deepest stack pointer pushed on a thread stack and the function
    /// that reached it, or `None` if there was no such push.
    pub fn deepest_thread(&self) -> (r: Option<(usize, &'static str)>)
        ensures
            r == if self.deepest_thread_spec().0 == usize::MAX {
                None
            } else {
                Some(self.deepest_thread_spec())
            },
    {
        if self.deepest_thread_sp == usize::MAX {
            None
        } else {
            Some((self.deepest_thread_sp, self.deepest_thread_name))
        }
    }
}

/// The slots of a ring of `n` slots after pushing `recs`, the first
/// going into slot `first % n`, each next one into the next slot.
pub open spec fn after_pushes(slots: Seq<Option<ProfileRecord>>, first: nat, recs: Seq<ProfileRecord>) -> Seq<Option<ProfileRecord>>
    decreases recs.len(),
{
    if recs.len() == 0 {
        slots
    } else {
        let before = after_pushes(slots, first, recs.drop_last());
        before.update(((first + recs.len() - 1) % slots.len() as int), Some(recs.last()))
    }
}

/// After `k` pushes into a ring of `n` slots, each of the last `n` pushes
/// is still in its slot.
proof fn lemma_last_pushes_kept(slots: Seq<Option<ProfileRecord>>, recs: Seq<ProfileRecord>, i: int)
    requires
        slots.len() > 0,
        0 <= i < recs.len(),
        recs.len() - slots.len() <= i,
    ensures
        after_pushes(slots, 0, recs).len() == slots.len(),
        after_pushes(slots, 0, recs)[i % slots.len() as int] == Some(recs[i]),
    decreases recs.len(),
{
    let n = slots.len() as int;
    let k = recs.len() as int;
    lemma_after_pushes_len(slots, recs.drop_last());
    if i == k - 1 {
    } else {
        lemma_last_pushes_kept(slots, recs.drop_last(), i);
        assert((k - 1) % n != i % n) by (nonlinear_arith)
            requires
                0 <= i < k - 1,
                k - 1 - i < n,
                n > 0,
        {
            if (k - 1) % n == i % n {
                assert((k - 1) == n * ((k - 1) / n) + (k - 1) % n);
                assert(i == n * (i / n) + i % n);
                assert(k - 1 - i == n * ((k - 1) / n - i / n));
                if (k - 1) / n - i / n >= 1 {
                    assert(n * ((k - 1) / n - i / n) >= n);
                } else {
                    assert(n * ((k - 1) / n - i / n) <= 0);
                }
            }
        }
        assert(recs.drop_last()[i] == recs[i]);
    }
}

/// Pushing does not change the number of slots.
proof fn lemma_after_pushes_len(slots: Seq<Option<ProfileRecord>>, recs: Seq<ProfileRecord>)
    requires
        slots.len() > 0,
    ensures
        after_pushes(slots, 0, recs).len() == slots.len(),
    decreases recs.len(),
{
    if recs.len() > 0 {
        lemma_after_pushes_len(slots, recs.drop_last());
    }
}

/// A dump reads back what was pushed: after pushing `recs` into a ring of
/// `n` slots starting from slot zero, the dump gives the last `n` of them
/// (all of them if there are no more than `n`), oldest first.
pub proof fn law_dump_reads_back_pushes(slots: Seq<Option<ProfileRecord>>, recs: Seq<ProfileRecord>)
    requires
        slots.len() > 0,
    ensures
        ({
            let n = slots.len() as int;
            let k = recs.len() as int;
            let start = if k >= n { k - n } else { 0 };
            drained(after_pushes(slots, 0, recs), start, k) == recs.subrange(start, k)
        }),
{
    let n = slots.len() as int;
    let k = recs.len() as int;
    let start = if k >= n { k - n } else { 0 };
    let s = after_pushes(slots, 0, recs);
    lemma_after_pushes_len(slots, recs);
    assert forall|i: int| start <= i < recs.len() implies s[i % s.len() as int] == Some(recs[i]) by {
        lemma_last_pushes_kept(slots, recs, i);
    }
    lemma_drained_reads(s, recs, start, k);
}

/// The dump of pushes `start` up to `e`, each still in its slot, is those
/// records.
proof fn lemma_drained_reads(s: Seq<Option<ProfileRecord>>, recs: Seq<ProfileRecord>, start: int, e: int)
    requires
        s.len() > 0,
        0 <= start <= e <= recs.len(),
        forall|i: int| start <= i < recs.len() ==> s[i % s.len() as int] == Some(recs[i]),
    ensures
        drained(s, start, e) == recs.subrange(start, e),
    decreases e - start,
{
    if e > start {
        lemma_drained_reads(s, recs, start, e - 1);
        assert(recs.subrange(start, e) =~= recs.subrange(start, e - 1).push(recs[e - 1]));
    } else {
        assert(recs.subrange(start, e) =~= Seq::<ProfileRecord>::empty());
    }
}

/// The three decimal digits of `v`, below a thousand, with leading zeros.
pub open spec fn three_digits(v: nat) -> Seq<u8> {
    seq![(0x30 + v / 100) as u8, (0x30 + (v / 10) % 10) as u8, (0x30 + v % 10) as u8]
}

/// `v` in decimal with an underscore between each group of three digits,
/// counted from the right.
pub open spec fn grouped(v: nat) -> Seq<u8>
    decreases v,
{
    if v < 1000 {
        decimal(v)
    } else {
        grouped(v / 1000) + seq![0x5Fu8] + three_digits(v % 1000)
    }
}

/// Appends `v` in decimal with its digits grouped in threes by
/// underscores, as in `1_234_567`.
pub fn push_grouped(out: &mut Vec<u8>, v: u64)
    ensures
        final(out)@ == old(out)@ + grouped(v as nat),
    decreases v,
{
    if v < 1000 {
        push_decimal(out, v);
    } else {
        push_grouped(out, v / 1000);
        let low = v % 1000;
        out.push(0x5F);
        out.push(0x30 + (low / 100) as u8);
        out.push(0x30 + ((low / 10) % 10) as u8);
        out.push(0x30 + (low % 10) as u8);
        assert(final(out)@ =~= old(out)@ + grouped(v as nat)) by {
            assert(grouped(v as nat) == grouped(v as nat / 1000) + seq![0x5Fu8] + three_digits(v as nat % 1000));
        }
    }
}

/// `v` with its digits grouped in threes: see `grouped`.
pub fn group_digits(v: u64) -> (r: Vec<u8>)
    ensures
        r@ == grouped(v as nat),
{
    let mut out: Vec<u8> = Vec::new();
    push_grouped(&mut out, v);
    assert(out@ =~= grouped(v as nat));
    out
}

/// Whether `name` starts with the crate path `ease::`.
pub open spec fn has_crate_prefix(name: Seq<char>) -> bool {
    &&& name.len() >= 6
    &&& name[0] == 'e'
    &&& name[1] == 'a'
    &&& name[2] == 's'
    &&& name[3] == 'e'
    &&& name[4] == ':'
    &&& name[5] == ':'
}

/// Where the shown part of a function name starts: after the crate path,
/// which a dump leaves out.
pub fn display_start(name: &str) -> (r: usize)
    ensures
        r == if has_crate_prefix(name@) { 6usize } else { 0usize },
{
    if name.unicode_len() < 6 {
        return 0;
    }
    if name.get_char(0) == 'e' && name.get_char(1) == 'a' && name.get_char(2) == 's' && name.get_char(3) == 'e'
        && name.get_char(4) == ':' && name.get_char(5) == ':' {
        6
    } else {
        0
    }
}

/// One line of a dump: microseconds since the previous record, the
/// indentation, whether the record is an entry (`>`) or an exit (`<`),
/// the width left for the name, where the shown part of the name starts,
/// the stack pointer, and its change since the previous record.
#[derive(Clone, Copy, Debug)]
pub struct DumpLine {
    pub delta_us: u64,
    pub indent: usize,
    pub entry: bool,
    pub name: &'static str,
    pub name_start: usize,
    pub name_width: usize,
    pub sp: usize,
    pub sp_delta: Option<i128>,
}

/// What a dump carries from one record to the next: the previous time
/// stamp and stack pointer, and the call depth.
pub type DumpState = (Option<u64>, Option<usize>, nat);

/// The dump state after the first `n` records.
pub open spec fn dump_state(records: Seq<ProfileRecord>, n: int) -> DumpState
    decreases n,
{
    if n <= 0 {
        (None, None, 0)
    } else {
        let (_, _, d) = dump_state(records, n - 1);
        let r = records[n - 1];
        let d1: nat = if r.kind == ProfileKind::Exit { if d > 0 { (d - 1) as nat } else { 0 } } else { d };
        (Some(r.cycle_stamp), Some(r.sp), if r.kind == ProfileKind::Entry { d1 + 1 } else { d1 })
    }
}

/// The dump line for record `r` in state `s`.
pub open spec fn dump_line(s: DumpState, r: ProfileRecord) -> DumpLine {
    let (prev_cycles, prev_sp, d) = s;
    let depth: nat = if r.kind == ProfileKind::Exit { if d > 0 { (d - 1) as nat } else { 0 } } else { d };
    let indent = depth * 2;
    DumpLine {
        delta_us: match prev_cycles {
            Some(p) => (if r.cycle_stamp >= p { (r.cycle_stamp - p) as u64 } else { 0u64 }) / CYCLES_PER_US,
            None => 0,
        },
        indent: indent as usize,
        entry: r.kind == ProfileKind::Entry,
        name: r.name,
        name_start: if has_crate_prefix(r.name@) { 6usize } else { 0usize },
        name_width: if indent < NAME_FIELD { (NAME_FIELD - indent) as usize } else { 0usize },
        sp: r.sp,
        sp_delta: match prev_sp {
            Some(p) => Some((r.sp - p) as i128),
            None => None,
        },
    }
}

/// The dump of `records`, one line each: an exit is shown one level
/// shallower than what preceded it (never below zero), and an entry makes
/// what follows one level deeper.
pub fn dump_lines(records: &Vec<ProfileRecord>) -> (r: Vec<DumpLine>)
    requires
        records@.len() < usize::MAX / 2,
    ensures
        r@.len() == records@.len(),
        forall|k: int| 0 <= k < records@.len() ==> #[trigger] r@[k] == dump_line(dump_state(records@, k), records@[k]),
{
    let mut out: Vec<DumpLine> = Vec::new();
    let mut prev_cycles: Option<u64> = None;
    let mut prev_sp: Option<usize> = None;
    let mut depth: usize = 0;
    let mut k: usize = 0;
    while k < records.len()
        invariant
            k <= records@.len(),
            records@.len() < usize::MAX / 2,
            out@.len() == k,
            depth <= k,
            dump_state(records@, k as int) == (prev_cycles, prev_sp, depth as nat),
            forall|j: int| 0 <= j < k ==> #[trigger] out@[j] == dump_line(dump_state(records@, j), records@[j]),
        decreases records@.len() - k,
    {
        let r = records[k];
        let delta_us = match prev_cycles {
            Some(p) => (if r.cycle_stamp >= p { r.cycle_stamp - p } else { 0 }) / CYCLES_PER_US,
            None => 0,
        };
        let sp_delta: Option<i128> = match prev_sp {
            Some(p) => Some(r.sp as i128 - p as i128),
            None => None,
        };
        if r.kind == ProfileKind::Exit {
            depth = if depth > 0 { depth - 1 } else { 0 };
        }
        let indent = depth * 2;
        let name_width = if indent < NAME_FIELD { NAME_FIELD - indent } else { 0 };
        out.push(DumpLine {
            delta_us,
            indent,
            entry: r.kind == ProfileKind::Entry,
            name: r.name,
            name_start: display_start(r.name),
            name_width,
            sp: r.sp,
            sp_delta,
        });
        if r.kind == ProfileKind::Entry {
            depth = depth + 1;
        }
        prev_cycles = Some(r.cycle_stamp);
        prev_sp = Some(r.sp);
        k = k + 1;
    }
    out
}

} // verus!
