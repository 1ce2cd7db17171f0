//! Interrupts-off accounting
//!
//! An interrupt that arrives while a hart has interrupts disabled waits
//! until they are enabled again, so the longest stretch with interrupts off
//! bounds the latency of everything else. Each hart keeps a record of
//! those stretches ("sections"): a section opens when interrupts go off and
//! closes when they come back on. An open always overwrites a dangling
//! one, a close consumes the open section, and a close with nothing open is
//! ignored. Closed sections are totalled, the longest is kept, and each
//! opening site gets its own statistics in a fixed table; a section whose
//! site finds no room there is only counted as unattributed.
//!
//! The spin lock reports each acquisition too: how long it spun on its
//! ticket and how long the lock was then held, kept per lock site.
//!
//! The caller reads the clocks and the hart's current thread and hands them
//! in; only the hart that owns a record changes it.

use vstd::prelude::*;
use crate::text::same_text;
use crate::trap::{ECALL_FROM_U, EXTERNAL, SOFTWARE, TIMER, Trap};

verus! {

/// Distinct opening sites (and lock sites) a record keeps statistics for.
pub const SITES_MAX: usize = 64;

/// What kind of trap opened a section.
#[derive(Clone, Copy, Debug, PartialEq, Eq, Structural)]
pub enum TrapKind {
    Timer,
    Software,
    External,
    EcallFromUser,
    Interrupt(usize),
    Exception(usize),
}

/// The kind of trap `cause` is.
pub open spec fn kind_of(cause: Trap) -> TrapKind {
    match cause {
        Trap::Interrupt(c) => if c == TIMER {
            TrapKind::Timer
        } else if c == SOFTWARE {
            TrapKind::Software
        } else if c == EXTERNAL {
            TrapKind::External
        } else {
            TrapKind::Interrupt(c)
        },
        Trap::Exception(c) => if c == ECALL_FROM_U {
            TrapKind::EcallFromUser
        } else {
            TrapKind::Exception(c)
        },
    }
}

impl TrapKind {
    /// Classifies a trap cause: the timer, software and external
    /// interrupts and the user environment call by name, any other
    /// interrupt or exception by its code.
    pub fn from_mcause(cause: Trap) -> (r: TrapKind)
        ensures
            r == kind_of(cause),
    {
        match cause {
            Trap::Interrupt(c) => if c == TIMER {
                TrapKind::Timer
            } else if c == SOFTWARE {
                TrapKind::Software
            } else if c == EXTERNAL {
                TrapKind::External
            } else {
                TrapKind::Interrupt(c)
            },
            Trap::Exception(c) => if c == ECALL_FROM_U {
                TrapKind::EcallFromUser
            } else {
                TrapKind::Exception(c)
            },
        }
    }
}

/// A place in the source: file, line and column.
#[derive(Clone, Copy, Debug)]
pub struct CallSite {
    pub file: &'static str,
    pub line: u32,
    pub column: u32,
}

/// Where a section was opened or closed.
#[derive(Clone, Copy, Debug)]
pub enum Site {
    /// Trap entry turned interrupts off.
    Trap(TrapKind),
    /// Either side of waiting for an interrupt: the wait itself is idle
    /// time, not latency.
    Wfi,
    /// Software turned interrupts off or on here.
    At(CallSite),
}

/// Whether two call sites are the same place.
pub open spec fn same_call_site(a: CallSite, b: CallSite) -> bool {
    a.file@ == b.file@ && a.line == b.line && a.column == b.column
}

/// Whether two sites are the same.
pub open spec fn same_site(a: Site, b: Site) -> bool {
    match a {
        Site::Trap(x) => b matches Site::Trap(y) && x == y,
        Site::Wfi => b is Wfi,
        Site::At(x) => match b {
            Site::At(y) => same_call_site(x, y),
            _ => false,
        },
    }
}

/// Compares two call sites.
pub fn call_site_eq(a: &CallSite, b: &CallSite) -> (r: bool)
    ensures
        r == same_call_site(*a, *b),
{
    a.line == b.line && a.column == b.column && same_text(a.file, b.file)
}

/// Compares two sites.
pub fn site_eq(a: &Site, b: &Site) -> (r: bool)
    ensures
        r == same_site(*a, *b),
{
    match a {
        Site::Trap(x) => match b {
            Site::Trap(y) => *x == *y,
            _ => false,
        },
        Site::Wfi => match b {
            Site::Wfi => true,
            _ => false,
        },
        Site::At(x) => match b {
            Site::At(y) => call_site_eq(x, y),
            _ => false,
        },
    }
}

/// One closed section: when it opened, how long it lasted in timer cycles
/// and in processor cycles, and both ends with the thread running there.
#[derive(Clone, Copy, Debug)]
pub struct Section {
    pub start: u64,
    pub cycles: u64,
    pub insns: u64,
    pub open: Site,
    pub open_thread: u8,
    pub close: Site,
    pub close_thread: u8,
}

/// The section that stands for none yet.
pub open spec fn no_section() -> Section {
    Section { start: 0, cycles: 0, insns: 0, open: Site::Wfi, open_thread: 0, close: Site::Wfi, close_thread: 0 }
}

impl Section {
    /// The section that stands for none yet: zero length.
    pub fn none() -> (r: Section)
        ensures
            r == no_section(),
    {
        Section { start: 0, cycles: 0, insns: 0, open: Site::Wfi, open_thread: 0, close: Site::Wfi, close_thread: 0 }
    }
}

/// The statistics of one opening site: sections closed, their total
/// length, and the longest.
#[derive(Clone, Copy, Debug)]
pub struct SiteStats {
    pub site: Site,
    pub count: u32,
    pub total: u64,
    pub longest: Section,
}

/// Fresh statistics for `site`.
pub open spec fn fresh_stats(site: Site) -> SiteStats {
    SiteStats { site, count: 0, total: 0, longest: no_section() }
}

/// `s` after recording `sec`.
pub open spec fn recorded(s: SiteStats, sec: Section) -> SiteStats {
    SiteStats {
        count: (s.count + 1) as u32,
        total: (s.total + sec.cycles) as u64,
        longest: if sec.cycles > s.longest.cycles { sec } else { s.longest },
        ..s
    }
}

/// Whether `s` can count one more section of `cycles` without overflow.
pub open spec fn stats_room(s: SiteStats, cycles: u64) -> bool {
    s.count < u32::MAX && s.total + cycles <= u64::MAX
}

impl SiteStats {
    /// Fresh statistics for `site`.
    pub fn new(site: Site) -> (r: SiteStats)
        ensures
            r == fresh_stats(site),
    {
        SiteStats { site, count: 0, total: 0, longest: Section::none() }
    }

    /// Counts `section`, adds its length, and keeps it if it is the
    /// longest so far.
    pub fn record(&mut self, section: Section)
        requires
            stats_room(*old(self), section.cycles),
        ensures
            *final(self) == recorded(*old(self), section),
    {
        self.count = self.count + 1;
        self.total = self.total + section.cycles;
        if section.cycles > self.longest.cycles {
            self.longest = section;
        }
    }
}

/// One lock wait or hold: how long, at which lock site, by which thread.
/// No site means no event yet.
#[derive(Clone, Copy, Debug)]
pub struct LockEvent {
    pub cycles: u64,
    pub site: Option<CallSite>,
    pub thread: u8,
}

/// The statistics of one lock site: holds, their total and longest
/// length, and the longest wait.
#[derive(Clone, Copy, Debug)]
pub struct LockStats {
    pub site: CallSite,
    pub count: u32,
    pub total_hold: u64,
    pub max_hold: u64,
    pub max_wait: u64,
}

/// Whether a site table slot holds the statistics of `site`.
pub open spec fn holds_site(slot: Option<SiteStats>, site: Site) -> bool {
    match slot {
        Some(s) => same_site(s.site, site),
        None => false,
    }
}

/// Whether a lock table slot holds the statistics of `site`.
pub open spec fn holds_lock(slot: Option<LockStats>, site: CallSite) -> bool {
    match slot {
        Some(s) => same_call_site(s.site, site),
        None => false,
    }
}

/// `i` is the first slot of `t` that holds `site`.
pub open spec fn first_site(t: Seq<Option<SiteStats>>, site: Site, i: int) -> bool {
    &&& 0 <= i < t.len()
    &&& holds_site(t[i], site)
    &&& forall|j: int| 0 <= j < i ==> !#[trigger] holds_site(t[j], site)
}

/// `i` is the first empty slot of `t` and no slot holds `site`.
pub open spec fn first_free_site(t: Seq<Option<SiteStats>>, site: Site, i: int) -> bool {
    &&& 0 <= i < t.len()
    &&& t[i] is None
    &&& forall|j: int| 0 <= j < i ==> (#[trigger] t[j]) is Some
    &&& forall|j: int| 0 <= j < t.len() ==> !#[trigger] holds_site(t[j], site)
}

/// `i` is the first slot of `t` that holds `site`.
pub open spec fn first_lock(t: Seq<Option<LockStats>>, site: CallSite, i: int) -> bool {
    &&& 0 <= i < t.len()
    &&& holds_lock(t[i], site)
    &&& forall|j: int| 0 <= j < i ==> !#[trigger] holds_lock(t[j], site)
}

/// `i` is the first empty slot of `t` and no slot holds `site`.
pub open spec fn first_free_lock(t: Seq<Option<LockStats>>, site: CallSite, i: int) -> bool {
    &&& 0 <= i < t.len()
    &&& t[i] is None
    &&& forall|j: int| 0 <= j < i ==> (#[trigger] t[j]) is Some
    &&& forall|j: int| 0 <= j < t.len() ==> !#[trigger] holds_lock(t[j], site)
}

/// The site table after `sec`, opened at `site`, closed: the site's
/// statistics record it, or a fresh entry in the first empty slot does;
/// with neither, the table is unchanged and the section unattributed
/// (the flag).
pub open spec fn sites_after(t: Seq<Option<SiteStats>>, site: Site, sec: Section) -> (Seq<Option<SiteStats>>, bool) {
    if exists|i: int| first_site(t, site, i) {
        let i = choose|i: int| first_site(t, site, i);
        (t.update(i, Some(recorded(t[i]->0, sec))), false)
    } else if exists|i: int| first_free_site(t, site, i) {
        let i = choose|i: int| first_free_site(t, site, i);
        (t.update(i, Some(recorded(fresh_stats(site), sec))), false)
    } else {
        (t, true)
    }
}

/// The lock table after a wait of `waited` at `site`: the site's longest
/// wait is raised to it, or a fresh entry with it goes in the first empty
/// slot; with neither, the table is unchanged.
pub open spec fn holds_after_wait(t: Seq<Option<LockStats>>, site: CallSite, waited: u64) -> Seq<Option<LockStats>> {
    if exists|i: int| first_lock(t, site, i) {
        let i = choose|i: int| first_lock(t, site, i);
        let s = t[i]->0;
        t.update(i, Some(LockStats { max_wait: if waited > s.max_wait { waited } else { s.max_wait }, ..s }))
    } else if exists|i: int| first_free_lock(t, site, i) {
        let i = choose|i: int| first_free_lock(t, site, i);
        t.update(i, Some(LockStats { site, count: 0, total_hold: 0, max_hold: 0, max_wait: waited }))
    } else {
        t
    }
}

/// The lock table after a hold of `held` at `site`: the site counts it,
/// adds it and keeps it if longest, or a fresh entry with it goes in the
/// first empty slot; with neither, the table is unchanged.
pub open spec fn holds_after_hold(t: Seq<Option<LockStats>>, site: CallSite, held: u64) -> Seq<Option<LockStats>> {
    if exists|i: int| first_lock(t, site, i) {
        let i = choose|i: int| first_lock(t, site, i);
        let s = t[i]->0;
        t.update(i, Some(LockStats {
            count: (s.count + 1) as u32,
            total_hold: (s.total_hold + held) as u64,
            max_hold: if held > s.max_hold { held } else { s.max_hold },
            ..s
        }))
    } else if exists|i: int| first_free_lock(t, site, i) {
        let i = choose|i: int| first_free_lock(t, site, i);
        t.update(i, Some(LockStats { site, count: 1, total_hold: held, max_hold: held, max_wait: 0 }))
    } else {
        t
    }
}

/// The sections counted in one site table slot.
pub open spec fn slot_count(slot: Option<SiteStats>) -> int {
    match slot {
        Some(s) => s.count as int,
        None => 0,
    }
}

/// The sections counted in the first `n` slots of a site table.
pub open spec fn site_counts(t: Seq<Option<SiteStats>>, n: int) -> int
    decreases n,
{
    if n <= 0 {
        0
    } else {
        site_counts(t, n - 1) + slot_count(t[n - 1])
    }
}

/// Changing one slot changes the total by the change in that slot.
proof fn lemma_site_counts_update(t: Seq<Option<SiteStats>>, i: int, v: Option<SiteStats>, n: int)
    requires
        0 <= i < t.len(),
        0 <= n <= t.len(),
    ensures
        site_counts(t.update(i, v), n) == site_counts(t, n) + if i < n { slot_count(v) - slot_count(t[i]) } else { 0 },
    decreases n,
{
    if n > 0 {
        lemma_site_counts_update(t, i, v, n - 1);
    }
}

/// A closed section is counted exactly once: under the site that opened
/// it, in the entry it has or a fresh one, or else as unattributed.
pub proof fn law_section_counted_once(t: Seq<Option<SiteStats>>, site: Site, sec: Section)
    requires
        forall|i: int| #[trigger] first_site(t, site, i) ==> stats_room(t[i]->0, sec.cycles),
    ensures
        ({
            let (after, unattributed) = sites_after(t, site, sec);
            &&& after.len() == t.len()
            &&& site_counts(after, t.len() as int) + (if unattributed { 1int } else { 0int }) == site_counts(t, t.len() as int) + 1
        }),
{
    let n = t.len() as int;
    if exists|i: int| first_site(t, site, i) {
        let i = choose|i: int| first_site(t, site, i);
        lemma_site_counts_update(t, i, Some(recorded(t[i]->0, sec)), n);
    } else if exists|i: int| first_free_site(t, site, i) {
        let i = choose|i: int| first_free_site(t, site, i);
        lemma_site_counts_update(t, i, Some(recorded(fresh_stats(site), sec)), n);
    }
}

/// `a - b`, or zero when `b` is larger.
pub open spec fn sat_sub(a: u64, b: u64) -> u64 {
    if a >= b { (a - b) as u64 } else { 0 }
}

/// The largest gap between hook calls, with when it began, after a hook
/// call at `now` that follows one at `last`.
pub open spec fn gap_after(max_gap: (u64, u64), last: u64, now: u64, count_gap: bool) -> (u64, u64) {
    if count_gap && last != 0 && sat_sub(now, last) > max_gap.0 {
        (sat_sub(now, last), last)
    } else {
        max_gap
    }
}

/// The interrupts-off record of one hart.
pub struct HartRecord {
    /// The open section: its start time, processor cycle stamp, site and
    /// thread.
    pub open: Option<(u64, u64, Site, u8)>,
    /// Cycles with interrupts off over all sections, wrapping.
    pub total: u64,
    /// Closed sections, wrapping.
    pub count: u32,
    /// Closed sections whose site found no room in the table, wrapping.
    pub overflow: u32,
    /// The longest section on this hart.
    pub longest: Section,
    /// The time of the last hook call.
    pub last_hook: u64,
    /// The largest gap between consecutive hook calls and when it began.
    pub max_gap: (u64, u64),
    /// Statistics per opening site.
    pub sites: Vec<Option<SiteStats>>,
    /// The longest lock wait on this hart.
    pub longest_wait: LockEvent,
    /// The longest lock hold on this hart.
    pub longest_hold: LockEvent,
    /// Statistics per lock site.
    pub holds: Vec<Option<LockStats>>,
}

/// Finds the first slot of `t` that holds `site`, else the first empty
/// slot, else neither.
fn find_site(t: &Vec<Option<SiteStats>>, site: &Site) -> (r: (Option<usize>, Option<usize>))
    ensures
        match r.0 {
            Some(i) => first_site(t@, *site, i as int),
            None => !exists|i: int| first_site(t@, *site, i),
        },
        r.0 is None ==> match r.1 {
            Some(i) => first_free_site(t@, *site, i as int),
            None => !exists|i: int| first_free_site(t@, *site, i),
        },
{
    let mut free: Option<usize> = None;
    let mut i: usize = 0;
    while i < t.len()
        invariant
            i <= t@.len(),
            forall|j: int| 0 <= j < i ==> !#[trigger] holds_site(t@[j], *site),
            match free {
                Some(f) => f < i && t@[f as int] is None && forall|j: int| 0 <= j < f ==> (#[trigger] t@[j]) is Some,
                None => forall|j: int| 0 <= j < i ==> (#[trigger] t@[j]) is Some,
            },
        decreases t@.len() - i,
    {
        match &t[i] {
            Some(s) => {
                if site_eq(&s.site, site) {
                    return (Some(i), None);
                }
            },
            None => {
                if free.is_none() {
                    free = Some(i);
                }
            },
        }
        i = i + 1;
    }
    proof {
        assert(!exists|k: int| first_site(t@, *site, k));
        if free is None {
            assert forall|k: int| !first_free_site(t@, *site, k) by {
                if 0 <= k < t@.len() {
                    assert(t@[k] is Some);
                }
            }
        }
    }
    (None, free)
}

/// Finds the first slot of `t` that holds `site`, else the first empty
/// slot, else neither.
fn find_lock(t: &Vec<Option<LockStats>>, site: &CallSite) -> (r: (Option<usize>, Option<usize>))
    ensures
        match r.0 {
            Some(i) => first_lock(t@, *site, i as int),
            None => !exists|i: int| first_lock(t@, *site, i),
        },
        r.0 is None ==> match r.1 {
            Some(i) => first_free_lock(t@, *site, i as int),
            None => !exists|i: int| first_free_lock(t@, *site, i),
        },
{
    let mut free: Option<usize> = None;
    let mut i: usize = 0;
    while i < t.len()
        invariant
            i <= t@.len(),
            forall|j: int| 0 <= j < i ==> !#[trigger] holds_lock(t@[j], *site),
            match free {
                Some(f) => f < i && t@[f as int] is None && forall|j: int| 0 <= j < f ==> (#[trigger] t@[j]) is Some,
                None => forall|j: int| 0 <= j < i ==> (#[trigger] t@[j]) is Some,
            },
        decreases t@.len() - i,
    {
        match &t[i] {
            Some(s) => {
                if call_site_eq(&s.site, site) {
                    return (Some(i), None);
                }
            },
            None => {
                if free.is_none() {
                    free = Some(i);
                }
            },
        }
        i = i + 1;
    }
    proof {
        assert(!exists|k: int| first_lock(t@, *site, k));
        if free is None {
            assert forall|k: int| !first_free_lock(t@, *site, k) by {
                if 0 <= k < t@.len() {
                    assert(t@[k] is Some);
                }
            }
        }
    }
    (None, free)
}

/// There is one first slot holding a site.
proof fn lemma_first_site_unique(t: Seq<Option<SiteStats>>, site: Site, i: int, k: int)
    requires
        first_site(t, site, i),
        first_site(t, site, k),
    ensures
        i == k,
{
    if i < k {
        assert(!holds_site(t[i], site));
    } else if k < i {
        assert(!holds_site(t[k], site));
    }
}

/// There is one first free slot.
proof fn lemma_first_free_site_unique(t: Seq<Option<SiteStats>>, site: Site, i: int, k: int)
    requires
        first_free_site(t, site, i),
        first_free_site(t, site, k),
    ensures
        i == k,
{
    if i < k {
        assert(t[i] is Some);
    } else if k < i {
        assert(t[k] is Some);
    }
}

/// There is one first slot holding a lock site.
proof fn lemma_first_lock_unique(t: Seq<Option<LockStats>>, site: CallSite, i: int, k: int)
    requires
        first_lock(t, site, i),
        first_lock(t, site, k),
    ensures
        i == k,
{
    if i < k {
        assert(!holds_lock(t[i], site));
    } else if k < i {
        assert(!holds_lock(t[k], site));
    }
}

/// There is one first free lock slot.
proof fn lemma_first_free_lock_unique(t: Seq<Option<LockStats>>, site: CallSite, i: int, k: int)
    requires
        first_free_lock(t, site, i),
        first_free_lock(t, site, k),
    ensures
        i == k,
{
    if i < k {
        assert(t[i] is Some);
    } else if k < i {
        assert(t[k] is Some);
    }
}

impl HartRecord {
    /// Tables of `SITES_MAX` slots.
    pub open spec fn wf(&self) -> bool {
        &&& self.sites@.len() == SITES_MAX
        &&& self.holds@.len() == SITES_MAX
    }

    /// An empty record: nothing open, nothing counted.
    pub fn new() -> (r: HartRecord)
        ensures
            r.wf(),
            r.open is None,
            r.total == 0,
            r.count == 0,
            r.overflow == 0,
            r.longest == no_section(),
            r.last_hook == 0,
            r.max_gap == (0u64, 0u64),
            forall|i: int| 0 <= i < SITES_MAX ==> #[trigger] r.sites@[i] is None,
            r.longest_wait == (LockEvent { cycles: 0, site: None, thread: 0 }),
            r.longest_hold == (LockEvent { cycles: 0, site: None, thread: 0 }),
            forall|i: int| 0 <= i < SITES_MAX ==> #[trigger] r.holds@[i] is None,
    {
        let mut sites: Vec<Option<SiteStats>> = Vec::new();
        let mut holds: Vec<Option<LockStats>> = Vec::new();
        let mut i: usize = 0;
        while i < SITES_MAX
            invariant
                i <= SITES_MAX,
                sites@.len() == i,
                holds@.len() == i,
                forall|j: int| 0 <= j < i ==> #[trigger] sites@[j] is None,
                forall|j: int| 0 <= j < i ==> #[trigger] holds@[j] is None,
            decreases SITES_MAX - i,
        {
            sites.push(None);
            holds.push(None);
            i = i + 1;
        }
        HartRecord {
            open: None,
            total: 0,
            count: 0,
            overflow: 0,
            longest: Section::none(),
            last_hook: 0,
            max_gap: (0, 0),
            sites,
            longest_wait: LockEvent { cycles: 0, site: None, thread: 0 },
            longest_hold: LockEvent { cycles: 0, site: None, thread: 0 },
            holds,
        }
    }

    /// Stamps a hook call at `now` and, when `count_gap`, keeps the gap
    /// since the previous call if it is the largest (a first call, with no
    /// previous one, counts no gap). Returns `now`.
    pub fn hook_stamp(&mut self, now: u64, count_gap: bool) -> (r: u64)
        ensures
            r == now,
            final(self).last_hook == now,
            final(self).max_gap == gap_after(old(self).max_gap, old(self).last_hook, now, count_gap),
            final(self).open == old(self).open,
            final(self).total == old(self).total,
            final(self).count == old(self).count,
            final(self).overflow == old(self).overflow,
            final(self).longest == old(self).longest,
            final(self).sites@ == old(self).sites@,
            final(self).longest_wait == old(self).longest_wait,
            final(self).longest_hold == old(self).longest_hold,
            final(self).holds@ == old(self).holds@,
    {
        let last = self.last_hook;
        let gap = if now >= last { now - last } else { 0 };
        if count_gap && last != 0 && gap > self.max_gap.0 {
            self.max_gap = (gap, last);
        }
        self.last_hook = now;
        now
    }

    /// Opens a section at `site`, at time `now` and processor cycle stamp
    /// `insns`, on `thread`: interrupts have just gone off. Any dangling
    /// open section is overwritten. The hook gap counts unless the section
    /// opens coming out of an interrupt wait.
    pub fn open(&mut self, site: Site, now: u64, insns: u64, thread: u8)
        ensures
            final(self).open == Some((now, insns, site, thread)),
            final(self).last_hook == now,
            final(self).max_gap == gap_after(old(self).max_gap, old(self).last_hook, now, !(site is Wfi)),
            final(self).total == old(self).total,
            final(self).count == old(self).count,
            final(self).overflow == old(self).overflow,
            final(self).longest == old(self).longest,
            final(self).sites@ == old(self).sites@,
            final(self).longest_wait == old(self).longest_wait,
            final(self).longest_hold == old(self).longest_hold,
            final(self).holds@ == old(self).holds@,
    {
        let count_gap = match site {
            Site::Wfi => false,
            _ => true,
        };
        let now = self.hook_stamp(now, count_gap);
        self.open = Some((now, insns, site, thread));
    }

    /// Closes the open section at `site`, at time `now` and processor cycle
    /// stamp `insns`, on `thread`: interrupts are about to come back on.
    /// The section is added to the totals, kept if it is the longest, and
    /// recorded under the site that opened it. With nothing open only the
    /// hook call is stamped.
    pub fn close(&mut self, site: Site, now: u64, insns: u64, thread: u8)
        requires
            old(self).wf(),
            old(self).open matches Some(o) ==> forall|i: int|
                #[trigger] first_site(old(self).sites@, o.2, i) ==> stats_room(old(self).sites@[i]->0, sat_sub(now, o.0)),
        ensures
            final(self).wf(),
            final(self).last_hook == now,
            final(self).max_gap == gap_after(old(self).max_gap, old(self).last_hook, now, true),
            final(self).longest_wait == old(self).longest_wait,
            final(self).longest_hold == old(self).longest_hold,
            final(self).holds@ == old(self).holds@,
            final(self).open is None,
            match old(self).open {
                None => {
                    &&& final(self).total == old(self).total
                    &&& final(self).count == old(self).count
                    &&& final(self).overflow == old(self).overflow
                    &&& final(self).longest == old(self).longest
                    &&& final(self).sites@ == old(self).sites@
                },
                Some(o) => {
                    let sec = Section {
                        start: o.0,
                        cycles: sat_sub(now, o.0),
                        insns: sat_sub(insns, o.1),
                        open: o.2,
                        open_thread: o.3,
                        close: site,
                        close_thread: thread,
                    };
                    let (t, unattributed) = sites_after(old(self).sites@, o.2, sec);
                    &&& final(self).total == old(self).total.wrapping_add(sec.cycles)
                    &&& final(self).count == old(self).count.wrapping_add(1)
                    &&& final(self).longest == if sec.cycles > old(self).longest.cycles { sec } else { old(self).longest }
                    &&& final(self).sites@ == t
                    &&& final(self).overflow == if unattributed { old(self).overflow.wrapping_add(1) } else { old(self).overflow }
                },
            },
    {
        let now = self.hook_stamp(now, true);
        let opened = self.open;
        self.open = None;
        match opened {
            None => {},
            Some((start, start_insns, open_site, open_thread)) => {
                let section = Section {
                    start,
                    cycles: if now >= start { now - start } else { 0 },
                    insns: if insns >= start_insns { insns - start_insns } else { 0 },
                    open: open_site,
                    open_thread,
                    close: site,
                    close_thread: thread,
                };
                self.total = self.total.wrapping_add(section.cycles);
                self.count = self.count.wrapping_add(1);
                if section.cycles > self.longest.cycles {
                    self.longest = section;
                }
                let ghost t = self.sites@;
                let (found, free) = find_site(&self.sites, &open_site);
                match found {
                    Some(i) => {
                        let mut stats = self.sites[i].unwrap();
                        stats.record(section);
                        self.sites.set(i, Some(stats));
                        proof {
                            assert forall|k: int| first_site(t, open_site, k) implies k == i by {
                                lemma_first_site_unique(t, open_site, i as int, k);
                            }
                        }
                    },
                    None => match free {
                        Some(i) => {
                            let mut stats = SiteStats::new(open_site);
                            stats.record(section);
                            self.sites.set(i, Some(stats));
                            proof {
                                assert forall|k: int| first_free_site(t, open_site, k) implies k == i by {
                                    lemma_first_free_site_unique(t, open_site, i as int, k);
                                }
                            }
                        },
                        None => {
                            self.overflow = self.overflow.wrapping_add(1);
                        },
                    },
                }
            },
        }
    }

    /// A spin lock at `site` finished spinning on its ticket at time `now`,
    /// having started at `wait_start`, on `thread`: the wait is kept if it
    /// is the longest, and recorded for the site. Returns `now`, the stamp
    /// the hold is measured from.
    pub fn lock_acquired(&mut self, site: CallSite, wait_start: u64, now: u64, thread: u8) -> (r: u64)
        requires
            old(self).wf(),
        ensures
            final(self).wf(),
            r == now,
            final(self).longest_wait == if sat_sub(now, wait_start) > old(self).longest_wait.cycles {
                LockEvent { cycles: sat_sub(now, wait_start), site: Some(site), thread }
            } else {
                old(self).longest_wait
            },
            final(self).holds@ == holds_after_wait(old(self).holds@, site, sat_sub(now, wait_start)),
            final(self).longest_hold == old(self).longest_hold,
            final(self).open == old(self).open,
            final(self).total == old(self).total,
            final(self).count == old(self).count,
            final(self).overflow == old(self).overflow,
            final(self).longest == old(self).longest,
            final(self).last_hook == old(self).last_hook,
            final(self).max_gap == old(self).max_gap,
            final(self).sites@ == old(self).sites@,
    {
        let waited = if now >= wait_start { now - wait_start } else { 0 };
        if waited > self.longest_wait.cycles {
            self.longest_wait = LockEvent { cycles: waited, site: Some(site), thread };
        }
        let ghost t = self.holds@;
        let (found, free) = find_lock(&self.holds, &site);
        match found {
            Some(i) => {
                let mut stats = self.holds[i].unwrap();
                if waited > stats.max_wait {
                    stats.max_wait = waited;
                }
                self.holds.set(i, Some(stats));
                proof {
                    assert forall|k: int| first_lock(t, site, k) implies k == i by {
                        lemma_first_lock_unique(t, site, i as int, k);
                    }
                }
            },
            None => match free {
                Some(i) => {
                    self.holds.set(i, Some(LockStats { site, count: 0, total_hold: 0, max_hold: 0, max_wait: waited }));
                    proof {
                        assert forall|k: int| first_free_lock(t, site, k) implies k == i by {
                            lemma_first_free_lock_unique(t, site, i as int, k);
                        }
                    }
                },
                None => {},
            },
        }
        now
    }

    /// The lock taken at `site` and acquired at `acquired` is released at
    /// time `now` on `thread`: the hold is kept if it is the longest, and
    /// recorded for the site.
    pub fn lock_released(&mut self, site: CallSite, acquired: u64, now: u64, thread: u8)
        requires
            old(self).wf(),
            forall|i: int| #[trigger] first_lock(old(self).holds@, site, i) ==> {
                let s = old(self).holds@[i]->0;
                s.count < u32::MAX && s.total_hold + sat_sub(now, acquired) <= u64::MAX
            },
        ensures
            final(self).wf(),
            final(self).longest_hold == if sat_sub(now, acquired) > old(self).longest_hold.cycles {
                LockEvent { cycles: sat_sub(now, acquired), site: Some(site), thread }
            } else {
                old(self).longest_hold
            },
            final(self).holds@ == holds_after_hold(old(self).holds@, site, sat_sub(now, acquired)),
            final(self).longest_wait == old(self).longest_wait,
            final(self).open == old(self).open,
            final(self).total == old(self).total,
            final(self).count == old(self).count,
            final(self).overflow == old(self).overflow,
            final(self).longest == old(self).longest,
            final(self).last_hook == old(self).last_hook,
            final(self).max_gap == old(self).max_gap,
            final(self).sites@ == old(self).sites@,
    {
        let held = if now >= acquired { now - acquired } else { 0 };
        if held > self.longest_hold.cycles {
            self.longest_hold = LockEvent { cycles: held, site: Some(site), thread };
        }
        let ghost t = self.holds@;
        let (found, free) = find_lock(&self.holds, &site);
        match found {
            Some(i) => {
                let mut stats = self.holds[i].unwrap();
                assert(first_lock(t, site, i as int));
                stats.count = stats.count + 1;
                stats.total_hold = stats.total_hold + held;
                if held > stats.max_hold {
                    stats.max_hold = held;
                }
                self.holds.set(i, Some(stats));
                proof {
                    assert forall|k: int| first_lock(t, site, k) implies k == i by {
                        lemma_first_lock_unique(t, site, i as int, k);
                    }
                }
            },
            None => match free {
                Some(i) => {
                    self.holds.set(i, Some(LockStats { site, count: 1, total_hold: held, max_hold: held, max_wait: 0 }));
                    proof {
                        assert forall|k: int| first_free_lock(t, site, k) implies k == i by {
                            lemma_first_free_lock_unique(t, site, i as int, k);
                        }
                    }
                },
                None => {},
            },
        }
    }
}

/// Whether slot `i` comes before slot `j` in a report ranked by `keys`:
/// a larger key first, and of equal keys the later slot first.
pub open spec fn ranks_before(keys: Seq<Option<u64>>, i: int, j: int) -> bool {
    keys[i]->0 > keys[j]->0 || (keys[i]->0 == keys[j]->0 && i > j)
}

/// `r` lists every occupied slot of `keys` once, in report order.
pub open spec fn is_ranking(keys: Seq<Option<u64>>, r: Seq<usize>) -> bool {
    &&& forall|k: int| 0 <= k < r.len() ==> (#[trigger] r[k]) < keys.len() && keys[r[k] as int] is Some
    &&& forall|i: int| 0 <= i < keys.len() && (#[trigger] keys[i]) is Some ==> exists|k: int| 0 <= k < r.len() && r[k] == i
    &&& forall|k: int, l: int| 0 <= k < l < r.len() ==> ranks_before(keys, #[trigger] r[k] as int, #[trigger] r[l] as int)
}

/// Occupied slots among the first `n` of `keys` not yet taken.
pub open spec fn untaken(keys: Seq<Option<u64>>, taken: Seq<bool>, n: int) -> nat
    decreases n,
{
    if n <= 0 {
        0
    } else {
        untaken(keys, taken, n - 1) + if keys[n - 1] is Some && !taken[n - 1] { 1nat } else { 0nat }
    }
}

/// Taking one more occupied slot lowers the count by one.
proof fn lemma_untaken_take(keys: Seq<Option<u64>>, taken: Seq<bool>, b: int, n: int)
    requires
        0 <= b < n <= taken.len(),
        keys[b] is Some,
        !taken[b],
    ensures
        untaken(keys, taken.update(b, true), n) + 1 == untaken(keys, taken, n),
    decreases n,
{
    if n - 1 > b {
        lemma_untaken_take(keys, taken, b, n - 1);
    } else {
        lemma_untaken_same(keys, taken, taken.update(b, true), n - 1);
    }
}

/// The count only looks at the first `n` slots.
proof fn lemma_untaken_same(keys: Seq<Option<u64>>, a: Seq<bool>, b: Seq<bool>, n: int)
    requires
        0 <= n,
        n <= a.len(),
        n <= b.len(),
        forall|i: int| 0 <= i < n ==> a[i] == b[i],
    ensures
        untaken(keys, a, n) == untaken(keys, b, n),
    decreases n,
{
    if n > 0 {
        lemma_untaken_same(keys, a, b, n - 1);
    }
}

/// With no occupied slot left untaken the count is zero, and the other
/// way round.
proof fn lemma_untaken_zero(keys: Seq<Option<u64>>, taken: Seq<bool>, n: int)
    requires
        0 <= n <= taken.len(),
    ensures
        (untaken(keys, taken, n) == 0) <==> (forall|i: int| 0 <= i < n ==> keys[i] is None || taken[i]),
    decreases n,
{
    if n > 0 {
        lemma_untaken_zero(keys, taken, n - 1);
        if untaken(keys, taken, n) == 0 {
            assert forall|i: int| 0 <= i < n implies keys[i] is None || taken[i] by {
                if i < n - 1 {
                }
            }
        }
    }
}

/// The slots of a table in report order: occupied slots by decreasing
/// key, of equal keys the later slot first. Empty slots (no key) are
/// left out.
pub fn rank_by_key(keys: &Vec<Option<u64>>) -> (r: Vec<usize>)
    ensures
        is_ranking(keys@, r@),
{
    let n = keys.len();
    let mut taken: Vec<bool> = Vec::new();
    let mut remaining: usize = 0;
    let mut i: usize = 0;
    while i < n
        invariant
            n == keys@.len(),
            i <= n,
            taken@.len() == i,
            forall|j: int| 0 <= j < i ==> !taken@[j],
            remaining == untaken(keys@, taken@, i as int),
            remaining <= i,
        decreases n - i,
    {
        let ghost before = taken@;
        taken.push(false);
        proof {
            lemma_untaken_same(keys@, before, taken@, i as int);
        }
        if keys[i].is_some() {
            remaining = remaining + 1;
        }
        i = i + 1;
    }
    let mut r: Vec<usize> = Vec::new();
    while remaining > 0
        invariant
            n == keys@.len(),
            taken@.len() == n,
            remaining == untaken(keys@, taken@, n as int),
            forall|k: int| 0 <= k < r@.len() ==> (#[trigger] r@[k]) < n && keys@[r@[k] as int] is Some && taken@[r@[k] as int],
            forall|j: int| 0 <= j < n && (#[trigger] taken@[j]) ==> exists|k: int| 0 <= k < r@.len() && r@[k] == j,
            forall|k: int, l: int| 0 <= k < l < r@.len() ==> ranks_before(keys@, #[trigger] r@[k] as int, #[trigger] r@[l] as int),
            forall|k: int, j: int| #![trigger r@[k], taken@[j]] 0 <= k < r@.len() && 0 <= j < n && keys@[j] is Some && !taken@[j]
                ==> ranks_before(keys@, r@[k] as int, j),
        decreases remaining,
    {
        let mut best: Option<usize> = None;
        let mut best_key: u64 = 0;
        let mut j: usize = 0;
        while j < n
            invariant
                n == keys@.len(),
                taken@.len() == n,
                j <= n,
                match best {
                    Some(b) => {
                        &&& b < j
                        &&& keys@[b as int] == Some(best_key)
                        &&& !taken@[b as int]
                        &&& forall|m: int| 0 <= m < j && m != b && keys@[m] is Some && !taken@[m]
                            ==> ranks_before(keys@, b as int, m)
                    },
                    None => forall|m: int| 0 <= m < j ==> keys@[m] is None || taken@[m],
                },
            decreases n - j,
        {
            if !taken[j] {
                if let Some(k) = keys[j] {
                    let better = match best {
                        None => true,
                        Some(_) => k >= best_key,
                    };
                    if better {
                        best = Some(j);
                        best_key = k;
                    }
                }
            }
            j = j + 1;
        }
        match best {
            None => {
                proof {
                    lemma_untaken_zero(keys@, taken@, n as int);
                }
                assert(false);
            },
            Some(b) => {
                let ghost t0 = taken@;
                let ghost r0 = r@;
                proof {
                    lemma_untaken_take(keys@, taken@, b as int, n as int);
                }
                taken.set(b, true);
                r.push(b);
                remaining = remaining - 1;
                proof {
                    assert forall|m: int| 0 <= m < n && (#[trigger] taken@[m]) implies exists|k: int|
                        0 <= k < r@.len() && r@[k] == m by {
                        if m == b {
                            assert(r@[r@.len() - 1] == m);
                        } else {
                            assert(t0[m]);
                            let k = choose|k: int| 0 <= k < r0.len() && r0[k] == m;
                            assert(r@[k] == m);
                        }
                    }
                    assert forall|k: int, l: int| 0 <= k < l < r@.len() implies ranks_before(
                        keys@,
                        #[trigger] r@[k] as int,
                        #[trigger] r@[l] as int,
                    ) by {
                        if l == r@.len() - 1 {
                            assert(r@[k] == r0[k]);
                        } else {
                            assert(r@[k] == r0[k] && r@[l] == r0[l]);
                        }
                    }
                    assert forall|k: int, j: int| #![trigger r@[k], taken@[j]] 0 <= k < r@.len() && 0 <= j < n && keys@[j] is Some && !taken@[j]
                        implies ranks_before(keys@, r@[k] as int, j) by {
                        assert(j != b);
                        assert(!t0[j]);
                        if k < r0.len() {
                            assert(r@[k] == r0[k]);
                        }
                    }
                }
            },
        }
    }
    proof {
        lemma_untaken_zero(keys@, taken@, n as int);
        assert forall|i: int| 0 <= i < keys@.len() && (#[trigger] keys@[i]) is Some implies exists|k: int|
            0 <= k < r@.len() && r@[k] == i by {
            assert(taken@[i]);
        }
    }
    r
}

impl HartRecord {
    /// The site table's slots in report order: by longest section, longest
    /// first.
    pub fn ranked_sites(&self) -> (r: Vec<usize>)
        ensures
            is_ranking(Seq::new(self.sites@.len(), |i: int| match self.sites@[i] {
                Some(s) => Some(s.longest.cycles),
                None => None,
            }), r@),
    {
        let mut keys: Vec<Option<u64>> = Vec::new();
        let mut i: usize = 0;
        while i < self.sites.len()
            invariant
                i <= self.sites@.len(),
                keys@.len() == i,
                forall|j: int| 0 <= j < i ==> #[trigger] keys@[j] == match self.sites@[j] {
                    Some(s) => Some(s.longest.cycles),
                    None => None,
                },
            decreases self.sites@.len() - i,
        {
            let k = match &self.sites[i] {
                Some(s) => Some(s.longest.cycles),
                None => None,
            };
            keys.push(k);
            i = i + 1;
        }
        let r = rank_by_key(&keys);
        assert(keys@ =~= Seq::new(self.sites@.len(), |i: int| match self.sites@[i] {
            Some(s) => Some(s.longest.cycles),
            None => None,
        }));
        r
    }

    /// The lock table's slots in report order: by longest hold, longest
    /// first.
    pub fn ranked_holds(&self) -> (r: Vec<usize>)
        ensures
            is_ranking(Seq::new(self.holds@.len(), |i: int| match self.holds@[i] {
                Some(s) => Some(s.max_hold),
                None => None,
            }), r@),
    {
        let mut keys: Vec<Option<u64>> = Vec::new();
        let mut i: usize = 0;
        while i < self.holds.len()
            invariant
                i <= self.holds@.len(),
                keys@.len() == i,
                forall|j: int| 0 <= j < i ==> #[trigger] keys@[j] == match self.holds@[j] {
                    Some(s) => Some(s.max_hold),
                    None => None,
                },
            decreases self.holds@.len() - i,
        {
            let k = match &self.holds[i] {
                Some(s) => Some(s.max_hold),
                None => None,
            };
            keys.push(k);
            i = i + 1;
        }
        let r = rank_by_key(&keys);
        assert(keys@ =~= Seq::new(self.holds@.len(), |i: int| match self.holds@[i] {
            Some(s) => Some(s.max_hold),
            None => None,
        }));
        r
    }
}

/// What grew on a hart during a test.
#[derive(Clone, Copy, Debug)]
pub enum Growth {
    /// Its longest section.
    Section(Section),
    /// Its largest gap between hook calls, and when it began.
    HookGap(u64, u64),
    /// Its longest lock wait.
    LockWait(LockEvent),
    /// Its longest lock hold.
    LockHold(LockEvent),
}

/// A report that something grew on hart `hart` during the test `test`.
#[derive(Clone, Copy, Debug)]
pub struct GrowthReport {
    pub hart: usize,
    pub test: &'static str,
    pub growth: Growth,
}

/// The largest values seen so far on one hart: longest section, largest
/// hook gap, longest lock wait and hold.
pub type Seen = (u64, u64, u64, u64);

/// The reports for hart `id` with record `h` after the test `test`,
/// given what was seen before.
pub open spec fn growth_of(seen: Seen, h: HartRecord, id: usize, test: &'static str) -> Seq<GrowthReport> {
    let a = if h.longest.cycles > seen.0 {
        seq![GrowthReport { hart: id, test, growth: Growth::Section(h.longest) }]
    } else {
        Seq::empty()
    };
    let b = if h.max_gap.0 > seen.1 {
        seq![GrowthReport { hart: id, test, growth: Growth::HookGap(h.max_gap.0, h.max_gap.1) }]
    } else {
        Seq::empty()
    };
    let c = if h.longest_wait.cycles > seen.2 {
        seq![GrowthReport { hart: id, test, growth: Growth::LockWait(h.longest_wait) }]
    } else {
        Seq::empty()
    };
    let d = if h.longest_hold.cycles > seen.3 {
        seq![GrowthReport { hart: id, test, growth: Growth::LockHold(h.longest_hold) }]
    } else {
        Seq::empty()
    };
    a + b + c + d
}

/// The largest values seen on a hart once its record `h` is seen.
pub open spec fn seen_after(seen: Seen, h: HartRecord) -> Seen {
    (
        if h.longest.cycles > seen.0 { h.longest.cycles } else { seen.0 },
        if h.max_gap.0 > seen.1 { h.max_gap.0 } else { seen.1 },
        if h.longest_wait.cycles > seen.2 { h.longest_wait.cycles } else { seen.2 },
        if h.longest_hold.cycles > seen.3 { h.longest_hold.cycles } else { seen.3 },
    )
}

/// The reports for the first `n` harts.
pub open spec fn growth_upto(seen: Seq<Seen>, harts: Seq<HartRecord>, n: int, test: &'static str) -> Seq<GrowthReport>
    decreases n,
{
    if n <= 0 {
        Seq::empty()
    } else {
        growth_upto(seen, harts, n - 1, test) + growth_of(seen[n - 1], harts[n - 1], (n - 1) as usize, test)
    }
}

/// Watches the records between tests: which test made a hart's worst
/// figures grow.
pub struct TestWatch {
    /// The largest values seen so far, per hart.
    pub seen: Vec<Seen>,
    /// The test that ran since the last boundary.
    pub prev_test: &'static str,
}

impl TestWatch {
    /// Nothing seen for `harts` harts, before the first test.
    pub fn new(harts: usize, before_first: &'static str) -> (r: TestWatch)
        ensures
            r.seen@ == Seq::new(harts as nat, |i: int| (0u64, 0u64, 0u64, 0u64)),
            r.prev_test == before_first,
    {
        let mut seen: Vec<Seen> = Vec::new();
        let mut i: usize = 0;
        while i < harts
            invariant
                i <= harts,
                seen@ == Seq::new(i as nat, |k: int| (0u64, 0u64, 0u64, 0u64)),
            decreases harts - i,
        {
            seen.push((0, 0, 0, 0));
            i = i + 1;
            assert(seen@ =~= Seq::new(i as nat, |k: int| (0u64, 0u64, 0u64, 0u64)));
        }
        TestWatch { seen, prev_test: before_first }
    }

    /// A test boundary: the test `next_test` is about to run. Reports, hart
    /// by hart, each figure that grew during the test that just ran, and
    /// remembers the new values.
    pub fn test_boundary(&mut self, harts: &[HartRecord], next_test: &'static str) -> (r: Vec<GrowthReport>)
        requires
            old(self).seen@.len() == harts@.len(),
        ensures
            r@ == growth_upto(old(self).seen@, harts@, harts@.len() as int, old(self).prev_test),
            final(self).seen@ == Seq::new(harts@.len(), |i: int| seen_after(old(self).seen@[i], harts@[i])),
            final(self).prev_test == next_test,
    {
        let prev = self.prev_test;
        let ghost seen0 = self.seen@;
        let mut out: Vec<GrowthReport> = Vec::new();
        let mut id: usize = 0;
        while id < harts.len()
            invariant
                seen0.len() == harts@.len(),
                self.seen@.len() == harts@.len(),
                id <= harts@.len(),
                prev == old(self).prev_test,
                seen0 == old(self).seen@,
                out@ == growth_upto(seen0, harts@, id as int, prev),
                forall|i: int| 0 <= i < id ==> #[trigger] self.seen@[i] == seen_after(seen0[i], harts@[i]),
                forall|i: int| id <= i < harts@.len() ==> #[trigger] self.seen@[i] == seen0[i],
            decreases harts@.len() - id,
        {
            let h = &harts[id];
            let mut s = self.seen[id];
            let ghost out0 = out@;
            if h.longest.cycles > s.0 {
                s.0 = h.longest.cycles;
                out.push(GrowthReport { hart: id, test: prev, growth: Growth::Section(h.longest) });
            }
            let ghost out1 = out@;
            if h.max_gap.0 > s.1 {
                s.1 = h.max_gap.0;
                out.push(GrowthReport { hart: id, test: prev, growth: Growth::HookGap(h.max_gap.0, h.max_gap.1) });
            }
            let ghost out2 = out@;
            if h.longest_wait.cycles > s.2 {
                s.2 = h.longest_wait.cycles;
                out.push(GrowthReport { hart: id, test: prev, growth: Growth::LockWait(h.longest_wait) });
            }
            let ghost out3 = out@;
            if h.longest_hold.cycles > s.3 {
                s.3 = h.longest_hold.cycles;
                out.push(GrowthReport { hart: id, test: prev, growth: Growth::LockHold(h.longest_hold) });
            }
            self.seen.set(id, s);
            proof {
                let g = growth_of(seen0[id as int], harts@[id as int], id, prev);
                assert(out@ =~= out0 + g);
            }
            id = id + 1;
        }
        self.prev_test = next_test;
        assert(self.seen@ =~= Seq::new(harts@.len(), |i: int| seen_after(seen0[i], harts@[i])));
        out
    }
}

/// The share of `elapsed` spent with interrupts off, `total` cycles of
/// it, in thousandths; zero when no time has elapsed.
pub fn permille(total: u64, elapsed: u64) -> (r: u64)
    ensures
        elapsed == 0 ==> r == 0,
        elapsed > 0 ==> r == (if total * 1000 > u64::MAX { u64::MAX as int } else { total * 1000 }) / (elapsed as int),
{
    let scaled: u64 = if total > u64::MAX / 1000 { u64::MAX } else { total * 1000 };
    if elapsed == 0 {
        0
    } else {
        scaled / elapsed
    }
}

} // verus!
