//! User processes
//!
//! A process owns a memory map and a file descriptor table and runs one or
//! more user threads. Its control block counts those threads and records
//! which thread, if any, has taken on tearing the process down.

use vstd::prelude::*;
use crate::fd;
use crate::threads::THREADS_MAX;
use crate::usermem::MemoryMap;

verus! {

/// Number of process slots: two thread slots are taken by the idle
/// threads, so at most this many single-thread processes can run.
pub const MAX: usize = THREADS_MAX - 2;

/// Most threads one process may run.
pub const THREADS_PER_PROC_MAX: u8 = 6;

/// Why loading a program image failed.
#[derive(Clone, Copy, Debug, PartialEq, Eq)]
pub enum LoadError {
    MismatchedBlobSize,
    NotEnoughMemory,
}

/// Why spawning a process failed.
#[derive(Clone, Copy, Debug, PartialEq, Eq)]
pub enum SpawnError {
    Load(LoadError),
    NotEnoughMemory,
    NotEnoughThreads,
    NotFound,
    TooManyProcesses,
}

/// A program image loaded into memory: its memory map, entry point, and
/// the address its threads return to.
pub struct LoadedImage {
    pub user_mem_map: MemoryMap,
    pub entry: usize,
    pub entry_ra: usize,
}

/// Names a process: its id and its slot.
#[derive(Clone, Copy, Debug, PartialEq, Eq)]
pub struct Handle {
    pub pid: u32,
    pub idx: usize,
}

/// A process's record.
pub struct ControlBlock {
    pub pid: u32,
    pub name: &'static str,
    pub mem_map: MemoryMap,
    pub fds: fd::Table,
    pub thread_count: u8,
    pub entry_ra: usize,
    pub teardown_thread: Option<usize>,
}

impl ControlBlock {
    /// Well formed: a valid descriptor table and no more threads than
    /// allowed.
    pub open spec fn wf(&self) -> bool {
        &&& self.fds.wf()
        &&& self.mem_map.wf()
        &&& self.thread_count <= THREADS_PER_PROC_MAX
    }

    /// A process with id `pid`, no threads yet, an empty descriptor table
    /// and no teardown thread. `entry_ra` is where its threads return to.
    pub fn new(name: &'static str, mem_map: MemoryMap, entry_ra: usize, pid: u32) -> (r: Self)
        requires
            mem_map.wf(),
        ensures
            r.wf(),
            r.pid == pid,
            r.name == name,
            r.mem_map == mem_map,
            fd::all_closed(r.fds@),
            r.thread_count == 0,
            r.entry_ra == entry_ra,
            r.teardown_thread is None,
    {
        ControlBlock {
            pid,
            name,
            mem_map,
            fds: fd::Table::new(),
            thread_count: 0,
            entry_ra,
            teardown_thread: None,
        }
    }

    /// Number of threads the process runs.
    pub fn thread_count(&self) -> (r: u8)
        ensures
            r == self.thread_count,
    {
        self.thread_count
    }

    /// Counts one more thread and returns the new count, or fails if the
    /// process already runs the most threads allowed.
    pub fn add_thread_count(&mut self) -> (r: Result<u8, ()>)
        requires
            old(self).wf(),
        ensures
            final(self).wf(),
            if old(self).thread_count < THREADS_PER_PROC_MAX {
                &&& final(self).thread_count == old(self).thread_count + 1
                &&& r == Ok::<u8, ()>(final(self).thread_count)
            } else {
                &&& r is Err
                &&& final(self).thread_count == old(self).thread_count
            },
            final(self).pid == old(self).pid,
            final(self).name == old(self).name,
            final(self).mem_map == old(self).mem_map,
            final(self).fds == old(self).fds,
            final(self).entry_ra == old(self).entry_ra,
            final(self).teardown_thread == old(self).teardown_thread,
    {
        if self.thread_count < THREADS_PER_PROC_MAX {
            self.thread_count = self.thread_count + 1;
            Ok(self.thread_count)
        } else {
            Err(())
        }
    }

    /// Counts one thread fewer and returns the new count. The process must
    /// run at least one thread.
    pub fn dec_thread_count(&mut self) -> (r: u8)
        requires
            old(self).wf(),
            old(self).thread_count > 0,
        ensures
            final(self).wf(),
            final(self).thread_count == old(self).thread_count - 1,
            r == final(self).thread_count,
            final(self).pid == old(self).pid,
            final(self).name == old(self).name,
            final(self).mem_map == old(self).mem_map,
            final(self).fds == old(self).fds,
            final(self).entry_ra == old(self).entry_ra,
            final(self).teardown_thread == old(self).teardown_thread,
    {
        self.thread_count = self.thread_count - 1;
        self.thread_count
    }

    /// Records `thread_idx` as the thread tearing the process down, unless
    /// one already is. Returns whether it was recorded.
    pub fn set_teardown_thread(&mut self, thread_idx: usize) -> (r: bool)
        ensures
            r == old(self).teardown_thread is None,
            final(self).teardown_thread == (if r {
                Some(thread_idx)
            } else {
                old(self).teardown_thread
            }),
            final(self).pid == old(self).pid,
            final(self).name == old(self).name,
            final(self).mem_map == old(self).mem_map,
            final(self).fds == old(self).fds,
            final(self).thread_count == old(self).thread_count,
            final(self).entry_ra == old(self).entry_ra,
    {
        if self.teardown_thread.is_none() {
            self.teardown_thread = Some(thread_idx);
            true
        } else {
            false
        }
    }
}

/// The lowest empty slot at or after `start`, or the length if none is.
pub open spec fn first_free_slot(s: Seq<Option<ControlBlock>>, start: nat) -> nat
    decreases s.len() - start,
{
    if start >= s.len() {
        s.len()
    } else if s[start as int] is None {
        start
    } else {
        first_free_slot(s, start + 1)
    }
}

/// The process table.
pub struct Procs {
    slots: Vec<Option<ControlBlock>>,
}

impl View for Procs {
    type V = Seq<Option<ControlBlock>>;

    closed spec fn view(&self) -> Seq<Option<ControlBlock>> {
        self.slots@
    }
}

impl Procs {
    /// `MAX` slots, each empty or holding a well-formed control block.
    pub open spec fn wf(&self) -> bool {
        &&& self@.len() == MAX
        &&& forall|i: int| 0 <= i < MAX ==> (#[trigger] self@[i] matches Some(p) ==> p.wf())
    }

    /// A table of empty slots.
    pub fn new() -> (r: Self)
        ensures
            r.wf(),
            forall|i: int| 0 <= i < MAX ==> #[trigger] r@[i] is None,
    {
        let mut slots: Vec<Option<ControlBlock>> = Vec::new();
        let mut i: usize = 0;
        while i < MAX
            invariant
                i <= MAX,
                slots@.len() == i,
                forall|j: int| 0 <= j < i ==> #[trigger] slots@[j] is None,
            decreases MAX - i,
        {
            slots.push(None);
            i = i + 1;
        }
        Procs { slots }
    }

    proof fn lemma_first_free(s: Seq<Option<ControlBlock>>, i: nat)
        ensures
            first_free_slot(s, i) <= s.len(),
            first_free_slot(s, i) >= i || first_free_slot(s, i) == s.len(),
            first_free_slot(s, i) < s.len() ==> s[first_free_slot(s, i) as int] is None,
            forall|j: int| i <= j < first_free_slot(s, i) ==> s[j] is Some,
        decreases s.len() - i,
    {
        if i < s.len() && s[i as int] is Some {
            Self::lemma_first_free(s, i + 1);
        }
    }

    /// The lowest empty slot, if any.
    pub fn find_process_slot(&self) -> (r: Option<usize>)
        requires
            self.wf(),
        ensures
            match r {
                Some(i) => i == first_free_slot(self@, 0) && i < MAX && self@[i as int] is None,
                None => first_free_slot(self@, 0) == MAX && forall|j: int|
                    0 <= j < MAX ==> #[trigger] self@[j] is Some,
            },
    {
        proof {
            Self::lemma_first_free(self@, 0);
        }
        let mut i: usize = 0;
        while i < MAX
            invariant
                self.wf(),
                i <= MAX,
                first_free_slot(self@, 0) == first_free_slot(self@, i as nat),
                forall|j: int| 0 <= j < i ==> #[trigger] self@[j] is Some,
            decreases MAX - i,
        {
            if self.slots[i].is_none() {
                return Some(i);
            }
            i = i + 1;
        }
        None
    }

    /// Puts `pcb` into the empty slot `idx` and returns the process handle.
    pub fn install_process_control_block(&mut self, idx: usize, pcb: ControlBlock) -> (r: Handle)
        requires
            old(self).wf(),
            idx < MAX,
            old(self)@[idx as int] is None,
            pcb.wf(),
        ensures
            final(self).wf(),
            r == (Handle { pid: pcb.pid, idx }),
            final(self)@ == old(self)@.update(idx as int, Some(pcb)),
    {
        let pid = pcb.pid;
        self.slots.set(idx, Some(pcb));
        Handle { pid, idx }
    }

    /// The process in slot `idx`, if any.
    pub fn get(&self, idx: usize) -> (r: Option<&ControlBlock>)
        requires
            self.wf(),
            idx < MAX,
        ensures
            match r {
                Some(p) => self@[idx as int] == Some(*p),
                None => self@[idx as int] is None,
            },
    {
        self.slots[idx].as_ref()
    }

    /// Replaces slot `idx` with `value` and returns what it held.
    pub fn replace(&mut self, idx: usize, value: Option<ControlBlock>) -> (r: Option<ControlBlock>)
        requires
            old(self).wf(),
            idx < MAX,
            value matches Some(p) ==> p.wf(),
        ensures
            final(self).wf(),
            r == old(self)@[idx as int],
            final(self)@ == old(self)@.update(idx as int, value),
    {
        let mut v = value;
        self.slots.set_and_swap(idx, &mut v);
        v
    }
}

} // verus!
