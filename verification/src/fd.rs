//! File descriptors
//!
//! File descriptors are held directly in the process control block, so they
//! cannot be reference counted: a descriptor belongs to exactly one process
//! and duplicates are not possible.

use vstd::prelude::*;

verus! {

/// Number of descriptors a process can have open.
pub const MAX: usize = 8;

/// Identifies an open file of the file system.
#[derive(Debug, PartialEq, Eq)]
pub struct FileHandle {
    pub id: usize,
}

/// What a descriptor refers to.
#[derive(Debug, PartialEq, Eq)]
pub enum Kind {
    Keyboard,
    Console,
    DebugConsole,
    File(FileHandle),
}

/// Why a descriptor operation failed.
#[derive(Debug, PartialEq, Eq)]
pub enum Error {
    NotAUserProcess,
    NotEnoughSlots(Kind),
    StaleFileDescriptor,
    UnknownFileDescriptor,
}

/// Index of the first free descriptor slot at or after `start`, or the slot
/// count.
pub open spec fn first_free(s: Seq<Option<Kind>>, start: nat) -> nat
    decreases s.len() - start,
{
    if start >= s.len() {
        s.len()
    } else if s[start as int] is None {
        start
    } else {
        first_free(s, start + 1)
    }
}

/// Whether no descriptor is open.
pub open spec fn all_closed(s: Seq<Option<Kind>>) -> bool {
    forall|i: int| 0 <= i < s.len() ==> #[trigger] s[i] is None
}

/// The files among the descriptors, in descriptor order.
pub open spec fn open_files(s: Seq<Option<Kind>>) -> Seq<FileHandle>
    decreases s.len(),
{
    if s.len() == 0 {
        Seq::empty()
    } else {
        match s.last() {
            Some(Kind::File(f)) => open_files(s.drop_last()).push(f),
            _ => open_files(s.drop_last()),
        }
    }
}

/// A process's descriptor table.
pub struct Table {
    slots: Vec<Option<Kind>>,
}

impl View for Table {
    type V = Seq<Option<Kind>>;

    /// The descriptor slots in order.
    closed spec fn view(&self) -> Seq<Option<Kind>> {
        self.slots@
    }
}

impl Table {
    /// The table has `MAX` slots.
    pub open spec fn wf(&self) -> bool {
        self@.len() == MAX
    }

    /// A table with every descriptor closed.
    pub fn new() -> (r: Self)
        ensures
            r.wf(),
            all_closed(r@),
    {
        let mut slots: Vec<Option<Kind>> = Vec::new();
        let mut i: usize = 0;
        while i < MAX
            invariant
                i <= MAX,
                slots@.len() == i,
                all_closed(slots@),
            decreases MAX - i,
        {
            slots.push(None);
            i = i + 1;
        }
        Table { slots }
    }

    /// Opens the three descriptors a new process starts with: keyboard,
    /// console and debug console as 0, 1 and 2. The table must be empty, as
    /// the previous process's teardown leaves it.
    pub fn new_process(&mut self)
        requires
            old(self).wf(),
            all_closed(old(self)@),
        ensures
            final(self).wf(),
            final(self)@ == old(self)@.update(0, Some(Kind::Keyboard)).update(1, Some(Kind::Console)).update(
                2,
                Some(Kind::DebugConsole),
            ),
    {
        self.slots.set(0, Some(Kind::Keyboard));
        self.slots.set(1, Some(Kind::Console));
        self.slots.set(2, Some(Kind::DebugConsole));
    }

    /// Puts `fdk` into the lowest free slot and returns that descriptor, or
    /// gives `fdk` back in `NotEnoughSlots` if every slot is in use.
    pub fn open(&mut self, fdk: Kind) -> (r: Result<usize, Error>)
        requires
            old(self).wf(),
        ensures
            final(self).wf(),
            ({
                let i = first_free(old(self)@, 0);
                if i < MAX {
                    r == Ok::<usize, Error>(i as usize) && final(self)@ == old(self)@.update(
                        i as int,
                        Some(fdk),
                    )
                } else {
                    r == Err::<usize, Error>(Error::NotEnoughSlots(fdk)) && final(self)@ == old(
                        self,
                    )@
                }
            }),
    {
        let ghost s = self.slots@;
        let mut i: usize = 0;
        while i < MAX
            invariant
                self.slots@ == s,
                s == old(self)@,
                s.len() == MAX,
                i <= MAX,
                first_free(s, 0) == first_free(s, i as nat),
            decreases MAX - i,
        {
            if self.slots[i].is_none() {
                self.slots.set(i, Some(fdk));
                return Ok(i);
            }
            i = i + 1;
        }
        Err(Error::NotEnoughSlots(fdk))
    }

    /// Closes descriptor `fd` and returns what it referred to. Fails with
    /// `UnknownFileDescriptor` for a number past the table and
    /// `StaleFileDescriptor` for a descriptor that is not open.
    pub fn close(&mut self, fd: usize) -> (r: Result<Kind, Error>)
        requires
            old(self).wf(),
        ensures
            final(self).wf(),
            fd >= MAX ==> r == Err::<Kind, Error>(Error::UnknownFileDescriptor) && final(self)@ == old(
                self,
            )@,
            fd < MAX ==> match old(self)@[fd as int] {
                Some(k) => r == Ok::<Kind, Error>(k) && final(self)@ == old(self)@.update(
                    fd as int,
                    None,
                ),
                None => r == Err::<Kind, Error>(Error::StaleFileDescriptor) && final(self)@ == old(
                    self,
                )@,
            },
    {
        if fd >= MAX {
            return Err(Error::UnknownFileDescriptor);
        }
        let mut slot = None;
        self.slots.set_and_swap(fd, &mut slot);
        match slot {
            Some(k) => Ok(k),
            None => Err(Error::StaleFileDescriptor),
        }
    }

    /// Takes every descriptor out of the table, leaving it empty.
    pub fn take_all(&mut self) -> (r: Vec<Option<Kind>>)
        requires
            old(self).wf(),
        ensures
            final(self).wf(),
            all_closed(final(self)@),
            r@ == old(self)@,
    {
        let mut fresh = Table::new();
        core::mem::swap(self, &mut fresh);
        fresh.slots
    }

    /// Whether no descriptor is open.
    pub fn is_empty(&self) -> (b: bool)
        requires
            self.wf(),
        ensures
            b == all_closed(self@),
    {
        let mut i: usize = 0;
        while i < MAX
            invariant
                self.wf(),
                i <= MAX,
                forall|j: int| 0 <= j < i ==> #[trigger] self@[j] is None,
            decreases MAX - i,
        {
            if self.slots[i].is_some() {
                return false;
            }
            i = i + 1;
        }
        true
    }

    /// The open files among descriptors taken from a table, in descriptor
    /// order: these are what the file system must close when a process
    /// ends. Other descriptors need no closing.
    pub fn close_all(fds: Vec<Option<Kind>>) -> (r: Vec<FileHandle>)
        ensures
            r@ == open_files(fds@),
    {
        let ghost s = fds@;
        let mut r: Vec<FileHandle> = Vec::new();
        let mut rest = fds;
        let mut taken: Vec<Option<Kind>> = Vec::new();
        // Walk the descriptors front to back.
        let mut i: usize = 0;
        let n = rest.len();
        while i < n
            invariant
                n == s.len(),
                i <= n,
                rest@ == s.skip(i as int),
                r@ == open_files(s.take(i as int)),
            decreases n - i,
        {
            proof {
                assert(s.take(i + 1).drop_last() =~= s.take(i as int));
                assert(s.take(i + 1).last() == s[i as int]);
            }
            let fd = rest.remove(0);
            proof {
                assert(rest@ =~= s.skip(i + 1));
            }
            if let Some(Kind::File(f)) = fd {
                r.push(f);
            }
            i = i + 1;
        }
        proof {
            assert(s.take(n as int) =~= s);
        }
        r
    }
}

} // verus!
