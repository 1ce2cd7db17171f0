//! Line editor for the shell
//!
//! Holds the line being typed and a cursor into it, and a history of the
//! last `HISTORY_SIZE` entered lines that the arrow keys browse, newest
//! first. Browsing away from the line being typed keeps it, and coming
//! back down past the newest entry restores it.

use vstd::prelude::*;
use crate::keyboard::KeyEvent;
use crate::vt_parse::Key;

verus! {

/// Longest line: 80 columns less a 6 character prompt.
pub const LINE_LEN: usize = 74;

/// Number of entered lines kept.
pub const HISTORY_SIZE: usize = 10;

/// Horizontal tab, which the editor does not accept.
pub const TAB: u8 = 9;

/// What a key event did; the caller reads `line()` and `cursor()` for the
/// new state.
#[derive(Clone, Copy, Debug, PartialEq, Eq, Structural)]
pub enum EditResult {
    /// A byte was added at the end of the line.
    Append,
    /// Enter was pressed.
    Complete,
    /// The cursor moved.
    CursorMove,
    /// The line changed and must be redrawn.
    LineEdit,
    /// The key had no effect here.
    Reject,
}

/// The `i`th newest entry of history `h`.
pub open spec fn newest(h: Seq<Seq<u8>>, i: int) -> Seq<u8> {
    h[h.len() - 1 - i]
}

/// History `h` after entering `line`: the oldest entry is dropped when
/// the history is full.
pub open spec fn pushed(h: Seq<Seq<u8>>, line: Seq<u8>) -> Seq<Seq<u8>> {
    if h.len() < HISTORY_SIZE {
        h.push(line)
    } else {
        h.drop_first().push(line)
    }
}

/// The line editor.
pub struct LineEditor {
    line: Vec<u8>,
    saved_line: Vec<u8>,
    cursor: usize,
    history_index: Option<usize>,
    history: Vec<Vec<u8>>,
}

impl LineEditor {
    /// The line being edited.
    pub closed spec fn spec_line(&self) -> Seq<u8> {
        self.line@
    }

    /// The line kept while browsing the history.
    pub closed spec fn spec_saved(&self) -> Seq<u8> {
        self.saved_line@
    }

    /// The cursor: an offset into the line.
    pub closed spec fn spec_cursor(&self) -> usize {
        self.cursor
    }

    /// Which history entry is shown, counting from the newest, if any.
    pub closed spec fn spec_history_index(&self) -> Option<usize> {
        self.history_index
    }

    /// The entered lines, oldest first.
    pub closed spec fn spec_history(&self) -> Seq<Seq<u8>> {
        Seq::new(self.history@.len(), |i: int| self.history@[i]@)
    }

    /// Lines fit, the cursor lies within the line, the history holds at
    /// most `HISTORY_SIZE` lines, and a shown entry exists.
    pub closed spec fn wf(&self) -> bool {
        &&& self.line@.len() <= LINE_LEN
        &&& self.saved_line@.len() <= LINE_LEN
        &&& self.cursor <= self.line@.len()
        &&& self.history@.len() <= HISTORY_SIZE
        &&& forall|i: int| 0 <= i < self.history@.len() ==> (#[trigger] self.history@[i])@.len() <= LINE_LEN
        &&& (self.history_index matches Some(i) ==> i < self.history@.len())
    }

    /// A well-formed editor keeps its cursor within its line, its line
    /// within `LINE_LEN` bytes, and at most `HISTORY_SIZE` lines of history,
    /// each within `LINE_LEN` bytes.
    pub proof fn lemma_bounds(&self)
        requires
            self.wf(),
        ensures
            self.spec_cursor() <= self.spec_line().len() <= LINE_LEN,
            self.spec_saved().len() <= LINE_LEN,
            self.spec_history().len() <= HISTORY_SIZE,
            forall|i: int| 0 <= i < self.spec_history().len() ==> (#[trigger] self.spec_history()[i]).len() <= LINE_LEN,
            self.spec_history_index() matches Some(i) ==> i < self.spec_history().len(),
    {
    }

    /// An empty line and no history.
    pub fn new() -> (r: Self)
        ensures
            r.wf(),
            r.spec_line() == Seq::<u8>::empty(),
            r.spec_saved() == Seq::<u8>::empty(),
            r.spec_cursor() == 0,
            r.spec_history_index() is None,
            r.spec_history() == Seq::<Seq<u8>>::empty(),
    {
        let r = LineEditor { line: Vec::new(), saved_line: Vec::new(), cursor: 0, history_index: None, history: Vec::new() };
        assert(r.spec_history() =~= Seq::<Seq<u8>>::empty());
        r
    }

    /// The line being edited.
    pub fn line(&self) -> (r: &[u8])
        ensures
            r@ == self.spec_line(),
    {
        self.line.as_slice()
    }

    /// The cursor position.
    pub fn cursor(&self) -> (r: usize)
        ensures
            r == self.spec_cursor(),
    {
        self.cursor
    }

    /// Clears the line and puts the cursor at its start, after a command
    /// has been run.
    pub fn reset(&mut self)
        requires
            old(self).wf(),
        ensures
            final(self).wf(),
            final(self).spec_line() == Seq::<u8>::empty(),
            final(self).spec_cursor() == 0,
            final(self).spec_saved() == old(self).spec_saved(),
            final(self).spec_history_index() == old(self).spec_history_index(),
            final(self).spec_history() == old(self).spec_history(),
    {
        self.line.clear();
        self.cursor = 0;
    }

    fn entry(&self, i: usize) -> (r: Vec<u8>)
        requires
            self.wf(),
            i < self.history@.len(),
        ensures
            r@ == newest(self.spec_history(), i as int),
            r@.len() <= LINE_LEN,
    {
        let e = self.history[self.history.len() - 1 - i].clone();
        assert(e@ =~= self.history@[self.history@.len() - 1 - i]@);
        e
    }

    /// Applies a key event. Typed bytes (not tab) go in at the cursor while
    /// the line has room; Enter adds the line to the history and ends the
    /// edit, leaving the line until `reset`; Backspace deletes before the
    /// cursor; Esc clears the line and stops browsing; the up and down
    /// arrows browse the history, newest first, each shown line with the
    /// cursor at its end, down past the newest giving back the line that
    /// was being typed; left and right move the cursor within the line.
    pub fn process(&mut self, event: KeyEvent) -> (r: EditResult)
        requires
            old(self).wf(),
        ensures
            final(self).wf(),
            final(self).spec_cursor() <= final(self).spec_line().len() <= LINE_LEN,
            ({
                let line = old(self).spec_line();
                let c = old(self).spec_cursor();
                let h = old(self).spec_history();
                let hi = old(self).spec_history_index();
                let unchanged = final(self).spec_line() == line && final(self).spec_cursor() == c
                    && final(self).spec_saved() == old(self).spec_saved() && final(self).spec_history_index() == hi
                    && final(self).spec_history() == h;
                let same_history = final(self).spec_history() == h;
                match event {
                    KeyEvent::Byte(b) => if b == TAB || line.len() == LINE_LEN {
                        r == EditResult::Reject && unchanged
                    } else {
                        &&& r == (if c == line.len() { EditResult::Append } else { EditResult::LineEdit })
                        &&& final(self).spec_line() == line.insert(c as int, b)
                        &&& final(self).spec_cursor() == c + 1
                        &&& final(self).spec_saved() == old(self).spec_saved()
                        &&& final(self).spec_history_index() == hi
                        &&& same_history
                    },
                    KeyEvent::Special(Key::Enter) => {
                        &&& r == EditResult::Complete
                        &&& final(self).spec_history() == pushed(h, line)
                        &&& final(self).spec_line() == line
                        &&& final(self).spec_cursor() == 0
                        &&& final(self).spec_history_index() is None
                        &&& final(self).spec_saved() == Seq::<u8>::empty()
                    },
                    KeyEvent::Special(Key::Backspace) => if c > 0 {
                        &&& r == EditResult::LineEdit
                        &&& final(self).spec_line() == line.remove(c - 1)
                        &&& final(self).spec_cursor() == c - 1
                        &&& final(self).spec_saved() == old(self).spec_saved()
                        &&& final(self).spec_history_index() == hi
                        &&& same_history
                    } else {
                        r == EditResult::Reject && unchanged
                    },
                    KeyEvent::Special(Key::Esc) => {
                        &&& r == EditResult::LineEdit
                        &&& final(self).spec_line() == Seq::<u8>::empty()
                        &&& final(self).spec_cursor() == 0
                        &&& final(self).spec_history_index() is None
                        &&& final(self).spec_saved() == old(self).spec_saved()
                        &&& same_history
                    },
                    KeyEvent::Special(Key::ArrowUp) => if h.len() == 0 || hi == Some((h.len() - 1) as usize) {
                        r == EditResult::Reject && unchanged
                    } else {
                        let idx = match hi {
                            Some(i) => i + 1,
                            None => 0,
                        };
                        &&& r == EditResult::LineEdit
                        &&& final(self).spec_history_index() == Some(idx as usize)
                        &&& final(self).spec_line() == newest(h, idx)
                        &&& final(self).spec_cursor() == newest(h, idx).len()
                        &&& final(self).spec_saved() == (if hi is None { line } else { old(self).spec_saved() })
                        &&& same_history
                    },
                    KeyEvent::Special(Key::ArrowDown) => match hi {
                        None => r == EditResult::Reject && unchanged,
                        Some(i) => {
                            &&& r == EditResult::LineEdit
                            &&& final(self).spec_history_index() == (if i == 0 { None } else { Some((i - 1) as usize) })
                            &&& final(self).spec_line() == (if i == 0 { old(self).spec_saved() } else { newest(h, i - 1) })
                            &&& final(self).spec_cursor() == final(self).spec_line().len()
                            &&& final(self).spec_saved() == old(self).spec_saved()
                            &&& same_history
                        },
                    },
                    KeyEvent::Special(Key::ArrowRight) => if c < line.len() {
                        &&& r == EditResult::CursorMove
                        &&& final(self).spec_cursor() == c + 1
                        &&& final(self).spec_line() == line
                        &&& final(self).spec_saved() == old(self).spec_saved()
                        &&& final(self).spec_history_index() == hi
                        &&& same_history
                    } else {
                        r == EditResult::Reject && unchanged
                    },
                    KeyEvent::Special(Key::ArrowLeft) => if c > 0 {
                        &&& r == EditResult::CursorMove
                        &&& final(self).spec_cursor() == c - 1
                        &&& final(self).spec_line() == line
                        &&& final(self).spec_saved() == old(self).spec_saved()
                        &&& final(self).spec_history_index() == hi
                        &&& same_history
                    } else {
                        r == EditResult::Reject && unchanged
                    },
                }
            }),
    {
        let ghost h0 = self.spec_history();
        match event {
            KeyEvent::Byte(b) => {
                if b == TAB || self.line.len() == LINE_LEN {
                    return EditResult::Reject;
                }
                if self.cursor == self.line.len() {
                    self.line.push(b);
                    self.cursor = self.cursor + 1;
                    proof {
                        assert(self.line@ =~= old(self).line@.insert(old(self).cursor as int, b));
                    }
                    EditResult::Append
                } else {
                    self.line.insert(self.cursor, b);
                    self.cursor = self.cursor + 1;
                    EditResult::LineEdit
                }
            },
            KeyEvent::Special(key) => match key {
                Key::Enter => {
                    let entry = self.line.clone();
                    assert(entry@ =~= self.line@);
                    if self.history.len() == HISTORY_SIZE {
                        let _ = self.history.remove(0);
                    }
                    self.history.push(entry);
                    self.cursor = 0;
                    self.history_index = None;
                    self.saved_line.clear();
                    proof {
                        assert(self.spec_history() =~= pushed(h0, old(self).line@));
                    }
                    EditResult::Complete
                },
                Key::Backspace => {
                    if self.cursor > 0 {
                        let _ = self.line.remove(self.cursor - 1);
                        self.cursor = self.cursor - 1;
                        EditResult::LineEdit
                    } else {
                        EditResult::Reject
                    }
                },
                Key::Esc => {
                    self.line.clear();
                    self.cursor = 0;
                    self.history_index = None;
                    EditResult::LineEdit
                },
                Key::ArrowUp => {
                    let len = self.history.len();
                    if len == 0 {
                        return EditResult::Reject;
                    }
                    match self.history_index {
                        Some(i) => {
                            if i == len - 1 {
                                return EditResult::Reject;
                            }
                        },
                        None => {},
                    }
                    if self.history_index.is_none() {
                        self.saved_line = self.line.clone();
                        assert(self.saved_line@ =~= old(self).line@);
                    }
                    let index = match self.history_index {
                        Some(i) => i + 1,
                        None => 0,
                    };
                    self.history_index = Some(index);
                    self.line = self.entry(index);
                    self.cursor = self.line.len();
                    EditResult::LineEdit
                },
                Key::ArrowDown => {
                    let index = match self.history_index {
                        Some(i) => i,
                        None => {
                            return EditResult::Reject;
                        },
                    };
                    if self.history.len() == 0 {
                        return EditResult::Reject;
                    }
                    if index == 0 {
                        self.history_index = None;
                        self.line = self.saved_line.clone();
                        assert(self.line@ =~= self.saved_line@);
                    } else {
                        self.line = self.entry(index - 1);
                        self.history_index = Some(index - 1);
                    }
                    self.cursor = self.line.len();
                    EditResult::LineEdit
                },
                Key::ArrowRight => {
                    if self.cursor < self.line.len() {
                        self.cursor = self.cursor + 1;
                        EditResult::CursorMove
                    } else {
                        EditResult::Reject
                    }
                },
                Key::ArrowLeft => {
                    if self.cursor > 0 {
                        self.cursor = self.cursor - 1;
                        EditResult::CursorMove
                    } else {
                        EditResult::Reject
                    }
                },
            },
        }
    }
}

} // verus!
