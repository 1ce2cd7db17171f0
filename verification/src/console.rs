//! Text console
//!
//! A classic 80 column by 30 row dumb terminal. The terminal emulator keeps
//! the text on screen and the cursor, and says what must be drawn as a list
//! of render commands, which the caller carries out on the framebuffer.
//! Printable characters are written at the cursor, which wraps at the end
//! of a row; line feed moves down (scrolling at the bottom row) without
//! returning to the first column; carriage return, backspace and form feed
//! do what a terminal does.

use vstd::prelude::*;

verus! {

/// Number of text rows.
pub const ROWS: usize = 30;

/// Number of text columns.
pub const COLUMNS: usize = 80;

/// Bell: ignored.
pub const BELL: u8 = 7;

/// Backspace: cursor one column left.
pub const BS: u8 = 8;

/// Horizontal tab: ignored.
pub const TAB: u8 = 9;

/// Line feed.
pub const LF: u8 = 10;

/// Form feed: clears the screen.
pub const FF: u8 = 12;

/// Carriage return.
pub const CR: u8 = 13;

/// Delete: handled as backspace.
pub const DEL: u8 = 127;

/// Something to draw.
#[derive(Clone, Copy, Debug, PartialEq, Eq, Structural)]
pub enum RenderCommand {
    /// Clear the whole screen.
    Clear,
    /// Scroll the screen up one text row.
    Scroll,
    /// Draw a character at a row and column.
    WriteChar(usize, usize, u8),
    /// Draw the character under the cursor at a row and column, in inverted
    /// colours when the flag is set.
    DrawCursor(usize, usize, u8, bool),
}

/// A row of spaces.
pub open spec fn blank_row() -> Seq<u8> {
    Seq::new(COLUMNS as nat, |i: int| 0x20u8)
}

/// A screen of spaces.
pub open spec fn blank_screen() -> Seq<Seq<u8>> {
    Seq::new(ROWS as nat, |i: int| blank_row())
}

/// The screen scrolled up one row, a blank row coming in at the bottom.
pub open spec fn scrolled(rows: Seq<Seq<u8>>) -> Seq<Seq<u8>> {
    rows.drop_first().push(blank_row())
}

/// Whether `ch` is drawn: a graphic ASCII character or space.
pub open spec fn printable(ch: u8) -> bool {
    0x20 <= ch <= 0x7E
}

/// The terminal state: rows of text, cursor column and row.
pub type Screen = (Seq<Seq<u8>>, usize, usize);

/// What the terminal does with byte `ch`: the new screen and what to
/// draw.
pub open spec fn emu_step(s: Screen, ch: u8) -> (Screen, Seq<RenderCommand>) {
    let (rows, cx, cy) = s;
    if ch == BS || ch == DEL {
        ((rows, if cx > 0 { (cx - 1) as usize } else { 0 }, cy), Seq::empty())
    } else if ch == CR {
        ((rows, 0, cy), Seq::empty())
    } else if ch == FF {
        ((blank_screen(), 0, 0), seq![RenderCommand::Clear])
    } else if ch == LF {
        if cy < ROWS - 1 {
            ((rows, cx, (cy + 1) as usize), Seq::empty())
        } else {
            ((scrolled(rows), 0, (ROWS - 1) as usize), seq![RenderCommand::Scroll])
        }
    } else if printable(ch) {
        let written = rows.update(cy as int, rows[cy as int].update(cx as int, ch));
        let w = RenderCommand::WriteChar(cy, cx, ch);
        if cx + 1 < COLUMNS {
            ((written, (cx + 1) as usize, cy), seq![w])
        } else if cy < ROWS - 1 {
            ((written, 0, (cy + 1) as usize), seq![w])
        } else {
            ((scrolled(written), 0, (ROWS - 1) as usize), seq![w, RenderCommand::Scroll])
        }
    } else {
        (s, Seq::empty())
    }
}

/// What the terminal does with the bytes `bytes`, one after another.
pub open spec fn emu_run(s: Screen, bytes: Seq<u8>) -> (Screen, Seq<RenderCommand>)
    decreases bytes.len(),
{
    if bytes.len() == 0 {
        (s, Seq::empty())
    } else {
        let (s1, c1) = emu_run(s, bytes.drop_last());
        let (s2, c2) = emu_step(s1, bytes.last());
        (s2, c1 + c2)
    }
}

/// A well-formed screen: `ROWS` rows of `COLUMNS` characters, the cursor
/// on screen.
pub open spec fn screen_wf(s: Screen) -> bool {
    &&& s.0.len() == ROWS
    &&& forall|r: int| 0 <= r < ROWS ==> (#[trigger] s.0[r]).len() == COLUMNS
    &&& s.1 < COLUMNS
    &&& s.2 < ROWS
}

/// The text screen with its cursor.
pub struct TextBuffer {
    cells: Vec<Vec<u8>>,
    cx: usize,
    cy: usize,
}

impl TextBuffer {
    pub closed spec fn screen(&self) -> Screen {
        (Seq::new(self.cells@.len(), |r: int| self.cells@[r]@), self.cx, self.cy)
    }

    fn blank_row_vec() -> (r: Vec<u8>)
        ensures
            r@ == blank_row(),
    {
        let mut row: Vec<u8> = Vec::new();
        let mut i: usize = 0;
        while i < COLUMNS
            invariant
                i <= COLUMNS,
                row@.len() == i,
                forall|j: int| 0 <= j < i ==> #[trigger] row@[j] == 0x20u8,
            decreases COLUMNS - i,
        {
            row.push(0x20);
            i = i + 1;
        }
        assert(row@ =~= blank_row());
        row
    }

    /// A blank screen with the cursor at the top left.
    pub fn new() -> (r: Self)
        ensures
            r.screen() == (blank_screen(), 0usize, 0usize),
            screen_wf(r.screen()),
    {
        let mut cells: Vec<Vec<u8>> = Vec::new();
        let mut i: usize = 0;
        while i < ROWS
            invariant
                i <= ROWS,
                cells@.len() == i,
                forall|j: int| 0 <= j < i ==> (#[trigger] cells@[j])@ == blank_row(),
            decreases ROWS - i,
        {
            cells.push(Self::blank_row_vec());
            i = i + 1;
        }
        let r = TextBuffer { cells, cx: 0, cy: 0 };
        assert(r.screen().0 =~= blank_screen());
        r
    }

    /// The character at `row`, `column`.
    pub fn char_at(&self, row: usize, column: usize) -> (r: u8)
        requires
            screen_wf(self.screen()),
            row < ROWS,
            column < COLUMNS,
        ensures
            r == self.screen().0[row as int][column as int],
    {
        assert(self.cells@[row as int]@ == self.screen().0[row as int]);
        self.cells[row][column]
    }

    /// Scrolls up one row; the cursor goes to the start of the bottom row.
    pub fn scroll(&mut self)
        requires
            screen_wf(old(self).screen()),
        ensures
            final(self).screen() == (scrolled(old(self).screen().0), 0usize, (ROWS - 1) as usize),
            screen_wf(final(self).screen()),
    {
        let _ = self.cells.remove(0);
        self.cells.push(Self::blank_row_vec());
        self.cx = 0;
        self.cy = ROWS - 1;
        assert(self.screen().0 =~= scrolled(old(self).screen().0));
    }

    /// Clears the screen; the cursor goes to the top left.
    pub fn clear(&mut self)
        ensures
            final(self).screen() == (blank_screen(), 0usize, 0usize),
            screen_wf(final(self).screen()),
    {
        *self = TextBuffer::new();
    }

    /// Moves the cursor down one row, keeping its column; at the bottom row
    /// the screen scrolls instead, which the result reports.
    pub fn line_feed(&mut self) -> (scrolled: bool)
        requires
            screen_wf(old(self).screen()),
        ensures
            screen_wf(final(self).screen()),
            scrolled == (old(self).screen().2 == ROWS - 1),
            (final(self).screen(), if scrolled { seq![RenderCommand::Scroll] } else { Seq::empty() })
                == emu_step(old(self).screen(), LF),
    {
        if self.cy < ROWS - 1 {
            self.cy = self.cy + 1;
            false
        } else {
            self.scroll();
            true
        }
    }

    /// Writes the printable character `ch` at the cursor and advances it,
    /// wrapping at the end of a row and scrolling past the bottom row.
    /// Returns the row and column written and whether the screen scrolled.
    pub fn writeable_char(&mut self, ch: u8) -> (r: (usize, usize, bool))
        requires
            screen_wf(old(self).screen()),
            printable(ch),
        ensures
            screen_wf(final(self).screen()),
            r.0 == old(self).screen().2,
            r.1 == old(self).screen().1,
            r.2 == (old(self).screen().1 == COLUMNS - 1 && old(self).screen().2 == ROWS - 1),
            (final(self).screen(), if r.2 {
                seq![RenderCommand::WriteChar(r.0, r.1, ch), RenderCommand::Scroll]
            } else {
                seq![RenderCommand::WriteChar(r.0, r.1, ch)]
            }) == emu_step(old(self).screen(), ch),
    {
        let ghost before = self.screen();
        let old_cx = self.cx;
        let old_cy = self.cy;
        let mut row: Vec<u8> = Vec::new();
        self.cells.set_and_swap(old_cy, &mut row);
        assert(row@ == before.0[old_cy as int]);
        row.set(old_cx, ch);
        self.cells.set_and_swap(old_cy, &mut row);
        assert(self.screen().0 =~= before.0.update(old_cy as int, before.0[old_cy as int].update(old_cx as int, ch)));
        let mut scrolled = false;
        if old_cx + 1 < COLUMNS {
            self.cx = old_cx + 1;
        } else if old_cy < ROWS - 1 {
            self.cx = 0;
            self.cy = old_cy + 1;
        } else {
            self.scroll();
            scrolled = true;
        }
        (old_cy, old_cx, scrolled)
    }

    /// Processes one byte: see `emu_step`.
    pub fn step(&mut self, ch: u8) -> (r: Vec<RenderCommand>)
        requires
            screen_wf(old(self).screen()),
        ensures
            screen_wf(final(self).screen()),
            (final(self).screen(), r@) == emu_step(old(self).screen(), ch),
    {
        let mut out: Vec<RenderCommand> = Vec::new();
        if ch == BS || ch == DEL {
            if self.cx > 0 {
                self.cx = self.cx - 1;
            }
        } else if ch == CR {
            self.cx = 0;
        } else if ch == FF {
            self.clear();
            out.push(RenderCommand::Clear);
        } else if ch == LF {
            if self.line_feed() {
                out.push(RenderCommand::Scroll);
            }
        } else if 0x20 <= ch && ch <= 0x7E {
            let (row, column, scrolled) = self.writeable_char(ch);
            out.push(RenderCommand::WriteChar(row, column, ch));
            if scrolled {
                out.push(RenderCommand::Scroll);
            }
        }
        proof {
            assert(out@ =~= emu_step(old(self).screen(), ch).1);
        }
        out
    }
}

/// The terminal emulator: the text screen and whether the cursor is shown.
pub struct TerminalEmulator {
    buffer: TextBuffer,
    cursor_visible: bool,
}

impl TerminalEmulator {
    pub closed spec fn screen(&self) -> Screen {
        self.buffer.screen()
    }

    pub closed spec fn cursor_visible(&self) -> bool {
        self.cursor_visible
    }

    pub open spec fn wf(&self) -> bool {
        screen_wf(self.screen())
    }

    /// A blank screen with the cursor shown at the top left.
    pub fn new() -> (r: Self)
        ensures
            r.wf(),
            r.screen() == (blank_screen(), 0usize, 0usize),
            r.cursor_visible(),
    {
        TerminalEmulator { buffer: TextBuffer::new(), cursor_visible: true }
    }

    /// The cursor position as row and column.
    pub fn cursor_pos(&self) -> (r: (usize, usize))
        ensures
            r == (self.screen().2, self.screen().1),
    {
        (self.buffer.cy, self.buffer.cx)
    }

    /// The character at `row`, `column`.
    pub fn char_at(&self, row: usize, column: usize) -> (r: u8)
        requires
            self.wf(),
            row < ROWS,
            column < COLUMNS,
        ensures
            r == self.screen().0[row as int][column as int],
    {
        self.buffer.char_at(row, column)
    }

    /// The character under the cursor.
    pub fn char_at_cursor(&self) -> (r: u8)
        requires
            self.wf(),
        ensures
            r == self.screen().0[self.screen().2 as int][self.screen().1 as int],
    {
        self.buffer.char_at(self.buffer.cy, self.buffer.cx)
    }

    /// Processes one byte: see `emu_step`.
    pub fn process(&mut self, ch: u8) -> (r: Vec<RenderCommand>)
        requires
            old(self).wf(),
        ensures
            final(self).wf(),
            (final(self).screen(), r@) == emu_step(old(self).screen(), ch),
            final(self).cursor_visible() == old(self).cursor_visible(),
    {
        self.buffer.step(ch)
    }

    /// Shows the cursor if hidden: the character under it is drawn
    /// inverted.
    pub fn show_cursor(&mut self) -> (r: Vec<RenderCommand>)
        requires
            old(self).wf(),
        ensures
            final(self).wf(),
            final(self).screen() == old(self).screen(),
            final(self).cursor_visible(),
            r@ == if old(self).cursor_visible() {
                Seq::<RenderCommand>::empty()
            } else {
                let (rows, cx, cy) = old(self).screen();
                seq![RenderCommand::DrawCursor(cy, cx, rows[cy as int][cx as int], true)]
            },
    {
        let mut out: Vec<RenderCommand> = Vec::new();
        if !self.cursor_visible {
            self.cursor_visible = true;
            let ch = self.char_at_cursor();
            out.push(RenderCommand::DrawCursor(self.buffer.cy, self.buffer.cx, ch, true));
        }
        proof {
            let s = old(self).screen();
            if old(self).cursor_visible() {
                assert(out@ =~= Seq::<RenderCommand>::empty());
            } else {
                assert(out@ =~= seq![RenderCommand::DrawCursor(s.2, s.1, s.0[s.2 as int][s.1 as int], true)]);
            }
        }
        out
    }

    /// Hides the cursor if shown: the character under it is drawn in
    /// normal colours.
    pub fn hide_cursor(&mut self) -> (r: Vec<RenderCommand>)
        requires
            old(self).wf(),
        ensures
            final(self).wf(),
            final(self).screen() == old(self).screen(),
            !final(self).cursor_visible(),
            r@ == if !old(self).cursor_visible() {
                Seq::<RenderCommand>::empty()
            } else {
                let (rows, cx, cy) = old(self).screen();
                seq![RenderCommand::DrawCursor(cy, cx, rows[cy as int][cx as int], false)]
            },
    {
        let mut out: Vec<RenderCommand> = Vec::new();
        if self.cursor_visible {
            self.cursor_visible = false;
            let ch = self.char_at_cursor();
            out.push(RenderCommand::DrawCursor(self.buffer.cy, self.buffer.cx, ch, false));
        }
        proof {
            let s = old(self).screen();
            if !old(self).cursor_visible() {
                assert(out@ =~= Seq::<RenderCommand>::empty());
            } else {
                assert(out@ =~= seq![RenderCommand::DrawCursor(s.2, s.1, s.0[s.2 as int][s.1 as int], false)]);
            }
        }
        out
    }

    /// Processes `bytes` one after another: see `emu_run`. Commands are
    /// appended to `out`.
    pub fn process_all(&mut self, bytes: &[u8], out: &mut Vec<RenderCommand>)
        requires
            old(self).wf(),
        ensures
            final(self).wf(),
            (final(self).screen(), final(out)@.skip(old(out)@.len() as int)) == emu_run(old(self).screen(), bytes@),
            final(out)@.take(old(out)@.len() as int) == old(out)@,
            final(out)@.len() >= old(out)@.len(),
            final(self).cursor_visible() == old(self).cursor_visible(),
    {
        let ghost start = out@;
        let mut i: usize = 0;
        while i < bytes.len()
            invariant
                self.wf(),
                i <= bytes@.len(),
                out@.take(start.len() as int) == start,
                out@.len() >= start.len(),
                (self.screen(), out@.skip(start.len() as int)) == emu_run(old(self).screen(), bytes@.take(i as int)),
                self.cursor_visible() == old(self).cursor_visible(),
            decreases bytes@.len() - i,
        {
            let ghost before = out@;
            let cmds = self.process(bytes[i]);
            let mut k: usize = 0;
            while k < cmds.len()
                invariant
                    k <= cmds@.len(),
                    out@ == before + cmds@.take(k as int),
                decreases cmds@.len() - k,
            {
                out.push(cmds[k]);
                k = k + 1;
                assert(out@ =~= before + cmds@.take(k as int));
            }
            proof {
                assert(cmds@.take(cmds@.len() as int) =~= cmds@);
                assert(bytes@.take(i + 1).drop_last() =~= bytes@.take(i as int));
                assert(bytes@.take(i + 1).last() == bytes@[i as int]);
                assert(out@.skip(start.len() as int) =~= before.skip(start.len() as int) + cmds@);
                assert(out@.take(start.len() as int) =~= start);
            }
            i = i + 1;
        }
        proof {
            assert(bytes@.take(bytes@.len() as int) =~= bytes@);
        }
    }
}


/// `n` copies of byte `b`.
pub open spec fn repeat(b: u8, n: nat) -> Seq<u8> {
    Seq::new(n, |i: int| b)
}

/// The bytes a line redraw sends: back over the old line to the prompt,
/// the new line, spaces over what is left of the old one, and back to the
/// cursor.
pub open spec fn redraw_bytes(prev_cursor: usize, prev_len: usize, line: Seq<u8>, cursor: usize) -> Seq<u8> {
    let spaces = if prev_len > line.len() { prev_len - line.len() } else { 0 };
    repeat(BS, prev_cursor as nat) + line + repeat(0x20, spaces as nat) + repeat(BS, (line.len() + spaces - cursor) as nat)
}

/// Text with each line feed preceded by a carriage return.
pub open spec fn crlf(s: Seq<u8>) -> Seq<u8>
    decreases s.len(),
{
    if s.len() == 0 {
        Seq::empty()
    } else if s.last() == LF {
        crlf(s.drop_last()) + seq![CR, LF]
    } else {
        crlf(s.drop_last()).push(s.last())
    }
}

/// What hiding a cursor draws on `screen`, shown or not.
pub open spec fn hide_cmds(screen: Screen, visible: bool) -> Seq<RenderCommand> {
    if visible {
        seq![RenderCommand::DrawCursor(screen.2, screen.1, screen.0[screen.2 as int][screen.1 as int], false)]
    } else {
        Seq::empty()
    }
}

/// What showing a hidden cursor draws on `screen`.
pub open spec fn show_cmds(screen: Screen) -> Seq<RenderCommand> {
    seq![RenderCommand::DrawCursor(screen.2, screen.1, screen.0[screen.2 as int][screen.1 as int], true)]
}

/// Colour of the console's text (red, green, blue bytes).
pub const GREEN: u32 = 0x00FF00;

/// Colour of the console's background.
pub const BLACK: u32 = 0x000000;

/// The foreground and background `cmd` is drawn in by a console drawing
/// `fg` on `bg`: a shown cursor swaps them.
pub open spec fn paint(cmd: RenderCommand, fg: u32, bg: u32) -> (u32, u32) {
    match cmd {
        RenderCommand::DrawCursor(_, _, _, inverted) => if inverted {
            (bg, fg)
        } else {
            (fg, bg)
        },
        _ => (fg, bg),
    }
}

/// The console: the terminal emulator, where the line being edited last
/// ended and had its cursor, and the colours text is drawn in.
pub struct Console {
    emulator: TerminalEmulator,
    prev_cursor: usize,
    prev_line_len: usize,
    fg: u32,
    bg: u32,
}

impl Console {
    pub closed spec fn screen(&self) -> Screen {
        self.emulator.screen()
    }

    pub closed spec fn cursor_visible(&self) -> bool {
        self.emulator.cursor_visible()
    }

    pub closed spec fn prev_cursor(&self) -> usize {
        self.prev_cursor
    }

    pub closed spec fn prev_line_len(&self) -> usize {
        self.prev_line_len
    }

    /// The colour characters are drawn in.
    pub closed spec fn fg(&self) -> u32 {
        self.fg
    }

    /// The colour behind characters, and of a cleared or scrolled-in area.
    pub closed spec fn bg(&self) -> u32 {
        self.bg
    }

    pub closed spec fn wf(&self) -> bool {
        self.emulator.wf()
    }

    /// A blank console with the cursor shown at the top left, drawing
    /// green on black.
    pub fn new() -> (r: Self)
        ensures
            r.wf(),
            r.fg() == GREEN,
            r.bg() == BLACK,
            r.screen() == (blank_screen(), 0usize, 0usize),
            r.cursor_visible(),
            r.prev_cursor() == 0,
            r.prev_line_len() == 0,
    {
        Console { emulator: TerminalEmulator::new(), prev_cursor: 0, prev_line_len: 0, fg: GREEN, bg: BLACK }
    }

    /// The foreground and background colours a render command is drawn in:
    /// the cursor, when shown, in inverted colours; anything else in the
    /// console's own.
    pub fn colours_for(&self, cmd: &RenderCommand) -> (r: (u32, u32))
        ensures
            r == paint(*cmd, self.fg(), self.bg()),
    {
        match cmd {
            RenderCommand::DrawCursor(_, _, _, true) => (self.bg, self.fg),
            _ => (self.fg, self.bg),
        }
    }

    /// The cursor position as row and column.
    pub fn cursor_pos(&self) -> (r: (usize, usize))
        ensures
            r == (self.screen().2, self.screen().1),
    {
        self.emulator.cursor_pos()
    }

    /// The character at `row`, `column`; a position off the screen reads
    /// as nothing.
    pub fn char_at(&self, row: usize, column: usize) -> (r: Option<u8>)
        requires
            self.wf(),
        ensures
            r == if row < ROWS && column < COLUMNS { Some(self.screen().0[row as int][column as int]) } else { None },
    {
        if row < ROWS && column < COLUMNS {
            Some(self.emulator.char_at(row, column))
        } else {
            None
        }
    }

    /// Writes one byte to the terminal; the cursor is left as it is.
    pub fn process_char(&mut self, ch: u8) -> (r: Vec<RenderCommand>)
        requires
            old(self).wf(),
        ensures
            final(self).wf(),
            final(self).fg() == old(self).fg(),
            final(self).bg() == old(self).bg(),
            (final(self).screen(), r@) == emu_step(old(self).screen(), ch),
            final(self).cursor_visible() == old(self).cursor_visible(),
            final(self).prev_cursor() == old(self).prev_cursor(),
            final(self).prev_line_len() == old(self).prev_line_len(),
    {
        self.emulator.process(ch)
    }

    /// Hides the cursor: see `TerminalEmulator::hide_cursor`.
    pub fn hide_cursor(&mut self) -> (r: Vec<RenderCommand>)
        requires
            old(self).wf(),
        ensures
            final(self).wf(),
            final(self).fg() == old(self).fg(),
            final(self).bg() == old(self).bg(),
            final(self).screen() == old(self).screen(),
            !final(self).cursor_visible(),
            r@ == hide_cmds(old(self).screen(), old(self).cursor_visible()),
            final(self).prev_cursor() == old(self).prev_cursor(),
            final(self).prev_line_len() == old(self).prev_line_len(),
    {
        self.emulator.hide_cursor()
    }

    /// Shows the cursor: see `TerminalEmulator::show_cursor`.
    pub fn show_cursor(&mut self) -> (r: Vec<RenderCommand>)
        requires
            old(self).wf(),
        ensures
            final(self).wf(),
            final(self).fg() == old(self).fg(),
            final(self).bg() == old(self).bg(),
            final(self).screen() == old(self).screen(),
            final(self).cursor_visible(),
            r@ == if old(self).cursor_visible() { Seq::<RenderCommand>::empty() } else { show_cmds(old(self).screen()) },
            final(self).prev_cursor() == old(self).prev_cursor(),
            final(self).prev_line_len() == old(self).prev_line_len(),
    {
        self.emulator.show_cursor()
    }

    /// Hides the cursor, writes `bytes`, and shows the cursor again.
    fn write_bytes(&mut self, bytes: &[u8]) -> (r: Vec<RenderCommand>)
        requires
            old(self).wf(),
        ensures
            final(self).wf(),
            final(self).fg() == old(self).fg(),
            final(self).bg() == old(self).bg(),
            final(self).cursor_visible(),
            ({
                let (s1, c1) = emu_run(old(self).screen(), bytes@);
                &&& final(self).screen() == s1
                &&& r@ == hide_cmds(old(self).screen(), old(self).cursor_visible()) + c1 + show_cmds(s1)
            }),
            final(self).prev_cursor() == old(self).prev_cursor(),
            final(self).prev_line_len() == old(self).prev_line_len(),
    {
        let mut out = self.emulator.hide_cursor();
        let ghost h = out@;
        self.emulator.process_all(bytes, &mut out);
        let ghost mid = out@;
        let shown = self.emulator.show_cursor();
        let mut k: usize = 0;
        while k < shown.len()
            invariant
                k <= shown@.len(),
                out@ == mid + shown@.take(k as int),
            decreases shown@.len() - k,
        {
            out.push(shown[k]);
            k = k + 1;
            assert(out@ =~= mid + shown@.take(k as int));
        }
        proof {
            assert(shown@.take(shown@.len() as int) =~= shown@);
            assert(mid =~= mid.take(h.len() as int) + mid.skip(h.len() as int));
        }
        out
    }

    /// Writes one byte with the cursor hidden meanwhile. (The byte is also
    /// echoed to the serial port by the caller.)
    pub fn put_char(&mut self, ch: u8) -> (r: Vec<RenderCommand>)
        requires
            old(self).wf(),
        ensures
            final(self).wf(),
            final(self).fg() == old(self).fg(),
            final(self).bg() == old(self).bg(),
            final(self).cursor_visible(),
            ({
                let (s1, c1) = emu_run(old(self).screen(), seq![ch]);
                &&& final(self).screen() == s1
                &&& r@ == hide_cmds(old(self).screen(), old(self).cursor_visible()) + c1 + show_cmds(s1)
            }),
    {
        let bytes = [ch];
        assert(bytes@ =~= seq![ch]);
        self.write_bytes(&bytes)
    }

    /// Redraws the line being edited as `line` with the cursor at
    /// `cursor`: see `redraw_bytes`. The cursor is hidden meanwhile.
    pub fn redraw_line(&mut self, line: &[u8], cursor: usize) -> (r: Vec<RenderCommand>)
        requires
            old(self).wf(),
            cursor <= line@.len(),
            line@.len() + old(self).prev_line_len() <= usize::MAX,
            old(self).prev_cursor() + line@.len() + old(self).prev_line_len() + line@.len() <= usize::MAX,
        ensures
            final(self).wf(),
            final(self).fg() == old(self).fg(),
            final(self).bg() == old(self).bg(),
            final(self).cursor_visible(),
            ({
                let bytes = redraw_bytes(old(self).prev_cursor(), old(self).prev_line_len(), line@, cursor);
                let (s1, c1) = emu_run(old(self).screen(), bytes);
                &&& final(self).screen() == s1
                &&& r@ == hide_cmds(old(self).screen(), old(self).cursor_visible()) + c1 + show_cmds(s1)
            }),
            final(self).prev_cursor() == cursor,
            final(self).prev_line_len() == line@.len(),
    {
        let new_len = line.len();
        let spaces = self.prev_line_len.saturating_sub(new_len);
        let mut bytes: Vec<u8> = Vec::new();
        let mut i: usize = 0;
        while i < self.prev_cursor
            invariant
                i <= self.prev_cursor,
                bytes@ == repeat(BS, i as nat),
            decreases self.prev_cursor - i,
        {
            bytes.push(BS);
            i = i + 1;
            assert(bytes@ =~= repeat(BS, i as nat));
        }
        let ghost part1 = bytes@;
        let mut j: usize = 0;
        while j < new_len
            invariant
                j <= new_len,
                new_len == line@.len(),
                bytes@ == part1 + line@.take(j as int),
            decreases new_len - j,
        {
            bytes.push(line[j]);
            j = j + 1;
            assert(bytes@ =~= part1 + line@.take(j as int));
        }
        assert(line@.take(new_len as int) =~= line@);
        let ghost part2 = bytes@;
        let mut k: usize = 0;
        while k < spaces
            invariant
                k <= spaces,
                bytes@ == part2 + repeat(0x20, k as nat),
            decreases spaces - k,
        {
            bytes.push(0x20);
            k = k + 1;
            assert(bytes@ =~= part2 + repeat(0x20, k as nat));
        }
        let ghost part3 = bytes@;
        let back = new_len + spaces - cursor;
        let mut m: usize = 0;
        while m < back
            invariant
                m <= back,
                bytes@ == part3 + repeat(BS, m as nat),
            decreases back - m,
        {
            bytes.push(BS);
            m = m + 1;
            assert(bytes@ =~= part3 + repeat(BS, m as nat));
        }
        assert(bytes@ =~= redraw_bytes(self.prev_cursor, self.prev_line_len, line@, cursor));
        let r = self.write_bytes(bytes.as_slice());
        self.prev_line_len = new_len;
        self.prev_cursor = cursor;
        r
    }

    /// Forgets the line being edited, once it has been entered.
    pub fn reset_line(&mut self)
        ensures
            final(self).prev_cursor() == 0,
            final(self).prev_line_len() == 0,
            final(self).screen() == old(self).screen(),
            final(self).cursor_visible() == old(self).cursor_visible(),
            final(self).wf() == old(self).wf(),
            final(self).fg() == old(self).fg(),
            final(self).bg() == old(self).bg(),
    {
        self.prev_cursor = 0;
        self.prev_line_len = 0;
    }

    /// Writes text, each line feed preceded by a carriage return, with the
    /// cursor hidden meanwhile. (The same bytes go to the serial port.)
    pub fn write_str(&mut self, s: &[u8]) -> (r: Vec<RenderCommand>)
        requires
            old(self).wf(),
        ensures
            final(self).wf(),
            final(self).fg() == old(self).fg(),
            final(self).bg() == old(self).bg(),
            final(self).cursor_visible(),
            ({
                let (s1, c1) = emu_run(old(self).screen(), crlf(s@));
                &&& final(self).screen() == s1
                &&& r@ == hide_cmds(old(self).screen(), old(self).cursor_visible()) + c1 + show_cmds(s1)
            }),
    {
        let bytes = to_crlf(s);
        self.write_bytes(bytes.as_slice())
    }
}

/// The text `s` with each line feed preceded by a carriage return.
pub fn to_crlf(s: &[u8]) -> (r: Vec<u8>)
    ensures
        r@ == crlf(s@),
{
    let mut out: Vec<u8> = Vec::new();
    let mut i: usize = 0;
    while i < s.len()
        invariant
            i <= s@.len(),
            out@ == crlf(s@.take(i as int)),
        decreases s@.len() - i,
    {
        let b = s[i];
        let ghost before = out@;
        if b == LF {
            out.push(CR);
        }
        out.push(b);
        proof {
            assert(s@.take(i + 1).drop_last() =~= s@.take(i as int));
            if b == LF {
                assert(out@ =~= before + seq![CR, LF]);
            } else {
                assert(out@ =~= before.push(b));
            }
        }
        i = i + 1;
    }
    assert(s@.take(s@.len() as int) =~= s@);
    out
}

/// Backspace and delete both move the cursor one column left, stopping
/// at the first column, on the same row; they change no character and
/// draw nothing.
pub proof fn law_backspace_and_delete_move_left(s: Screen)
    requires
        screen_wf(s),
    ensures
        emu_step(s, DEL) == emu_step(s, BS),
        emu_step(s, BS).0.0 == s.0,
        emu_step(s, BS).0.1 == if s.1 > 0 { s.1 - 1 } else { 0 },
        emu_step(s, BS).0.2 == s.2,
        emu_step(s, BS).1.len() == 0,
        emu_step(s, DEL).0.0 == s.0,
        emu_step(s, DEL).0.1 == if s.1 > 0 { s.1 - 1 } else { 0 },
        emu_step(s, DEL).0.2 == s.2,
        emu_step(s, DEL).1.len() == 0,
{
}

/// A carriage return moves the cursor to the first column of its row; it
/// changes no character and draws nothing.
pub proof fn law_carriage_return_goes_to_column_zero(s: Screen)
    requires
        screen_wf(s),
    ensures
        emu_step(s, CR).0.0 == s.0,
        emu_step(s, CR).0.1 == 0,
        emu_step(s, CR).0.2 == s.2,
        emu_step(s, CR).1.len() == 0,
{
}

/// A form feed blanks every cell, puts the cursor at the top left and asks
/// for the screen to be cleared.
pub proof fn law_form_feed_clears(s: Screen)
    requires
        screen_wf(s),
    ensures
        ({
            let (t, cmds) = emu_step(s, FF);
            &&& t.0.len() == ROWS
            &&& forall|r: int, c: int| 0 <= r < ROWS && 0 <= c < COLUMNS ==> (#[trigger] t.0[r][c]) == 0x20
            &&& forall|r: int| 0 <= r < ROWS ==> (#[trigger] t.0[r]).len() == COLUMNS
            &&& t.1 == 0 && t.2 == 0
            &&& cmds == seq![RenderCommand::Clear]
        }),
{
}

/// A line feed moves the cursor down one row in the same column, drawing
/// nothing; on the last row the screen scrolls instead: every row moves up
/// one, the last row comes in blank, the cursor goes to the start of the
/// last row, and a scroll is drawn.
pub proof fn law_line_feed_moves_down_or_scrolls(s: Screen)
    requires
        screen_wf(s),
    ensures
        ({
            let (t, cmds) = emu_step(s, LF);
            if s.2 + 1 < ROWS {
                &&& t.0 == s.0
                &&& t.1 == s.1
                &&& t.2 == s.2 + 1
                &&& cmds.len() == 0
            } else {
                &&& t.0.len() == ROWS
                &&& forall|r: int| 0 <= r < ROWS - 1 ==> #[trigger] t.0[r] == s.0[r + 1]
                &&& forall|c: int| 0 <= c < COLUMNS ==> #[trigger] t.0[ROWS - 1][c] == 0x20
                &&& t.0[ROWS - 1].len() == COLUMNS
                &&& t.1 == 0
                &&& t.2 == ROWS - 1
                &&& cmds == seq![RenderCommand::Scroll]
            }
        }),
{
}

/// A printable character is written at the cursor and drawn there; no other
/// character changes. The cursor moves one column right, or, past the last
/// column, to the start of the next row; past the last row the screen
/// scrolls up one row (the written row moving up with it), the last row
/// comes in blank, and a scroll is drawn after the character.
pub proof fn law_printable_writes_at_cursor(s: Screen, ch: u8)
    requires
        screen_wf(s),
        0x20 <= ch <= 0x7E,
    ensures
        ({
            let (t, cmds) = emu_step(s, ch);
            let (rows, cx, cy) = s;
            &&& cmds[0] == RenderCommand::WriteChar(cy, cx, ch)
            &&& t.0.len() == ROWS
            &&& if cx + 1 < COLUMNS {
                &&& t.1 == cx + 1 && t.2 == cy
                &&& cmds.len() == 1
                &&& t.0[cy as int][cx as int] == ch
                &&& forall|r: int, c: int| 0 <= r < ROWS && 0 <= c < COLUMNS && (r != cy || c != cx)
                    ==> #[trigger] t.0[r][c] == rows[r][c]
            } else if cy + 1 < ROWS {
                &&& t.1 == 0 && t.2 == cy + 1
                &&& cmds.len() == 1
                &&& t.0[cy as int][cx as int] == ch
                &&& forall|r: int, c: int| 0 <= r < ROWS && 0 <= c < COLUMNS && (r != cy || c != cx)
                    ==> #[trigger] t.0[r][c] == rows[r][c]
            } else {
                &&& t.1 == 0 && t.2 == ROWS - 1
                &&& cmds == seq![RenderCommand::WriteChar(cy, cx, ch), RenderCommand::Scroll]
                &&& t.0[ROWS - 2][COLUMNS - 1] == ch
                &&& forall|r: int, c: int| 0 <= r < ROWS - 1 && 0 <= c < COLUMNS && (r != ROWS - 2 || c != COLUMNS - 1)
                    ==> #[trigger] t.0[r][c] == rows[r + 1][c]
                &&& forall|c: int| 0 <= c < COLUMNS ==> #[trigger] t.0[ROWS - 1][c] == 0x20
            }
        }),
{
    let (rows, cx, cy) = s;
    let written = rows.update(cy as int, rows[cy as int].update(cx as int, ch));
    assert(written[cy as int][cx as int] == ch);
}

/// Any other byte (a bell, a tab, or any other control or non-ASCII byte)
/// changes nothing and draws nothing.
pub proof fn law_other_bytes_change_nothing(s: Screen, ch: u8)
    requires
        screen_wf(s),
        !(0x20 <= ch <= 0x7E),
        ch != BS && ch != DEL && ch != CR && ch != FF && ch != LF,
    ensures
        emu_step(s, ch) == (s, Seq::<RenderCommand>::empty()),
{
}

/// Showing the cursor redraws the character under it, at its row and
/// column, in inverted colours; hiding a shown cursor redraws that same
/// character in normal colours, and hiding a hidden one draws nothing.
pub proof fn law_cursor_draws_the_character_under_it(s: Screen, visible: bool)
    requires
        screen_wf(s),
    ensures
        show_cmds(s).len() == 1,
        show_cmds(s)[0] == RenderCommand::DrawCursor(s.2, s.1, s.0[s.2 as int][s.1 as int], true),
        visible ==> hide_cmds(s, visible).len() == 1
            && hide_cmds(s, visible)[0] == RenderCommand::DrawCursor(s.2, s.1, s.0[s.2 as int][s.1 as int], false),
        !visible ==> hide_cmds(s, visible).len() == 0,
{
}

} // verus!
