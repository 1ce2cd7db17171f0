//! Terminal escape sequence parser
//!
//! Turns the bytes a terminal sends into keys: carriage return is Enter,
//! DEL is Backspace, `ESC [ A` to `ESC [ D` are the arrow keys (numeric
//! parameters before the final byte are skipped), and an ESC not followed
//! by `[` is the Esc key. A byte that ends a sequence without belonging to
//! it is pushed back, to be read again as an ordinary byte.

use vstd::prelude::*;

verus! {

/// Escape character.
pub const ESC: u8 = 0x1B;

/// Carriage return, sent by the Enter key.
pub const CR: u8 = 0x0D;

/// Delete, sent by the Backspace key.
pub const DEL: u8 = 0x7F;

/// A special key.
#[derive(Clone, Copy, Debug, PartialEq, Eq, Structural)]
pub enum Key {
    Enter,
    Backspace,
    Esc,
    ArrowUp,
    ArrowDown,
    ArrowRight,
    ArrowLeft,
}

/// What one byte makes of the input so far.
#[derive(Clone, Copy, Debug, PartialEq, Eq, Structural)]
pub enum ParseResult {
    /// An ordinary byte.
    Byte(u8),
    /// A special key.
    Special(Key),
    /// A control sequence with a final byte that names no key.
    InvalidSequence,
    /// Inside an escape sequence: more bytes are needed.
    Pending,
}

/// Where the parser is within an escape sequence.
#[derive(Clone, Copy, Debug, PartialEq, Eq, Structural)]
pub enum ParserState {
    Ground,
    Escape,
    Csi,
}

/// The parser: its position within a sequence and a pushed-back byte.
#[derive(Clone, Copy, Debug, PartialEq, Eq, Structural)]
pub struct EscapeParser {
    pub state: ParserState,
    pub pushback: Option<u8>,
}

/// The key a control sequence with final byte `b` stands for.
pub open spec fn csi_key(b: u8) -> Option<Key> {
    if b == 0x41 {
        Some(Key::ArrowUp)
    } else if b == 0x42 {
        Some(Key::ArrowDown)
    } else if b == 0x43 {
        Some(Key::ArrowRight)
    } else if b == 0x44 {
        Some(Key::ArrowLeft)
    } else {
        None
    }
}

/// Whether `b` is a parameter byte of a control sequence: a digit or `;`.
pub open spec fn is_param(b: u8) -> bool {
    (0x30 <= b <= 0x39) || b == 0x3B
}

/// One step of the parser on byte `b`.
pub open spec fn step(p: EscapeParser, b: u8) -> (EscapeParser, ParseResult) {
    match p.state {
        ParserState::Ground => if b == ESC {
            (EscapeParser { state: ParserState::Escape, ..p }, ParseResult::Pending)
        } else if b == CR {
            (p, ParseResult::Special(Key::Enter))
        } else if b == DEL {
            (p, ParseResult::Special(Key::Backspace))
        } else {
            (p, ParseResult::Byte(b))
        },
        ParserState::Escape => if b == 0x5B {
            (EscapeParser { state: ParserState::Csi, ..p }, ParseResult::Pending)
        } else {
            (EscapeParser { state: ParserState::Ground, pushback: Some(b) }, ParseResult::Special(Key::Esc))
        },
        ParserState::Csi => match csi_key(b) {
            Some(k) => (EscapeParser { state: ParserState::Ground, ..p }, ParseResult::Special(k)),
            None => if is_param(b) {
                (p, ParseResult::Pending)
            } else {
                (EscapeParser { state: ParserState::Ground, pushback: Some(b) }, ParseResult::InvalidSequence)
            },
        },
    }
}

/// What the parser makes of a sequence cut short by a timeout: a lone ESC
/// is the Esc key; a partial control sequence is dropped.
pub open spec fn timeout_step(p: EscapeParser) -> (EscapeParser, Option<Key>) {
    match p.state {
        ParserState::Escape => (EscapeParser { state: ParserState::Ground, ..p }, Some(Key::Esc)),
        ParserState::Csi => (EscapeParser { state: ParserState::Ground, ..p }, None),
        ParserState::Ground => (p, None),
    }
}

impl EscapeParser {
    /// The parser outside any sequence, with nothing pushed back.
    pub open spec fn new_spec() -> EscapeParser {
        EscapeParser { state: ParserState::Ground, pushback: None }
    }

    /// A parser outside any sequence, with nothing pushed back.
    pub fn new() -> (r: Self)
        ensures
            r == EscapeParser::new_spec(),
    {
        EscapeParser { state: ParserState::Ground, pushback: None }
    }

    /// Feeds byte `b`.
    pub fn parse(&mut self, b: u8) -> (r: ParseResult)
        ensures
            (*final(self), r) == step(*old(self), b),
    {
        match self.state {
            ParserState::Ground => {
                if b == ESC {
                    self.state = ParserState::Escape;
                    ParseResult::Pending
                } else if b == CR {
                    ParseResult::Special(Key::Enter)
                } else if b == DEL {
                    ParseResult::Special(Key::Backspace)
                } else {
                    ParseResult::Byte(b)
                }
            },
            ParserState::Escape => {
                if b == 0x5B {
                    self.state = ParserState::Csi;
                    ParseResult::Pending
                } else {
                    self.state = ParserState::Ground;
                    self.pushback = Some(b);
                    ParseResult::Special(Key::Esc)
                }
            },
            ParserState::Csi => {
                let key = if b == 0x41 {
                    Some(Key::ArrowUp)
                } else if b == 0x42 {
                    Some(Key::ArrowDown)
                } else if b == 0x43 {
                    Some(Key::ArrowRight)
                } else if b == 0x44 {
                    Some(Key::ArrowLeft)
                } else {
                    None
                };
                match key {
                    Some(k) => {
                        self.state = ParserState::Ground;
                        ParseResult::Special(k)
                    },
                    None => {
                        if (0x30 <= b && b <= 0x39) || b == 0x3B {
                            ParseResult::Pending
                        } else {
                            self.state = ParserState::Ground;
                            self.pushback = Some(b);
                            ParseResult::InvalidSequence
                        }
                    },
                }
            },
        }
    }

    /// Ends a sequence that timed out: see `timeout_step`.
    pub fn timeout(&mut self) -> (r: Option<Key>)
        ensures
            (*final(self), r) == timeout_step(*old(self)),
    {
        match self.state {
            ParserState::Escape => {
                self.state = ParserState::Ground;
                Some(Key::Esc)
            },
            ParserState::Csi => {
                self.state = ParserState::Ground;
                None
            },
            ParserState::Ground => None,
        }
    }

    /// Takes the pushed-back byte, if any.
    pub fn pending_byte(&mut self) -> (r: Option<u8>)
        ensures
            r == old(self).pushback,
            *final(self) == (EscapeParser { pushback: None, ..*old(self) }),
    {
        let r = self.pushback;
        self.pushback = None;
        r
    }
}

} // verus!
