//! Keyboard events
//!
//! The keyboard turns the bytes read from the terminal into key events.
//! A poll first returns a byte pushed back by the last sequence; otherwise
//! it reads bytes until they make an event. Bytes that arrive within the
//! escape timeout are handed in together; if they run out inside a
//! sequence, the sequence has timed out.

use vstd::prelude::*;
use crate::vt_parse::{EscapeParser, Key, ParseResult, step, timeout_step};

verus! {

/// How long the rest of an escape sequence is waited for, in
/// milliseconds.
pub const ESC_TIMEOUT_MS: u64 = 2;

/// A key event: an ordinary byte or a special key.
#[derive(Clone, Copy, Debug, PartialEq, Eq, Structural)]
pub enum KeyEvent {
    Byte(u8),
    Special(Key),
}

/// Reading `input` from index `i` with parser `p`: the parser after, the
/// event, and how many bytes were read in all.
pub open spec fn run(p: EscapeParser, input: Seq<u8>, i: nat) -> (EscapeParser, Option<KeyEvent>, nat)
    decreases input.len() - i,
{
    if i >= input.len() {
        let (q, k) = timeout_step(p);
        (q, match k {
            Some(key) => Some(KeyEvent::Special(key)),
            None => None,
        }, i)
    } else {
        let (q, r) = step(p, input[i as int]);
        match r {
            ParseResult::Byte(b) => (q, Some(KeyEvent::Byte(b)), i + 1),
            ParseResult::Special(k) => (q, Some(KeyEvent::Special(k)), i + 1),
            ParseResult::InvalidSequence => (q, None, i + 1),
            ParseResult::Pending => run(q, input, i + 1),
        }
    }
}

/// The keyboard: an escape sequence parser.
pub struct Keyboard {
    parser: EscapeParser,
}

impl View for Keyboard {
    type V = EscapeParser;

    closed spec fn view(&self) -> EscapeParser {
        self.parser
    }
}

impl Keyboard {
    /// A keyboard with no sequence under way.
    pub fn new() -> (r: Self)
        ensures
            r@ == EscapeParser::new_spec(),
    {
        Keyboard { parser: EscapeParser::new() }
    }

    /// Polls for an event from `input`, the bytes that arrived within the
    /// escape timeout. A pushed-back byte comes first, reading nothing;
    /// with no input there is no event; otherwise bytes are read until one
    /// ends an event or a sequence, or until they run out (the sequence
    /// timed out). Returns the event and how many bytes were read.
    pub fn poll(&mut self, input: &[u8]) -> (r: (Option<KeyEvent>, usize))
        ensures
            match old(self)@.pushback {
                Some(b) => r == (Some(KeyEvent::Byte(b)), 0usize) && final(self)@ == (EscapeParser { pushback: None, ..old(self)@ }),
                None => if input@.len() == 0 {
                    r == (None::<KeyEvent>, 0usize) && final(self)@ == old(self)@
                } else {
                    (final(self)@, r.0, r.1 as nat) == run(old(self)@, input@, 0)
                },
            },
    {
        match self.parser.pending_byte() {
            Some(b) => {
                return (Some(KeyEvent::Byte(b)), 0);
            },
            None => {},
        }
        if input.len() == 0 {
            return (None, 0);
        }
        let mut i: usize = 0;
        while i < input.len()
            invariant
                i <= input@.len(),
                old(self)@.pushback is None,
                run(old(self)@, input@, 0) == run(self.parser, input@, i as nat),
            decreases input@.len() - i,
        {
            let b = input[i];
            let r = self.parser.parse(b);
            i = i + 1;
            match r {
                ParseResult::Byte(b) => {
                    return (Some(KeyEvent::Byte(b)), i);
                },
                ParseResult::Special(k) => {
                    return (Some(KeyEvent::Special(k)), i);
                },
                ParseResult::InvalidSequence => {
                    return (None, i);
                },
                ParseResult::Pending => {},
            }
        }
        let k = self.parser.timeout();
        match k {
            Some(key) => (Some(KeyEvent::Special(key)), i),
            None => (None, i),
        }
    }
}

} // verus!
