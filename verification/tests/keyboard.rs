use ease::keyboard::{KeyEvent, Keyboard};
use ease::vt_parse::{EscapeParser, Key, ParseResult};

fn poll_bytes(kb: &mut Keyboard, bytes: &[u8]) -> Option<KeyEvent> {
    kb.poll(bytes).0
}

#[test]
fn keyboard_no_byte_available() {
    let mut kb = Keyboard::new();
    assert_eq!(kb.poll(&[]), (None, 0));
}

#[test]
fn keyboard_regular_byte() {
    let mut kb = Keyboard::new();
    assert_eq!(poll_bytes(&mut kb, b"a"), Some(KeyEvent::Byte(b'a')));
}

#[test]
fn keyboard_enter() {
    let mut kb = Keyboard::new();
    assert_eq!(poll_bytes(&mut kb, &[0x0D]), Some(KeyEvent::Special(Key::Enter)));
}

#[test]
fn keyboard_backspace() {
    let mut kb = Keyboard::new();
    assert_eq!(poll_bytes(&mut kb, &[0x7F]), Some(KeyEvent::Special(Key::Backspace)));
}

#[test]
fn keyboard_arrows() {
    let mut kb = Keyboard::new();
    assert_eq!(poll_bytes(&mut kb, &[0x1B, b'[', b'A']), Some(KeyEvent::Special(Key::ArrowUp)));
    assert_eq!(poll_bytes(&mut kb, &[0x1B, b'[', b'B']), Some(KeyEvent::Special(Key::ArrowDown)));
    assert_eq!(poll_bytes(&mut kb, &[0x1B, b'[', b'C']), Some(KeyEvent::Special(Key::ArrowRight)));
    assert_eq!(poll_bytes(&mut kb, &[0x1B, b'[', b'D']), Some(KeyEvent::Special(Key::ArrowLeft)));
}

#[test]
fn keyboard_bare_esc_timeout() {
    let mut kb = Keyboard::new();
    assert_eq!(kb.poll(&[0x1B]), (Some(KeyEvent::Special(Key::Esc)), 1));
}

#[test]
fn keyboard_bare_esc_preserves_following_byte() {
    let mut kb = Keyboard::new();
    assert_eq!(poll_bytes(&mut kb, &[0x1B, b'x']), Some(KeyEvent::Special(Key::Esc)));
    assert_eq!(kb.poll(&[]), (Some(KeyEvent::Byte(b'x')), 0));
}

#[test]
fn keyboard_invalid_csi_returns_none() {
    let mut kb = Keyboard::new();
    assert_eq!(kb.poll(&[0x1B, b'[', b'Z']), (None, 3));
}

#[test]
fn keyboard_invalid_csi_preserves_byte() {
    let mut kb = Keyboard::new();
    let _ = poll_bytes(&mut kb, &[0x1B, b'[', b'Z']);
    assert_eq!(poll_bytes(&mut kb, &[]), Some(KeyEvent::Byte(b'Z')));
}

#[test]
fn keyboard_csi_parameters_consumed() {
    let mut kb = Keyboard::new();
    assert_eq!(poll_bytes(&mut kb, &[0x1B, b'[', b'3', b'~']), None);
    assert_eq!(poll_bytes(&mut kb, &[]), Some(KeyEvent::Byte(b'~')));
}

#[test]
fn keyboard_consecutive_keys() {
    let mut kb = Keyboard::new();
    assert_eq!(poll_bytes(&mut kb, b"h"), Some(KeyEvent::Byte(b'h')));
    assert_eq!(poll_bytes(&mut kb, b"i"), Some(KeyEvent::Byte(b'i')));
    assert_eq!(poll_bytes(&mut kb, &[0x0D]), Some(KeyEvent::Special(Key::Enter)));
}

#[test]
fn keyboard_arrow_then_regular_byte() {
    let mut kb = Keyboard::new();
    assert_eq!(poll_bytes(&mut kb, &[0x1B, b'[', b'A']), Some(KeyEvent::Special(Key::ArrowUp)));
    assert_eq!(poll_bytes(&mut kb, &[]), None);
    assert_eq!(poll_bytes(&mut kb, b"z"), Some(KeyEvent::Byte(b'z')));
}

#[test]
fn keyboard_pushback_drained_before_new_byte() {
    let mut kb = Keyboard::new();
    let _ = poll_bytes(&mut kb, &[0x1B, b'x']);
    assert_eq!(kb.poll(b"y"), (Some(KeyEvent::Byte(b'x')), 0));
    assert_eq!(poll_bytes(&mut kb, b"y"), Some(KeyEvent::Byte(b'y')));
}

#[test]
fn keyboard_stops_reading_at_the_end_of_a_key() {
    let mut kb = Keyboard::new();
    assert_eq!(kb.poll(&[0x1B, b'[', b'A', b'q']), (Some(KeyEvent::Special(Key::ArrowUp)), 3));
}

#[test]
fn parser_partial_csi_timeout_gives_nothing() {
    let mut p = EscapeParser::new();
    assert_eq!(p.parse(0x1B), ParseResult::Pending);
    assert_eq!(p.parse(b'['), ParseResult::Pending);
    assert_eq!(p.timeout(), None);
    assert_eq!(p.parse(b'k'), ParseResult::Byte(b'k'));
}
