use ease::keyboard::KeyEvent;
use ease::line_editor::{EditResult, LineEditor, LINE_LEN, TAB};
use ease::vt_parse::Key;

fn byte(ch: u8) -> KeyEvent {
    KeyEvent::Byte(ch)
}

fn key(k: Key) -> KeyEvent {
    KeyEvent::Special(k)
}

fn type_str(ed: &mut LineEditor, s: &str) {
    for b in s.bytes() {
        let _ = ed.process(byte(b));
    }
}

#[test]
fn editor_type_char() {
    let mut ed = LineEditor::new();
    let result = ed.process(byte(b'a'));
    assert!(matches!(result, EditResult::Append));
    assert_eq!(ed.line(), b"a");
    assert_eq!(ed.cursor(), 1);
}

#[test]
fn editor_type_builds_line() {
    let mut ed = LineEditor::new();
    type_str(&mut ed, "hello");
    assert_eq!(ed.line(), b"hello");
    assert_eq!(ed.cursor(), 5);
}

#[test]
fn editor_tab_rejected() {
    let mut ed = LineEditor::new();
    assert!(matches!(ed.process(byte(TAB)), EditResult::Reject));
}

#[test]
fn editor_enter_completes() {
    let mut ed = LineEditor::new();
    type_str(&mut ed, "echo hi");
    assert_eq!(ed.line(), b"echo hi");
    assert!(matches!(ed.process(key(Key::Enter)), EditResult::Complete));
}

#[test]
fn editor_enter_preserves_line_until_reset() {
    let mut ed = LineEditor::new();
    type_str(&mut ed, "test");
    let _ = ed.process(key(Key::Enter));
    assert_eq!(ed.line(), b"test");
    assert_eq!(ed.cursor(), 0);
    ed.reset();
    assert!(ed.line().is_empty());
}

#[test]
fn editor_empty_enter() {
    let mut ed = LineEditor::new();
    assert!(matches!(ed.process(key(Key::Enter)), EditResult::Complete));
}

#[test]
fn editor_backspace_removes_char() {
    let mut ed = LineEditor::new();
    type_str(&mut ed, "abc");
    assert!(matches!(ed.process(key(Key::Backspace)), EditResult::LineEdit));
    assert_eq!(ed.line(), b"ab");
    assert_eq!(ed.cursor(), 2);
}

#[test]
fn editor_backspace_at_start_reject() {
    let mut ed = LineEditor::new();
    assert!(matches!(ed.process(key(Key::Backspace)), EditResult::Reject));
}

#[test]
fn editor_arrow_left_moves_cursor() {
    let mut ed = LineEditor::new();
    type_str(&mut ed, "abc");
    assert!(matches!(ed.process(key(Key::ArrowLeft)), EditResult::CursorMove));
    assert_eq!(ed.cursor(), 2);
    let _ = ed.process(byte(b'X'));
    assert_eq!(ed.line(), b"abXc");
    assert_eq!(ed.cursor(), 3);
}

#[test]
fn editor_arrow_left_at_start_reject() {
    let mut ed = LineEditor::new();
    assert!(matches!(ed.process(key(Key::ArrowLeft)), EditResult::Reject));
}

#[test]
fn editor_arrow_right_at_end_reject() {
    let mut ed = LineEditor::new();
    type_str(&mut ed, "abc");
    assert!(matches!(ed.process(key(Key::ArrowRight)), EditResult::Reject));
}

#[test]
fn editor_arrow_right_moves_cursor() {
    let mut ed = LineEditor::new();
    type_str(&mut ed, "abc");
    let _ = ed.process(key(Key::ArrowLeft));
    let _ = ed.process(key(Key::ArrowLeft));
    assert_eq!(ed.cursor(), 1);
    assert!(matches!(ed.process(key(Key::ArrowRight)), EditResult::CursorMove));
    assert_eq!(ed.cursor(), 2);
}

#[test]
fn editor_insert_in_middle() {
    let mut ed = LineEditor::new();
    type_str(&mut ed, "ac");
    let _ = ed.process(key(Key::ArrowLeft));
    let _ = ed.process(byte(b'b'));
    assert_eq!(ed.line(), b"abc");
}

#[test]
fn editor_backspace_in_middle() {
    let mut ed = LineEditor::new();
    type_str(&mut ed, "abcd");
    let _ = ed.process(key(Key::ArrowLeft));
    let _ = ed.process(key(Key::Backspace));
    assert_eq!(ed.line(), b"abd");
    assert_eq!(ed.cursor(), 2);
}

#[test]
fn editor_esc_clears_line() {
    let mut ed = LineEditor::new();
    type_str(&mut ed, "something");
    assert!(matches!(ed.process(key(Key::Esc)), EditResult::LineEdit));
    assert!(ed.line().is_empty());
    assert_eq!(ed.cursor(), 0);
}

#[test]
fn editor_esc_resets_history_browsing() {
    let mut ed = LineEditor::new();
    type_str(&mut ed, "first");
    let _ = ed.process(key(Key::Enter));
    ed.reset();
    let _ = ed.process(key(Key::ArrowUp));
    let _ = ed.process(key(Key::Esc));
    assert!(matches!(ed.process(key(Key::ArrowDown)), EditResult::Reject));
}

#[test]
fn editor_history_stores_on_enter() {
    let mut ed = LineEditor::new();
    type_str(&mut ed, "first");
    let _ = ed.process(key(Key::Enter));
    ed.reset();
    type_str(&mut ed, "second");
    let _ = ed.process(key(Key::Enter));
    ed.reset();
    assert!(matches!(ed.process(key(Key::ArrowUp)), EditResult::LineEdit));
    assert_eq!(ed.line(), b"second");
}

#[test]
fn editor_history_navigate_up_down() {
    let mut ed = LineEditor::new();
    type_str(&mut ed, "first");
    let _ = ed.process(key(Key::Enter));
    ed.reset();
    type_str(&mut ed, "second");
    let _ = ed.process(key(Key::Enter));
    ed.reset();
    let _ = ed.process(key(Key::ArrowUp));
    assert_eq!(ed.line(), b"second");
    let _ = ed.process(key(Key::ArrowUp));
    assert_eq!(ed.line(), b"first");
    let _ = ed.process(key(Key::ArrowDown));
    assert_eq!(ed.line(), b"second");
}

#[test]
fn editor_history_down_restores_current_line() {
    let mut ed = LineEditor::new();
    type_str(&mut ed, "old");
    let _ = ed.process(key(Key::Enter));
    ed.reset();
    type_str(&mut ed, "current");
    let _ = ed.process(key(Key::ArrowUp));
    assert_eq!(ed.line(), b"old");
    let _ = ed.process(key(Key::ArrowDown));
    assert_eq!(ed.line(), b"current");
}

#[test]
fn editor_history_down_at_bottom_reject() {
    let mut ed = LineEditor::new();
    type_str(&mut ed, "test");
    let _ = ed.process(key(Key::Enter));
    ed.reset();
    assert!(matches!(ed.process(key(Key::ArrowDown)), EditResult::Reject));
}

#[test]
fn editor_history_up_empty_reject() {
    let mut ed = LineEditor::new();
    assert!(matches!(ed.process(key(Key::ArrowUp)), EditResult::Reject));
}

#[test]
fn editor_history_up_at_oldest_reject() {
    let mut ed = LineEditor::new();
    type_str(&mut ed, "only");
    let _ = ed.process(key(Key::Enter));
    ed.reset();
    let _ = ed.process(key(Key::ArrowUp));
    assert!(matches!(ed.process(key(Key::ArrowUp)), EditResult::Reject));
}

#[test]
fn editor_history_sets_cursor_to_end() {
    let mut ed = LineEditor::new();
    type_str(&mut ed, "long command");
    let _ = ed.process(key(Key::Enter));
    ed.reset();
    type_str(&mut ed, "hi");
    let _ = ed.process(key(Key::ArrowUp));
    assert_eq!(ed.line(), b"long command");
    assert_eq!(ed.cursor(), 12);
}

#[test]
fn editor_full_line_rejects_input() {
    let mut ed = LineEditor::new();
    for _ in 0..LINE_LEN {
        let _ = ed.process(byte(b'x'));
    }
    assert_eq!(ed.line().len(), LINE_LEN);
    assert!(matches!(ed.process(byte(b'y')), EditResult::Reject));
    assert_eq!(ed.line().len(), LINE_LEN);
}

#[test]
fn editor_history_keeps_ten_newest() {
    let mut ed = LineEditor::new();
    for i in 0..12u8 {
        let _ = ed.process(byte(b'a' + i));
        let _ = ed.process(key(Key::Enter));
        ed.reset();
    }
    let mut seen = Vec::new();
    while !matches!(ed.process(key(Key::ArrowUp)), EditResult::Reject) {
        seen.push(ed.line()[0]);
    }
    assert_eq!(seen.len(), 10);
    assert_eq!(seen[0], b'a' + 11);
    assert_eq!(seen[9], b'a' + 2);
}
