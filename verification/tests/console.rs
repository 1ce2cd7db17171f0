use ease::console::{Console, RenderCommand, TextBuffer, BLACK, COLUMNS, GREEN, ROWS};

#[test]
fn console_writes_characters_at_cursor() {
    let mut c = Console::new();
    assert_eq!(c.process_char(b'A'), vec![RenderCommand::WriteChar(0, 0, b'A')]);
    assert_eq!(c.process_char(b'B'), vec![RenderCommand::WriteChar(0, 1, b'B')]);
    assert_eq!(c.cursor_pos(), (0, 2));
    assert_eq!(c.char_at(0, 1), Some(b'B'));
    assert_eq!(c.char_at(0, 2), Some(b' '));
    assert_eq!(c.char_at(ROWS, 0), None);
}

#[test]
fn console_line_feed_keeps_column() {
    let mut c = Console::new();
    let _ = c.process_char(b'x');
    assert!(c.process_char(b'\n').is_empty());
    assert_eq!(c.cursor_pos(), (1, 1));
    let _ = c.process_char(b'\r');
    assert_eq!(c.cursor_pos(), (1, 0));
}

#[test]
fn console_wraps_at_end_of_row() {
    let mut c = Console::new();
    for _ in 0..COLUMNS {
        let _ = c.process_char(b'=');
    }
    assert_eq!(c.cursor_pos(), (1, 0));
}

#[test]
fn console_scrolls_at_bottom() {
    let mut c = Console::new();
    let _ = c.process_char(b'T');
    for _ in 0..ROWS - 1 {
        let _ = c.process_char(b'\n');
    }
    assert_eq!(c.cursor_pos(), (ROWS - 1, 1));
    assert_eq!(c.process_char(b'\n'), vec![RenderCommand::Scroll]);
    assert_eq!(c.cursor_pos(), (ROWS - 1, 0));
    assert_eq!(c.char_at(0, 0), Some(b' '), "top row scrolled away");
}

#[test]
fn console_writing_last_cell_scrolls() {
    let mut c = Console::new();
    for _ in 0..ROWS - 1 {
        let _ = c.process_char(b'\n');
    }
    for _ in 0..COLUMNS - 1 {
        let _ = c.process_char(b'-');
    }
    assert_eq!(
        c.process_char(b'!'),
        vec![RenderCommand::WriteChar(ROWS - 1, COLUMNS - 1, b'!'), RenderCommand::Scroll]
    );
    assert_eq!(c.char_at(ROWS - 2, COLUMNS - 1), Some(b'!'));
}

#[test]
fn console_backspace_and_form_feed() {
    let mut c = Console::new();
    let _ = c.process_char(b'a');
    assert!(c.process_char(8).is_empty());
    assert_eq!(c.cursor_pos(), (0, 0));
    assert!(c.process_char(8).is_empty());
    assert_eq!(c.cursor_pos(), (0, 0));
    let _ = c.process_char(b'q');
    assert_eq!(c.process_char(12), vec![RenderCommand::Clear]);
    assert_eq!(c.char_at(0, 0), Some(b' '));
    assert_eq!(c.cursor_pos(), (0, 0));
}

#[test]
fn console_ignores_control_bytes() {
    let mut c = Console::new();
    assert!(c.process_char(7).is_empty());
    assert!(c.process_char(9).is_empty());
    assert!(c.process_char(0x01).is_empty());
    assert_eq!(c.cursor_pos(), (0, 0));
}

#[test]
fn console_cursor_show_hide() {
    let mut c = Console::new();
    assert_eq!(c.hide_cursor(), vec![RenderCommand::DrawCursor(0, 0, b' ', false)]);
    assert!(c.hide_cursor().is_empty());
    assert_eq!(c.show_cursor(), vec![RenderCommand::DrawCursor(0, 0, b' ', true)]);
    assert!(c.show_cursor().is_empty());
}

#[test]
fn console_put_char_hides_and_shows_cursor() {
    let mut c = Console::new();
    assert_eq!(
        c.put_char(b'z'),
        vec![
            RenderCommand::DrawCursor(0, 0, b' ', false),
            RenderCommand::WriteChar(0, 0, b'z'),
            RenderCommand::DrawCursor(0, 1, b' ', true),
        ]
    );
}

#[test]
fn console_write_str_adds_carriage_return() {
    let mut c = Console::new();
    let _ = c.write_str(b"ab\ncd");
    assert_eq!(c.cursor_pos(), (1, 2));
    assert_eq!(c.char_at(1, 0), Some(b'c'));
}

#[test]
fn console_redraw_line_rewrites_edited_line() {
    let mut c = Console::new();
    let _ = c.write_str(b"> ");
    let _ = c.redraw_line(b"abc", 3);
    assert_eq!(c.cursor_pos(), (0, 5));
    let _ = c.redraw_line(b"a", 1);
    assert_eq!(c.char_at(0, 2), Some(b'a'));
    assert_eq!(c.char_at(0, 3), Some(b' '), "old text is blanked");
    assert_eq!(c.char_at(0, 4), Some(b' '));
    assert_eq!(c.cursor_pos(), (0, 3));
    let _ = c.redraw_line(b"xyz", 1);
    assert_eq!(c.cursor_pos(), (0, 3));
    assert_eq!(c.char_at(0, 4), Some(b'z'));
    c.reset_line();
}

#[test]
fn console_text_buffer_line_feed_and_wrap() {
    let mut t = TextBuffer::new();
    for _ in 0..ROWS - 1 {
        assert!(!t.line_feed());
    }
    assert!(t.line_feed(), "a line feed on the bottom row scrolls");
    let mut t = TextBuffer::new();
    for i in 0..COLUMNS - 1 {
        assert_eq!(t.writeable_char(b'a'), (0, i, false));
    }
    assert_eq!(t.writeable_char(b'z'), (0, COLUMNS - 1, false));
    assert_eq!(t.char_at(0, COLUMNS - 1), b'z');
    assert_eq!(t.writeable_char(b'q'), (1, 0, false), "the cursor wrapped to the next row");
}

#[test]
fn console_draws_green_on_black() {
    let mut c = Console::new();
    assert_eq!(c.colours_for(&RenderCommand::WriteChar(0, 0, b'a')), (GREEN, BLACK));
    assert_eq!(c.colours_for(&RenderCommand::Clear), (GREEN, BLACK));
    assert_eq!(c.colours_for(&RenderCommand::DrawCursor(0, 0, b' ', true)), (BLACK, GREEN), "the cursor is inverted");
    assert_eq!(c.colours_for(&RenderCommand::DrawCursor(0, 0, b' ', false)), (GREEN, BLACK));
    let _ = c.put_char(b'x');
    assert_eq!(c.colours_for(&RenderCommand::Scroll), (0x00FF00, 0x000000), "writing keeps the colours");
}
