use llm::input::buffer::InputBuffer;
use llm::input::history::InputHistory;
use llm::input::wrap::wrap_ranges;

#[test]
fn wraps_at_width() {
    assert_eq!(wrap_ranges("hello world", 5), vec![0..5, 5..10, 10..11]);
    assert_eq!(wrap_ranges("", 10), vec![0..0]);
    assert_eq!(wrap_ranges("ab\ncd", 0), vec![0..1, 1..2, 3..4, 4..5]);
    assert_eq!(wrap_ranges("你好", 3), vec![0..3, 3..6]);
    assert_eq!(wrap_ranges("ab\n", 10), vec![0..2, 3..3]);
}

#[test]
fn edits_at_the_cursor() {
    let mut b = InputBuffer::default();
    assert!(b.is_empty());
    b.insert_str("hello");
    assert_eq!(b.text(), "hello");
    assert_eq!(b.cursor_position(80), (0, 5));
    b.backspace();
    assert_eq!(b.text(), "hell");
    b.move_left();
    b.insert_char('X');
    assert_eq!(b.text(), "helXl");
    b.delete();
    assert_eq!(b.text(), "helX");
    b.delete();
    assert_eq!(b.text(), "helX");
    b.move_right();
    assert_eq!(b.cursor_position(80), (0, 4));
}

#[test]
fn moves_between_lines() {
    let mut b = InputBuffer::default();
    b.insert_str("ab");
    b.newline();
    b.insert_str("cd");
    assert_eq!(b.text(), "ab\ncd");
    b.move_home();
    assert_eq!(b.cursor_position(80), (1, 0));
    b.move_end();
    assert_eq!(b.cursor_position(80), (1, 2));
    b.move_up(80);
    assert_eq!(b.cursor_position(80), (0, 2));
    b.move_down(80);
    assert_eq!(b.cursor_position(80), (1, 2));
    b.move_down(80);
    assert_eq!(b.cursor_position(80), (1, 2));
    assert_eq!(b.wrapped_lines(80), vec!["ab".to_string(), "cd".to_string()]);
    assert_eq!(b.take_text(), "ab\ncd");
    assert!(b.is_empty());
    assert_eq!(b.cursor_position(80), (0, 0));
}

#[test]
fn removes_whole_graphemes() {
    let mut b = InputBuffer::default();
    b.insert_str("e\u{301}");
    b.backspace();
    assert_eq!(b.text(), "");
    b.insert_str("a\u{301}b");
    b.move_left();
    b.move_left();
    assert_eq!(b.cursor_position(80), (0, 0));
    b.delete();
    assert_eq!(b.text(), "b");
}

#[test]
fn wrapped_lines_and_set_text() {
    let mut b = InputBuffer::default();
    b.set_text("hello".to_string());
    assert_eq!(b.wrapped_lines(3), vec!["hel".to_string(), "lo".to_string()]);
    assert_eq!(b.cursor_position(3), (0, 0));
    b.move_end();
    assert_eq!(b.cursor_position(3), (1, 2));
}

#[test]
fn history_browses_and_restores_draft() {
    let mut h = InputHistory::default();
    assert_eq!(h.previous("x"), None);
    h.record("first".to_string());
    h.record("second".to_string());
    h.record("second".to_string());
    h.record("   ".to_string());
    assert_eq!(h.previous("draft"), Some("second".to_string()));
    assert_eq!(h.previous(""), Some("first".to_string()));
    assert_eq!(h.previous(""), Some("first".to_string()));
    assert_eq!(h.next(), Some("second".to_string()));
    assert_eq!(h.next(), Some("draft".to_string()));
    assert_eq!(h.next(), None);
}

#[test]
fn recording_resets_browsing() {
    let mut h = InputHistory::default();
    h.record("one".to_string());
    assert_eq!(h.previous("d"), Some("one".to_string()));
    h.record("two".to_string());
    assert_eq!(h.next(), None);
    assert_eq!(h.previous(""), Some("two".to_string()));
}

#[test]
fn backspace_undoes_an_ascii_insert() {
    let mut b = InputBuffer::default();
    b.insert_str("a\tb c");
    b.move_left();
    let before_text = b.text().to_string();
    let before_pos = b.cursor_position(80);
    b.insert_char('7');
    assert_eq!(b.text(), "a\tb 7c");
    b.backspace();
    assert_eq!(b.text(), before_text);
    assert_eq!(b.cursor_position(80), before_pos);
    // At the start of the text backspace changes nothing.
    let mut start = InputBuffer::default();
    start.insert_str("xy");
    start.move_left();
    start.move_left();
    start.backspace();
    assert_eq!(start.text(), "xy");
    assert_eq!(start.cursor_position(80), (0, 0));
}

#[test]
fn rows_cover_the_text_and_break_only_when_needed() {
    let rows = wrap_ranges("ab\n\ncdef", 2);
    assert_eq!(rows, vec![0..2, 3..3, 4..6, 6..8]);
    // A grapheme wider than the row sits alone.
    assert_eq!(wrap_ranges("a界b", 1), vec![0..1, 1..4, 4..5]);
}
