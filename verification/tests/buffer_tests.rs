use ropey::Rope;
use zord::buffer::{gutter_width, Buffer, HISTORY_LIMIT};
use zord::text::{count_digits, has_no_control_chars, str_contains};

#[test]
fn a_new_buffer_counts_its_lines() {
    let b = Buffer::new(Rope::from_str("a\nb\nc"));
    assert_eq!(b.line_count(), 3);
    assert_eq!(b.len_lines(), 3);
    assert_eq!(b.len_chars(), 5);
    assert_eq!(b.gutter_width(), 45);
    assert!(!b.unsaved_changes());
    assert!(b.path().is_none());
}

#[test]
fn line_breaks_are_those_ropey_recognises() {
    let b = Buffer::new(Rope::from_str("a\r\nb\u{2028}c\rd"));
    assert_eq!(b.len_lines(), 4);
    assert_eq!(b.line_to_char(1), 3);
    assert_eq!(b.line_len(0), 3);
    assert_eq!(b.char_to_line(1), 0);
    assert_eq!(b.char_to_line(2), 0);
    assert_eq!(b.char_to_line(3), 1);
    assert_eq!(b.line_text(1), Some("b\u{2028}".to_string()));
    assert_eq!(b.line_text(4), None);
    assert_eq!(b.line_to_char(4), b.len_chars());
}

#[test]
fn cells_clamp_to_lines_and_columns() {
    let b = Buffer::new(Rope::from_str("abc\nde\nfghij"));
    assert_eq!(b.char_at_cell(0, 1), 1);
    assert_eq!(b.char_at_cell(0, 9), 3);
    assert_eq!(b.char_at_cell(1, 9), 6);
    assert_eq!(b.char_at_cell(2, 9), 12);
    assert_eq!(b.char_at_cell(7, 2), 9);
}

#[test]
fn cursor_up_and_down() {
    let b = Buffer::new(Rope::from_str("abcdef\nxy\nlonger line"));
    assert_eq!(b.cursor_down(5), 9);
    assert_eq!(b.cursor_up(8), 1);
    assert_eq!(b.cursor_up(3), 3);
    assert_eq!(b.cursor_down(8), 11);
    assert_eq!(b.cursor_down(15), 15);
}

#[test]
fn push_undo_caps_the_history_and_clears_redo() {
    let mut b = Buffer::new(Rope::from_str("x"));
    b.push_undo(0, None);
    b.undo(1, None);
    assert_eq!(b.redo_len(), 1);
    for _ in 0..(HISTORY_LIMIT + 5) {
        b.push_undo(1, Some(0));
    }
    assert_eq!(b.undo_len(), HISTORY_LIMIT);
    assert_eq!(b.redo_len(), 0);
    assert!(b.unsaved_changes());
}

#[test]
fn undo_returns_the_recorded_caret() {
    let mut b = Buffer::new(Rope::from_str("hello"));
    b.push_undo(2, Some(4));
    b.insert_text(5, "!");
    assert_eq!(b.contents(), "hello!");
    assert_eq!(b.undo(6, None), Some((2, Some(4))));
    assert_eq!(b.contents(), "hello");
    assert_eq!(b.undo(0, None), None);
    assert_eq!(b.redo(2, Some(4)), Some((6, None)));
    assert_eq!(b.contents(), "hello!");
}

#[test]
fn edits_and_copies() {
    let mut b = Buffer::new(Rope::from_str("hello world"));
    b.remove_range(5, 11);
    assert_eq!(b.contents(), "hello");
    b.insert_text(0, "¡");
    assert_eq!(b.contents(), "¡hello");
    assert_eq!(b.copy_range(1, 3), "he");
}

#[test]
fn recalc_only_when_dirty() {
    let mut b = Buffer::new(Rope::from_str("one"));
    b.insert_text(3, "\ntwo");
    b.recalc();
    assert_eq!(b.line_count(), 1);
    b.push_undo(0, None);
    b.recalc();
    assert_eq!(b.line_count(), 2);
}

#[test]
fn gutter_grows_with_the_digits() {
    assert_eq!(gutter_width(1), 45);
    assert_eq!(gutter_width(999), 45);
    assert_eq!(gutter_width(1000), 48);
    assert_eq!(gutter_width(123456), 64);
    assert_eq!(gutter_width(usize::MAX), 8 * 20 + 16);
}

#[test]
fn digit_counts() {
    assert_eq!(count_digits(0), 1);
    assert_eq!(count_digits(9), 1);
    assert_eq!(count_digits(10), 2);
    assert_eq!(count_digits(usize::MAX), usize::MAX.to_string().len());
}

#[test]
fn control_characters_and_substrings() {
    assert!(has_no_control_chars("plain text ü"));
    assert!(!has_no_control_chars("tab\there"));
    assert!(!has_no_control_chars("\u{85}"));
    assert!(str_contains("Save failed: x", "failed"));
    assert!(str_contains("abc", ""));
    assert!(!str_contains("ab", "abc"));
    assert!(!str_contains("Loade", "Loaded"));
}

#[test]
fn line_counts_follow_the_line_breaks() {
    let b = Buffer::new(Rope::from_str(&"\n".repeat(9999)));
    assert_eq!(b.len_lines(), 10000);
    let c = Buffer::new(Rope::from_str("a\r\n\u{b}\u{c}\u{85}\u{2029}z"));
    assert_eq!(c.len_lines(), 6);
    assert_eq!(c.line_to_char(2), 4);
}

#[test]
fn up_and_down_land_on_the_neighbouring_line() {
    let b = Buffer::new(Rope::from_str("abcdef\n\nlonger line\nx"));
    let down = b.cursor_down(4);
    assert_eq!(b.char_to_line(down), 1);
    assert_eq!(down, 7);
    let down2 = b.cursor_down(down);
    assert_eq!(b.char_to_line(down2), 2);
    assert_eq!(b.cursor_up(b.cursor_down(down2)), 8);
}

#[test]
fn cells_are_monotone_along_rows_and_columns() {
    let b = Buffer::new(Rope::from_str("abc\n\nlonger\nz"));
    let mut prev = 0;
    for row in 0..6 {
        let here = b.char_at_cell(row, 2);
        assert!(prev <= here);
        prev = here;
        let mut p = 0;
        for col in 0..10 {
            let x = b.char_at_cell(row, col);
            assert!(p <= x);
            p = x;
            assert_eq!(b.char_to_line(x), row.min(b.len_lines() - 1));
        }
    }
}
