use std::path::PathBuf;
use zord::editing::{EditEvent, EditKey};
use zord::workspace::{Command, LoadedFile, Workspace, LOG_LIMIT, STARTUP_LOG, WELCOME_TEXT};

fn text_of(ws: &Workspace, i: usize) -> String {
    ws.buffer(i).contents()
}

fn caret(ws: &Workspace) -> (usize, Option<usize>) {
    let v = ws.editor_view(ws.active_view());
    (v.cursor_char_idx, v.selection_start)
}

fn key(k: EditKey) -> EditEvent {
    EditEvent::Key { key: k, shift: false }
}

#[test]
fn new_workspace_starts_with_the_welcome_buffer() {
    let ws = Workspace::new();
    assert_eq!(ws.buffers_len(), 1);
    assert_eq!(ws.views_len(), 1);
    assert_eq!(text_of(&ws, 0), WELCOME_TEXT);
    assert_eq!(ws.buffer(0).line_count(), 4);
    assert_eq!(ws.buffer(0).gutter_width(), 45);
    assert_eq!(ws.logs(), &vec![STARTUP_LOG.to_string()]);
    assert!(ws.editor_focused());
    assert!(ws.show_bottom_panel());
    assert!(!ws.show_right_panel());
    assert!(!ws.show_command_palette());
    assert!(!ws.show_find_bar());
    assert!(!ws.loading_file());
    assert_eq!(ws.current_load_id(), 0);
    assert_eq!(caret(&ws), (0, None));
}

#[test]
fn typing_inserts_at_the_cursor() {
    let mut ws = Workspace::new();
    let copied = ws.handle_input(&vec![EditEvent::Text("abc".to_string())]);
    assert_eq!(copied, None);
    assert_eq!(text_of(&ws, 0), format!("abc{}", WELCOME_TEXT));
    assert_eq!(caret(&ws), (3, None));
    assert!(ws.buffer(0).unsaved_changes());
    assert_eq!(ws.buffer(0).undo_len(), 1);
}

#[test]
fn typed_control_characters_are_ignored() {
    let mut ws = Workspace::new();
    ws.handle_input(&vec![EditEvent::Text("a\u{7}".to_string())]);
    assert_eq!(text_of(&ws, 0), WELCOME_TEXT);
    assert_eq!(ws.buffer(0).undo_len(), 0);
}

#[test]
fn paste_replaces_the_selection() {
    let mut ws = Workspace::new();
    // select "// " by a drag from the start of line 0 to column 3
    ws.press_at(0, 0, 0);
    ws.drag_to(0, 0, 3);
    assert_eq!(caret(&ws), (3, Some(0)));
    ws.handle_input(&vec![EditEvent::Paste("##".to_string())]);
    assert!(text_of(&ws, 0).starts_with("##Welcome"));
    assert_eq!(caret(&ws), (2, None));
}

#[test]
fn copy_returns_the_selection_and_changes_nothing() {
    let mut ws = Workspace::new();
    ws.press_at(0, 0, 3);
    ws.drag_to(0, 0, 10);
    let copied = ws.handle_input(&vec![EditEvent::Copy]);
    assert_eq!(copied, Some("Welcome".to_string()));
    assert_eq!(text_of(&ws, 0), WELCOME_TEXT);
    assert_eq!(caret(&ws), (10, Some(3)));
    assert_eq!(ws.buffer(0).undo_len(), 0);
}

#[test]
fn the_last_copy_of_a_frame_wins() {
    let mut ws = Workspace::new();
    ws.press_at(0, 0, 0);
    ws.drag_to(0, 0, 2);
    let copied = ws.handle_input(&vec![
        EditEvent::Copy,
        EditEvent::Key { key: EditKey::ArrowRight, shift: true },
        EditEvent::Copy,
        key(EditKey::ArrowRight),
        EditEvent::Copy,
    ]);
    assert_eq!(copied, Some("// ".to_string()));
}

#[test]
fn copy_of_an_empty_selection_copies_nothing() {
    let mut ws = Workspace::new();
    ws.press_at(0, 1, 2);
    assert_eq!(ws.handle_input(&vec![EditEvent::Copy]), None);
}

#[test]
fn backspace_deletes_before_the_cursor_or_the_selection() {
    let mut ws = Workspace::new();
    ws.handle_input(&vec![key(EditKey::Backspace)]);
    assert_eq!(text_of(&ws, 0), WELCOME_TEXT);
    assert_eq!(ws.buffer(0).undo_len(), 1);
    ws.click_at(0, 0, 3, false);
    ws.handle_input(&vec![key(EditKey::Backspace)]);
    assert!(text_of(&ws, 0).starts_with("//Welcome"));
    assert_eq!(caret(&ws), (2, None));
    ws.press_at(0, 0, 0);
    ws.drag_to(0, 0, 2);
    ws.handle_input(&vec![key(EditKey::Backspace)]);
    assert!(text_of(&ws, 0).starts_with("Welcome"));
    assert_eq!(caret(&ws), (0, None));
}

#[test]
fn enter_inserts_a_line_feed_and_keeps_the_selection() {
    let mut ws = Workspace::new();
    ws.press_at(0, 0, 2);
    ws.handle_input(&vec![key(EditKey::Enter)]);
    assert!(text_of(&ws, 0).starts_with("//\n Welcome"));
    assert_eq!(caret(&ws), (3, Some(2)));
}

#[test]
fn arrows_move_and_drop_the_selection_without_shift() {
    let mut ws = Workspace::new();
    ws.press_at(0, 1, 4);
    assert_eq!(caret(&ws), (27, Some(27)));
    ws.handle_input(&vec![EditEvent::Key { key: EditKey::ArrowLeft, shift: true }]);
    assert_eq!(caret(&ws), (26, Some(27)));
    ws.handle_input(&vec![key(EditKey::ArrowLeft)]);
    assert_eq!(caret(&ws), (25, None));
    ws.handle_input(&vec![key(EditKey::ArrowRight), key(EditKey::ArrowRight)]);
    assert_eq!(caret(&ws), (27, None));
}

#[test]
fn left_at_start_and_right_at_end_stay() {
    let mut ws = Workspace::new();
    ws.handle_input(&vec![key(EditKey::ArrowLeft)]);
    assert_eq!(caret(&ws), (0, None));
    let len = WELCOME_TEXT.chars().count();
    ws.click_at(0, 100, 100, false);
    assert_eq!(caret(&ws), (len, None));
    ws.handle_input(&vec![key(EditKey::ArrowRight)]);
    assert_eq!(caret(&ws), (len, None));
}

#[test]
fn up_and_down_keep_the_column_where_they_can() {
    let mut ws = Workspace::new();
    // line 0: "// Welcome to Zord IDE\n" (23 chars), line 1: "fn main() {\n" (12 chars)
    ws.click_at(0, 0, 20, false);
    assert_eq!(caret(&ws), (20, None));
    ws.handle_input(&vec![key(EditKey::ArrowDown)]);
    // column clamps to the last char before line 1's break: 23 + 11
    assert_eq!(caret(&ws), (34, None));
    ws.handle_input(&vec![key(EditKey::ArrowUp)]);
    assert_eq!(caret(&ws), (11, None));
    ws.handle_input(&vec![key(EditKey::ArrowUp)]);
    assert_eq!(caret(&ws), (11, None));
    ws.click_at(0, 3, 0, false);
    ws.handle_input(&vec![key(EditKey::ArrowDown)]);
    assert_eq!(caret(&ws), (ws.buffer(0).len_chars() - 1, None));
}

#[test]
fn undo_then_redo_round_trip() {
    let mut ws = Workspace::new();
    ws.handle_input(&vec![EditEvent::Text("x".to_string()), EditEvent::Text("y".to_string())]);
    assert_eq!(text_of(&ws, 0), format!("xy{}", WELCOME_TEXT));
    ws.apply_command(Command::Undo);
    assert_eq!(text_of(&ws, 0), format!("x{}", WELCOME_TEXT));
    assert_eq!(caret(&ws), (1, None));
    ws.apply_command(Command::Undo);
    assert_eq!(text_of(&ws, 0), WELCOME_TEXT);
    assert_eq!(caret(&ws), (0, None));
    assert_eq!(ws.buffer(0).redo_len(), 2);
    ws.apply_command(Command::Undo);
    assert_eq!(text_of(&ws, 0), WELCOME_TEXT);
    ws.apply_command(Command::Redo);
    ws.apply_command(Command::Redo);
    assert_eq!(text_of(&ws, 0), format!("xy{}", WELCOME_TEXT));
    assert_eq!(caret(&ws), (2, None));
    assert_eq!(ws.buffer(0).undo_len(), 2);
    assert_eq!(ws.buffer(0).redo_len(), 0);
}

#[test]
fn an_edit_after_undo_clears_redo() {
    let mut ws = Workspace::new();
    ws.handle_input(&vec![EditEvent::Text("x".to_string())]);
    ws.undo();
    assert_eq!(ws.buffer(0).redo_len(), 1);
    ws.handle_input(&vec![EditEvent::Text("z".to_string())]);
    assert_eq!(ws.buffer(0).redo_len(), 0);
    ws.redo();
    assert_eq!(text_of(&ws, 0), format!("z{}", WELCOME_TEXT));
}

#[test]
fn undo_history_keeps_at_most_two_hundred_snapshots() {
    let mut ws = Workspace::new();
    let events: Vec<EditEvent> = (0..250).map(|_| EditEvent::Text("a".to_string())).collect();
    ws.handle_input(&events);
    assert_eq!(ws.buffer(0).undo_len(), 200);
    for _ in 0..300 {
        ws.undo();
    }
    assert_eq!(text_of(&ws, 0), format!("{}{}", "a".repeat(50), WELCOME_TEXT));
    assert_eq!(ws.buffer(0).redo_len(), 200);
}

#[test]
fn input_without_focus_changes_nothing() {
    let mut ws = Workspace::new();
    ws.blur();
    let copied = ws.handle_input(&vec![EditEvent::Text("q".to_string())]);
    assert_eq!(copied, None);
    assert_eq!(text_of(&ws, 0), WELCOME_TEXT);
    ws.focus_view(0);
    assert!(ws.editor_focused());
}

#[test]
fn recalc_updates_line_count_and_gutter_after_edits() {
    let mut ws = Workspace::new();
    let events: Vec<EditEvent> = (0..120).map(|_| EditEvent::Key { key: EditKey::Enter, shift: false }).collect();
    ws.handle_input(&events);
    assert_eq!(ws.buffer(0).line_count(), 4);
    ws.recalc_all();
    assert_eq!(ws.buffer(0).line_count(), 124);
    assert_eq!(ws.buffer(0).gutter_width(), 45);
    let more: Vec<EditEvent> = (0..900).map(|_| EditEvent::Key { key: EditKey::Enter, shift: false }).collect();
    ws.handle_input(&more);
    ws.recalc_all();
    assert_eq!(ws.buffer(0).line_count(), 1024);
    assert_eq!(ws.buffer(0).gutter_width(), 48);
}

#[test]
fn log_lines_are_stamped_and_bounded() {
    let mut ws = Workspace::new();
    ws.push_log_line("12:34:56", "hello");
    assert_eq!(ws.logs()[1], "[12:34:56] hello");
    for i in 0..(LOG_LIMIT + 10) {
        ws.push_log_line("00:00:00", &format!("m{}", i));
    }
    assert_eq!(ws.logs().len(), LOG_LIMIT);
    assert_eq!(ws.logs()[LOG_LIMIT - 1], format!("[00:00:00] m{}", LOG_LIMIT + 9));
    assert_eq!(ws.logs()[0], "[00:00:00] m10");
    ws.apply_command(Command::ClearLogs);
    assert!(ws.logs().is_empty());
}

#[test]
fn add_log_stamps_with_the_time_of_day() {
    let mut ws = Workspace::new();
    ws.add_log("ping");
    let line = &ws.logs()[1];
    let chars: Vec<char> = line.chars().collect();
    assert_eq!(chars.len(), 1 + 8 + 2 + 4);
    assert_eq!(chars[0], '[');
    assert_eq!(chars[3], ':');
    assert_eq!(chars[6], ':');
    for i in [1usize, 2, 4, 5, 7, 8] {
        assert!(chars[i].is_ascii_digit());
    }
    assert!(line.ends_with("] ping"));
}

#[test]
fn saving_without_a_path_only_logs() {
    let mut ws = Workspace::new();
    assert!(ws.apply_command(Command::Save));
    assert!(ws.begin_save().is_none());
    assert!(ws.logs()[1].ends_with("] No file open to save."));
}

#[test]
fn loading_and_saving_a_file() {
    let mut ws = Workspace::new();
    ws.handle_input(&vec![EditEvent::Text("junk".to_string())]);
    let id = ws.begin_load("Streaming: a.rs");
    assert_eq!(id, 1);
    assert!(ws.loading_file());
    let stale = LoadedFile::from_text(0, PathBuf::from("old.rs"), "old");
    assert!(!ws.apply_loaded(stale, "Loaded old.rs"));
    assert_eq!(text_of(&ws, 0), format!("junk{}", WELCOME_TEXT));
    let file = LoadedFile::from_text(1, PathBuf::from("a.rs"), "fn a() {}\n");
    assert_eq!(file.lines, 2);
    assert!(ws.apply_loaded(file, "Loaded a.rs (0.0 MB)"));
    assert!(!ws.loading_file());
    assert_eq!(text_of(&ws, 0), "fn a() {}\n");
    assert_eq!(ws.buffer(0).line_count(), 2);
    assert_eq!(ws.buffer(0).undo_len(), 0);
    assert!(!ws.buffer(0).unsaved_changes());
    assert_eq!(caret(&ws), (0, None));
    ws.handle_input(&vec![EditEvent::Text("pub ".to_string())]);
    assert!(ws.buffer(0).unsaved_changes());
    let req = ws.begin_save().expect("a path is set");
    assert_eq!(req.buffer, 0);
    assert_eq!(req.path, PathBuf::from("a.rs"));
    assert_eq!(req.contents, "pub fn a() {}\n");
    ws.finish_save(req.buffer, false, "Save failed: disk full");
    assert!(ws.buffer(0).unsaved_changes());
    ws.finish_save(req.buffer, true, "Saved a.rs");
    assert!(!ws.buffer(0).unsaved_changes());
    assert!(ws.logs().last().unwrap().ends_with("] Saved a.rs"));
}

#[test]
fn split_then_merge() {
    let mut ws = Workspace::new();
    ws.apply_command(Command::SplitEditor);
    assert_eq!(ws.views_len(), 2);
    assert_eq!(ws.buffers_len(), 2);
    assert_eq!(text_of(&ws, 1), "");
    assert_eq!(ws.editor_view(1).buffer_idx, 1);
    ws.focus_view(1);
    ws.handle_input(&vec![EditEvent::Text("second".to_string())]);
    assert_eq!(text_of(&ws, 1), "second");
    assert_eq!(text_of(&ws, 0), WELCOME_TEXT);
    ws.apply_command(Command::MergeEditor);
    assert_eq!(ws.views_len(), 1);
    assert_eq!(ws.buffers_len(), 1);
    assert_eq!(ws.active_view(), 0);
    ws.apply_command(Command::MergeEditor);
    assert_eq!(ws.views_len(), 1);
}

#[test]
fn panel_commands_toggle_and_dismiss() {
    let mut ws = Workspace::new();
    assert!(!ws.apply_command(Command::ToggleCommandPalette));
    assert!(ws.show_command_palette());
    ws.apply_command(Command::ToggleFindBar);
    assert!(ws.show_find_bar());
    ws.apply_command(Command::DismissOverlays);
    assert!(!ws.show_find_bar());
    assert!(!ws.show_command_palette());
    ws.apply_command(Command::ShowFindBar);
    ws.apply_command(Command::ShowFindBar);
    assert!(ws.show_find_bar());
    ws.apply_command(Command::ToggleRightPanel);
    assert!(ws.show_right_panel());
    ws.apply_command(Command::ToggleBottomPanel);
    assert!(!ws.show_bottom_panel());
    ws.apply_command(Command::ToggleCommandPalette);
    ws.apply_command(Command::CloseCommandPalette);
    assert!(!ws.show_command_palette());
}

#[test]
fn submitting_a_command_logs_it() {
    let mut ws = Workspace::new();
    ws.apply_command(Command::ToggleCommandPalette);
    ws.submit_command("build");
    assert!(!ws.show_command_palette());
    assert!(ws.logs()[1].ends_with("] Cmd: build"));
}

#[test]
fn cursor_line_and_column() {
    let mut ws = Workspace::new();
    assert_eq!(ws.cursor_line_col(), (0, 0));
    ws.click_at(0, 2, 6, false);
    assert_eq!(ws.cursor_line_col(), (2, 6));
    assert_eq!(ws.active_buf(), 0);
}

#[test]
fn shift_click_anchors_the_selection_at_the_old_cursor() {
    let mut ws = Workspace::new();
    ws.click_at(0, 0, 5, false);
    ws.click_at(0, 1, 2, true);
    assert_eq!(caret(&ws), (25, Some(5)));
    ws.click_at(0, 1, 4, true);
    assert_eq!(caret(&ws), (27, Some(5)));
    ws.click_at(0, 1, 4, false);
    assert_eq!(caret(&ws), (27, None));
}

#[test]
fn typing_then_backspace_restores_the_text() {
    let mut ws = Workspace::new();
    ws.click_at(0, 1, 3, false);
    ws.handle_input(&vec![EditEvent::Text("Z".to_string()), key(EditKey::Backspace)]);
    assert_eq!(text_of(&ws, 0), WELCOME_TEXT);
    assert_eq!(caret(&ws), (26, None));
}

#[test]
fn undo_after_an_edit_restores_text_and_caret() {
    let mut ws = Workspace::new();
    ws.press_at(0, 0, 3);
    ws.drag_to(0, 0, 10);
    ws.handle_input(&vec![EditEvent::Paste("Hi".to_string())]);
    assert!(text_of(&ws, 0).starts_with("// Hi to Zord"));
    ws.undo();
    assert_eq!(text_of(&ws, 0), WELCOME_TEXT);
    assert_eq!(caret(&ws), (10, Some(3)));
    assert_eq!(ws.buffer(0).undo_len(), 0);
    assert_eq!(ws.buffer(0).redo_len(), 1);
}

#[test]
fn loaded_bytes_are_decoded_when_they_are_utf8() {
    let bytes = "fn é() {}\nx".as_bytes();
    let f = LoadedFile::from_bytes(3, PathBuf::from("e.rs"), bytes).unwrap();
    assert_eq!(f.id, 3);
    assert_eq!(f.path, PathBuf::from("e.rs"));
    assert_eq!(f.rope.to_string(), "fn é() {}\nx");
    assert_eq!(f.rope.len_chars(), 11);
    assert_eq!(f.lines, 2);
}

#[test]
fn loaded_bytes_that_are_not_utf8_give_nothing() {
    assert!(LoadedFile::from_bytes(1, PathBuf::from("b.bin"), &[0x66, 0xff, 0x0a]).is_none());
    assert!(LoadedFile::from_bytes(1, PathBuf::from("s.bin"), &[0xed, 0xa0, 0x80]).is_none());
}
