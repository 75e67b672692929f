use std::path::PathBuf;
use zord::editing::{EditEvent, EditKey};
use zord::frame::{Arrival, SaveReport};
use zord::shortcuts::ShortcutKeys;
use zord::workspace::{LoadedFile, Workspace, WELCOME_TEXT};

fn no_keys() -> ShortcutKeys {
    ShortcutKeys {
        ctrl: false,
        shift: false,
        p: false,
        b: false,
        j: false,
        s: false,
        z: false,
        y: false,
        f: false,
        escape: false,
    }
}

fn ctrl_with(f: impl Fn(&mut ShortcutKeys)) -> ShortcutKeys {
    let mut k = no_keys();
    k.ctrl = true;
    f(&mut k);
    k
}

fn text_of(ws: &Workspace) -> String {
    ws.buffer(ws.active_buf()).contents()
}

fn last_log(ws: &Workspace) -> String {
    ws.logs().last().unwrap().clone()
}

#[test]
fn a_frame_of_typing_edits_and_recounts_lines() {
    let mut ws = Workspace::new();
    let events = vec![EditEvent::Text("x".to_string()), EditEvent::Key { key: EditKey::Enter, shift: false }];
    let r = ws.run_frame(no_keys(), None, Vec::new(), &events);
    assert_eq!(r.copied, None);
    assert!(!r.loaded);
    assert_eq!(text_of(&ws), format!("x\n{}", WELCOME_TEXT));
    assert_eq!(ws.buffer(0).line_count(), 5);
    assert_eq!(ws.buffer(0).undo_len(), 2);
}

#[test]
fn a_ctrl_z_frame_is_an_undo_and_a_ctrl_y_frame_a_redo() {
    let mut ws = Workspace::new();
    ws.run_frame(no_keys(), None, Vec::new(), &vec![EditEvent::Text("ab".to_string())]);
    assert_eq!(text_of(&ws), format!("ab{}", WELCOME_TEXT));

    let r = ws.run_frame(ctrl_with(|k| k.z = true), None, Vec::new(), &Vec::new());
    assert_eq!(r.copied, None);
    assert!(!r.loaded);
    assert_eq!(text_of(&ws), WELCOME_TEXT);
    let v = ws.editor_view(ws.active_view());
    assert_eq!((v.cursor_char_idx, v.selection_start), (0, None));
    assert_eq!(ws.buffer(0).undo_len(), 0);
    assert_eq!(ws.buffer(0).redo_len(), 1);

    ws.run_frame(ctrl_with(|k| k.y = true), None, Vec::new(), &Vec::new());
    assert_eq!(text_of(&ws), format!("ab{}", WELCOME_TEXT));
    let v = ws.editor_view(ws.active_view());
    assert_eq!(v.cursor_char_idx, 2);
    assert_eq!(ws.buffer(0).redo_len(), 0);
}

#[test]
fn ctrl_shift_z_redoes() {
    let mut ws = Workspace::new();
    ws.run_frame(no_keys(), None, Vec::new(), &vec![EditEvent::Text("q".to_string())]);
    ws.run_frame(ctrl_with(|k| k.z = true), None, Vec::new(), &Vec::new());
    assert_eq!(text_of(&ws), WELCOME_TEXT);
    ws.run_frame(ctrl_with(|k| { k.z = true; k.shift = true; }), None, Vec::new(), &Vec::new());
    assert_eq!(text_of(&ws), format!("q{}", WELCOME_TEXT));
}

#[test]
fn a_stale_arrival_is_dropped_and_the_newest_is_taken_in() {
    let mut ws = Workspace::new();
    let id = ws.begin_load("Streaming: a.rs");
    let logs_before = ws.logs().len();
    let stale = Arrival {
        file: LoadedFile::from_text(id - 1, PathBuf::from("old.rs"), "old"),
        message: "Loaded old.rs".to_string(),
    };
    let r = ws.run_frame(no_keys(), None, vec![stale], &Vec::new());
    assert!(!r.loaded);
    assert_eq!(text_of(&ws), WELCOME_TEXT);
    assert_eq!(ws.logs().len(), logs_before);
    assert!(ws.loading_file());

    let fresh = Arrival {
        file: LoadedFile::from_text(id, PathBuf::from("a.rs"), "fn a() {}\nfn b() {}\n"),
        message: "Loaded a.rs (0.0 MB)".to_string(),
    };
    let r = ws.run_frame(no_keys(), None, vec![fresh], &Vec::new());
    assert!(r.loaded);
    assert_eq!(text_of(&ws), "fn a() {}\nfn b() {}\n");
    assert_eq!(ws.buffer(0).path(), Some(PathBuf::from("a.rs")));
    assert_eq!(ws.buffer(0).line_count(), 3);
    assert!(!ws.loading_file());
    assert!(last_log(&ws).ends_with("] Loaded a.rs (0.0 MB)"));
}

#[test]
fn ctrl_s_without_a_path_logs_that_nothing_was_saved() {
    let mut ws = Workspace::new();
    ws.run_frame(ctrl_with(|k| k.s = true), None, Vec::new(), &Vec::new());
    assert!(last_log(&ws).ends_with("] No file open to save."));
}

#[test]
fn a_save_report_clears_the_unsaved_mark_and_is_logged() {
    let mut ws = Workspace::new();
    let id = ws.begin_load("Streaming: a.rs");
    let file = Arrival {
        file: LoadedFile::from_text(id, PathBuf::from("a.rs"), "abc"),
        message: "Loaded a.rs".to_string(),
    };
    ws.run_frame(no_keys(), None, vec![file], &vec![EditEvent::Text("z".to_string())]);
    assert_eq!(text_of(&ws), "zabc");
    assert!(ws.buffer(0).unsaved_changes());

    let failed = SaveReport { saved: false, message: "Save failed: denied".to_string() };
    ws.run_frame(ctrl_with(|k| k.s = true), Some(failed), Vec::new(), &Vec::new());
    assert!(ws.buffer(0).unsaved_changes());
    assert!(last_log(&ws).ends_with("] Save failed: denied"));

    let done = SaveReport { saved: true, message: "Saved a.rs".to_string() };
    ws.run_frame(ctrl_with(|k| k.s = true), Some(done), Vec::new(), &Vec::new());
    assert!(!ws.buffer(0).unsaved_changes());
    assert!(last_log(&ws).ends_with("] Saved a.rs"));
}

#[test]
fn a_frame_hands_back_the_copied_text() {
    let mut ws = Workspace::new();
    ws.press_at(0, 0, 0);
    ws.drag_to(0, 0, 2);
    let r = ws.run_frame(no_keys(), None, Vec::new(), &vec![EditEvent::Copy]);
    assert_eq!(r.copied, Some("//".to_string()));
    assert_eq!(text_of(&ws), WELCOME_TEXT);
}

#[test]
fn without_the_focus_input_is_ignored_but_shortcuts_run() {
    let mut ws = Workspace::new();
    ws.blur();
    let r = ws.run_frame(ctrl_with(|k| k.b = true), None, Vec::new(), &vec![EditEvent::Text("x".to_string())]);
    assert_eq!(r.copied, None);
    assert_eq!(text_of(&ws), WELCOME_TEXT);
    assert!(ws.show_right_panel());
}
