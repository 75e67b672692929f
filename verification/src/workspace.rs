//! The editor as a whole: its buffers, the views onto them, the output log
//! and the panel switches, and every change the user interface asks of them.

use crate::buffer::{caret_fits, gutter_width_for, Buffer, BufferModel, Caret};
use crate::editing::{cell_index, edit_step, EditEvent};
use crate::clock::{is_clock_stamp, local_clock_stamp};
use crate::rope::{
    rope_char_line, rope_from_str, rope_len_lines, rope_line_count, rope_line_start,
    rope_text,
};
use ropey::Rope;
use std::path::PathBuf;
use vstd::prelude::*;
use vstd::string::StringExecFns;
use vstd::utf8::{decode_utf8, valid_utf8};

verus! {

/// The most lines the output log keeps.
pub const LOG_LIMIT: usize = 200;

/// The text of the buffer the editor starts with.
pub const WELCOME_TEXT: &'static str = "// Welcome to Zord IDE\nfn main() {\n    println!(\"Hello, Zord!\");\n}";

/// The first line of the output log.
pub const STARTUP_LOG: &'static str = "[System] Zord IDE initialized.";

/// An editor pane: which buffer it shows, the cursor, and the selection
/// anchor (a selection runs from the anchor to the cursor).
#[derive(Clone, Copy)]
pub struct EditorView {
    pub buffer_idx: usize,
    pub cursor_char_idx: usize,
    pub selection_start: Option<usize>,
}

impl EditorView {
    /// A view of buffer `buffer_idx` with the cursor at the start and no
    /// selection.
    pub fn for_buffer(buffer_idx: usize) -> (v: EditorView)
        ensures
            v == (EditorView { buffer_idx, cursor_char_idx: 0, selection_start: None }),
    {
        EditorView { buffer_idx, cursor_char_idx: 0, selection_start: None }
    }

    pub open spec fn caret(self) -> Caret {
        Caret { cursor: self.cursor_char_idx, selection: self.selection_start }
    }

    pub open spec fn with_caret(self, c: Caret) -> EditorView {
        EditorView { cursor_char_idx: c.cursor, selection_start: c.selection, ..self }
    }
}

impl Default for EditorView {
    /// A view of the first buffer.
    fn default() -> (v: EditorView)
        ensures
            v == (EditorView { buffer_idx: 0, cursor_char_idx: 0, selection_start: None }),
    {
        EditorView::for_buffer(0)
    }
}

/// A buffer made from `text`, with nothing recorded yet.
pub open spec fn fresh_buffer(text: Seq<char>) -> BufferModel {
    BufferModel {
        text,
        path: None,
        line_count: rope_line_count(text),
        gutter_width: gutter_width_for(rope_line_count(text)),
        dirty_text: false,
        unsaved_changes: false,
        undo: Seq::empty(),
        redo: Seq::empty(),
    }
}

/// A log line: the time stamp in brackets, a space, and the message.
pub open spec fn log_line(stamp: Seq<char>, msg: Seq<char>) -> Seq<char> {
    "["@ + stamp + "] "@ + msg
}

/// `n - 1`, but not below zero.
pub open spec fn last_index(n: nat) -> int {
    if n > 0 {
        n - 1
    } else {
        0
    }
}

pub open spec fn min_of(a: int, b: int) -> int {
    if a <= b {
        a
    } else {
        b
    }
}

/// The editor, as the contracts speak of it.
pub struct WorkspaceModel {
    pub buffers: Seq<BufferModel>,
    pub views: Seq<EditorView>,
    pub logs: Seq<Seq<char>>,
    pub active_view: usize,
    pub editor_focused: bool,
    pub show_right_panel: bool,
    pub show_bottom_panel: bool,
    pub show_command_palette: bool,
    pub show_find_bar: bool,
    pub loading_file: bool,
    pub current_load_id: usize,
}

impl WorkspaceModel {
    /// The view that has the keyboard (clamped to the views there are).
    pub open spec fn active_view_index(self) -> int {
        min_of(self.active_view as int, last_index(self.views.len()))
    }

    /// The buffer of the active view (clamped to the buffers there are).
    pub open spec fn active_buffer_index(self) -> int {
        min_of(
            self.views[self.active_view_index()].buffer_idx as int,
            last_index(self.buffers.len()),
        )
    }

    /// Every view shows the buffer of its own index, there is at least one,
    /// the active view is one of them, every buffer is well formed with the
    /// caret of its view inside its text, a buffer whose line count or gutter
    /// width is stale is marked dirty, and the log holds at most `LOG_LIMIT`
    /// lines.
    pub open spec fn wf(self) -> bool {
        &&& self.views.len() == self.buffers.len()
        &&& self.views.len() >= 1
        &&& self.buffers.len() <= usize::MAX
        &&& self.active_view < self.views.len()
        &&& forall|i: int| 0 <= i < self.views.len() ==> (#[trigger] self.views[i]).buffer_idx == i
        &&& forall|i: int| 0 <= i < self.buffers.len() ==> (#[trigger] self.buffers[i]).wf()
        &&& forall|i: int|
            0 <= i < self.buffers.len() ==> (#[trigger] self.buffers[i]).dirty_text
                || self.buffers[i].lines_current()
        &&& forall|i: int|
            0 <= i < self.views.len() ==> caret_fits(
                self.buffers[i].text.len(),
                (#[trigger] self.views[i]).cursor_char_idx,
                self.views[i].selection_start,
            )
        &&& self.logs.len() <= LOG_LIMIT
    }

    /// `line` appended to the log, the oldest line dropped past the limit.
    pub open spec fn with_log(self, line: Seq<char>) -> WorkspaceModel {
        let pushed = self.logs.push(line);
        WorkspaceModel {
            logs: if pushed.len() > LOG_LIMIT {
                pushed.drop_first()
            } else {
                pushed
            },
            ..self
        }
    }

    /// `msg` logged at some time of day.
    pub open spec fn logged(self, after: WorkspaceModel, msg: Seq<char>) -> bool {
        exists|stamp: Seq<char>| is_clock_stamp(stamp) && after == self.with_log(log_line(stamp, msg))
    }

    /// A file loaded into the active view's buffer: its text, path and line
    /// count replace the old ones, its history is dropped, and the view's
    /// caret goes to the start.
    pub open spec fn after_load(self, text: Seq<char>, path: PathBuf, lines: usize) -> WorkspaceModel {
        let av = self.active_view_index();
        let bi = self.views[av].buffer_idx as int;
        WorkspaceModel {
            buffers: if bi < self.buffers.len() {
                self.buffers.update(
                    bi,
                    BufferModel {
                        text,
                        path: Some(path),
                        line_count: lines as nat,
                        dirty_text: true,
                        unsaved_changes: false,
                        undo: Seq::empty(),
                        redo: Seq::empty(),
                        ..self.buffers[bi]
                    },
                )
            } else {
                self.buffers
            },
            views: self.views.update(
                av,
                EditorView { cursor_char_idx: 0, selection_start: None, ..self.views[av] },
            ),
            loading_file: false,
            ..self
        }
    }

    /// A new empty buffer and a new view onto it.
    pub open spec fn after_split(self) -> WorkspaceModel {
        let n = self.buffers.len();
        WorkspaceModel {
            buffers: self.buffers.push(fresh_buffer(Seq::empty())),
            views: self.views.push(
                EditorView { buffer_idx: n as usize, cursor_char_idx: 0, selection_start: None },
            ),
            ..self
        }
    }

    /// The views left after the last one is closed; when no other view shows
    /// its buffer, that buffer goes too (the first buffer is always kept) and
    /// the views past it are renumbered.
    pub open spec fn merged_views(self) -> Seq<EditorView> {
        let rest = self.views.drop_last();
        let bi = self.views.last().buffer_idx;
        if self.merge_drops_buffer() {
            Seq::new(
                rest.len(),
                |j: int|
                    if rest[j].buffer_idx > bi {
                        EditorView { buffer_idx: (rest[j].buffer_idx - 1) as usize, ..rest[j] }
                    } else {
                        rest[j]
                    },
            )
        } else {
            rest
        }
    }

    /// Whether closing the last view also drops its buffer.
    pub open spec fn merge_drops_buffer(self) -> bool {
        let rest = self.views.drop_last();
        let bi = self.views.last().buffer_idx;
        &&& !(exists|j: int| 0 <= j < rest.len() && (#[trigger] rest[j]).buffer_idx == bi)
        &&& bi > 0
    }

    /// Closing the last view, when there is more than one.
    pub open spec fn after_merge(self) -> WorkspaceModel {
        if self.views.len() > 1 {
            let views = self.merged_views();
            WorkspaceModel {
                buffers: if self.merge_drops_buffer() {
                    self.buffers.remove(self.views.last().buffer_idx as int)
                } else {
                    self.buffers
                },
                views,
                active_view: min_of(self.active_view as int, last_index(views.len())) as usize,
                ..self
            }
        } else {
            self
        }
    }

    /// What a command does to the editor.
    pub open spec fn after_command(self, cmd: Command) -> WorkspaceModel {
        match cmd {
            Command::ToggleCommandPalette => WorkspaceModel {
                show_command_palette: !self.show_command_palette,
                ..self
            },
            Command::ToggleRightPanel => WorkspaceModel {
                show_right_panel: !self.show_right_panel,
                ..self
            },
            Command::ToggleBottomPanel => WorkspaceModel {
                show_bottom_panel: !self.show_bottom_panel,
                ..self
            },
            Command::ToggleFindBar => WorkspaceModel { show_find_bar: !self.show_find_bar, ..self },
            Command::ShowFindBar => WorkspaceModel { show_find_bar: true, ..self },
            Command::DismissOverlays => WorkspaceModel {
                show_find_bar: false,
                show_command_palette: false,
                ..self
            },
            Command::CloseCommandPalette => WorkspaceModel { show_command_palette: false, ..self },
            Command::Save => self,
            Command::Undo => self.after_undo(),
            Command::Redo => self.after_redo(),
            Command::ClearLogs => WorkspaceModel { logs: Seq::empty(), ..self },
            Command::SplitEditor => self.after_split(),
            Command::MergeEditor => self.after_merge(),
        }
    }

    /// One input event in the active view: its buffer and caret change as
    /// `edit_step` says; the second part is the text copied, if any.
    pub open spec fn input_step(self, ev: EditEvent) -> (WorkspaceModel, Option<Seq<char>>) {
        let av = self.active_view_index();
        let bi = self.active_buffer_index();
        let r = edit_step(self.buffers[bi], self.views[av].caret(), ev);
        (
            WorkspaceModel {
                buffers: self.buffers.update(bi, r.0),
                views: self.views.update(av, self.views[av].with_caret(r.1)),
                ..self
            },
            r.2,
        )
    }

    /// The input events of one frame in order; the copied text is that of
    /// the last event that copied something.
    pub open spec fn input_steps(self, evs: Seq<EditEvent>) -> (WorkspaceModel, Option<Seq<char>>)
        decreases evs.len(),
    {
        if evs.len() == 0 {
            (self, None)
        } else {
            let prev = self.input_steps(evs.drop_last());
            let step = prev.0.input_step(evs.last());
            (
                step.0,
                if step.1 is Some {
                    step.1
                } else {
                    prev.1
                },
            )
        }
    }

    /// The buffer that view `vi` shows (clamped to the buffers there are).
    pub open spec fn view_buffer_index(self, vi: int) -> int {
        min_of(self.views[vi].buffer_idx as int, last_index(self.buffers.len()))
    }

    /// The char index under cell (`row`, `col`) of view `vi`.
    pub open spec fn cell_in_view(self, vi: int, row: usize, col: usize) -> int {
        cell_index(self.buffers[self.view_buffer_index(vi)].text, row as int, col as int)
    }

    /// Every buffer's line count and gutter width brought up to date.
    pub open spec fn recalculated(self) -> WorkspaceModel {
        WorkspaceModel { buffers: self.buffers.map_values(|b: BufferModel| b.recalculated()), ..self }
    }

    /// The editor has the focus and view `vi` is the active one.
    pub open spec fn after_focus(self, vi: usize) -> WorkspaceModel {
        WorkspaceModel { editor_focused: true, active_view: vi, ..self }
    }

    /// A drag starts at cell (`row`, `col`) of view `vi`: the cursor goes
    /// there and a selection is anchored there.
    pub open spec fn after_press(self, vi: int, row: usize, col: usize) -> WorkspaceModel {
        let idx = self.cell_in_view(vi, row, col) as usize;
        WorkspaceModel {
            views: self.views.update(
                vi,
                EditorView { cursor_char_idx: idx, selection_start: Some(idx), ..self.views[vi] },
            ),
            ..self
        }
    }

    /// The pointer is dragged to cell (`row`, `col`) of view `vi`: the cursor
    /// follows it and the selection anchor stays.
    pub open spec fn after_drag(self, vi: int, row: usize, col: usize) -> WorkspaceModel {
        let idx = self.cell_in_view(vi, row, col) as usize;
        WorkspaceModel {
            views: self.views.update(vi, EditorView { cursor_char_idx: idx, ..self.views[vi] }),
            ..self
        }
    }

    /// A click at cell (`row`, `col`) of view `vi`: the cursor goes there;
    /// without Shift the selection is dropped, with Shift a selection is
    /// anchored at the old cursor unless one is already anchored.
    pub open spec fn after_click(self, vi: int, row: usize, col: usize, shift: bool) -> WorkspaceModel {
        let v = self.views[vi];
        let idx = self.cell_in_view(vi, row, col) as usize;
        let sel = if !shift {
            None
        } else if v.selection_start is None {
            Some(v.cursor_char_idx)
        } else {
            v.selection_start
        };
        WorkspaceModel {
            views: self.views.update(vi, EditorView { cursor_char_idx: idx, selection_start: sel, ..v }),
            ..self
        }
    }

    /// Undo in the active view: its buffer steps back and the view takes the
    /// caret recorded with the restored text.
    pub open spec fn after_undo(self) -> WorkspaceModel {
        let av = self.active_view_index();
        let bi = self.active_buffer_index();
        let v = self.views[av];
        let b = self.buffers[bi];
        if b.undo.len() == 0 {
            self
        } else {
            WorkspaceModel {
                buffers: self.buffers.update(bi, b.undone(v.cursor_char_idx, v.selection_start)),
                views: self.views.update(
                    av,
                    EditorView {
                        cursor_char_idx: b.undo.last().cursor,
                        selection_start: b.undo.last().selection,
                        ..v
                    },
                ),
                ..self
            }
        }
    }

    /// Redo in the active view, the mirror image of `after_undo`.
    pub open spec fn after_redo(self) -> WorkspaceModel {
        let av = self.active_view_index();
        let bi = self.active_buffer_index();
        let v = self.views[av];
        let b = self.buffers[bi];
        if b.redo.len() == 0 {
            self
        } else {
            WorkspaceModel {
                buffers: self.buffers.update(bi, b.redone(v.cursor_char_idx, v.selection_start)),
                views: self.views.update(
                    av,
                    EditorView {
                        cursor_char_idx: b.redo.last().cursor,
                        selection_start: b.redo.last().selection,
                        ..v
                    },
                ),
                ..self
            }
        }
    }
}

/// A request from a menu, a toolbar button or a keyboard shortcut.
#[derive(Clone, Copy, Debug, PartialEq, Eq, Structural)]
pub enum Command {
    ToggleCommandPalette,
    ToggleRightPanel,
    ToggleBottomPanel,
    ToggleFindBar,
    ShowFindBar,
    /// Escape: closes the find bar and the command palette.
    DismissOverlays,
    CloseCommandPalette,
    /// Write the active buffer; the caller does the writing.
    Save,
    Undo,
    Redo,
    ClearLogs,
    /// Open a new, empty buffer in a new view.
    SplitEditor,
    /// Close the last view.
    MergeEditor,
}

/// A file read in for the active view, tagged with the number of the load
/// that asked for it.
pub struct LoadedFile {
    pub id: usize,
    pub path: PathBuf,
    pub rope: Rope,
    pub lines: usize,
}

impl LoadedFile {
    /// The loaded file holding `text`, with its line count.
    pub fn from_text(id: usize, path: PathBuf, text: &str) -> (f: LoadedFile)
        ensures
            f.id == id,
            f.path == path,
            rope_text(f.rope) == text@,
            f.lines == rope_line_count(text@),
    {
        let rope = rope_from_str(text);
        LoadedFile::from_rope(id, path, rope)
    }

    /// The loaded file holding the text of `rope`, with its line count.
    pub fn from_rope(id: usize, path: PathBuf, rope: Rope) -> (f: LoadedFile)
        ensures
            f.id == id,
            f.path == path,
            f.rope == rope,
            f.lines == rope_line_count(rope_text(rope)),
    {
        let lines = rope_len_lines(&rope);
        LoadedFile { id, path, rope, lines }
    }

    /// The loaded file holding the text that `bytes` encode, when they are
    /// valid UTF-8; `None` otherwise.
    pub fn from_bytes(id: usize, path: PathBuf, bytes: &[u8]) -> (r: Option<LoadedFile>)
        ensures
            r is Some <==> valid_utf8(bytes@),
            r matches Some(f) ==> {
                &&& f.id == id
                &&& f.path == path
                &&& rope_text(f.rope) == decode_utf8(bytes@)
                &&& f.lines == rope_line_count(decode_utf8(bytes@))
            },
    {
        match utf8_text(bytes) {
            Some(text) => Some(LoadedFile::from_text(id, path, text)),
            None => None,
        }
    }
}

/// `std::str::from_utf8`: the bytes read as a string when they are valid
/// UTF-8, and then the string holds the characters they encode; `None`
/// when they are not.
#[verifier::external_body]
fn utf8_text(bytes: &[u8]) -> (r: Option<&str>)
    ensures
        r is Some <==> valid_utf8(bytes@),
        r matches Some(s) ==> s@ == decode_utf8(bytes@),
{
    std::str::from_utf8(bytes).ok()
}

/// What the caller is to write to disk: the buffer's text to its path.
pub struct SaveRequest {
    pub buffer: usize,
    pub path: PathBuf,
    pub contents: String,
}

/// The editor's state.
pub struct Workspace {
    buffers: Vec<Buffer>,
    views: Vec<EditorView>,
    logs: Vec<String>,
    active_view: usize,
    editor_focused: bool,
    show_right_panel: bool,
    show_bottom_panel: bool,
    show_command_palette: bool,
    show_find_bar: bool,
    loading_file: bool,
    current_load_id: usize,
}

pub open spec fn buffers_model(v: Seq<Buffer>) -> Seq<BufferModel> {
    v.map_values(|b: Buffer| b@)
}

pub open spec fn logs_model(v: Seq<String>) -> Seq<Seq<char>> {
    v.map_values(|s: String| s@)
}

impl View for Workspace {
    type V = WorkspaceModel;

    closed spec fn view(&self) -> WorkspaceModel {
        WorkspaceModel {
            buffers: buffers_model(self.buffers@),
            views: self.views@,
            logs: logs_model(self.logs@),
            active_view: self.active_view,
            editor_focused: self.editor_focused,
            show_right_panel: self.show_right_panel,
            show_bottom_panel: self.show_bottom_panel,
            show_command_palette: self.show_command_palette,
            show_find_bar: self.show_find_bar,
            loading_file: self.loading_file,
            current_load_id: self.current_load_id,
        }
    }
}

impl Workspace {
    /// The editor as it starts: one buffer with the welcome text, one view
    /// onto it, the start-up line in the log, the output panel shown and
    /// every other panel hidden.
    pub fn new() -> (w: Workspace)
        ensures
            w@ == (WorkspaceModel {
                buffers: seq![fresh_buffer(WELCOME_TEXT@)],
                views: seq![EditorView { buffer_idx: 0, cursor_char_idx: 0, selection_start: None }],
                logs: seq![STARTUP_LOG@],
                active_view: 0,
                editor_focused: true,
                show_right_panel: false,
                show_bottom_panel: true,
                show_command_palette: false,
                show_find_bar: false,
                loading_file: false,
                current_load_id: 0,
            }),
            w@.wf(),
    {
        let welcome = Buffer::new(rope_from_str(WELCOME_TEXT));
        let mut buffers: Vec<Buffer> = Vec::new();
        buffers.push(welcome);
        let mut views: Vec<EditorView> = Vec::new();
        views.push(EditorView::default());
        let mut logs: Vec<String> = Vec::new();
        logs.push(String::from_str(STARTUP_LOG));
        let w = Workspace {
            buffers,
            views,
            logs,
            active_view: 0,
            editor_focused: true,
            show_right_panel: false,
            show_bottom_panel: true,
            show_command_palette: false,
            show_find_bar: false,
            loading_file: false,
            current_load_id: 0,
        };
        assert(w@.buffers =~= seq![fresh_buffer(WELCOME_TEXT@)]);
        assert(w@.views =~= seq![EditorView { buffer_idx: 0, cursor_char_idx: 0, selection_start: None }]);
        assert(w@.logs =~= seq![STARTUP_LOG@]);
        w
    }

    /// The index of the active view.
    fn active_view_idx(&self) -> (r: usize)
        requires
            self@.views.len() >= 1,
        ensures
            r == self@.active_view_index(),
    {
        let last = self.views.len() - 1;
        if self.active_view <= last {
            self.active_view
        } else {
            last
        }
    }

    /// The index of the buffer of the active view.
    pub fn active_buf(&self) -> (r: usize)
        requires
            self@.wf(),
        ensures
            r == self@.active_buffer_index(),
            r == self@.active_view,
    {
        let av = self.active_view_idx();
        let last = self.buffers.len() - 1;
        let b = self.views[av].buffer_idx;
        if b <= last {
            b
        } else {
            last
        }
    }

    /// Undo in the active view (see `after_undo`).
    pub fn undo(&mut self)
        requires
            old(self)@.wf(),
        ensures
            final(self)@ == old(self)@.after_undo(),
            final(self)@.wf(),
    {
        let bi = self.active_buf();
        let av = self.active_view_idx();
        let cursor = self.views[av].cursor_char_idx;
        let sel = self.views[av].selection_start;
        let ghost m = self@;
        assert(m.views[av as int].buffer_idx == av);
        let r = self.buffers[bi].undo(cursor, sel);
        match r {
            Some((c, s)) => {
                self.views[av].cursor_char_idx = c;
                self.views[av].selection_start = s;
                proof {
                    let b = m.buffers[bi as int];
                    assert(b.undo[b.undo.len() - 1].fits());
                }
            },
            None => {},
        }
        assert(self@.buffers =~= m.after_undo().buffers);
        assert(self@.views =~= m.after_undo().views);
    }

    /// Redo in the active view (see `after_redo`).
    pub fn redo(&mut self)
        requires
            old(self)@.wf(),
        ensures
            final(self)@ == old(self)@.after_redo(),
            final(self)@.wf(),
    {
        let bi = self.active_buf();
        let av = self.active_view_idx();
        let cursor = self.views[av].cursor_char_idx;
        let sel = self.views[av].selection_start;
        let ghost m = self@;
        assert(m.views[av as int].buffer_idx == av);
        let r = self.buffers[bi].redo(cursor, sel);
        match r {
            Some((c, s)) => {
                self.views[av].cursor_char_idx = c;
                self.views[av].selection_start = s;
                proof {
                    let b = m.buffers[bi as int];
                    assert(b.redo[b.redo.len() - 1].fits());
                }
            },
            None => {},
        }
        assert(self@.buffers =~= m.after_redo().buffers);
        assert(self@.views =~= m.after_redo().views);
    }

    /// Appends `"[" + stamp + "] " + msg` to the log, dropping the oldest
    /// line past `LOG_LIMIT`.
    pub fn push_log_line(&mut self, stamp: &str, msg: &str)
        requires
            old(self)@.wf(),
        ensures
            final(self)@ == old(self)@.with_log(log_line(stamp@, msg@)),
            final(self)@.wf(),
    {
        let mut line = String::from_str("[");
        line.append(stamp);
        line.append("] ");
        line.append(msg);
        let ghost before = self.logs@;
        self.logs.push(line);
        assert(logs_model(self.logs@) =~= logs_model(before).push(log_line(stamp@, msg@)));
        if self.logs.len() > LOG_LIMIT {
            let ghost pushed = self.logs@;
            let _ = self.logs.remove(0);
            assert(logs_model(self.logs@) =~= logs_model(pushed).drop_first());
        }
    }

    /// Logs `msg` with the current time of day.
    pub fn add_log(&mut self, msg: &str)
        requires
            old(self)@.wf(),
        ensures
            old(self)@.logged(final(self)@, msg@),
            final(self)@.wf(),
    {
        let stamp = local_clock_stamp();
        self.push_log_line(stamp.as_str(), msg);
    }

    /// Asks for the active buffer to be written: when it has a path, returns
    /// the buffer, its path and its text, and changes nothing; otherwise logs
    /// that there is no file to save.
    pub fn begin_save(&mut self) -> (r: Option<SaveRequest>)
        requires
            old(self)@.wf(),
        ensures
            final(self)@.wf(),
            ({
                let m = old(self)@;
                let bi = m.active_buffer_index();
                match m.buffers[bi].path {
                    Some(p) => {
                        &&& final(self)@ == m
                        &&& r matches Some(req)
                        &&& req.buffer == bi
                        &&& req.path == p
                        &&& req.contents@ == m.buffers[bi].text
                    },
                    None => r is None && m.logged(final(self)@, "No file open to save."@),
                }
            }),
    {
        let bi = self.active_buf();
        match self.buffers[bi].path() {
            Some(path) => {
                let contents = self.buffers[bi].contents();
                Some(SaveRequest { buffer: bi, path, contents })
            },
            None => {
                self.add_log("No file open to save.");
                None
            },
        }
    }

    /// Records how writing buffer `buffer` went: a successful write clears
    /// its unsaved mark; either way `msg` is logged.
    pub fn finish_save(&mut self, buffer: usize, saved: bool, msg: &str)
        requires
            old(self)@.wf(),
            buffer < old(self)@.buffers.len(),
        ensures
            final(self)@.wf(),
            ({
                let m = old(self)@;
                let m1 = if saved {
                    WorkspaceModel {
                        buffers: m.buffers.update(
                            buffer as int,
                            BufferModel { unsaved_changes: false, ..m.buffers[buffer as int] },
                        ),
                        ..m
                    }
                } else {
                    m
                };
                m1.logged(final(self)@, msg@)
            }),
    {
        let ghost m = self@;
        if saved {
            self.buffers[buffer].mark_saved();
            assert(self@.buffers =~= m.buffers.update(
                buffer as int,
                BufferModel { unsaved_changes: false, ..m.buffers[buffer as int] },
            ));
        }
        self.add_log(msg);
    }

    /// Starts loading a file: the load gets the next number, which is
    /// returned, the editor shows that it is loading, and `msg` is logged.
    pub fn begin_load(&mut self, msg: &str) -> (id: usize)
        requires
            old(self)@.wf(),
            old(self)@.current_load_id < usize::MAX,
        ensures
            id == old(self)@.current_load_id + 1,
            final(self)@.wf(),
            (WorkspaceModel { current_load_id: id, loading_file: true, ..old(self)@ }).logged(
                final(self)@,
                msg@,
            ),
    {
        self.current_load_id = self.current_load_id + 1;
        self.loading_file = true;
        self.add_log(msg);
        self.current_load_id
    }

    /// Takes in a file that was read: only the most recent load counts, and
    /// an older one is dropped unchanged. The newest goes into the active
    /// view's buffer (see `after_load`) and `msg` is logged.
    pub fn apply_loaded(&mut self, file: LoadedFile, msg: &str) -> (accepted: bool)
        requires
            old(self)@.wf(),
        ensures
            final(self)@.wf(),
            accepted == (file.id == old(self)@.current_load_id),
            !accepted ==> final(self)@ == old(self)@,
            accepted ==> old(self)@.after_load(rope_text(file.rope), file.path, file.lines).logged(
                final(self)@,
                msg@,
            ),
    {
        if file.id != self.current_load_id {
            return false;
        }
        let ghost m = self@;
        let av = self.active_view_idx();
        let bi = self.views[av].buffer_idx;
        if bi < self.buffers.len() {
            self.buffers[bi].load(file.rope, file.lines, file.path);
        }
        self.views[av].cursor_char_idx = 0;
        self.views[av].selection_start = None;
        self.loading_file = false;
        assert(self@.buffers =~= m.after_load(rope_text(file.rope), file.path, file.lines).buffers);
        assert(self@.views =~= m.after_load(rope_text(file.rope), file.path, file.lines).views);
        self.add_log(msg);
        true
    }

    /// Opens a new empty buffer in a new view (see `after_split`).
    pub fn split_editor(&mut self)
        requires
            old(self)@.wf(),
        ensures
            final(self)@ == old(self)@.after_split(),
            final(self)@.wf(),
    {
        let ghost m = self@;
        let n = self.buffers.len();
        let b = Buffer::new(rope_from_str(""));
        proof {
            reveal_strlit("");
            assert(""@ =~= Seq::<char>::empty());
            assert(b@ == fresh_buffer(Seq::empty()));
        }
        let ghost bufs = self.buffers@;
        self.buffers.push(b);
        let _ = self.buffers.len();
        assert(buffers_model(self.buffers@) =~= buffers_model(bufs).push(b@));
        self.views.push(EditorView::for_buffer(n));
        assert(self@.buffers =~= m.after_split().buffers);
        assert(self@.views =~= m.after_split().views);
    }

    /// Closes the last view when there is more than one (see `after_merge`).
    pub fn merge_editor(&mut self)
        requires
            old(self)@.wf(),
        ensures
            final(self)@ == old(self)@.after_merge(),
            final(self)@.wf(),
    {
        if self.views.len() <= 1 {
            return;
        }
        let ghost m = self@;
        let removed = self.views.pop();
        match removed {
            Some(rv) => {
                let bi = rv.buffer_idx;
                let ghost rest = self.views@;
                assert(rest =~= m.views.drop_last());
                let n = self.views.len();
                let mut referenced = false;
                let mut j: usize = 0;
                while j < n
                    invariant
                        n == self.views@.len(),
                        self.views@ == rest,
                        j <= n,
                        referenced == exists|k: int| 0 <= k < j && (#[trigger] rest[k]).buffer_idx == bi,
                    decreases n - j,
                {
                    if self.views[j].buffer_idx == bi {
                        referenced = true;
                    }
                    j = j + 1;
                }
                assert(bi == m.views.last().buffer_idx);
                assert((!referenced && bi > 0) == m.merge_drops_buffer());
                if !referenced && bi > 0 {
                    assert(m.views[m.views.len() - 1].buffer_idx == m.views.len() - 1);
                    let ghost bufs = self.buffers@;
                    let _ = self.buffers.remove(bi);
                    assert(buffers_model(self.buffers@) =~= buffers_model(bufs).remove(bi as int));
                    let mut renumbered: Vec<EditorView> = Vec::new();
                    let mut k: usize = 0;
                    while k < n
                        invariant
                            n == self.views@.len(),
                            self.views@ == rest,
                            k <= n,
                            renumbered@.len() == k,
                            forall|i: int|
                                0 <= i < k ==> renumbered@[i] == (if rest[i].buffer_idx > bi {
                                    EditorView { buffer_idx: (rest[i].buffer_idx - 1) as usize, ..rest[i] }
                                } else {
                                    rest[i]
                                }),
                        decreases n - k,
                    {
                        let v = self.views[k];
                        if v.buffer_idx > bi {
                            renumbered.push(EditorView { buffer_idx: v.buffer_idx - 1, ..v });
                        } else {
                            renumbered.push(v);
                        }
                        k = k + 1;
                    }
                    self.views = renumbered;
                    assert(self.views@ =~= m.merged_views());
                    assert(self@.buffers =~= m.buffers.remove(bi as int));
                } else {
                    assert(self.views@ =~= m.merged_views());
                    assert(self@.buffers == m.buffers);
                }
            },
            None => {},
        }
        let last = if self.views.len() > 0 { self.views.len() - 1 } else { 0 };
        if self.active_view > last {
            self.active_view = last;
        }
        proof {
            let r = m.after_merge();
            assert(self@.views == r.views);
            assert(self@.buffers =~= r.buffers);
            assert forall|i: int| 0 <= i < r.views.len() implies (#[trigger] r.views[i]).buffer_idx == i by {
                assert(m.views[i].buffer_idx == i);
            }
            assert forall|i: int| 0 <= i < r.views.len() implies caret_fits(
                r.buffers[i].text.len(),
                (#[trigger] r.views[i]).cursor_char_idx,
                r.views[i].selection_start,
            ) by {
                assert(m.views[i].buffer_idx == i);
                assert(caret_fits(m.buffers[i].text.len(), m.views[i].cursor_char_idx, m.views[i].selection_start));
            }
        }
    }

    /// Carries out a command (see `after_command`); returns whether the
    /// command asks for the active buffer to be saved.
    pub fn apply_command(&mut self, cmd: Command) -> (save: bool)
        requires
            old(self)@.wf(),
        ensures
            final(self)@ == old(self)@.after_command(cmd),
            final(self)@.wf(),
            save == (cmd is Save),
    {
        match cmd {
            Command::ToggleCommandPalette => {
                self.show_command_palette = !self.show_command_palette;
                false
            },
            Command::ToggleRightPanel => {
                self.show_right_panel = !self.show_right_panel;
                false
            },
            Command::ToggleBottomPanel => {
                self.show_bottom_panel = !self.show_bottom_panel;
                false
            },
            Command::ToggleFindBar => {
                self.show_find_bar = !self.show_find_bar;
                false
            },
            Command::ShowFindBar => {
                self.show_find_bar = true;
                false
            },
            Command::DismissOverlays => {
                self.show_find_bar = false;
                self.show_command_palette = false;
                false
            },
            Command::CloseCommandPalette => {
                self.show_command_palette = false;
                false
            },
            Command::Save => true,
            Command::Undo => {
                self.undo();
                false
            },
            Command::Redo => {
                self.redo();
                false
            },
            Command::ClearLogs => {
                self.logs.clear();
                assert(logs_model(self.logs@) =~= Seq::empty());
                false
            },
            Command::SplitEditor => {
                self.split_editor();
                false
            },
            Command::MergeEditor => {
                self.merge_editor();
                false
            },
        }
    }

    /// One input event in the active view (see `input_step`).
    fn apply_input(&mut self, ev: &EditEvent) -> (copied: Option<String>)
        requires
            old(self)@.wf(),
        ensures
            final(self)@ == old(self)@.input_step(*ev).0,
            match copied {
                Some(t) => old(self)@.input_step(*ev).1 == Some(t@),
                None => old(self)@.input_step(*ev).1.is_none(),
            },
            final(self)@.wf(),
    {
        let ghost m = self@;
        let av = self.active_view_idx();
        let bi = self.active_buf();
        assert(m.views[av as int].buffer_idx == av);
        let caret = Caret {
            cursor: self.views[av].cursor_char_idx,
            selection: self.views[av].selection_start,
        };
        assert(caret == m.views[av as int].caret());
        let (c, copied) = self.buffers[bi].apply_edit(caret, ev);
        self.views[av].cursor_char_idx = c.cursor;
        self.views[av].selection_start = c.selection;
        assert(self@.buffers =~= m.input_step(*ev).0.buffers);
        assert(self@.views =~= m.input_step(*ev).0.views);
        copied
    }

    /// The input events of one frame, when the editor has the focus (see
    /// `input_steps`); returns the text to put on the clipboard, if any.
    /// Without the focus nothing changes.
    pub fn handle_input(&mut self, events: &Vec<EditEvent>) -> (copied: Option<String>)
        requires
            old(self)@.wf(),
        ensures
            final(self)@.wf(),
            !old(self)@.editor_focused ==> final(self)@ == old(self)@ && copied.is_none(),
            old(self)@.editor_focused ==> {
                let r = old(self)@.input_steps(events@);
                &&& final(self)@ == r.0
                &&& match copied {
                    Some(t) => r.1 == Some(t@),
                    None => r.1.is_none(),
                }
            },
    {
        if !self.editor_focused {
            return None;
        }
        let ghost m = self@;
        let mut copied: Option<String> = None;
        let n = events.len();
        let mut i: usize = 0;
        while i < n
            invariant
                n == events@.len(),
                i <= n,
                self@.wf(),
                ({
                    let r = m.input_steps(events@.take(i as int));
                    &&& self@ == r.0
                    &&& match copied {
                        Some(t) => r.1 == Some(t@),
                        None => r.1.is_none(),
                    }
                }),
            decreases n - i,
        {
            assert(events@.take(i + 1).drop_last() =~= events@.take(i as int));
            assert(events@.take(i + 1).last() == events@[i as int]);
            let c = self.apply_input(&events[i]);
            match c {
                Some(t) => {
                    copied = Some(t);
                },
                None => {},
            }
            i = i + 1;
        }
        assert(events@.take(n as int) =~= events@);
        copied
    }

    /// Brings every buffer's line count and gutter width up to date.
    pub fn recalc_all(&mut self)
        requires
            old(self)@.wf(),
        ensures
            final(self)@ == old(self)@.recalculated(),
            final(self)@.wf(),
            forall|i: int|
                0 <= i < final(self)@.buffers.len() ==> !(#[trigger] final(self)@.buffers[i]).dirty_text
                    && final(self)@.buffers[i].lines_current(),
    {
        let ghost m = self@;
        let n = self.buffers.len();
        let mut i: usize = 0;
        while i < n
            invariant
                n == self@.buffers.len(),
                n == m.buffers.len(),
                i <= n,
                self@ == (WorkspaceModel { buffers: self@.buffers, ..m }),
                forall|k: int| 0 <= k < i ==> self@.buffers[k] == (#[trigger] m.buffers[k]).recalculated(),
                forall|k: int| i <= k < n ==> self@.buffers[k] == m.buffers[k],
            decreases n - i,
        {
            let ghost before = self.buffers@;
            self.buffers[i].recalc();
            assert(buffers_model(self.buffers@) =~= buffers_model(before).update(i as int, self.buffers@[i as int]@));
            i = i + 1;
        }
        assert(self@.buffers =~= m.buffers.map_values(|b: BufferModel| b.recalculated()));
    }

    /// The active view is `view_idx` and the editor has the focus.
    pub fn focus_view(&mut self, view_idx: usize)
        requires
            old(self)@.wf(),
            view_idx < old(self)@.views.len(),
        ensures
            final(self)@ == old(self)@.after_focus(view_idx),
            final(self)@.wf(),
    {
        self.editor_focused = true;
        self.active_view = view_idx;
    }

    /// The editor loses the focus.
    pub fn blur(&mut self)
        requires
            old(self)@.wf(),
        ensures
            final(self)@ == (WorkspaceModel { editor_focused: false, ..old(self)@ }),
            final(self)@.wf(),
    {
        self.editor_focused = false;
    }

    /// The char index under cell (`row`, `col`) of view `view_idx`.
    pub fn char_at_cell(&self, view_idx: usize, row: usize, col: usize) -> (idx: usize)
        requires
            self@.wf(),
            view_idx < self@.views.len(),
        ensures
            idx == self@.cell_in_view(view_idx as int, row, col),
            idx <= self@.buffers[view_idx as int].text.len(),
    {
        assert(self@.views[view_idx as int].buffer_idx == view_idx);
        let last = self.buffers.len() - 1;
        let b = self.views[view_idx].buffer_idx;
        let bi = if b <= last { b } else { last };
        self.buffers[bi].char_at_cell(row, col)
    }

    /// A drag starts at cell (`row`, `col`) of view `view_idx`: the cursor
    /// goes there and a selection is anchored there.
    pub fn press_at(&mut self, view_idx: usize, row: usize, col: usize)
        requires
            old(self)@.wf(),
            view_idx < old(self)@.views.len(),
        ensures
            final(self)@ == old(self)@.after_press(view_idx as int, row, col),
            final(self)@.wf(),
    {
        let ghost m = self@;
        let idx = self.char_at_cell(view_idx, row, col);
        assert(m.views[view_idx as int].buffer_idx == view_idx);
        self.views[view_idx].cursor_char_idx = idx;
        self.views[view_idx].selection_start = Some(idx);
        assert(self@.views =~= m.views.update(
            view_idx as int,
            EditorView { cursor_char_idx: idx, selection_start: Some(idx), ..m.views[view_idx as int] },
        ));
    }

    /// The pointer is dragged to cell (`row`, `col`) of view `view_idx`: the
    /// cursor follows it and the selection anchor stays.
    pub fn drag_to(&mut self, view_idx: usize, row: usize, col: usize)
        requires
            old(self)@.wf(),
            view_idx < old(self)@.views.len(),
        ensures
            final(self)@ == old(self)@.after_drag(view_idx as int, row, col),
            final(self)@.wf(),
    {
        let ghost m = self@;
        let idx = self.char_at_cell(view_idx, row, col);
        assert(m.views[view_idx as int].buffer_idx == view_idx);
        self.views[view_idx].cursor_char_idx = idx;
        assert(self@.views =~= m.views.update(
            view_idx as int,
            EditorView { cursor_char_idx: idx, ..m.views[view_idx as int] },
        ));
    }

    /// A click at cell (`row`, `col`) of view `view_idx`: the cursor goes
    /// there; without Shift the selection is dropped, with Shift a selection
    /// is anchored at the old cursor unless one is already anchored.
    pub fn click_at(&mut self, view_idx: usize, row: usize, col: usize, shift: bool)
        requires
            old(self)@.wf(),
            view_idx < old(self)@.views.len(),
        ensures
            final(self)@ == old(self)@.after_click(view_idx as int, row, col, shift),
            final(self)@.wf(),
    {
        let ghost m = self@;
        let idx = self.char_at_cell(view_idx, row, col);
        assert(m.views[view_idx as int].buffer_idx == view_idx);
        if !shift {
            self.views[view_idx].selection_start = None;
        } else if self.views[view_idx].selection_start.is_none() {
            self.views[view_idx].selection_start = Some(self.views[view_idx].cursor_char_idx);
        }
        self.views[view_idx].cursor_char_idx = idx;
        proof {
            let v = m.views[view_idx as int];
            let sel = if !shift {
                None
            } else if v.selection_start is None {
                Some(v.cursor_char_idx)
            } else {
                v.selection_start
            };
            assert(self@.views =~= m.views.update(
                view_idx as int,
                EditorView { cursor_char_idx: idx, selection_start: sel, ..v },
            ));
        }
    }

    /// The command palette's input is submitted: the palette closes and the
    /// command is logged as `"Cmd: " + input`.
    pub fn submit_command(&mut self, input: &str)
        requires
            old(self)@.wf(),
        ensures
            (WorkspaceModel { show_command_palette: false, ..old(self)@ }).logged(
                final(self)@,
                "Cmd: "@ + input@,
            ),
            final(self)@.wf(),
    {
        self.show_command_palette = false;
        let mut msg = String::from_str("Cmd: ");
        msg.append(input);
        self.add_log(msg.as_str());
    }

    /// The line of the active cursor and its column within that line, both
    /// counted from zero.
    pub fn cursor_line_col(&self) -> (r: (usize, usize))
        requires
            self@.wf(),
        ensures
            ({
                let m = self@;
                let t = m.buffers[m.active_buffer_index()].text;
                let c = m.views[m.active_view_index()].cursor_char_idx;
                let l = rope_char_line(t, c as int);
                r == (l as usize, (c - rope_line_start(t, l)) as usize)
            }),
    {
        let av = self.active_view_idx();
        let bi = self.active_buf();
        let cur = self.views[av].cursor_char_idx;
        let cl = self.buffers[bi].char_to_line(cur);
        let col = cur - self.buffers[bi].line_to_char(cl);
        (cl, col)
    }

    pub fn buffers_len(&self) -> (n: usize)
        ensures
            n == self@.buffers.len(),
    {
        self.buffers.len()
    }

    pub fn views_len(&self) -> (n: usize)
        ensures
            n == self@.views.len(),
    {
        self.views.len()
    }

    pub fn buffer(&self, i: usize) -> (b: &Buffer)
        requires
            i < self@.buffers.len(),
        ensures
            b@ == self@.buffers[i as int],
    {
        &self.buffers[i]
    }

    pub fn editor_view(&self, i: usize) -> (v: EditorView)
        requires
            i < self@.views.len(),
        ensures
            v == self@.views[i as int],
    {
        self.views[i]
    }

    pub fn logs(&self) -> (l: &Vec<String>)
        ensures
            logs_model(l@) == self@.logs,
    {
        &self.logs
    }

    pub fn active_view(&self) -> (v: usize)
        ensures
            v == self@.active_view,
    {
        self.active_view
    }

    pub fn editor_focused(&self) -> (b: bool)
        ensures
            b == self@.editor_focused,
    {
        self.editor_focused
    }

    pub fn show_right_panel(&self) -> (b: bool)
        ensures
            b == self@.show_right_panel,
    {
        self.show_right_panel
    }

    pub fn show_bottom_panel(&self) -> (b: bool)
        ensures
            b == self@.show_bottom_panel,
    {
        self.show_bottom_panel
    }

    pub fn show_command_palette(&self) -> (b: bool)
        ensures
            b == self@.show_command_palette,
    {
        self.show_command_palette
    }

    pub fn show_find_bar(&self) -> (b: bool)
        ensures
            b == self@.show_find_bar,
    {
        self.show_find_bar
    }

    pub fn loading_file(&self) -> (b: bool)
        ensures
            b == self@.loading_file,
    {
        self.loading_file
    }

    pub fn current_load_id(&self) -> (n: usize)
        ensures
            n == self@.current_load_id,
    {
        self.current_load_id
    }
}

}
