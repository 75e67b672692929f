//! Properties that span several operations of the editor.

use crate::buffer::{caret_fits, BufferModel, Caret, Snapshot, HISTORY_LIMIT};
use crate::editing::{
    cell_index, cell_line, cursor_down, cursor_up, edit_step, key_step, min_int,
    typed, EditEvent, EditKey,
};
use crate::lines::{lemma_char_line, lemma_line_start, lemma_on_line, lemma_starts_monotone};
use crate::rope::{rope_char_line, rope_line_count, rope_line_start};
use crate::shortcuts::{shortcut_spec, ShortcutKeys};
use crate::display::{icon_for, log_kind_of, LogKind};
use crate::syntax::{classify, TokenClass};
use crate::text::{char_uppercase, free_of_control, is_control_char, seq_contains};
use crate::workspace::{Command, WorkspaceModel};
use std::path::PathBuf;
use vstd::prelude::*;

verus! {

/// Undo followed by redo gives back the text, both histories and every
/// caret; the buffer is left marked as changed.
pub proof fn law_undo_then_redo(m: WorkspaceModel)
    requires
        m.wf(),
        m.buffers[m.active_buffer_index()].undo.len() > 0,
    ensures
        m.after_undo().after_redo() == (WorkspaceModel {
            buffers: m.buffers.update(
                m.active_buffer_index(),
                BufferModel {
                    dirty_text: true,
                    unsaved_changes: true,
                    ..m.buffers[m.active_buffer_index()]
                },
            ),
            ..m
        }),
{
    let bi = m.active_buffer_index();
    let av = m.active_view_index();
    let b = m.buffers[bi];
    let u = m.after_undo();
    let r = u.after_redo();
    assert(u.active_buffer_index() == bi);
    assert(u.active_view_index() == av);
    let e = b.undo.last();
    assert(b.undo.drop_last().push(Snapshot { text: e.text, cursor: e.cursor, selection: e.selection })
        =~= b.undo);
    assert(b.redo.push(b.snapshot(m.views[av].cursor_char_idx, m.views[av].selection_start)).drop_last()
        =~= b.redo);
    assert(r.buffers =~= m.buffers.update(
        bi,
        BufferModel { dirty_text: true, unsaved_changes: true, ..b },
    ));
    assert(r.views =~= m.views);
}

/// Redo followed by undo gives back the text, both histories and every
/// caret; the buffer is left marked as changed.
pub proof fn law_redo_then_undo(m: WorkspaceModel)
    requires
        m.wf(),
        m.buffers[m.active_buffer_index()].redo.len() > 0,
    ensures
        m.after_redo().after_undo() == (WorkspaceModel {
            buffers: m.buffers.update(
                m.active_buffer_index(),
                BufferModel {
                    dirty_text: true,
                    unsaved_changes: true,
                    ..m.buffers[m.active_buffer_index()]
                },
            ),
            ..m
        }),
{
    let bi = m.active_buffer_index();
    let av = m.active_view_index();
    let b = m.buffers[bi];
    let u = m.after_redo();
    let r = u.after_undo();
    assert(u.active_buffer_index() == bi);
    assert(u.active_view_index() == av);
    let e = b.redo.last();
    assert(b.redo.drop_last().push(Snapshot { text: e.text, cursor: e.cursor, selection: e.selection })
        =~= b.redo);
    assert(b.undo.push(b.snapshot(m.views[av].cursor_char_idx, m.views[av].selection_start)).drop_last()
        =~= b.undo);
    assert(r.buffers =~= m.buffers.update(
        bi,
        BufferModel { dirty_text: true, unsaved_changes: true, ..b },
    ));
    assert(r.views =~= m.views);
}

/// The input events that change the text and so record the state first.
pub open spec fn records_history(ev: EditEvent) -> bool {
    match ev {
        EditEvent::Copy => false,
        EditEvent::Paste(_) => true,
        EditEvent::Text(s) => free_of_control(s@),
        EditEvent::Key { key, shift } => key == EditKey::Backspace || key == EditKey::Enter,
    }
}

/// Undo right after an edit gives back the text and the caret from before
/// the edit; the redo history then holds just the edited state, and the
/// undo history is the one from before (less its oldest snapshot when it
/// was full).
pub proof fn law_edit_then_undo(m: WorkspaceModel, ev: EditEvent)
    requires
        m.wf(),
        records_history(ev),
    ensures
        ({
            let bi = m.active_buffer_index();
            let av = m.active_view_index();
            let e = m.input_step(ev).0;
            let u = e.after_undo();
            let b = m.buffers[bi];
            &&& u.buffers[bi].text == b.text
            &&& u.views == m.views
            &&& u.buffers[bi].redo == seq![e.buffers[bi].snapshot(e.views[av].cursor_char_idx, e.views[av].selection_start)]
            &&& u.buffers[bi].undo == (if b.undo.len() < HISTORY_LIMIT {
                b.undo
            } else {
                b.undo.drop_first()
            })
        }),
{
    let bi = m.active_buffer_index();
    let av = m.active_view_index();
    let b = m.buffers[bi];
    let v = m.views[av];
    let e = m.input_step(ev).0;
    assert(e.active_buffer_index() == bi);
    assert(e.active_view_index() == av);
    let pushed = b.undo.push(b.snapshot(v.cursor_char_idx, v.selection_start));
    let eb = e.buffers[bi];
    assert(eb.undo == (if pushed.len() > HISTORY_LIMIT {
        pushed.drop_first()
    } else {
        pushed
    }));
    assert(eb.redo.len() == 0);
    assert(eb.undo.last() == b.snapshot(v.cursor_char_idx, v.selection_start));
    let u = e.after_undo();
    if b.undo.len() < HISTORY_LIMIT {
        assert(eb.undo.drop_last() =~= b.undo);
    } else {
        assert(eb.undo.drop_last() =~= b.undo.drop_first());
    }
    assert(u.views =~= m.views);
    assert(u.buffers[bi].redo =~= seq![eb.snapshot(e.views[av].cursor_char_idx, e.views[av].selection_start)]);
}

/// Opening a split and closing it again leaves the editor as it was.
pub proof fn law_split_then_merge(m: WorkspaceModel)
    requires
        m.wf(),
    ensures
        m.after_split().after_merge() == m,
{
    let s = m.after_split();
    let n = m.buffers.len();
    assert(s.views.drop_last() =~= m.views);
    assert(s.views.last().buffer_idx == n);
    assert(!(exists|j: int| 0 <= j < m.views.len() && (#[trigger] m.views[j]).buffer_idx == n));
    assert(s.merge_drops_buffer());
    assert(s.merged_views() =~= m.views);
    assert(s.buffers.remove(n as int) =~= m.buffers);
}

/// Left then Right (without Shift) brings the cursor back where it was,
/// when it was not at the start.
pub proof fn law_left_then_right(b: BufferModel, c: Caret)
    requires
        b.wf(),
        0 < c.cursor <= b.text.len(),
    ensures
        ({
            let l = key_step(b, c, EditKey::ArrowLeft, false);
            let r = key_step(l.0, l.1, EditKey::ArrowRight, false);
            r.0 == b && r.1 == (Caret { cursor: c.cursor, selection: None })
        }),
{
}

/// Typing a character with nothing selected and then pressing Backspace
/// gives back the text, and the cursor returns to where it was.
pub proof fn law_type_then_backspace(b: BufferModel, c: Caret, ch: char)
    requires
        b.wf(),
        c.cursor <= b.text.len() < usize::MAX,
        c.selection is None,
    ensures
        ({
            let t = typed(b, c, seq![ch]);
            let k = key_step(t.0, t.1, EditKey::Backspace, false);
            k.0.text == b.text && k.1 == c
        }),
{
    let t = typed(b, c, seq![ch]);
    let tt = t.0.text;
    assert(tt =~= b.text.take(c.cursor as int) + seq![ch] + b.text.skip(c.cursor as int));
    assert(tt.take(c.cursor as int) =~= b.text.take(c.cursor as int));
    assert(tt.skip(c.cursor + 1) =~= b.text.skip(c.cursor as int));
    let k = key_step(t.0, t.1, EditKey::Backspace, false);
    assert(k.0.text =~= b.text);
}

/// Copying changes neither the text, nor the history, nor the caret.
pub proof fn law_copy_changes_nothing(b: BufferModel, c: Caret)
    ensures
        edit_step(b, c, EditEvent::Copy).0 == b,
        edit_step(b, c, EditEvent::Copy).1 == c,
{
}


/// Up moves the cursor onto the line above, when there is one, and stays
/// within the text.
pub proof fn law_cursor_up_lands(t: Seq<char>, c: int)
    requires
        0 <= c <= t.len(),
    ensures
        0 <= cursor_up(t, c) <= t.len(),
        rope_char_line(t, cursor_up(t, c)) == if rope_char_line(t, c) > 0 {
            rope_char_line(t, c) - 1
        } else {
            rope_char_line(t, c)
        },
{
    lemma_char_line(t, c);
    let cl = rope_char_line(t, c);
    if cl > 0 {
        lemma_starts_monotone(t, cl - 1, cl);
        lemma_line_start(t, cl - 1);
        lemma_line_start(t, cl);
        lemma_on_line(t, cl - 1, cursor_up(t, c));
    } else {
        lemma_on_line(t, cl, c);
    }
}

/// Down moves the cursor onto the line below, when there is one, and stays
/// within the text.
pub proof fn law_cursor_down_lands(t: Seq<char>, c: int)
    requires
        0 <= c <= t.len(),
    ensures
        0 <= cursor_down(t, c) <= t.len(),
        rope_char_line(t, cursor_down(t, c)) == if rope_char_line(t, c) + 1 < rope_line_count(t) {
            rope_char_line(t, c) + 1
        } else {
            rope_char_line(t, c)
        },
{
    lemma_char_line(t, c);
    let cl = rope_char_line(t, c);
    if cl + 1 < rope_line_count(t) {
        lemma_starts_monotone(t, cl + 1, cl + 2);
        lemma_line_start(t, cl + 1);
        lemma_line_start(t, cl + 2);
        lemma_on_line(t, cl + 1, cursor_down(t, c));
    } else {
        lemma_on_line(t, cl, c);
    }
}

/// The char under a cell lies within the text, on the line the row is
/// clamped to, and before the start of the next line.
pub proof fn law_cell_lands(t: Seq<char>, row: int, col: int)
    requires
        row >= 0,
        col >= 0,
    ensures
        0 <= cell_index(t, row, col) <= t.len(),
        rope_char_line(t, cell_index(t, row, col)) == cell_line(t, row),
        cell_line(t, row) + 1 < rope_line_count(t) ==> cell_index(t, row, col) < rope_line_start(
            t,
            cell_line(t, row) + 1,
        ),
{
    let cl = cell_line(t, row);
    lemma_starts_monotone(t, cl, cl + 1);
    lemma_line_start(t, cl);
    lemma_line_start(t, cl + 1);
    lemma_on_line(t, cl, cell_index(t, row, col));
}

/// Moving the pointer right along a row, or down a column, never moves the
/// char under it backwards.
pub proof fn law_cell_monotone(t: Seq<char>, row1: int, col1: int, row2: int, col2: int)
    requires
        0 <= row1,
        0 <= col1,
        (row1 == row2 && col1 <= col2) || (row1 <= row2 && col1 == col2),
    ensures
        cell_index(t, row1, col1) <= cell_index(t, row2, col2),
{
    let l1 = cell_line(t, row1);
    let l2 = cell_line(t, row2);
    if l1 < l2 {
        law_cell_lands(t, row1, col1);
        lemma_line_start(t, l1 + 1);
        lemma_starts_monotone(t, l1 + 1, l2);
    }
}

/// Bringing line counts up to date leaves no buffer dirty and every
/// buffer's line count and gutter width those of its text.
pub proof fn law_recalc_settles(m: WorkspaceModel)
    requires
        m.wf(),
    ensures
        forall|i: int|
            0 <= i < m.buffers.len() ==> {
                let b = (#[trigger] m.buffers[i]).recalculated();
                !b.dirty_text && b.lines_current()
            },
{
}

/// Recording the state before an edit keeps at most `HISTORY_LIMIT`
/// snapshots: one more than before, the oldest dropped once full.
pub proof fn law_push_undo_capped(b: BufferModel, cursor: usize, selection: Option<usize>)
    requires
        b.undo.len() <= HISTORY_LIMIT,
    ensures
        b.pushed_undo(cursor, selection).undo.len() == min_int(b.undo.len() + 1int, HISTORY_LIMIT as int),
        b.pushed_undo(cursor, selection).undo.last() == b.snapshot(cursor, selection),
        b.undo.len() == HISTORY_LIMIT ==> b.pushed_undo(cursor, selection).undo == b.undo.drop_first().push(
            b.snapshot(cursor, selection),
        ),
{
    if b.undo.len() == HISTORY_LIMIT {
        assert(b.undo.push(b.snapshot(cursor, selection)).drop_first() =~= b.undo.drop_first().push(
            b.snapshot(cursor, selection),
        ));
    }
}

/// Recording the state, replacing the text and caret by anything, and
/// undoing, gives back the text and caret from before; the redo history
/// then holds just the replaced state, and the undo history is the one from
/// before (less its oldest snapshot when it was full).
pub proof fn law_record_change_undo(
    b: BufferModel,
    c0: usize,
    s0: Option<usize>,
    t1: Seq<char>,
    c1: usize,
    s1: Option<usize>,
)
    ensures
        ({
            let changed = b.pushed_undo(c0, s0).with_text(t1);
            let u = changed.undone(c1, s1);
            &&& u.text == b.text
            &&& changed.undo.last().cursor == c0
            &&& changed.undo.last().selection == s0
            &&& u.redo == seq![Snapshot { text: t1, cursor: c1, selection: s1 }]
            &&& u.undo == (if b.undo.len() < HISTORY_LIMIT {
                b.undo
            } else {
                b.undo.drop_first()
            })
        }),
{
    let pushed = b.undo.push(b.snapshot(c0, s0));
    if pushed.len() > HISTORY_LIMIT {
        assert(pushed.drop_first().drop_last() =~= b.undo.drop_first());
    } else {
        assert(pushed.drop_last() =~= b.undo);
    }
    let changed = b.pushed_undo(c0, s0).with_text(t1);
    assert(changed.undone(c1, s1).redo =~= seq![Snapshot { text: t1, cursor: c1, selection: s1 }]);
}

/// How many characters an input event can add to a text.
pub open spec fn growth(ev: EditEvent) -> nat {
    match ev {
        EditEvent::Paste(s) => s@.len(),
        EditEvent::Text(s) => s@.len(),
        EditEvent::Key { key, shift } => if key == EditKey::Enter {
            1
        } else {
            0
        },
        EditEvent::Copy => 0,
    }
}

proof fn lemma_pushed_undo_wf(b: BufferModel, c: Caret)
    requires
        b.wf(),
        caret_fits(b.text.len(), c.cursor, c.selection),
    ensures
        b.pushed_undo(c.cursor, c.selection).wf(),
        b.pushed_undo(c.cursor, c.selection).dirty_text,
{
    let p = b.pushed_undo(c.cursor, c.selection);
    let pushed = b.undo.push(b.snapshot(c.cursor, c.selection));
    assert forall|i: int| 0 <= i < p.undo.len() implies (#[trigger] p.undo[i]).fits() by {
        if pushed.len() > HISTORY_LIMIT {
            assert(p.undo[i] == pushed[i + 1]);
        }
    }
}

/// An input event keeps a well-formed buffer well formed, with the caret
/// inside the text, when the text can grow by what the event adds; a
/// buffer whose text changes is marked dirty.
pub proof fn law_edit_step_wf(b: BufferModel, c: Caret, ev: EditEvent)
    requires
        b.wf(),
        caret_fits(b.text.len(), c.cursor, c.selection),
        b.text.len() + growth(ev) <= usize::MAX,
    ensures
        ({
            let r = edit_step(b, c, ev);
            &&& r.0.wf()
            &&& caret_fits(r.0.text.len(), r.1.cursor, r.1.selection)
            &&& (r.0.dirty_text || r.0 == b)
        }),
{
    match ev {
        EditEvent::Copy => {},
        EditEvent::Paste(s) => {
            lemma_pushed_undo_wf(b, c);
        },
        EditEvent::Text(s) => {
            lemma_pushed_undo_wf(b, c);
        },
        EditEvent::Key { key, shift } => {
            let c0 = if !shift && (key == EditKey::ArrowLeft || key == EditKey::ArrowRight || key
                == EditKey::ArrowUp || key == EditKey::ArrowDown) {
                Caret { selection: None, ..c }
            } else {
                c
            };
            lemma_pushed_undo_wf(b, c0);
            if key == EditKey::ArrowUp {
                law_cursor_up_lands(b.text, c0.cursor as int);
            }
            if key == EditKey::ArrowDown {
                law_cursor_down_lands(b.text, c0.cursor as int);
            }
        },
    }
}

/// An input event in the active view keeps the editor well formed, when the
/// active text can grow by what the event adds.
pub proof fn law_input_keeps_wf(m: WorkspaceModel, ev: EditEvent)
    requires
        m.wf(),
        m.buffers[m.active_buffer_index()].text.len() + growth(ev) <= usize::MAX,
    ensures
        m.input_step(ev).0.wf(),
{
    let av = m.active_view_index();
    let bi = m.active_buffer_index();
    assert(m.views[av].buffer_idx == av);
    law_edit_step_wf(m.buffers[bi], m.views[av].caret(), ev);
    let r = m.input_step(ev).0;
    assert forall|i: int| 0 <= i < r.views.len() implies (#[trigger] r.views[i]).buffer_idx == i by {
        assert(m.views[i].buffer_idx == i);
    }
    assert forall|i: int| 0 <= i < r.views.len() implies caret_fits(
        r.buffers[i].text.len(),
        (#[trigger] r.views[i]).cursor_char_idx,
        r.views[i].selection_start,
    ) by {
        assert(m.views[i].buffer_idx == i);
        assert(caret_fits(m.buffers[i].text.len(), m.views[i].cursor_char_idx, m.views[i].selection_start));
    }
    assert forall|i: int| 0 <= i < r.buffers.len() implies (#[trigger] r.buffers[i]).dirty_text
        || r.buffers[i].lines_current() by {
        assert(m.buffers[i].dirty_text || m.buffers[i].lines_current());
    }
}

proof fn lemma_view_update_wf(m: WorkspaceModel, r: WorkspaceModel, k: int)
    requires
        m.wf(),
        0 <= k < m.views.len(),
        r.buffers.len() == m.buffers.len(),
        r.views.len() == m.views.len(),
        r.logs == m.logs,
        r.active_view == m.active_view,
        r.views[k].buffer_idx == k,
        r.buffers[k].wf(),
        r.buffers[k].dirty_text || r.buffers[k].lines_current(),
        caret_fits(r.buffers[k].text.len(), r.views[k].cursor_char_idx, r.views[k].selection_start),
        forall|i: int| 0 <= i < m.views.len() && i != k ==> r.views[i] == m.views[i] && r.buffers[i] == m.buffers[i],
    ensures
        r.wf(),
{
    assert forall|i: int| 0 <= i < r.views.len() implies (#[trigger] r.views[i]).buffer_idx == i by {
        assert(m.views[i].buffer_idx == i);
    }
    assert forall|i: int| 0 <= i < r.views.len() implies caret_fits(
        r.buffers[i].text.len(),
        (#[trigger] r.views[i]).cursor_char_idx,
        r.views[i].selection_start,
    ) by {
        assert(m.views[i].buffer_idx == i);
        assert(caret_fits(m.buffers[i].text.len(), m.views[i].cursor_char_idx, m.views[i].selection_start));
    }
    assert forall|i: int| 0 <= i < r.buffers.len() implies (#[trigger] r.buffers[i]).wf() by {
        assert(m.buffers[i].wf());
    }
    assert forall|i: int| 0 <= i < r.buffers.len() implies (#[trigger] r.buffers[i]).dirty_text
        || r.buffers[i].lines_current() by {
        assert(m.buffers[i].dirty_text || m.buffers[i].lines_current());
    }
}

/// Undo keeps the editor well formed.
pub proof fn law_undo_keeps_wf(m: WorkspaceModel)
    requires
        m.wf(),
    ensures
        m.after_undo().wf(),
{
    let av = m.active_view_index();
    let b = m.buffers[av];
    assert(m.views[av].buffer_idx == av);
    if b.undo.len() > 0 {
        let u = b.undone(m.views[av].cursor_char_idx, m.views[av].selection_start);
        assert(b.undo[b.undo.len() - 1].fits());
        assert forall|i: int| 0 <= i < u.redo.len() implies (#[trigger] u.redo[i]).fits() by {
            if i < b.redo.len() {
                assert(b.redo[i].fits());
            }
        }
        assert forall|i: int| 0 <= i < u.undo.len() implies (#[trigger] u.undo[i]).fits() by {
            assert(b.undo[i].fits());
        }
        lemma_view_update_wf(m, m.after_undo(), av);
    }
}

/// Redo keeps the editor well formed.
pub proof fn law_redo_keeps_wf(m: WorkspaceModel)
    requires
        m.wf(),
    ensures
        m.after_redo().wf(),
{
    let av = m.active_view_index();
    let b = m.buffers[av];
    assert(m.views[av].buffer_idx == av);
    if b.redo.len() > 0 {
        let u = b.redone(m.views[av].cursor_char_idx, m.views[av].selection_start);
        assert(b.redo[b.redo.len() - 1].fits());
        assert forall|i: int| 0 <= i < u.undo.len() implies (#[trigger] u.undo[i]).fits() by {
            if i < b.undo.len() {
                assert(b.undo[i].fits());
            }
        }
        assert forall|i: int| 0 <= i < u.redo.len() implies (#[trigger] u.redo[i]).fits() by {
            assert(b.redo[i].fits());
        }
        lemma_view_update_wf(m, m.after_redo(), av);
    }
}

/// Taking in a loaded file keeps the editor well formed.
pub proof fn law_load_keeps_wf(m: WorkspaceModel, text: Seq<char>, path: PathBuf, lines: usize)
    requires
        m.wf(),
        text.len() <= usize::MAX,
    ensures
        m.after_load(text, path, lines).wf(),
{
    let av = m.active_view_index();
    assert(m.views[av].buffer_idx == av);
    let r = m.after_load(text, path, lines);
    let r1 = crate::workspace::WorkspaceModel { loading_file: m.loading_file, ..r };
    lemma_view_update_wf(m, r1, av);
}

/// Logging a line keeps the editor well formed.
pub proof fn law_log_keeps_wf(m: WorkspaceModel, line: Seq<char>)
    requires
        m.wf(),
    ensures
        m.with_log(line).wf(),
{
}

/// Every command keeps the editor well formed (a split needs room for one
/// more buffer index).
pub proof fn law_command_keeps_wf(m: WorkspaceModel, cmd: Command)
    requires
        m.wf(),
        cmd is SplitEditor ==> m.buffers.len() < usize::MAX,
    ensures
        m.after_command(cmd).wf(),
{
    match cmd {
        Command::Undo => law_undo_keeps_wf(m),
        Command::Redo => law_redo_keeps_wf(m),
        Command::SplitEditor => {
            let r = m.after_split();
            let n = m.buffers.len();
            assert(r.views[n as int].buffer_idx == n);
            assert forall|i: int| 0 <= i < r.views.len() implies (#[trigger] r.views[i]).buffer_idx == i by {
                if i < n {
                    assert(m.views[i].buffer_idx == i);
                }
            }
            assert forall|i: int| 0 <= i < r.views.len() implies caret_fits(
                r.buffers[i].text.len(),
                (#[trigger] r.views[i]).cursor_char_idx,
                r.views[i].selection_start,
            ) by {
                if i < n {
                    assert(m.views[i].buffer_idx == i);
                    assert(caret_fits(m.buffers[i].text.len(), m.views[i].cursor_char_idx, m.views[i].selection_start));
                }
            }
            assert forall|i: int| 0 <= i < r.buffers.len() implies (#[trigger] r.buffers[i]).wf() by {
                if i < n {
                    assert(m.buffers[i].wf());
                }
            }
            assert forall|i: int| 0 <= i < r.buffers.len() implies (#[trigger] r.buffers[i]).dirty_text
                || r.buffers[i].lines_current() by {
                if i < n {
                    assert(m.buffers[i].dirty_text || m.buffers[i].lines_current());
                }
            }
        },
        Command::MergeEditor => {
            if m.views.len() > 1 {
                let n = m.views.len();
                let rest = m.views.drop_last();
                assert(m.views[n - 1].buffer_idx == n - 1);
                assert forall|j: int| 0 <= j < rest.len() implies (#[trigger] rest[j]).buffer_idx != n - 1 by {
                    assert(m.views[j].buffer_idx == j);
                }
                assert(m.merge_drops_buffer());
                assert(m.merged_views() =~= rest);
                let r = m.after_merge();
                assert(r.buffers =~= m.buffers.drop_last());
                assert forall|i: int| 0 <= i < r.views.len() implies (#[trigger] r.views[i]).buffer_idx == i by {
                    assert(m.views[i].buffer_idx == i);
                }
                assert forall|i: int| 0 <= i < r.views.len() implies caret_fits(
                    r.buffers[i].text.len(),
                    (#[trigger] r.views[i]).cursor_char_idx,
                    r.views[i].selection_start,
                ) by {
                    assert(m.views[i].buffer_idx == i);
                    assert(caret_fits(m.buffers[i].text.len(), m.views[i].cursor_char_idx, m.views[i].selection_start));
                }
                assert forall|i: int| 0 <= i < r.buffers.len() implies (#[trigger] r.buffers[i]).wf() by {
                    assert(m.buffers[i].wf());
                }
                assert forall|i: int| 0 <= i < r.buffers.len() implies (#[trigger] r.buffers[i]).dirty_text
                    || r.buffers[i].lines_current() by {
                    assert(m.buffers[i].dirty_text || m.buffers[i].lines_current());
                }
            }
        },
        _ => {},
    }
}

/// One thing that can happen to the editor in a frame: a command from a
/// shortcut, menu or button, an input event, a load starting or arriving, a
/// log line, a save finishing, the line counts being brought up to date, or
/// the pointer focusing, pressing, dragging or clicking in a view.
pub enum Step {
    Command(Command),
    Input(EditEvent),
    LoadStart,
    Load(Seq<char>, PathBuf, usize),
    Log(Seq<char>),
    SaveDone(usize, bool),
    Recalc,
    Focus(usize),
    Blur,
    Press(usize, usize, usize),
    Drag(usize, usize, usize),
    Click(usize, usize, usize, bool),
}

/// What a step does to the editor.
pub open spec fn after_step(m: WorkspaceModel, s: Step) -> WorkspaceModel {
    match s {
        Step::Command(cmd) => m.after_command(cmd),
        Step::Input(ev) => if m.editor_focused {
            m.input_step(ev).0
        } else {
            m
        },
        Step::LoadStart => WorkspaceModel {
            current_load_id: (m.current_load_id + 1) as usize,
            loading_file: true,
            ..m
        },
        Step::Load(text, path, lines) => m.after_load(text, path, lines),
        Step::Log(line) => m.with_log(line),
        Step::SaveDone(k, saved) => if saved {
            WorkspaceModel {
                buffers: m.buffers.update(
                    k as int,
                    BufferModel { unsaved_changes: false, ..m.buffers[k as int] },
                ),
                ..m
            }
        } else {
            m
        },
        Step::Recalc => WorkspaceModel {
            buffers: m.buffers.map_values(|b: BufferModel| b.recalculated()),
            ..m
        },
        Step::Focus(vi) => m.after_focus(vi),
        Step::Blur => WorkspaceModel { editor_focused: false, ..m },
        Step::Press(vi, row, col) => m.after_press(vi as int, row, col),
        Step::Drag(vi, row, col) => m.after_drag(vi as int, row, col),
        Step::Click(vi, row, col, shift) => m.after_click(vi as int, row, col, shift),
    }
}

/// The machine limits a step needs: room for one more buffer, a load
/// number or a longer text; and views and buffers named by index exist.
pub open spec fn step_allowed(m: WorkspaceModel, s: Step) -> bool {
    match s {
        Step::Command(cmd) => cmd is SplitEditor ==> m.buffers.len() < usize::MAX,
        Step::Input(ev) => m.buffers[m.active_buffer_index()].text.len() + growth(ev) <= usize::MAX,
        Step::LoadStart => m.current_load_id < usize::MAX,
        Step::Load(text, path, lines) => text.len() <= usize::MAX,
        Step::SaveDone(k, saved) => k < m.buffers.len(),
        Step::Focus(vi) => vi < m.views.len(),
        Step::Press(vi, row, col) => vi < m.views.len(),
        Step::Drag(vi, row, col) => vi < m.views.len(),
        Step::Click(vi, row, col, shift) => vi < m.views.len(),
        _ => true,
    }
}

/// The steps in order.
pub open spec fn run_steps(m: WorkspaceModel, steps: Seq<Step>) -> WorkspaceModel
    decreases steps.len(),
{
    if steps.len() == 0 {
        m
    } else {
        after_step(run_steps(m, steps.drop_last()), steps.last())
    }
}

/// Every allowed step keeps the editor well formed.
pub proof fn law_step_keeps_wf(m: WorkspaceModel, s: Step)
    requires
        m.wf(),
        step_allowed(m, s),
    ensures
        after_step(m, s).wf(),
{
    match s {
        Step::Command(cmd) => law_command_keeps_wf(m, cmd),
        Step::Input(ev) => {
            if m.editor_focused {
                law_input_keeps_wf(m, ev);
            }
        },
        Step::Load(text, path, lines) => law_load_keeps_wf(m, text, path, lines),
        Step::SaveDone(k, saved) => {
            if saved {
                let r = after_step(m, s);
                assert(m.views[k as int].buffer_idx == k);
                lemma_view_update_wf(m, r, k as int);
            }
        },
        Step::Recalc => {
            let r = after_step(m, s);
            assert forall|i: int| 0 <= i < r.views.len() implies caret_fits(
                r.buffers[i].text.len(),
                (#[trigger] r.views[i]).cursor_char_idx,
                r.views[i].selection_start,
            ) by {
                assert(caret_fits(m.buffers[i].text.len(), m.views[i].cursor_char_idx, m.views[i].selection_start));
            }
            assert forall|i: int| 0 <= i < r.buffers.len() implies (#[trigger] r.buffers[i]).wf() by {
                assert(m.buffers[i].wf());
            }
        },
        Step::Press(vi, row, col) => {
            assert(m.views[vi as int].buffer_idx == vi);
            law_cell_lands(m.buffers[vi as int].text, row as int, col as int);
            lemma_view_update_wf(m, after_step(m, s), vi as int);
        },
        Step::Drag(vi, row, col) => {
            assert(m.views[vi as int].buffer_idx == vi);
            assert(caret_fits(m.buffers[vi as int].text.len(), m.views[vi as int].cursor_char_idx, m.views[vi as int].selection_start));
            law_cell_lands(m.buffers[vi as int].text, row as int, col as int);
            lemma_view_update_wf(m, after_step(m, s), vi as int);
        },
        Step::Click(vi, row, col, shift) => {
            assert(m.views[vi as int].buffer_idx == vi);
            assert(caret_fits(m.buffers[vi as int].text.len(), m.views[vi as int].cursor_char_idx, m.views[vi as int].selection_start));
            law_cell_lands(m.buffers[vi as int].text, row as int, col as int);
            lemma_view_update_wf(m, after_step(m, s), vi as int);
        },
        _ => {},
    }
}

/// Whatever is clicked, typed or received in a frame, within the machine's
/// limits, the editor stays well formed: every view has its own buffer,
/// every index in use is in range, every caret and every recorded caret
/// lies inside its text, the histories and the log stay within their
/// bounds, and a stale line count is marked dirty.
pub proof fn law_steps_keep_wf(m: WorkspaceModel, steps: Seq<Step>)
    requires
        m.wf(),
        forall|i: int|
            0 <= i < steps.len() ==> step_allowed(run_steps(m, steps.take(i)), #[trigger] steps[i]),
    ensures
        run_steps(m, steps).wf(),
    decreases steps.len(),
{
    if steps.len() > 0 {
        let prev = steps.drop_last();
        assert forall|i: int| 0 <= i < prev.len() implies step_allowed(
            run_steps(m, prev.take(i)),
            #[trigger] prev[i],
        ) by {
            assert(prev.take(i) =~= steps.take(i));
            assert(prev[i] == steps[i]);
        }
        law_steps_keep_wf(m, prev);
        let k = steps.len() - 1;
        assert(steps.take(k) =~= prev);
        assert(step_allowed(run_steps(m, steps.take(k)), steps[k]));
        law_step_keeps_wf(run_steps(m, prev), steps.last());
    }
}

/// A frame ends by bringing line counts up to date; whatever happened
/// before in it, every buffer's line count and gutter width are then those
/// of its text and none is dirty.
pub proof fn law_frame_settles(m: WorkspaceModel, steps: Seq<Step>)
    requires
        m.wf(),
        steps.len() > 0,
        steps.last() is Recalc,
        forall|i: int|
            0 <= i < steps.len() ==> step_allowed(run_steps(m, steps.take(i)), #[trigger] steps[i]),
    ensures
        forall|i: int|
            0 <= i < run_steps(m, steps).buffers.len() ==> !(#[trigger] run_steps(m, steps).buffers[i]).dirty_text
                && run_steps(m, steps).buffers[i].lines_current(),
{
    let prev = steps.drop_last();
    assert forall|i: int| 0 <= i < prev.len() implies step_allowed(
        run_steps(m, prev.take(i)),
        #[trigger] prev[i],
    ) by {
        assert(prev.take(i) =~= steps.take(i));
        assert(prev[i] == steps[i]);
    }
    law_steps_keep_wf(m, prev);
    law_recalc_settles(run_steps(m, prev));
}

/// Copy yields exactly the characters between the two ends of the
/// selection, whichever end is the anchor, and nothing for an empty or
/// missing selection; the buffer and the caret stay as they are.
pub proof fn law_copy_takes_the_selection(b: BufferModel, cursor: usize, anchor: usize)
    ensures
        ({
            let c = Caret { cursor, selection: Some(anchor) };
            let r = edit_step(b, c, EditEvent::Copy);
            &&& r.0 == b
            &&& r.1 == c
            &&& r.2 == (if anchor < cursor {
                Some(b.text.subrange(anchor as int, cursor as int))
            } else if cursor < anchor {
                Some(b.text.subrange(cursor as int, anchor as int))
            } else {
                None
            })
        }),
        edit_step(b, Caret { cursor, selection: Some(anchor) }, EditEvent::Copy).2 == edit_step(
            b,
            Caret { cursor: anchor, selection: Some(cursor) },
            EditEvent::Copy,
        ).2,
        edit_step(b, Caret { cursor, selection: None }, EditEvent::Copy).2 == None::<Seq<char>>,
{
}

/// Backspace with a selection deletes the characters between its two ends,
/// whichever end is the anchor, and leaves the caret at the lower end with
/// no selection; without one it deletes the character before the caret, if
/// there is one. Either way the state before is recorded for undo.
pub proof fn law_backspace_deletes(b: BufferModel, cursor: usize, selection: Option<usize>, shift: bool)
    requires
        caret_fits(b.text.len(), cursor, selection),
    ensures
        ({
            let t = b.text;
            let r = edit_step(
                b,
                Caret { cursor, selection },
                EditEvent::Key { key: EditKey::Backspace, shift },
            );
            &&& r.2 == None::<Seq<char>>
            &&& r.0.undo.last() == Snapshot { text: t, cursor, selection }
            &&& r.0.redo.len() == 0
            &&& match selection {
                Some(anchor) => {
                    let lo = if anchor < cursor { anchor } else { cursor };
                    let hi = if anchor < cursor { cursor } else { anchor };
                    &&& r.0.text == t.take(lo as int) + t.skip(hi as int)
                    &&& r.0.text.len() == t.len() - (hi - lo)
                    &&& r.1 == Caret { cursor: lo, selection: None }
                },
                None => if cursor > 0 {
                    &&& r.0.text == t.take(cursor - 1) + t.skip(cursor as int)
                    &&& r.0.text.len() == t.len() - 1
                    &&& r.1 == Caret { cursor: (cursor - 1) as usize, selection: None }
                } else {
                    &&& r.0.text == t
                    &&& r.1 == Caret { cursor, selection: None }
                },
            }
        }),
{
    let c = Caret { cursor, selection };
    let r = edit_step(b, c, EditEvent::Key { key: EditKey::Backspace, shift });
    lemma_pushed_undo_last(b, cursor, selection);
    match selection {
        Some(anchor) => {
            let lo = if anchor < cursor { anchor } else { cursor };
            let hi = if anchor < cursor { cursor } else { anchor };
            assert(r.0.text =~= b.text.take(lo as int) + b.text.skip(hi as int));
        },
        None => {},
    }
}

/// The snapshot recorded for undo is the one of the state before.
proof fn lemma_pushed_undo_last(b: BufferModel, cursor: usize, selection: Option<usize>)
    ensures
        b.pushed_undo(cursor, selection).undo.last() == (Snapshot { text: b.text, cursor, selection }),
        b.pushed_undo(cursor, selection).redo.len() == 0,
{
}

/// The characters of line `l` before its line break (all of them on a
/// last line with none): where a column on that line can go.
pub open spec fn line_room(t: Seq<char>, l: int) -> int {
    let n = rope_line_start(t, l + 1) - rope_line_start(t, l);
    if n > 0 {
        n - 1
    } else {
        0
    }
}

/// Arrow Up moves the caret from column `col` of line `l > 0` to column
/// `col` of line `l - 1`, or to the last place before that line's break
/// when the line is shorter; on the first line it stays. The text is left
/// alone, and the selection is kept only with Shift.
pub proof fn law_arrow_up_keeps_the_column(b: BufferModel, c: Caret, shift: bool)
    requires
        b.wf(),
        c.cursor <= b.text.len(),
    ensures
        ({
            let t = b.text;
            let l = rope_char_line(t, c.cursor as int);
            let col = c.cursor - rope_line_start(t, l);
            let r = edit_step(b, c, EditEvent::Key { key: EditKey::ArrowUp, shift });
            &&& r.0 == b
            &&& r.2 == None::<Seq<char>>
            &&& r.1.selection == (if shift { c.selection } else { None })
            &&& r.1.cursor == (if l > 0 {
                rope_line_start(t, l - 1) + (if col <= line_room(t, l - 1) { col } else { line_room(t, l - 1) })
            } else {
                c.cursor as int
            })
        }),
{
    law_cursor_up_lands(b.text, c.cursor as int);
}

/// Arrow Down moves the caret from column `col` of line `l` to column `col`
/// of line `l + 1`, or to the last place before that line's break (its end,
/// on a last line) when the line is shorter; on the last line it stays. The
/// text is left alone, and the selection is kept only with Shift.
pub proof fn law_arrow_down_keeps_the_column(b: BufferModel, c: Caret, shift: bool)
    requires
        b.wf(),
        c.cursor <= b.text.len(),
    ensures
        ({
            let t = b.text;
            let l = rope_char_line(t, c.cursor as int);
            let col = c.cursor - rope_line_start(t, l);
            let r = edit_step(b, c, EditEvent::Key { key: EditKey::ArrowDown, shift });
            &&& r.0 == b
            &&& r.2 == None::<Seq<char>>
            &&& r.1.selection == (if shift { c.selection } else { None })
            &&& r.1.cursor == (if l + 1 < rope_line_count(t) {
                rope_line_start(t, l + 1) + (if col <= line_room(t, l + 1) { col } else { line_room(t, l + 1) })
            } else {
                c.cursor as int
            })
        }),
{
    law_cursor_down_lands(b.text, c.cursor as int);
}

/// Without Ctrl the shortcut keys ask for no command but, for Escape,
/// dismissing the overlays.
pub proof fn law_shortcuts_need_ctrl(k: ShortcutKeys)
    requires
        !k.ctrl,
    ensures
        shortcut_spec(k) == (if k.escape {
            seq![Command::DismissOverlays]
        } else {
            seq![]
        }),
{
    if k.escape {
        assert(shortcut_spec(k) =~= seq![Command::DismissOverlays]);
    } else {
        assert(shortcut_spec(k) =~= Seq::<Command>::empty());
    }
}

/// Every word of the keyword list is coloured as a keyword.
pub proof fn law_keywords_are_coloured()
    ensures
        classify("pub"@) == TokenClass::Keyword,
        classify("fn"@) == TokenClass::Keyword,
        classify("let"@) == TokenClass::Keyword,
        classify("mut"@) == TokenClass::Keyword,
        classify("use"@) == TokenClass::Keyword,
        classify("mod"@) == TokenClass::Keyword,
        classify("impl"@) == TokenClass::Keyword,
        classify("trait"@) == TokenClass::Keyword,
        classify("enum"@) == TokenClass::Keyword,
        classify("match"@) == TokenClass::Keyword,
        classify("if"@) == TokenClass::Keyword,
        classify("else"@) == TokenClass::Keyword,
        classify("for"@) == TokenClass::Keyword,
        classify("while"@) == TokenClass::Keyword,
        classify("loop"@) == TokenClass::Keyword,
        classify("return"@) == TokenClass::Keyword,
        classify("struct"@) == TokenClass::Keyword,
        classify("type"@) == TokenClass::Keyword,
        classify("where"@) == TokenClass::Keyword,
        classify("async"@) == TokenClass::Keyword,
        classify("await"@) == TokenClass::Keyword,
        classify("move"@) == TokenClass::Keyword,
        classify("ref"@) == TokenClass::Keyword,
        classify("in"@) == TokenClass::Keyword,
        classify("const"@) == TokenClass::Keyword,
        classify("static"@) == TokenClass::Keyword,
        classify("unsafe"@) == TokenClass::Keyword,
        classify("extern"@) == TokenClass::Keyword,
        classify("public"@) == TokenClass::Keyword,
        classify("private"@) == TokenClass::Keyword,
        classify("protected"@) == TokenClass::Keyword,
        classify("internal"@) == TokenClass::Keyword,
        classify("class"@) == TokenClass::Keyword,
        classify("void"@) == TokenClass::Keyword,
        classify("int"@) == TokenClass::Keyword,
        classify("string"@) == TokenClass::Keyword,
        classify("bool"@) == TokenClass::Keyword,
        classify("using"@) == TokenClass::Keyword,
        classify("namespace"@) == TokenClass::Keyword,
        classify("override"@) == TokenClass::Keyword,
        classify("virtual"@) == TokenClass::Keyword,
        classify("new"@) == TokenClass::Keyword,
        classify("foreach"@) == TokenClass::Keyword,
        classify("case"@) == TokenClass::Keyword,
        classify("switch"@) == TokenClass::Keyword,
        classify("break"@) == TokenClass::Keyword,
        classify("var"@) == TokenClass::Keyword,
{
}

/// Typing or pasting `s` puts its characters in place of the selection,
/// whichever end is the anchor, or at the caret when there is none; the
/// caret ends just after them, with no selection, and the state before is
/// recorded for undo. Typed text holding a control character changes
/// nothing.
pub proof fn law_typing_replaces_the_selection(b: BufferModel, cursor: usize, selection: Option<usize>, s: String)
    requires
        caret_fits(b.text.len(), cursor, selection),
        b.text.len() + s@.len() <= usize::MAX,
    ensures
        ({
            let t = b.text;
            let c = Caret { cursor, selection };
            let lo = match selection {
                Some(a) => if a < cursor { a } else { cursor },
                None => cursor,
            };
            let hi = match selection {
                Some(a) => if a < cursor { cursor } else { a },
                None => cursor,
            };
            let p = edit_step(b, c, EditEvent::Paste(s));
            let y = edit_step(b, c, EditEvent::Text(s));
            &&& p.0.text == t.take(lo as int) + s@ + t.skip(hi as int)
            &&& p.0.text.len() == t.len() - (hi - lo) + s@.len()
            &&& p.1.cursor == lo + s@.len()
            &&& p.1.selection == None::<usize>
            &&& p.0.undo.last() == Snapshot { text: t, cursor, selection }
            &&& p.2 == None::<Seq<char>>
            &&& (forall|i: int| 0 <= i < s@.len() ==> !is_control_char(#[trigger] s@[i])) ==> y == p
            &&& (exists|i: int| 0 <= i < s@.len() && is_control_char(#[trigger] s@[i])) ==> y == (b, c, None::<Seq<char>>)
        }),
{
    lemma_pushed_undo_last(b, cursor, selection);
    let lo = match selection {
        Some(a) => if a < cursor { a } else { cursor },
        None => cursor,
    };
    let hi = match selection {
        Some(a) => if a < cursor { cursor } else { a },
        None => cursor,
    };
    let p = edit_step(b, Caret { cursor, selection }, EditEvent::Paste(s));
    assert(p.0.text =~= b.text.take(lo as int) + s@ + b.text.skip(hi as int));
}

/// Enter puts a line feed at the caret and moves the caret past it, keeping
/// the selection; the state before is recorded for undo.
pub proof fn law_enter_breaks_the_line(b: BufferModel, c: Caret, shift: bool)
    requires
        c.cursor < usize::MAX,
    ensures
        ({
            let r = edit_step(b, c, EditEvent::Key { key: EditKey::Enter, shift });
            &&& r.0.text == b.text.take(c.cursor as int) + seq!['\n'] + b.text.skip(c.cursor as int)
            &&& r.1 == Caret { cursor: (c.cursor + 1) as usize, selection: c.selection }
            &&& r.0.undo.last() == Snapshot { text: b.text, cursor: c.cursor, selection: c.selection }
            &&& r.2 == None::<Seq<char>>
        }),
{
    lemma_pushed_undo_last(b, c.cursor, c.selection);
}

/// Left and Right move the caret one character, stopping at the start and
/// at the end of the text; the text is left alone, and the selection is
/// kept only with Shift.
pub proof fn law_left_right_step(b: BufferModel, c: Caret, shift: bool)
    requires
        b.text.len() <= usize::MAX,
    ensures
        ({
            let l = edit_step(b, c, EditEvent::Key { key: EditKey::ArrowLeft, shift });
            let r = edit_step(b, c, EditEvent::Key { key: EditKey::ArrowRight, shift });
            let sel = if shift { c.selection } else { None };
            &&& l.0 == b && r.0 == b
            &&& l.2 == None::<Seq<char>> && r.2 == None::<Seq<char>>
            &&& l.1.selection == sel && r.1.selection == sel
            &&& l.1.cursor == (if c.cursor > 0 { c.cursor - 1 } else { 0 })
            &&& r.1.cursor == (if c.cursor < b.text.len() { c.cursor + 1 } else { c.cursor as int })
        }),
{
}

/// With Ctrl held each shortcut asks for its command exactly when its key
/// is pressed: P the palette, B the right panel, J the bottom panel, S a
/// save, Z without Shift an undo, Y or Shift+Z a redo, F the find bar, and
/// Escape dismisses the overlays; no command is asked for twice.
pub proof fn law_shortcuts_with_ctrl(k: ShortcutKeys)
    requires
        k.ctrl,
    ensures
        shortcut_spec(k).contains(Command::ToggleCommandPalette) == k.p,
        shortcut_spec(k).contains(Command::ToggleRightPanel) == k.b,
        shortcut_spec(k).contains(Command::ToggleBottomPanel) == k.j,
        shortcut_spec(k).contains(Command::Save) == k.s,
        shortcut_spec(k).contains(Command::Undo) == (k.z && !k.shift),
        shortcut_spec(k).contains(Command::Redo) == (k.y || (k.shift && k.z)),
        shortcut_spec(k).contains(Command::ToggleFindBar) == k.f,
        shortcut_spec(k).contains(Command::DismissOverlays) == k.escape,
        shortcut_spec(k).no_duplicates(),
{
    let w1 = crate::shortcuts::when(k.ctrl && k.p, Command::ToggleCommandPalette);
    let w2 = crate::shortcuts::when(k.ctrl && k.b, Command::ToggleRightPanel);
    let w3 = crate::shortcuts::when(k.ctrl && k.j, Command::ToggleBottomPanel);
    let w4 = crate::shortcuts::when(k.ctrl && k.s, Command::Save);
    let w5 = crate::shortcuts::when(k.ctrl && !k.shift && k.z, Command::Undo);
    let w6 = crate::shortcuts::when(k.ctrl && (k.y || (k.shift && k.z)), Command::Redo);
    let w7 = crate::shortcuts::when(k.ctrl && k.f, Command::ToggleFindBar);
    let w8 = crate::shortcuts::when(k.escape, Command::DismissOverlays);
    let a2 = w1 + w2;
    let a3 = a2 + w3;
    let a4 = a3 + w4;
    let a5 = a4 + w5;
    let a6 = a5 + w6;
    let a7 = a6 + w7;
    let a8 = a7 + w8;
    assert(shortcut_spec(k) == a8);
    lemma_concat_when(w1, k.ctrl && k.b, Command::ToggleRightPanel);
    lemma_concat_when(a2, k.ctrl && k.j, Command::ToggleBottomPanel);
    lemma_concat_when(a3, k.ctrl && k.s, Command::Save);
    lemma_concat_when(a4, k.ctrl && !k.shift && k.z, Command::Undo);
    lemma_concat_when(a5, k.ctrl && (k.y || (k.shift && k.z)), Command::Redo);
    lemma_concat_when(a6, k.ctrl && k.f, Command::ToggleFindBar);
    lemma_concat_when(a7, k.escape, Command::DismissOverlays);
    assert(w1.no_duplicates());
    assert(w1.contains(Command::ToggleCommandPalette) == k.p) by {
        if k.p {
            assert(w1[0] == Command::ToggleCommandPalette);
        }
    }
}

/// Appending the command `cmd` when `fires`: the commands contained are
/// those before and `cmd` if it fired, and none comes twice if none did
/// before and `cmd` was not among them.
proof fn lemma_concat_when(a: Seq<Command>, fires: bool, cmd: Command)
    ensures
        forall|x: Command| #[trigger] (a + crate::shortcuts::when(fires, cmd)).contains(x) == (a.contains(x) || (fires && x == cmd)),
        a.no_duplicates() && !(fires && a.contains(cmd)) ==> (a + crate::shortcuts::when(fires, cmd)).no_duplicates(),
{
    let w = crate::shortcuts::when(fires, cmd);
    let r = a + w;
    assert forall|x: Command| #[trigger] r.contains(x) == (a.contains(x) || (fires && x == cmd)) by {
        if r.contains(x) {
            let i = choose|i: int| 0 <= i < r.len() && r[i] == x;
            if i >= a.len() {
                assert(w[i - a.len()] == x);
            }
        }
        if a.contains(x) {
            let i = choose|i: int| 0 <= i < a.len() && a[i] == x;
            assert(r[i] == x);
        }
        if fires && x == cmd {
            assert(r[a.len() as int] == x);
        }
    }
    if a.no_duplicates() && !(fires && a.contains(cmd)) {
        assert forall|i: int, j: int| 0 <= i < r.len() && 0 <= j < r.len() && i != j implies r[i] != r[j] by {
            if i >= a.len() && j < a.len() {
                assert(a[j] == r[j]);
            }
            if j >= a.len() && i < a.len() {
                assert(a[i] == r[i]);
            }
        }
    }
}

/// Every word of the literal list is coloured as a literal, unless it
/// starts with an upper-case letter (`Self`), which makes it a type name.
pub proof fn law_literal_words_are_coloured()
    ensures
        classify("true"@) == (if char_uppercase('t') { TokenClass::TypeName } else { TokenClass::Literal }),
        classify("false"@) == (if char_uppercase('f') { TokenClass::TypeName } else { TokenClass::Literal }),
        classify("null"@) == (if char_uppercase('n') { TokenClass::TypeName } else { TokenClass::Literal }),
        classify("self"@) == (if char_uppercase('s') { TokenClass::TypeName } else { TokenClass::Literal }),
        classify("Self"@) == (if char_uppercase('S') { TokenClass::TypeName } else { TokenClass::Literal }),
        classify("this"@) == (if char_uppercase('t') { TokenClass::TypeName } else { TokenClass::Literal }),
        classify("base"@) == (if char_uppercase('b') { TokenClass::TypeName } else { TokenClass::Literal }),
        classify("super"@) == (if char_uppercase('s') { TokenClass::TypeName } else { TokenClass::Literal }),
{
    reveal_strlit("true");
    assert("true"@ =~= seq!['t', 'r', 'u', 'e']);
    reveal_strlit("false");
    assert("false"@ =~= seq!['f', 'a', 'l', 's', 'e']);
    reveal_strlit("null");
    assert("null"@ =~= seq!['n', 'u', 'l', 'l']);
    reveal_strlit("self");
    assert("self"@ =~= seq!['s', 'e', 'l', 'f']);
    reveal_strlit("Self");
    assert("Self"@ =~= seq!['S', 'e', 'l', 'f']);
    reveal_strlit("this");
    assert("this"@ =~= seq!['t', 'h', 'i', 's']);
    reveal_strlit("base");
    assert("base"@ =~= seq!['b', 'a', 's', 'e']);
    reveal_strlit("super");
    assert("super"@ =~= seq!['s', 'u', 'p', 'e', 'r']);
    lemma_keyword_chars();
}

/// The characters of each keyword.
proof fn lemma_keyword_chars()
    ensures
        "pub"@ == seq!['p', 'u', 'b'],
        "fn"@ == seq!['f', 'n'],
        "let"@ == seq!['l', 'e', 't'],
        "mut"@ == seq!['m', 'u', 't'],
        "use"@ == seq!['u', 's', 'e'],
        "mod"@ == seq!['m', 'o', 'd'],
        "impl"@ == seq!['i', 'm', 'p', 'l'],
        "trait"@ == seq!['t', 'r', 'a', 'i', 't'],
        "enum"@ == seq!['e', 'n', 'u', 'm'],
        "match"@ == seq!['m', 'a', 't', 'c', 'h'],
        "if"@ == seq!['i', 'f'],
        "else"@ == seq!['e', 'l', 's', 'e'],
        "for"@ == seq!['f', 'o', 'r'],
        "while"@ == seq!['w', 'h', 'i', 'l', 'e'],
        "loop"@ == seq!['l', 'o', 'o', 'p'],
        "return"@ == seq!['r', 'e', 't', 'u', 'r', 'n'],
        "struct"@ == seq!['s', 't', 'r', 'u', 'c', 't'],
        "type"@ == seq!['t', 'y', 'p', 'e'],
        "where"@ == seq!['w', 'h', 'e', 'r', 'e'],
        "async"@ == seq!['a', 's', 'y', 'n', 'c'],
        "await"@ == seq!['a', 'w', 'a', 'i', 't'],
        "move"@ == seq!['m', 'o', 'v', 'e'],
        "ref"@ == seq!['r', 'e', 'f'],
        "in"@ == seq!['i', 'n'],
        "const"@ == seq!['c', 'o', 'n', 's', 't'],
        "static"@ == seq!['s', 't', 'a', 't', 'i', 'c'],
        "unsafe"@ == seq!['u', 'n', 's', 'a', 'f', 'e'],
        "extern"@ == seq!['e', 'x', 't', 'e', 'r', 'n'],
        "public"@ == seq!['p', 'u', 'b', 'l', 'i', 'c'],
        "private"@ == seq!['p', 'r', 'i', 'v', 'a', 't', 'e'],
        "protected"@ == seq!['p', 'r', 'o', 't', 'e', 'c', 't', 'e', 'd'],
        "internal"@ == seq!['i', 'n', 't', 'e', 'r', 'n', 'a', 'l'],
        "class"@ == seq!['c', 'l', 'a', 's', 's'],
        "void"@ == seq!['v', 'o', 'i', 'd'],
        "int"@ == seq!['i', 'n', 't'],
        "string"@ == seq!['s', 't', 'r', 'i', 'n', 'g'],
        "bool"@ == seq!['b', 'o', 'o', 'l'],
        "using"@ == seq!['u', 's', 'i', 'n', 'g'],
        "namespace"@ == seq!['n', 'a', 'm', 'e', 's', 'p', 'a', 'c', 'e'],
        "override"@ == seq!['o', 'v', 'e', 'r', 'r', 'i', 'd', 'e'],
        "virtual"@ == seq!['v', 'i', 'r', 't', 'u', 'a', 'l'],
        "new"@ == seq!['n', 'e', 'w'],
        "foreach"@ == seq!['f', 'o', 'r', 'e', 'a', 'c', 'h'],
        "case"@ == seq!['c', 'a', 's', 'e'],
        "switch"@ == seq!['s', 'w', 'i', 't', 'c', 'h'],
        "break"@ == seq!['b', 'r', 'e', 'a', 'k'],
        "var"@ == seq!['v', 'a', 'r'],
{
    reveal_strlit("pub");
    assert("pub"@ =~= seq!['p', 'u', 'b']);
    reveal_strlit("fn");
    assert("fn"@ =~= seq!['f', 'n']);
    reveal_strlit("let");
    assert("let"@ =~= seq!['l', 'e', 't']);
    reveal_strlit("mut");
    assert("mut"@ =~= seq!['m', 'u', 't']);
    reveal_strlit("use");
    assert("use"@ =~= seq!['u', 's', 'e']);
    reveal_strlit("mod");
    assert("mod"@ =~= seq!['m', 'o', 'd']);
    reveal_strlit("impl");
    assert("impl"@ =~= seq!['i', 'm', 'p', 'l']);
    reveal_strlit("trait");
    assert("trait"@ =~= seq!['t', 'r', 'a', 'i', 't']);
    reveal_strlit("enum");
    assert("enum"@ =~= seq!['e', 'n', 'u', 'm']);
    reveal_strlit("match");
    assert("match"@ =~= seq!['m', 'a', 't', 'c', 'h']);
    reveal_strlit("if");
    assert("if"@ =~= seq!['i', 'f']);
    reveal_strlit("else");
    assert("else"@ =~= seq!['e', 'l', 's', 'e']);
    reveal_strlit("for");
    assert("for"@ =~= seq!['f', 'o', 'r']);
    reveal_strlit("while");
    assert("while"@ =~= seq!['w', 'h', 'i', 'l', 'e']);
    reveal_strlit("loop");
    assert("loop"@ =~= seq!['l', 'o', 'o', 'p']);
    reveal_strlit("return");
    assert("return"@ =~= seq!['r', 'e', 't', 'u', 'r', 'n']);
    reveal_strlit("struct");
    assert("struct"@ =~= seq!['s', 't', 'r', 'u', 'c', 't']);
    reveal_strlit("type");
    assert("type"@ =~= seq!['t', 'y', 'p', 'e']);
    reveal_strlit("where");
    assert("where"@ =~= seq!['w', 'h', 'e', 'r', 'e']);
    reveal_strlit("async");
    assert("async"@ =~= seq!['a', 's', 'y', 'n', 'c']);
    reveal_strlit("await");
    assert("await"@ =~= seq!['a', 'w', 'a', 'i', 't']);
    reveal_strlit("move");
    assert("move"@ =~= seq!['m', 'o', 'v', 'e']);
    reveal_strlit("ref");
    assert("ref"@ =~= seq!['r', 'e', 'f']);
    reveal_strlit("in");
    assert("in"@ =~= seq!['i', 'n']);
    reveal_strlit("const");
    assert("const"@ =~= seq!['c', 'o', 'n', 's', 't']);
    reveal_strlit("static");
    assert("static"@ =~= seq!['s', 't', 'a', 't', 'i', 'c']);
    reveal_strlit("unsafe");
    assert("unsafe"@ =~= seq!['u', 'n', 's', 'a', 'f', 'e']);
    reveal_strlit("extern");
    assert("extern"@ =~= seq!['e', 'x', 't', 'e', 'r', 'n']);
    reveal_strlit("public");
    assert("public"@ =~= seq!['p', 'u', 'b', 'l', 'i', 'c']);
    reveal_strlit("private");
    assert("private"@ =~= seq!['p', 'r', 'i', 'v', 'a', 't', 'e']);
    reveal_strlit("protected");
    assert("protected"@ =~= seq!['p', 'r', 'o', 't', 'e', 'c', 't', 'e', 'd']);
    reveal_strlit("internal");
    assert("internal"@ =~= seq!['i', 'n', 't', 'e', 'r', 'n', 'a', 'l']);
    reveal_strlit("class");
    assert("class"@ =~= seq!['c', 'l', 'a', 's', 's']);
    reveal_strlit("void");
    assert("void"@ =~= seq!['v', 'o', 'i', 'd']);
    reveal_strlit("int");
    assert("int"@ =~= seq!['i', 'n', 't']);
    reveal_strlit("string");
    assert("string"@ =~= seq!['s', 't', 'r', 'i', 'n', 'g']);
    reveal_strlit("bool");
    assert("bool"@ =~= seq!['b', 'o', 'o', 'l']);
    reveal_strlit("using");
    assert("using"@ =~= seq!['u', 's', 'i', 'n', 'g']);
    reveal_strlit("namespace");
    assert("namespace"@ =~= seq!['n', 'a', 'm', 'e', 's', 'p', 'a', 'c', 'e']);
    reveal_strlit("override");
    assert("override"@ =~= seq!['o', 'v', 'e', 'r', 'r', 'i', 'd', 'e']);
    reveal_strlit("virtual");
    assert("virtual"@ =~= seq!['v', 'i', 'r', 't', 'u', 'a', 'l']);
    reveal_strlit("new");
    assert("new"@ =~= seq!['n', 'e', 'w']);
    reveal_strlit("foreach");
    assert("foreach"@ =~= seq!['f', 'o', 'r', 'e', 'a', 'c', 'h']);
    reveal_strlit("case");
    assert("case"@ =~= seq!['c', 'a', 's', 'e']);
    reveal_strlit("switch");
    assert("switch"@ =~= seq!['s', 'w', 'i', 't', 'c', 'h']);
    reveal_strlit("break");
    assert("break"@ =~= seq!['b', 'r', 'e', 'a', 'k']);
    reveal_strlit("var");
    assert("var"@ =~= seq!['v', 'a', 'r']);
}


/// The char under cell (`row`, `col`): the row is taken as a line, the
/// last one past the end; the column as the place on that line, stopping
/// before its line break (at its end, on the last line) when the line is
/// shorter.
pub proof fn law_cell_is_row_and_column(t: Seq<char>, row: int, col: int)
    requires
        0 <= row,
        0 <= col,
    ensures
        ({
            let n = rope_line_count(t) as int;
            let l = if row < n { row } else { n - 1 };
            let len = rope_line_start(t, l + 1) - rope_line_start(t, l);
            let room = if l == n - 1 { len } else { line_room(t, l) };
            cell_index(t, row, col) == rope_line_start(t, l) + (if col <= room { col } else { room })
        }),
{
}

/// A click puts the view's cursor on the char under the cell; without
/// Shift the selection is dropped, with Shift one is anchored at the old
/// cursor unless one is anchored already. A press starts a selection
/// anchored at that char, and a drag moves only the cursor. Nothing else
/// changes.
pub proof fn law_pointer_moves_the_caret(m: WorkspaceModel, vi: int, row: usize, col: usize, shift: bool)
    requires
        m.wf(),
        0 <= vi < m.views.len(),
    ensures
        ({
            let v = m.views[vi];
            let at = cell_index(m.buffers[vi].text, row as int, col as int);
            let c = m.after_click(vi, row, col, shift);
            let p = m.after_press(vi, row, col);
            let d = m.after_drag(vi, row, col);
            &&& c.buffers == m.buffers && p.buffers == m.buffers && d.buffers == m.buffers
            &&& c.views.len() == m.views.len() && p.views.len() == m.views.len() && d.views.len() == m.views.len()
            &&& forall|j: int| 0 <= j < m.views.len() && j != vi ==> c.views[j] == m.views[j] && p.views[j] == m.views[j]
                && #[trigger] d.views[j] == m.views[j]
            &&& c.views[vi].cursor_char_idx == at && p.views[vi].cursor_char_idx == at && d.views[vi].cursor_char_idx == at
            &&& c.views[vi].selection_start == (if !shift {
                None
            } else if v.selection_start is Some {
                v.selection_start
            } else {
                Some(v.cursor_char_idx)
            })
            &&& p.views[vi].selection_start == Some(at as usize)
            &&& d.views[vi].selection_start == v.selection_start
            &&& c.views[vi].buffer_idx == v.buffer_idx
            &&& c.active_view == m.active_view && c.logs == m.logs
        }),
{
    assert(m.views[vi].buffer_idx == vi);
    law_cell_lands(m.buffers[vi].text, row as int, col as int);
}

/// The explorer's badge for each extension it knows.
pub proof fn law_explorer_badges()
    ensures
        icon_for("rs"@) == "rs"@,
        icon_for("cs"@) == "cs"@,
        icon_for("js"@) == "js"@,
        icon_for("ts"@) == "ts"@,
        icon_for("cpp"@) == "c+"@,
        icon_for("cc"@) == "c+"@,
        icon_for("cxx"@) == "c+"@,
        icon_for("h"@) == "h "@,
        icon_for("hpp"@) == "h "@,
        icon_for("json"@) == "{}"@,
        icon_for("toml"@) == "cf"@,
        icon_for("yaml"@) == "cf"@,
        icon_for("yml"@) == "cf"@,
        icon_for("md"@) == "md"@,
        icon_for("txt"@) == "tx"@,
{
    reveal_strlit("rs");
    assert("rs"@ =~= seq!['r', 's']);
    reveal_strlit("cs");
    assert("cs"@ =~= seq!['c', 's']);
    reveal_strlit("js");
    assert("js"@ =~= seq!['j', 's']);
    reveal_strlit("ts");
    assert("ts"@ =~= seq!['t', 's']);
    reveal_strlit("cpp");
    assert("cpp"@ =~= seq!['c', 'p', 'p']);
    reveal_strlit("cc");
    assert("cc"@ =~= seq!['c', 'c']);
    reveal_strlit("cxx");
    assert("cxx"@ =~= seq!['c', 'x', 'x']);
    reveal_strlit("h");
    assert("h"@ =~= seq!['h']);
    reveal_strlit("hpp");
    assert("hpp"@ =~= seq!['h', 'p', 'p']);
    reveal_strlit("json");
    assert("json"@ =~= seq!['j', 's', 'o', 'n']);
    reveal_strlit("toml");
    assert("toml"@ =~= seq!['t', 'o', 'm', 'l']);
    reveal_strlit("yaml");
    assert("yaml"@ =~= seq!['y', 'a', 'm', 'l']);
    reveal_strlit("yml");
    assert("yml"@ =~= seq!['y', 'm', 'l']);
    reveal_strlit("md");
    assert("md"@ =~= seq!['m', 'd']);
    reveal_strlit("txt");
    assert("txt"@ =~= seq!['t', 'x', 't']);
}

/// A log line mentioning `ERROR` or `failed` is shown as an error; one that
/// mentions neither but `Saved` or `Loaded` as a success; any other as
/// plain.
pub proof fn law_log_colours(line: Seq<char>)
    ensures
        (seq_contains(line, "ERROR"@) || seq_contains(line, "failed"@)) ==> log_kind_of(line) == LogKind::Error,
        !(seq_contains(line, "ERROR"@) || seq_contains(line, "failed"@)) && (seq_contains(line, "Saved"@)
            || seq_contains(line, "Loaded"@)) ==> log_kind_of(line) == LogKind::Success,
        !(seq_contains(line, "ERROR"@) || seq_contains(line, "failed"@) || seq_contains(line, "Saved"@)
            || seq_contains(line, "Loaded"@)) ==> log_kind_of(line) == LogKind::Normal,
{
}

}
