//! A text buffer: its rope, the file it came from, the line count and gutter
//! width the renderer uses, and its bounded undo and redo history.

use crate::rope::{
    rope_char_line, rope_char_to_line, rope_clone, rope_insert, rope_len_chars, rope_len_lines,
    rope_line_count, rope_line_len, rope_line_start, rope_line_string, rope_line_to_char,
    rope_remove, rope_slice_string, rope_text, rope_to_string,
};
use crate::lines::{lemma_char_line, lemma_line_start, lemma_starts_monotone};
use crate::text::{count_digits, decimal_digits};
use ropey::Rope;
use std::path::PathBuf;
use vstd::prelude::*;

verus! {

/// `std::path::PathBuf`, carried through the library as an opaque value.
#[verifier::external_type_specification]
#[verifier::external_body]
pub struct ExPathBuf(PathBuf);

/// `PathBuf::clone`: the copy is the same path.
#[verifier::external_body]
pub(crate) fn path_clone(p: &PathBuf) -> (c: PathBuf)
    ensures
        c == *p,
{
    p.clone()
}

/// The most snapshots a buffer keeps for undo and redo together.
pub const HISTORY_LIMIT: usize = 200;

/// Text with the caret that went with it, as the history keeps it.
pub struct Snapshot {
    pub text: Seq<char>,
    pub cursor: usize,
    pub selection: Option<usize>,
}

/// A caret position and the selection anchor, both char indices.
#[derive(Clone, Copy)]
pub struct Caret {
    pub cursor: usize,
    pub selection: Option<usize>,
}

/// The caret lies within a text of `len` characters.
pub open spec fn caret_fits(len: nat, cursor: usize, selection: Option<usize>) -> bool {
    &&& cursor <= len
    &&& selection matches Some(s) ==> s <= len
}

impl Snapshot {
    pub open spec fn fits(self) -> bool {
        &&& caret_fits(self.text.len(), self.cursor, self.selection)
        &&& self.text.len() <= usize::MAX
    }
}

/// Width in pixels of the line-number gutter for a buffer of `lines` lines:
/// eight pixels per digit plus sixteen, and never under forty-five.
pub open spec fn gutter_width_for(lines: nat) -> nat {
    let w = 8 * decimal_digits(lines) + 16;
    if w < 45 {
        45
    } else {
        w
    }
}

/// What a buffer holds, as the contracts speak of it.
pub struct BufferModel {
    pub text: Seq<char>,
    pub path: Option<PathBuf>,
    pub line_count: nat,
    pub gutter_width: nat,
    pub dirty_text: bool,
    pub unsaved_changes: bool,
    pub undo: Seq<Snapshot>,
    pub redo: Seq<Snapshot>,
}

impl BufferModel {
    /// Both histories together hold at most `HISTORY_LIMIT` snapshots, every
    /// snapshot's caret lies inside its text, and the text fits a `usize`.
    pub open spec fn wf(self) -> bool {
        &&& self.undo.len() + self.redo.len() <= HISTORY_LIMIT
        &&& forall|i: int| 0 <= i < self.undo.len() ==> (#[trigger] self.undo[i]).fits()
        &&& forall|i: int| 0 <= i < self.redo.len() ==> (#[trigger] self.redo[i]).fits()
        &&& self.text.len() <= usize::MAX
    }

    /// The line count and gutter width are those of the current text.
    pub open spec fn lines_current(self) -> bool {
        &&& self.line_count == rope_line_count(self.text)
        &&& self.gutter_width == gutter_width_for(self.line_count)
    }

    pub open spec fn with_text(self, text: Seq<char>) -> BufferModel {
        BufferModel { text, ..self }
    }

    /// The snapshot of the current text and the given caret.
    pub open spec fn snapshot(self, cursor: usize, selection: Option<usize>) -> Snapshot {
        Snapshot { text: self.text, cursor, selection }
    }

    /// Recording the current state before an edit: the snapshot goes on top
    /// of the undo history, the oldest one is dropped past the limit, the
    /// redo history is emptied, and the buffer counts as changed.
    pub open spec fn pushed_undo(self, cursor: usize, selection: Option<usize>) -> BufferModel {
        let pushed = self.undo.push(self.snapshot(cursor, selection));
        BufferModel {
            undo: if pushed.len() > HISTORY_LIMIT {
                pushed.drop_first()
            } else {
                pushed
            },
            redo: Seq::empty(),
            unsaved_changes: true,
            dirty_text: true,
            ..self
        }
    }

    /// One step back: the newest undo snapshot becomes the text, and the
    /// current text with the given caret goes on top of the redo history.
    pub open spec fn undone(self, cursor: usize, selection: Option<usize>) -> BufferModel {
        if self.undo.len() == 0 {
            self
        } else {
            BufferModel {
                text: self.undo.last().text,
                undo: self.undo.drop_last(),
                redo: self.redo.push(self.snapshot(cursor, selection)),
                dirty_text: true,
                unsaved_changes: true,
                ..self
            }
        }
    }

    /// One step forward: the mirror image of `undone`.
    pub open spec fn redone(self, cursor: usize, selection: Option<usize>) -> BufferModel {
        if self.redo.len() == 0 {
            self
        } else {
            BufferModel {
                text: self.redo.last().text,
                redo: self.redo.drop_last(),
                undo: self.undo.push(self.snapshot(cursor, selection)),
                dirty_text: true,
                unsaved_changes: true,
                ..self
            }
        }
    }

    /// The line count and gutter width are brought up to date when the text
    /// has changed since they were last computed.
    pub open spec fn recalculated(self) -> BufferModel {
        if self.dirty_text {
            BufferModel {
                line_count: rope_line_count(self.text),
                gutter_width: gutter_width_for(rope_line_count(self.text)),
                dirty_text: false,
                ..self
            }
        } else {
            self
        }
    }
}

/// A snapshot in the history: a copy of the rope and the caret.
pub struct HistoryEntry {
    rope: Rope,
    cursor: usize,
    selection: Option<usize>,
}

impl HistoryEntry {
    pub closed spec fn snapshot(self) -> Snapshot {
        Snapshot { text: rope_text(self.rope), cursor: self.cursor, selection: self.selection }
    }
}

/// A text buffer of the editor.
pub struct Buffer {
    rope: Rope,
    path: Option<PathBuf>,
    line_count: usize,
    gutter_width: usize,
    dirty_text: bool,
    unsaved_changes: bool,
    undo_stack: Vec<HistoryEntry>,
    redo_stack: Vec<HistoryEntry>,
}

pub open spec fn history_model(v: Seq<HistoryEntry>) -> Seq<Snapshot> {
    v.map_values(|e: HistoryEntry| e.snapshot())
}

impl View for Buffer {
    type V = BufferModel;

    closed spec fn view(&self) -> BufferModel {
        BufferModel {
            text: rope_text(self.rope),
            path: self.path,
            line_count: self.line_count as nat,
            gutter_width: self.gutter_width as nat,
            dirty_text: self.dirty_text,
            unsaved_changes: self.unsaved_changes,
            undo: history_model(self.undo_stack@),
            redo: history_model(self.redo_stack@),
        }
    }
}


impl Buffer {
    /// A buffer holding the text of `rope`, with no file, no history, and its
    /// line count and gutter width computed.
    pub fn new(rope: Rope) -> (b: Buffer)
        ensures
            b@ == (BufferModel {
                text: rope_text(rope),
                path: None,
                line_count: rope_line_count(rope_text(rope)),
                gutter_width: gutter_width_for(rope_line_count(rope_text(rope))),
                dirty_text: false,
                unsaved_changes: false,
                undo: Seq::empty(),
                redo: Seq::empty(),
            }),
            b@.wf(),
    {
        // A rope counts its characters in a `usize`, which bounds the text.
        let _ = rope_len_chars(&rope);
        let lc = rope_len_lines(&rope);
        let gw = gutter_width(lc);
        let b = Buffer {
            rope,
            path: None,
            line_count: lc,
            gutter_width: gw,
            dirty_text: false,
            unsaved_changes: false,
            undo_stack: Vec::new(),
            redo_stack: Vec::new(),
        };
        assert(history_model(b.undo_stack@) =~= Seq::empty());
        assert(history_model(b.redo_stack@) =~= Seq::empty());
        b
    }

    /// Brings the line count and gutter width up to date if the text changed.
    pub fn recalc(&mut self)
        ensures
            final(self)@ == old(self)@.recalculated(),
    {
        if self.dirty_text {
            self.line_count = rope_len_lines(&self.rope);
            self.gutter_width = gutter_width(self.line_count);
            self.dirty_text = false;
        }
    }

    /// Records the current text and the given caret on the undo history
    /// before an edit. The buffer stays well formed when the caret lies
    /// inside the text.
    pub fn push_undo(&mut self, cursor: usize, sel: Option<usize>)
        ensures
            final(self)@ == old(self)@.pushed_undo(cursor, sel),
            old(self)@.wf() && caret_fits(old(self)@.text.len(), cursor, sel) ==> final(self)@.wf(),
    {
        let ghost old_undo = self.undo_stack@;
        let entry = HistoryEntry { rope: rope_clone(&self.rope), cursor, selection: sel };
        self.undo_stack.push(entry);
        assert(history_model(self.undo_stack@) =~= history_model(old_undo).push(
            old(self)@.snapshot(cursor, sel),
        ));
        if self.undo_stack.len() > HISTORY_LIMIT {
            let ghost pushed = self.undo_stack@;
            let _ = self.undo_stack.remove(0);
            assert(history_model(self.undo_stack@) =~= history_model(pushed).drop_first());
        }
        self.redo_stack.clear();
        assert(history_model(self.redo_stack@) =~= Seq::empty());
        self.unsaved_changes = true;
        self.dirty_text = true;
    }

    /// Steps back one snapshot: returns the caret that was recorded with it,
    /// or `None` when there is nothing to undo.
    pub fn undo(&mut self, cursor: usize, sel: Option<usize>) -> (r: Option<(usize, Option<usize>)>)
        requires
            old(self)@.wf(),
            caret_fits(old(self)@.text.len(), cursor, sel),
        ensures
            final(self)@ == old(self)@.undone(cursor, sel),
            final(self)@.wf(),
            r == (if old(self)@.undo.len() == 0 {
                None
            } else {
                Some((old(self)@.undo.last().cursor, old(self)@.undo.last().selection))
            }),
    {
        let ghost old_undo = self.undo_stack@;
        let ghost old_redo = self.redo_stack@;
        match self.undo_stack.pop() {
            Some(entry) => {
                assert(history_model(self.undo_stack@) =~= history_model(old_undo).drop_last());
                let current = HistoryEntry {
                    rope: rope_clone(&self.rope),
                    cursor,
                    selection: sel,
                };
                self.redo_stack.push(current);
                assert(history_model(self.redo_stack@) =~= history_model(old_redo).push(
                    old(self)@.snapshot(cursor, sel),
                ));
                self.rope = entry.rope;
                self.dirty_text = true;
                self.unsaved_changes = true;
                assert(old(self)@.undo.last() == history_model(old_undo)[old_undo.len() - 1]);
                Some((entry.cursor, entry.selection))
            },
            None => None,
        }
    }

    /// Steps forward one snapshot: returns the caret that was recorded with
    /// it, or `None` when there is nothing to redo.
    pub fn redo(&mut self, cursor: usize, sel: Option<usize>) -> (r: Option<(usize, Option<usize>)>)
        requires
            old(self)@.wf(),
            caret_fits(old(self)@.text.len(), cursor, sel),
        ensures
            final(self)@ == old(self)@.redone(cursor, sel),
            final(self)@.wf(),
            r == (if old(self)@.redo.len() == 0 {
                None
            } else {
                Some((old(self)@.redo.last().cursor, old(self)@.redo.last().selection))
            }),
    {
        let ghost old_undo = self.undo_stack@;
        let ghost old_redo = self.redo_stack@;
        match self.redo_stack.pop() {
            Some(entry) => {
                assert(history_model(self.redo_stack@) =~= history_model(old_redo).drop_last());
                let current = HistoryEntry {
                    rope: rope_clone(&self.rope),
                    cursor,
                    selection: sel,
                };
                self.undo_stack.push(current);
                assert(history_model(self.undo_stack@) =~= history_model(old_undo).push(
                    old(self)@.snapshot(cursor, sel),
                ));
                self.rope = entry.rope;
                self.dirty_text = true;
                self.unsaved_changes = true;
                assert(old(self)@.redo.last() == history_model(old_redo)[old_redo.len() - 1]);
                Some((entry.cursor, entry.selection))
            },
            None => None,
        }
    }

    /// Inserts `text` at char index `idx`.
    pub fn insert_text(&mut self, idx: usize, text: &str)
        requires
            old(self)@.wf(),
            idx <= old(self)@.text.len(),
        ensures
            final(self)@ == old(self)@.with_text(
                old(self)@.text.take(idx as int) + text@ + old(self)@.text.skip(idx as int),
            ),
            final(self)@.wf(),
    {
        rope_insert(&mut self.rope, idx, text);
    }

    /// Removes the characters in `start..end`.
    pub fn remove_range(&mut self, start: usize, end: usize)
        requires
            old(self)@.wf(),
            start <= end <= old(self)@.text.len(),
        ensures
            final(self)@ == old(self)@.with_text(
                old(self)@.text.take(start as int) + old(self)@.text.skip(end as int),
            ),
            final(self)@.wf(),
    {
        rope_remove(&mut self.rope, start, end);
    }

    /// The characters in `start..end`.
    pub fn copy_range(&self, start: usize, end: usize) -> (s: String)
        requires
            start <= end <= self@.text.len(),
        ensures
            s@ == self@.text.subrange(start as int, end as int),
    {
        rope_slice_string(&self.rope, start, end)
    }

    /// The whole text.
    pub fn contents(&self) -> (s: String)
        ensures
            s@ == self@.text,
    {
        rope_to_string(&self.rope)
    }

    /// The number of characters.
    pub fn len_chars(&self) -> (n: usize)
        ensures
            n == self@.text.len(),
    {
        rope_len_chars(&self.rope)
    }

    /// The number of lines of the current text.
    pub fn len_lines(&self) -> (n: usize)
        ensures
            n == rope_line_count(self@.text),
            n >= 1,
    {
        rope_len_lines(&self.rope)
    }

    /// The line that holds char `idx`.
    pub fn char_to_line(&self, idx: usize) -> (l: usize)
        requires
            idx <= self@.text.len(),
        ensures
            l == rope_char_line(self@.text, idx as int),
            l < rope_line_count(self@.text),
            rope_line_start(self@.text, l as int) <= idx,
            l + 1 < rope_line_count(self@.text) ==> idx < rope_line_start(self@.text, l + 1),
    {
        proof {
            lemma_char_line(self@.text, idx as int);
        }
        rope_char_to_line(&self.rope, idx)
    }

    /// The char index at which line `line` starts.
    pub fn line_to_char(&self, line: usize) -> (c: usize)
        requires
            line <= rope_line_count(self@.text),
        ensures
            c == rope_line_start(self@.text, line as int),
            c <= self@.text.len(),
            line == 0 ==> c == 0,
            line == rope_line_count(self@.text) ==> c == self@.text.len(),
    {
        proof {
            lemma_line_start(self@.text, line as int);
        }
        rope_line_to_char(&self.rope, line)
    }

    /// The number of characters of line `line`, its line break included.
    pub fn line_len(&self, line: usize) -> (n: usize)
        requires
            line < rope_line_count(self@.text),
        ensures
            n == rope_line_start(self@.text, line + 1) - rope_line_start(self@.text, line as int),
            n + rope_line_start(self@.text, line as int) <= self@.text.len(),
            line + 1 < rope_line_count(self@.text) ==> n >= 1,
    {
        proof {
            lemma_starts_monotone(self@.text, line as int, line + 1);
            lemma_line_start(self@.text, line + 1);
        }
        rope_line_len(&self.rope, line)
    }

    /// The characters of line `line`, or `None` past the last line.
    pub fn line_text(&self, line: usize) -> (s: Option<String>)
        ensures
            match s {
                Some(s) => line < rope_line_count(self@.text) && s@ == self@.text.subrange(
                    rope_line_start(self@.text, line as int),
                    rope_line_start(self@.text, line + 1),
                ),
                None => line >= rope_line_count(self@.text),
            },
    {
        if line < rope_len_lines(&self.rope) {
            Some(rope_line_string(&self.rope, line))
        } else {
            None
        }
    }

    /// Replaces the contents with a file that was read in: its rope, its
    /// line count and its path; the history is dropped and nothing is unsaved.
    pub fn load(&mut self, rope: Rope, lines: usize, path: PathBuf)
        ensures
            final(self)@ == (BufferModel {
                text: rope_text(rope),
                path: Some(path),
                line_count: lines as nat,
                dirty_text: true,
                unsaved_changes: false,
                undo: Seq::empty(),
                redo: Seq::empty(),
                ..old(self)@
            }),
            final(self)@.wf(),
    {
        // A rope counts its characters in a `usize`, which bounds the text.
        let _ = rope_len_chars(&rope);
        self.rope = rope;
        self.line_count = lines;
        self.path = Some(path);
        self.dirty_text = true;
        self.unsaved_changes = false;
        self.undo_stack.clear();
        self.redo_stack.clear();
        assert(history_model(self.undo_stack@) =~= Seq::empty());
        assert(history_model(self.redo_stack@) =~= Seq::empty());
    }

    /// Marks the buffer as written to its file.
    pub fn mark_saved(&mut self)
        ensures
            final(self)@ == (BufferModel { unsaved_changes: false, ..old(self)@ }),
    {
        self.unsaved_changes = false;
    }

    /// A copy of the buffer's path, if it has one.
    pub fn path(&self) -> (p: Option<PathBuf>)
        ensures
            p == self@.path,
    {
        match &self.path {
            Some(p) => Some(path_clone(p)),
            None => None,
        }
    }

    /// The rope itself, for drawing.
    pub fn rope(&self) -> (r: &Rope)
        ensures
            rope_text(*r) == self@.text,
    {
        &self.rope
    }

    pub fn line_count(&self) -> (n: usize)
        ensures
            n == self@.line_count,
    {
        self.line_count
    }

    pub fn gutter_width(&self) -> (n: usize)
        ensures
            n == self@.gutter_width,
    {
        self.gutter_width
    }

    pub fn unsaved_changes(&self) -> (b: bool)
        ensures
            b == self@.unsaved_changes,
    {
        self.unsaved_changes
    }

    pub fn undo_len(&self) -> (n: usize)
        ensures
            n == self@.undo.len(),
    {
        self.undo_stack.len()
    }

    pub fn redo_len(&self) -> (n: usize)
        ensures
            n == self@.redo.len(),
    {
        self.redo_stack.len()
    }
}

/// The gutter width for a buffer of `lines` lines.
pub fn gutter_width(lines: usize) -> (w: usize)
    ensures
        w == gutter_width_for(lines as nat),
{
    let d = count_digits(lines);
    proof {
        lemma_digits_of_usize(lines as nat);
    }
    let w = 8 * d + 16;
    if w < 45 {
        45
    } else {
        w
    }
}

/// A `usize` has at most twenty decimal digits.
proof fn lemma_digits_of_usize(n: nat)
    requires
        n <= usize::MAX,
    ensures
        decimal_digits(n) <= 20,
{
    reveal_with_fuel(pow10, 21);
    assert(pow10(20) == 100000000000000000000nat);
    lemma_digits_upto(n, 20);
}

proof fn lemma_digits_upto(n: nat, k: nat)
    requires
        k >= 1,
        n < pow10(k),
    ensures
        decimal_digits(n) <= k,
    decreases k,
{
    if n >= 10 {
        assert(pow10(k) == 10 * pow10((k - 1) as nat));
        lemma_digits_upto(n / 10, (k - 1) as nat);
    }
}

spec fn pow10(k: nat) -> nat
    decreases k,
{
    if k == 0 {
        1
    } else {
        10 * pow10((k - 1) as nat)
    }
}

}
