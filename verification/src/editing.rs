//! What the keyboard and the clipboard do to a buffer and its caret.

use crate::buffer::{caret_fits, Buffer, BufferModel, Caret};
use crate::lines::lemma_on_line;
use crate::rope::{rope_char_line, rope_line_count, rope_line_start};
use crate::text::{free_of_control, has_no_control_chars};
use vstd::prelude::*;
use vstd::string::StrSliceExecFns;

verus! {

/// The keys the editor reacts to.
#[derive(Clone, Copy, Debug, PartialEq, Eq, Structural)]
pub enum EditKey {
    Backspace,
    Enter,
    ArrowLeft,
    ArrowRight,
    ArrowUp,
    ArrowDown,
}

/// One input event for the focused editor.
pub enum EditEvent {
    /// Copy the selection to the clipboard.
    Copy,
    /// Paste text from the clipboard.
    Paste(String),
    /// Typed text.
    Text(String),
    /// A key press; `shift` tells whether Shift was held.
    Key { key: EditKey, shift: bool },
}

pub open spec fn min_int(a: int, b: int) -> int {
    if a <= b {
        a
    } else {
        b
    }
}

pub open spec fn max_int(a: int, b: int) -> int {
    if a <= b {
        b
    } else {
        a
    }
}

/// `n - 1`, but not below zero.
pub open spec fn sat_dec(n: int) -> int {
    if n > 0 {
        n - 1
    } else {
        0
    }
}

/// `t` with the characters in `lo..hi` replaced by `ins`.
pub open spec fn splice(t: Seq<char>, lo: int, hi: int, ins: Seq<char>) -> Seq<char> {
    t.take(lo) + ins + t.skip(hi)
}

/// The number of characters of line `l`, its line break included.
pub open spec fn line_length(t: Seq<char>, l: int) -> int {
    rope_line_start(t, l + 1) - rope_line_start(t, l)
}

/// Moving the cursor to the line above, keeping its column where that line
/// is long enough and stopping before that line's break otherwise.
pub open spec fn cursor_up(t: Seq<char>, c: int) -> int {
    let cl = rope_char_line(t, c);
    if cl > 0 {
        let col = c - rope_line_start(t, cl);
        rope_line_start(t, cl - 1) + min_int(col, sat_dec(line_length(t, cl - 1)))
    } else {
        c
    }
}

/// Moving the cursor to the line below, in the same way.
pub open spec fn cursor_down(t: Seq<char>, c: int) -> int {
    let cl = rope_char_line(t, c);
    if cl + 1 < rope_line_count(t) {
        let col = c - rope_line_start(t, cl);
        rope_line_start(t, cl + 1) + min_int(col, sat_dec(line_length(t, cl + 1)))
    } else {
        c
    }
}

/// The char index at text cell (`row`, `col`): the row is clamped to the
/// last line, and the column to the end of that line, before its line break
/// on every line but the last.
pub open spec fn cell_index(t: Seq<char>, row: int, col: int) -> int {
    let n = rope_line_count(t) as int;
    let cl = min_int(row, n - 1);
    let room = if cl < n - 1 {
        sat_dec(line_length(t, cl))
    } else {
        line_length(t, cl)
    };
    rope_line_start(t, cl) + min_int(col, room)
}

/// The line a cell's row is clamped to.
pub open spec fn cell_line(t: Seq<char>, row: int) -> int {
    min_int(row, rope_line_count(t) - 1)
}

/// The range a selection anchored at `anchor` covers with the cursor at `c`.
pub open spec fn selection_range(anchor: usize, c: usize) -> (usize, usize) {
    if anchor <= c {
        (anchor, c)
    } else {
        (c, anchor)
    }
}

/// Typing or pasting `ins`: the state is recorded for undo, a selection is
/// replaced, and the cursor ends after the inserted text.
pub open spec fn typed(b: BufferModel, c: Caret, ins: Seq<char>) -> (BufferModel, Caret) {
    let b1 = b.pushed_undo(c.cursor, c.selection);
    match c.selection {
        Some(anchor) => {
            let (lo, hi) = selection_range(anchor, c.cursor);
            (
                b1.with_text(splice(b.text, lo as int, hi as int, ins)),
                Caret { cursor: (lo + ins.len()) as usize, selection: None },
            )
        },
        None => (
            b1.with_text(splice(b.text, c.cursor as int, c.cursor as int, ins)),
            Caret { cursor: (c.cursor + ins.len()) as usize, selection: None },
        ),
    }
}

/// Backspace: the state is recorded for undo; then a selection is deleted,
/// or else the character before the cursor, if any.
pub open spec fn backspaced(b: BufferModel, c: Caret) -> (BufferModel, Caret) {
    let b1 = b.pushed_undo(c.cursor, c.selection);
    match c.selection {
        Some(anchor) => {
            let (lo, hi) = selection_range(anchor, c.cursor);
            (b1.with_text(splice(b.text, lo as int, hi as int, seq![])), Caret { cursor: lo, selection: None })
        },
        None => if c.cursor > 0 {
            (
                b1.with_text(splice(b.text, c.cursor - 1, c.cursor as int, seq![])),
                Caret { cursor: (c.cursor - 1) as usize, selection: None },
            )
        } else {
            (b1, c)
        },
    }
}

/// Enter: the state is recorded for undo and a line feed goes in at the
/// cursor; a selection is kept as it is.
pub open spec fn entered(b: BufferModel, c: Caret) -> (BufferModel, Caret) {
    let b1 = b.pushed_undo(c.cursor, c.selection);
    (
        b1.with_text(splice(b.text, c.cursor as int, c.cursor as int, seq!['\n'])),
        Caret { cursor: (c.cursor + 1) as usize, selection: c.selection },
    )
}

pub open spec fn is_arrow(k: EditKey) -> bool {
    k == EditKey::ArrowLeft || k == EditKey::ArrowRight || k == EditKey::ArrowUp || k
        == EditKey::ArrowDown
}

/// A key press. An arrow without Shift first drops the selection.
pub open spec fn key_step(b: BufferModel, c: Caret, key: EditKey, shift: bool) -> (BufferModel, Caret) {
    let c0 = if !shift && is_arrow(key) {
        Caret { selection: None, ..c }
    } else {
        c
    };
    match key {
        EditKey::Backspace => backspaced(b, c0),
        EditKey::Enter => entered(b, c0),
        EditKey::ArrowLeft => (
            b,
            Caret {
                cursor: if c0.cursor > 0 {
                    (c0.cursor - 1) as usize
                } else {
                    c0.cursor
                },
                ..c0
            },
        ),
        EditKey::ArrowRight => (
            b,
            Caret {
                cursor: if c0.cursor < b.text.len() {
                    (c0.cursor + 1) as usize
                } else {
                    c0.cursor
                },
                ..c0
            },
        ),
        EditKey::ArrowUp => (b, Caret { cursor: cursor_up(b.text, c0.cursor as int) as usize, ..c0 }),
        EditKey::ArrowDown => (b, Caret { cursor: cursor_down(b.text, c0.cursor as int) as usize, ..c0 }),
    }
}

/// What copying yields: the selected text, when the selection is not empty.
pub open spec fn copied(b: BufferModel, c: Caret) -> Option<Seq<char>> {
    match c.selection {
        Some(anchor) => {
            let (lo, hi) = selection_range(anchor, c.cursor);
            if lo < hi {
                Some(b.text.subrange(lo as int, hi as int))
            } else {
                None
            }
        },
        None => None,
    }
}

/// One input event applied to a buffer and its caret: the new buffer, the
/// new caret, and the text copied to the clipboard, if any.
pub open spec fn edit_step(b: BufferModel, c: Caret, ev: EditEvent) -> (BufferModel, Caret, Option<Seq<char>>) {
    match ev {
        EditEvent::Copy => (b, c, copied(b, c)),
        EditEvent::Paste(s) => {
            let r = typed(b, c, s@);
            (r.0, r.1, None)
        },
        EditEvent::Text(s) => if free_of_control(s@) {
            let r = typed(b, c, s@);
            (r.0, r.1, None)
        } else {
            (b, c, None)
        },
        EditEvent::Key { key, shift } => {
            let r = key_step(b, c, key, shift);
            (r.0, r.1, None)
        },
    }
}

impl Buffer {
    /// The cursor position one line up (see `cursor_up`): on the line above
    /// when there is one, unchanged on the first line.
    pub fn cursor_up(&self, c: usize) -> (r: usize)
        requires
            self@.wf(),
            c <= self@.text.len(),
        ensures
            r == cursor_up(self@.text, c as int),
            r <= self@.text.len(),
            ({
                let cl = rope_char_line(self@.text, c as int);
                rope_char_line(self@.text, r as int) == if cl > 0 {
                    cl - 1
                } else {
                    cl
                }
            }),
    {
        let cl = self.char_to_line(c);
        if cl > 0 {
            let col = c - self.line_to_char(cl);
            let ps = self.line_to_char(cl - 1);
            let ll = self.line_len(cl - 1);
            let room = if ll > 0 { ll - 1 } else { 0 };
            let step = if col <= room { col } else { room };
            proof {
                lemma_on_line(self@.text, cl - 1, ps + step);
            }
            ps + step
        } else {
            proof {
                lemma_on_line(self@.text, cl as int, c as int);
            }
            c
        }
    }

    /// The cursor position one line down (see `cursor_down`): on the line
    /// below when there is one, unchanged on the last line.
    pub fn cursor_down(&self, c: usize) -> (r: usize)
        requires
            self@.wf(),
            c <= self@.text.len(),
        ensures
            r == cursor_down(self@.text, c as int),
            r <= self@.text.len(),
            ({
                let cl = rope_char_line(self@.text, c as int);
                rope_char_line(self@.text, r as int) == if cl + 1 < rope_line_count(self@.text) {
                    cl + 1
                } else {
                    cl
                }
            }),
    {
        let cl = self.char_to_line(c);
        let n = self.len_lines();
        if cl + 1 < n {
            let col = c - self.line_to_char(cl);
            let ns = self.line_to_char(cl + 1);
            let ll = self.line_len(cl + 1);
            let room = if ll > 0 { ll - 1 } else { 0 };
            let step = if col <= room { col } else { room };
            proof {
                lemma_on_line(self@.text, cl + 1, ns + step);
            }
            ns + step
        } else {
            proof {
                lemma_on_line(self@.text, cl as int, c as int);
            }
            c
        }
    }

    /// The char index under text cell (`row`, `col`) (see `cell_index`): it
    /// lies on the line the row is clamped to, before the next line's start.
    pub fn char_at_cell(&self, row: usize, col: usize) -> (r: usize)
        requires
            self@.wf(),
        ensures
            r == cell_index(self@.text, row as int, col as int),
            r <= self@.text.len(),
            rope_char_line(self@.text, r as int) == cell_line(self@.text, row as int),
            cell_line(self@.text, row as int) + 1 < rope_line_count(self@.text) ==> r < rope_line_start(
                self@.text,
                cell_line(self@.text, row as int) + 1,
            ),
    {
        let n = self.len_lines();
        let cl = if row <= n - 1 { row } else { n - 1 };
        let ls = self.line_to_char(cl);
        let ll = self.line_len(cl);
        let keep_break: usize = if cl < n - 1 { 1 } else { 0 };
        let room = if ll >= keep_break { ll - keep_break } else { 0 };
        let step = if col <= room { col } else { room };
        proof {
            lemma_on_line(self@.text, cl as int, ls + step);
        }
        ls + step
    }

    /// Typing or pasting `s` (see `typed`).
    fn type_text(&mut self, caret: Caret, s: &str) -> (r: Caret)
        requires
            old(self)@.wf(),
            caret_fits(old(self)@.text.len(), caret.cursor, caret.selection),
        ensures
            (final(self)@, r) == typed(old(self)@, caret, s@),
            final(self)@.wf(),
            caret_fits(final(self)@.text.len(), r.cursor, r.selection),
    {
        let ghost t = self@.text;
        self.push_undo(caret.cursor, caret.selection);
        let mut cursor = caret.cursor;
        match caret.selection {
            Some(anchor) => {
                let lo = if anchor <= cursor { anchor } else { cursor };
                let hi = if anchor <= cursor { cursor } else { anchor };
                self.remove_range(lo, hi);
                cursor = lo;
            },
            None => {},
        }
        let ghost mid = self@.text;
        self.insert_text(cursor, s);
        let n = s.unicode_len();
        assert(self@.text =~= splice(t, cursor as int, (cursor + t.len() - mid.len()) as int, s@));
        cursor = cursor + n;
        Caret { cursor, selection: None }
    }

    /// One input event applied to this buffer and the given caret (see
    /// `edit_step`).
    pub fn apply_edit(&mut self, caret: Caret, ev: &EditEvent) -> (r: (Caret, Option<String>))
        requires
            old(self)@.wf(),
            caret_fits(old(self)@.text.len(), caret.cursor, caret.selection),
        ensures
            ({
                let s = edit_step(old(self)@, caret, *ev);
                &&& final(self)@ == s.0
                &&& r.0 == s.1
                &&& match r.1 {
                    Some(t) => s.2 == Some(t@),
                    None => s.2.is_none(),
                }
            }),
            final(self)@.wf(),
            caret_fits(final(self)@.text.len(), r.0.cursor, r.0.selection),
    {
        match ev {
            EditEvent::Copy => {
                match caret.selection {
                    Some(anchor) => {
                        let lo = if anchor <= caret.cursor { anchor } else { caret.cursor };
                        let hi = if anchor <= caret.cursor { caret.cursor } else { anchor };
                        if lo < hi {
                            let t = self.copy_range(lo, hi);
                            (caret, Some(t))
                        } else {
                            (caret, None)
                        }
                    },
                    None => {
                        (caret, None)
                    },
                }
            },
            EditEvent::Paste(s) => (self.type_text(caret, s.as_str()), None),
            EditEvent::Text(s) => {
                if has_no_control_chars(s.as_str()) {
                    (self.type_text(caret, s.as_str()), None)
                } else {
                    (caret, None)
                }
            },
            EditEvent::Key { key, shift } => {
                let mut c = caret;
                let arrow = match key {
                    EditKey::ArrowLeft | EditKey::ArrowRight | EditKey::ArrowUp
                    | EditKey::ArrowDown => true,
                    _ => false,
                };
                if !*shift && arrow {
                    c.selection = None;
                }
                match key {
                    EditKey::Backspace => {
                        let ghost t = self@.text;
                        self.push_undo(c.cursor, c.selection);
                        match c.selection {
                            Some(anchor) => {
                                let lo = if anchor <= c.cursor { anchor } else { c.cursor };
                                let hi = if anchor <= c.cursor { c.cursor } else { anchor };
                                self.remove_range(lo, hi);
                                assert(self@.text =~= splice(t, lo as int, hi as int, seq![]));
                                (Caret { cursor: lo, selection: None }, None)
                            },
                            None => {
                                if c.cursor > 0 {
                                    let k = c.cursor - 1;
                                    self.remove_range(k, k + 1);
                                    assert(self@.text =~= splice(t, k as int, k + 1, seq![]));
                                    (Caret { cursor: k, selection: None }, None)
                                } else {
                                    (c, None)
                                }
                            },
                        }
                    },
                    EditKey::Enter => {
                        let ghost t = self@.text;
                        self.push_undo(c.cursor, c.selection);
                        self.insert_text(c.cursor, "\n");
                        proof {
                            reveal_strlit("\n");
                            assert("\n"@ =~= seq!['\n']);
                            assert(self@.text =~= splice(t, c.cursor as int, c.cursor as int, seq!['\n']));
                        }
                        (Caret { cursor: c.cursor + 1, selection: c.selection }, None)
                    },
                    EditKey::ArrowLeft => {
                        if c.cursor > 0 {
                            c.cursor = c.cursor - 1;
                        }
                        (c, None)
                    },
                    EditKey::ArrowRight => {
                        if c.cursor < self.len_chars() {
                            c.cursor = c.cursor + 1;
                        }
                        (c, None)
                    },
                    EditKey::ArrowUp => {
                        c.cursor = self.cursor_up(c.cursor);
                        (c, None)
                    },
                    EditKey::ArrowDown => {
                        c.cursor = self.cursor_down(c.cursor);
                        (c, None)
                    },
                }
            },
        }
    }
}

}
