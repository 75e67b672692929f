//! The text of a buffer is a `ropey::Rope`. Verus sees a rope through the
//! characters it holds (`rope_text`); its lines are defined over those
//! characters as ropey defines them.

use ropey::Rope;
use vstd::prelude::*;

verus! {

/// `ropey::Rope`, carried through the library as an opaque value.
#[verifier::external_type_specification]
#[verifier::external_body]
pub struct ExRope(Rope);

/// The characters a rope holds, in order.
pub uninterp spec fn rope_text(r: Rope) -> Seq<char>;

/// The characters ropey (with its default features) takes as line breaks:
/// LF, VT, FF, CR, NEL, U+2028 and U+2029.
pub open spec fn is_line_break(c: char) -> bool {
    c == '\n' || c == '\u{0B}' || c == '\u{0C}' || c == '\r' || c == '\u{85}' || c == '\u{2028}'
        || c == '\u{2029}'
}

/// A line break ends just before position `i` of `text`: `text[i - 1]` is a
/// line break, and not the CR of a CRLF pair (which counts once, at its LF).
pub open spec fn break_ends_at(text: Seq<char>, i: int) -> bool {
    &&& 1 <= i <= text.len()
    &&& is_line_break(text[i - 1])
    &&& !(text[i - 1] == '\r' && i < text.len() && text[i] == '\n')
}

/// The number of line breaks that end at or before position `i`.
pub open spec fn breaks_upto(text: Seq<char>, i: int) -> nat
    decreases i,
{
    if i <= 0 {
        0
    } else {
        breaks_upto(text, i - 1) + if break_ends_at(text, i) {
            1nat
        } else {
            0nat
        }
    }
}

/// The number of lines of `text`: its line breaks plus one.
pub open spec fn rope_line_count(text: Seq<char>) -> nat {
    breaks_upto(text, text.len() as int) + 1
}

/// The line that holds char `idx`: the number of line breaks before it.
pub open spec fn rope_char_line(text: Seq<char>, idx: int) -> int {
    breaks_upto(text, idx) as int
}

/// Where line `line` starts: 0 for the first line, just after its line
/// break for the others, and one past the end for the line after the last.
pub open spec fn rope_line_start(text: Seq<char>, line: int) -> int {
    if line <= 0 {
        0
    } else if line >= rope_line_count(text) {
        text.len() as int
    } else {
        choose|e: int| break_ends_at(text, e) && breaks_upto(text, e) == line
    }
}

/// `Rope::from_str`: the new rope holds exactly the characters of `text`
/// (a rope's char count is a `usize`).
#[verifier::external_body]
pub(crate) fn rope_from_str(text: &str) -> (r: Rope)
    ensures
        rope_text(r) == text@,
        rope_text(r).len() <= usize::MAX,
{
    Rope::from_str(text)
}

/// `Rope::clone`: the copy holds the same characters.
#[verifier::external_body]
pub(crate) fn rope_clone(r: &Rope) -> (c: Rope)
    ensures
        rope_text(c) == rope_text(*r),
{
    r.clone()
}

/// `Rope::len_chars`: the number of characters the rope holds.
#[verifier::external_body]
pub(crate) fn rope_len_chars(r: &Rope) -> (n: usize)
    ensures
        n == rope_text(*r).len(),
{
    r.len_chars()
}

/// `Rope::len_lines`: the number of line breaks plus one.
#[verifier::external_body]
pub(crate) fn rope_len_lines(r: &Rope) -> (n: usize)
    ensures
        n == rope_line_count(rope_text(*r)),
{
    r.len_lines()
}

/// `Rope::insert`: `text` is spliced in at char index `idx`; ropey panics
/// when `idx` is past the end, which `requires` rules out.
#[verifier::external_body]
pub(crate) fn rope_insert(r: &mut Rope, idx: usize, text: &str)
    requires
        idx <= rope_text(*old(r)).len(),
    ensures
        rope_text(*final(r)) == rope_text(*old(r)).take(idx as int) + text@ + rope_text(
            *old(r),
        ).skip(idx as int),
        rope_text(*final(r)).len() <= usize::MAX,
{
    r.insert(idx, text)
}

/// `Rope::remove` on the char range `start..end`: those characters are
/// taken out; ropey panics when `start > end` or `end` is past the end.
#[verifier::external_body]
pub(crate) fn rope_remove(r: &mut Rope, start: usize, end: usize)
    requires
        start <= end <= rope_text(*old(r)).len(),
    ensures
        rope_text(*final(r)) == rope_text(*old(r)).take(start as int) + rope_text(*old(r)).skip(
            end as int,
        ),
{
    r.remove(start..end)
}

/// `Rope::char_to_line`: the number of line breaks before char `idx` (one
/// past the end gives the last line).
#[verifier::external_body]
pub(crate) fn rope_char_to_line(r: &Rope, idx: usize) -> (l: usize)
    requires
        idx <= rope_text(*r).len(),
    ensures
        l == rope_char_line(rope_text(*r), idx as int),
{
    r.char_to_line(idx)
}

/// `Rope::line_to_char`: the char index at which line `line` starts (the
/// line one past the last gives one past the end).
#[verifier::external_body]
pub(crate) fn rope_line_to_char(r: &Rope, line: usize) -> (c: usize)
    requires
        line <= rope_line_count(rope_text(*r)),
    ensures
        c == rope_line_start(rope_text(*r), line as int),
{
    r.line_to_char(line)
}

/// `Rope::line(line).len_chars()`: the line runs from the start of `line`
/// to the start of the next one, its line break included.
#[verifier::external_body]
pub(crate) fn rope_line_len(r: &Rope, line: usize) -> (n: usize)
    requires
        line < rope_line_count(rope_text(*r)),
    ensures
        n == rope_line_start(rope_text(*r), line + 1) - rope_line_start(rope_text(*r), line as int),
{
    r.line(line).len_chars()
}

/// `Rope::line(line).to_string()`: the characters of that line.
#[verifier::external_body]
pub(crate) fn rope_line_string(r: &Rope, line: usize) -> (s: String)
    requires
        line < rope_line_count(rope_text(*r)),
    ensures
        s@ == rope_text(*r).subrange(
            rope_line_start(rope_text(*r), line as int),
            rope_line_start(rope_text(*r), line + 1),
        ),
{
    r.line(line).to_string()
}

/// `Rope::slice(start..end).to_string()`: the characters in that range.
#[verifier::external_body]
pub(crate) fn rope_slice_string(r: &Rope, start: usize, end: usize) -> (s: String)
    requires
        start <= end <= rope_text(*r).len(),
    ensures
        s@ == rope_text(*r).subrange(start as int, end as int),
{
    r.slice(start..end).to_string()
}

/// `Rope::to_string`: all the characters of the rope.
#[verifier::external_body]
pub(crate) fn rope_to_string(r: &Rope) -> (s: String)
    ensures
        s@ == rope_text(*r),
{
    r.to_string()
}

}
