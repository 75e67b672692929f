//! How the output log and the file explorer present their entries.

use crate::text::{chars_equal_str, seq_contains, str_chars, str_contains};
use vstd::prelude::*;

verus! {

/// The colour of a log line.
#[derive(Clone, Copy, Debug, PartialEq, Eq, Structural)]
pub enum LogKind {
    Error,
    Success,
    Normal,
}

/// A line that mentions `ERROR` or `failed` is an error; otherwise one that
/// mentions `Saved` or `Loaded` is a success; anything else is plain.
pub open spec fn log_kind_of(line: Seq<char>) -> LogKind {
    if seq_contains(line, "ERROR"@) || seq_contains(line, "failed"@) {
        LogKind::Error
    } else if seq_contains(line, "Saved"@) || seq_contains(line, "Loaded"@) {
        LogKind::Success
    } else {
        LogKind::Normal
    }
}

/// The colour of a log line (see `log_kind_of`).
pub fn log_kind(line: &str) -> (k: LogKind)
    ensures
        k == log_kind_of(line@),
{
    if str_contains(line, "ERROR") || str_contains(line, "failed") {
        LogKind::Error
    } else if str_contains(line, "Saved") || str_contains(line, "Loaded") {
        LogKind::Success
    } else {
        LogKind::Normal
    }
}

/// The two-character badge the explorer shows for a file extension.
pub open spec fn icon_for(ext: Seq<char>) -> Seq<char> {
    if ext == "rs"@ {
        "rs"@
    } else if ext == "cs"@ {
        "cs"@
    } else if ext == "js"@ {
        "js"@
    } else if ext == "ts"@ {
        "ts"@
    } else if ext == "cpp"@ || ext == "cc"@ || ext == "cxx"@ {
        "c+"@
    } else if ext == "h"@ || ext == "hpp"@ {
        "h "@
    } else if ext == "json"@ {
        "{}"@
    } else if ext == "toml"@ || ext == "yaml"@ || ext == "yml"@ {
        "cf"@
    } else if ext == "md"@ {
        "md"@
    } else if ext == "txt"@ {
        "tx"@
    } else {
        "  "@
    }
}

/// The explorer badge for a file extension (see `icon_for`).
pub fn explorer_icon(ext: &str) -> (icon: &'static str)
    ensures
        icon@ == icon_for(ext@),
{
    let e = str_chars(ext);
    if chars_equal_str(&e, "rs") {
        "rs"
    } else if chars_equal_str(&e, "cs") {
        "cs"
    } else if chars_equal_str(&e, "js") {
        "js"
    } else if chars_equal_str(&e, "ts") {
        "ts"
    } else if chars_equal_str(&e, "cpp") || chars_equal_str(&e, "cc") || chars_equal_str(&e, "cxx") {
        "c+"
    } else if chars_equal_str(&e, "h") || chars_equal_str(&e, "hpp") {
        "h "
    } else if chars_equal_str(&e, "json") {
        "{}"
    } else if chars_equal_str(&e, "toml") || chars_equal_str(&e, "yaml") || chars_equal_str(
        &e,
        "yml",
    ) {
        "cf"
    } else if chars_equal_str(&e, "md") {
        "md"
    } else if chars_equal_str(&e, "txt") {
        "tx"
    } else {
        "  "
    }
}

/// The most files the explorer lists.
pub const EXPLORER_LIMIT: usize = 8000;

/// Whether the explorer has collected as many files as it lists, so the
/// walk over the project stops.
pub fn explorer_full(collected: usize) -> (full: bool)
    ensures
        full == (collected >= EXPLORER_LIMIT),
{
    collected >= EXPLORER_LIMIT
}


/// The columns of a line that a selection covers, for drawing it.
#[derive(Clone, Copy, Debug, PartialEq, Eq)]
pub struct SelectionSpan {
    /// The first selected column (zero when the selection starts on an
    /// earlier line).
    pub start_col: usize,
    /// The column the highlight runs to, never past the last character
    /// before the line's end.
    pub end_col: usize,
    /// Whether the selection runs on past the end of the line, so that the
    /// highlight takes one more column.
    pub through_end: bool,
}

/// The part of the line starting at char `line_start` and `line_len`
/// characters long that the selection `sel_start..sel_end` covers, if any.
pub fn selection_span(sel_start: usize, sel_end: usize, line_start: usize, line_len: usize) -> (r: Option<SelectionSpan>)
    requires
        line_start + line_len <= usize::MAX,
    ensures
        r is Some <==> (sel_end > line_start && sel_start < line_start + line_len),
        r matches Some(span) ==> {
            &&& span.start_col == (if sel_start >= line_start { sel_start - line_start } else { 0 })
            &&& span.end_col == (if sel_end - line_start <= (if line_len > 0 { line_len - 1 } else { 0 }) {
                sel_end - line_start
            } else if line_len > 0 {
                line_len - 1
            } else {
                0
            })
            &&& span.through_end == (sel_end >= line_start + line_len)
        },
{
    let line_end = line_start + line_len;
    if sel_end > line_start && sel_start < line_end {
        let start_col = if sel_start >= line_start { sel_start - line_start } else { 0 };
        let last = if line_len > 0 { line_len - 1 } else { 0 };
        let to = sel_end - line_start;
        let end_col = if to <= last { to } else { last };
        Some(SelectionSpan { start_col, end_col, through_end: sel_end >= line_end })
    } else {
        None
    }
}
}
