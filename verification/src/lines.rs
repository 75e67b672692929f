//! Facts about the line structure of a text: line starts grow with the line
//! number, and every position lies on exactly one line.

use crate::rope::{break_ends_at, breaks_upto, rope_char_line, rope_line_count, rope_line_start};
use vstd::prelude::*;

verus! {

/// Counting line breaks up to a later position never gives fewer.
pub proof fn lemma_breaks_monotone(t: Seq<char>, a: int, b: int)
    requires
        a <= b,
    ensures
        breaks_upto(t, a) <= breaks_upto(t, b),
    decreases b - a,
{
    if a < b {
        lemma_breaks_monotone(t, a, b - 1);
    }
}

/// Past the end of the text no more line breaks are counted.
pub proof fn lemma_breaks_past_end(t: Seq<char>, i: int)
    requires
        i >= t.len(),
    ensures
        breaks_upto(t, i) == breaks_upto(t, t.len() as int),
    decreases i,
{
    if i > t.len() {
        lemma_breaks_past_end(t, i - 1);
    }
}

/// Every count of line breaks up to the total is reached at a break end.
pub proof fn lemma_break_exists(t: Seq<char>, i: int, l: nat)
    requires
        0 < l <= breaks_upto(t, i),
    ensures
        exists|e: int| e <= i && break_ends_at(t, e) && breaks_upto(t, e) == l,
    decreases i,
{
    if i > 0 {
        if l <= breaks_upto(t, i - 1) {
            lemma_break_exists(t, i - 1, l);
            let e = choose|e: int| e <= i - 1 && break_ends_at(t, e) && breaks_upto(t, e) == l;
            assert(e <= i && break_ends_at(t, e) && breaks_upto(t, e) == l);
        } else {
            assert(break_ends_at(t, i) && breaks_upto(t, i) == l);
        }
    }
}

/// Where line `l` starts: inside the text; at 0 for the first line and at
/// the end for the line after the last; otherwise just after a line break,
/// with `l` breaks up to there and `l - 1` before.
pub proof fn lemma_line_start(t: Seq<char>, l: int)
    requires
        0 <= l <= rope_line_count(t),
    ensures
        0 <= rope_line_start(t, l) <= t.len(),
        l == 0 ==> rope_line_start(t, l) == 0,
        l == rope_line_count(t) ==> rope_line_start(t, l) == t.len(),
        l < rope_line_count(t) ==> breaks_upto(t, rope_line_start(t, l)) == l,
        0 < l < rope_line_count(t) ==> break_ends_at(t, rope_line_start(t, l)) && breaks_upto(
            t,
            rope_line_start(t, l) - 1,
        ) == l - 1,
{
    if 0 < l < rope_line_count(t) {
        lemma_break_exists(t, t.len() as int, l as nat);
        let e = rope_line_start(t, l);
        assert(break_ends_at(t, e) && breaks_upto(t, e) == l);
    }
}

/// Line starts grow with the line number, strictly before the last line.
pub proof fn lemma_starts_monotone(t: Seq<char>, a: int, b: int)
    requires
        0 <= a <= b <= rope_line_count(t),
    ensures
        rope_line_start(t, a) <= rope_line_start(t, b),
        a < b < rope_line_count(t) ==> rope_line_start(t, a) < rope_line_start(t, b),
{
    lemma_line_start(t, a);
    lemma_line_start(t, b);
    if a < b && b < rope_line_count(t) {
        let sa = rope_line_start(t, a);
        let sb = rope_line_start(t, b);
        if sb <= sa {
            lemma_breaks_monotone(t, sb, sa);
        }
    }
}

/// A position from the start of line `n` up to (not including) the start of
/// the next line, or up to the end on the last line, lies on line `n`.
pub proof fn lemma_on_line(t: Seq<char>, n: int, x: int)
    requires
        0 <= n < rope_line_count(t),
        rope_line_start(t, n) <= x <= t.len(),
        n + 1 < rope_line_count(t) ==> x < rope_line_start(t, n + 1),
    ensures
        rope_char_line(t, x) == n,
{
    lemma_line_start(t, n);
    lemma_breaks_monotone(t, rope_line_start(t, n), x);
    if n + 1 < rope_line_count(t) {
        lemma_line_start(t, n + 1);
        lemma_breaks_monotone(t, x, rope_line_start(t, n + 1) - 1);
    } else {
        lemma_breaks_monotone(t, x, t.len() as int);
    }
}

/// The line of a position within the text is a line of the text, starts at
/// or before it, and the next line starts after it.
pub proof fn lemma_char_line(t: Seq<char>, x: int)
    requires
        0 <= x <= t.len(),
    ensures
        0 <= rope_char_line(t, x) < rope_line_count(t),
        rope_line_start(t, rope_char_line(t, x)) <= x,
        rope_char_line(t, x) + 1 < rope_line_count(t) ==> x < rope_line_start(
            t,
            rope_char_line(t, x) + 1,
        ),
{
    let l = rope_char_line(t, x);
    lemma_breaks_monotone(t, x, t.len() as int);
    lemma_line_start(t, l);
    let s = rope_line_start(t, l);
    if s > x {
        lemma_breaks_monotone(t, x, s - 1);
    }
    if l + 1 < rope_line_count(t) {
        lemma_line_start(t, l + 1);
        let s1 = rope_line_start(t, l + 1);
        if s1 <= x {
            lemma_breaks_monotone(t, s1, x);
        }
    }
}

}
