//! Colouring of source lines: a line is cut into parts, each ending at the
//! first character that is neither alphanumeric nor `_`, and each part is
//! coloured by the word it starts with.

use crate::text::{char_alphanumeric, char_is_alphanumeric, char_is_uppercase, char_uppercase, chars_equal_str, str_chars};
use vstd::prelude::*;
use vstd::string::{StrSliceExecFns, StringExecFns};

verus! {

/// How a part of a line is coloured.
#[derive(Clone, Copy, Debug, PartialEq, Eq, Structural)]
pub enum TokenClass {
    Keyword,
    TypeName,
    Literal,
    Plain,
}

/// A part of a line and its colour.
pub struct Token {
    pub text: String,
    pub class: TokenClass,
}

pub open spec fn is_word_char(c: char) -> bool {
    char_alphanumeric(c) || c == '_'
}

/// `s` without its trailing `'\n'` and `'\r'` characters.
pub open spec fn trim_line_breaks(s: Seq<char>) -> Seq<char>
    decreases s.len(),
{
    if s.len() > 0 && (s.last() == '\n' || s.last() == '\r') {
        trim_line_breaks(s.drop_last())
    } else {
        s
    }
}

/// `s` without its trailing characters that are not word characters.
pub open spec fn trim_non_word(s: Seq<char>) -> Seq<char>
    decreases s.len(),
{
    if s.len() > 0 && !is_word_char(s.last()) {
        trim_non_word(s.drop_last())
    } else {
        s
    }
}

/// The parts of `s`: consecutive runs, each ending just after a character
/// that is not a word character, the last one possibly at the end of `s`;
/// together they make up `s`, and none is empty.
pub open spec fn split_parts(s: Seq<char>) -> Seq<Seq<char>>
    decreases s.len(),
{
    if s.len() == 0 {
        seq![]
    } else {
        let p = split_parts(s.drop_last());
        let c = s.last();
        if p.len() > 0 && is_word_char(p.last().last()) {
            p.update(p.len() - 1, p.last().push(c))
        } else {
            p.push(seq![c])
        }
    }
}

/// The words coloured as keywords.
pub open spec fn is_keyword(w: Seq<char>) -> bool {
    ||| w == "pub"@ ||| w == "fn"@ ||| w == "let"@ ||| w == "mut"@ ||| w == "use"@
    ||| w == "mod"@ ||| w == "impl"@ ||| w == "trait"@ ||| w == "enum"@ ||| w == "match"@
    ||| w == "if"@ ||| w == "else"@ ||| w == "for"@ ||| w == "while"@ ||| w == "loop"@
    ||| w == "return"@ ||| w == "struct"@ ||| w == "type"@ ||| w == "where"@ ||| w == "async"@
    ||| w == "await"@ ||| w == "move"@ ||| w == "ref"@ ||| w == "in"@ ||| w == "const"@
    ||| w == "static"@ ||| w == "unsafe"@ ||| w == "extern"@ ||| w == "public"@
    ||| w == "private"@ ||| w == "protected"@ ||| w == "internal"@ ||| w == "class"@
    ||| w == "void"@ ||| w == "int"@ ||| w == "string"@ ||| w == "bool"@ ||| w == "using"@
    ||| w == "namespace"@ ||| w == "override"@ ||| w == "virtual"@ ||| w == "new"@
    ||| w == "foreach"@ ||| w == "case"@ ||| w == "switch"@ ||| w == "break"@ ||| w == "var"@
}

/// The words coloured as literals.
pub open spec fn is_literal_word(w: Seq<char>) -> bool {
    ||| w == "true"@ ||| w == "false"@ ||| w == "null"@ ||| w == "self"@ ||| w == "Self"@
    ||| w == "this"@ ||| w == "base"@ ||| w == "super"@
}

/// The colour of a part whose word (the part without its trailing
/// non-word characters) is `w`: keywords first, then words starting with an
/// upper-case letter, then literals.
pub open spec fn classify(w: Seq<char>) -> TokenClass {
    if is_keyword(w) {
        TokenClass::Keyword
    } else if w.len() > 0 && char_uppercase(w[0]) {
        TokenClass::TypeName
    } else if is_literal_word(w) {
        TokenClass::Literal
    } else {
        TokenClass::Plain
    }
}

fn is_keyword_exec(w: &Vec<char>) -> (b: bool)
    ensures
        b == is_keyword(w@),
{
    chars_equal_str(w, "pub") || chars_equal_str(w, "fn") || chars_equal_str(w, "let")
        || chars_equal_str(w, "mut") || chars_equal_str(w, "use") || chars_equal_str(w, "mod")
        || chars_equal_str(w, "impl") || chars_equal_str(w, "trait") || chars_equal_str(w, "enum")
        || chars_equal_str(w, "match") || chars_equal_str(w, "if") || chars_equal_str(w, "else")
        || chars_equal_str(w, "for") || chars_equal_str(w, "while") || chars_equal_str(w, "loop")
        || chars_equal_str(w, "return") || chars_equal_str(w, "struct") || chars_equal_str(
        w,
        "type",
    ) || chars_equal_str(w, "where") || chars_equal_str(w, "async") || chars_equal_str(w, "await")
        || chars_equal_str(w, "move") || chars_equal_str(w, "ref") || chars_equal_str(w, "in")
        || chars_equal_str(w, "const") || chars_equal_str(w, "static") || chars_equal_str(
        w,
        "unsafe",
    ) || chars_equal_str(w, "extern") || chars_equal_str(w, "public") || chars_equal_str(
        w,
        "private",
    ) || chars_equal_str(w, "protected") || chars_equal_str(w, "internal") || chars_equal_str(
        w,
        "class",
    ) || chars_equal_str(w, "void") || chars_equal_str(w, "int") || chars_equal_str(w, "string")
        || chars_equal_str(w, "bool") || chars_equal_str(w, "using") || chars_equal_str(
        w,
        "namespace",
    ) || chars_equal_str(w, "override") || chars_equal_str(w, "virtual") || chars_equal_str(
        w,
        "new",
    ) || chars_equal_str(w, "foreach") || chars_equal_str(w, "case") || chars_equal_str(
        w,
        "switch",
    ) || chars_equal_str(w, "break") || chars_equal_str(w, "var")
}

fn is_literal_exec(w: &Vec<char>) -> (b: bool)
    ensures
        b == is_literal_word(w@),
{
    chars_equal_str(w, "true") || chars_equal_str(w, "false") || chars_equal_str(w, "null")
        || chars_equal_str(w, "self") || chars_equal_str(w, "Self") || chars_equal_str(w, "this")
        || chars_equal_str(w, "base") || chars_equal_str(w, "super")
}

/// The colour of a word (see `classify`).
pub fn classify_word(w: &Vec<char>) -> (c: TokenClass)
    ensures
        c == classify(w@),
{
    if is_keyword_exec(w) {
        TokenClass::Keyword
    } else if w.len() > 0 && char_is_uppercase(w[0]) {
        TokenClass::TypeName
    } else if is_literal_exec(w) {
        TokenClass::Literal
    } else {
        TokenClass::Plain
    }
}


/// The texts of the char ranges `r` of `d`.
pub open spec fn range_parts(d: Seq<char>, r: Seq<(usize, usize)>) -> Seq<Seq<char>> {
    r.map_values(|p: (usize, usize)| d.subrange(p.0 as int, p.1 as int))
}

/// The char ranges of the parts of the first `end` characters of `v`.
fn part_ranges(v: &Vec<char>, end: usize) -> (ranges: Vec<(usize, usize)>)
    requires
        end <= v@.len(),
    ensures
        range_parts(v@.take(end as int), ranges@) == split_parts(v@.take(end as int)),
        forall|k: int| 0 <= k < ranges@.len() ==> (#[trigger] ranges@[k]).0 < ranges@[k].1 <= end,
{
    let ghost d = v@.take(end as int);
    let mut ranges: Vec<(usize, usize)> = Vec::new();
    let mut start: usize = 0;
    let mut i: usize = 0;
    while i < end
        invariant
            end <= v@.len(),
            d == v@.take(end as int),
            start <= i <= end,
            forall|k: int| 0 <= k < ranges@.len() ==> (#[trigger] ranges@[k]).0 < ranges@[k].1 <= start,
            forall|k: int|
                0 <= k < ranges@.len() ==> !is_word_char(d[(#[trigger] ranges@[k]).1 - 1]),
            forall|j: int| start <= j < i ==> is_word_char(#[trigger] d[j]),
            range_parts(d, ranges@) + (if start < i {
                seq![d.subrange(start as int, i as int)]
            } else {
                Seq::empty()
            }) == split_parts(d.take(i as int)),
        decreases end - i,
    {
        let ghost p = split_parts(d.take(i as int));
        let ghost closed = range_parts(d, ranges@);
        assert(d.take(i + 1).drop_last() =~= d.take(i as int));
        assert(d.take(i + 1).last() == d[i as int]);
        let c = v[i];
        assert(c == d[i as int]);
        let word = char_is_alphanumeric(c) || c == '_';
        proof {
            if start < i {
                assert(p.last() =~= d.subrange(start as int, i as int));
                assert(is_word_char(d[i - 1]));
                assert(d.subrange(start as int, i as int).push(d[i as int]) =~= d.subrange(
                    start as int,
                    i + 1,
                ));
                assert(split_parts(d.take(i + 1)) =~= closed + seq![d.subrange(start as int, i + 1)]);
            } else {
                if closed.len() > 0 {
                    let lastr = ranges@[ranges@.len() - 1];
                    assert(closed.last() == d.subrange(lastr.0 as int, lastr.1 as int));
                    assert(closed.last().last() == d[lastr.1 - 1]);
                }
                assert(p =~= closed);
                assert(seq![d[i as int]] =~= d.subrange(i as int, i + 1));
                assert(split_parts(d.take(i + 1)) =~= closed + seq![d.subrange(i as int, i + 1)]);
            }
        }
        if !word {
            ranges.push((start, i + 1));
            assert(range_parts(d, ranges@) =~= closed.push(d.subrange(start as int, i + 1)));
            start = i + 1;
        }
        i = i + 1;
        assert(range_parts(d, ranges@) + (if start < i {
            seq![d.subrange(start as int, i as int)]
        } else {
            Seq::empty()
        }) =~= split_parts(d.take(i as int)));
    }
    let ghost closed = range_parts(d, ranges@);
    if start < end {
        ranges.push((start, end));
        assert(range_parts(d, ranges@) =~= closed.push(d.subrange(start as int, end as int)));
    }
    assert(d.take(end as int) =~= d);
    assert(range_parts(d, ranges@) =~= split_parts(d));
    ranges
}

/// Cuts a line of text (its line break left out) into coloured parts: the
/// parts are those of `split_parts`, and each is coloured by its word.
pub fn highlight_line(line: &str) -> (tokens: Vec<Token>)
    ensures
        tokens@.len() == split_parts(trim_line_breaks(line@)).len(),
        forall|k: int|
            0 <= k < tokens@.len() ==> {
                let p = split_parts(trim_line_breaks(line@))[k];
                &&& (#[trigger] tokens@[k]).text@ == p
                &&& tokens@[k].class == classify(trim_non_word(p))
            },
{
    let v = str_chars(line);
    let mut end = v.len();
    assert(line@.take(v@.len() as int) =~= line@);
    while end > 0 && (v[end - 1] == '\n' || v[end - 1] == '\r')
        invariant
            v@ == line@,
            end <= v@.len(),
            trim_line_breaks(line@.take(end as int)) == trim_line_breaks(line@),
        decreases end,
    {
        assert(line@.take(end as int).drop_last() =~= line@.take(end - 1));
        end = end - 1;
    }
    assert(line@.take(v@.len() as int) =~= line@);
    let ghost d = line@.take(end as int);
    assert(trim_line_breaks(d) == d);
    let ranges = part_ranges(&v, end);
    let mut tokens: Vec<Token> = Vec::new();
    let nr = ranges.len();
    let mut k: usize = 0;
    while k < nr
        invariant
            v@ == line@,
            d == line@.take(end as int),
            end <= line@.len(),
            trim_line_breaks(line@) == d,
            nr == ranges@.len(),
            range_parts(d, ranges@) == split_parts(d),
            forall|j: int| 0 <= j < ranges@.len() ==> (#[trigger] ranges@[j]).0 < ranges@[j].1 <= end,
            k <= nr,
            tokens@.len() == k,
            forall|j: int|
                0 <= j < k ==> {
                    let p = split_parts(d)[j];
                    &&& (#[trigger] tokens@[j]).text@ == p
                    &&& tokens@[j].class == classify(trim_non_word(p))
                },
        decreases nr - k,
    {
        let (a, b) = ranges[k];
        let ghost part = d.subrange(a as int, b as int);
        assert(split_parts(d)[k as int] == part);
        assert(part =~= line@.subrange(a as int, b as int));
        let text = String::from_str(line.substring_char(a, b));
        let mut we = b;
        while we > a && !(char_is_alphanumeric(v[we - 1]) || v[we - 1] == '_')
            invariant
                v@ == line@,
                a <= we <= b <= end,
                end <= line@.len(),
                trim_non_word(line@.subrange(a as int, we as int)) == trim_non_word(part),
                part == line@.subrange(a as int, b as int),
            decreases we,
        {
            assert(line@.subrange(a as int, we as int).drop_last() =~= line@.subrange(a as int, we - 1));
            we = we - 1;
        }
        let mut w: Vec<char> = Vec::new();
        let mut j = a;
        while j < we
            invariant
                v@ == line@,
                a <= j <= we <= line@.len(),
                w@ == line@.subrange(a as int, j as int),
            decreases we - j,
        {
            w.push(v[j]);
            assert(w@ =~= line@.subrange(a as int, j + 1));
            j = j + 1;
        }
        assert(trim_non_word(w@) == w@);
        let class = classify_word(&w);
        tokens.push(Token { text, class });
        k = k + 1;
    }
    tokens
}
}
