//! Character classes and small string routines the editor's rules use.

use vstd::prelude::*;
use vstd::string::StrSliceExecFns;

verus! {

/// The characters of `s`, one by one.
pub fn str_chars(s: &str) -> (v: Vec<char>)
    ensures
        v@ == s@,
{
    let mut v: Vec<char> = Vec::new();
    for c in it: s.chars()
        invariant
            v@ == it.seq().take(it.index() as int),
            it.seq() == s@,
    {
        v.push(c);
    }
    v
}

}

verus! {

/// The general category Cc: U+0000..=U+001F and U+007F..=U+009F.
pub open spec fn is_control_char(c: char) -> bool {
    (c as u32) <= 0x1f || (0x7f <= (c as u32) && (c as u32) <= 0x9f)
}

/// ASCII letters and digits.
pub open spec fn is_ascii_alphanumeric(c: char) -> bool {
    ('a' <= c && c <= 'z') || ('A' <= c && c <= 'Z') || ('0' <= c && c <= '9')
}

/// What `char::is_alphanumeric` returns.
pub uninterp spec fn char_alphanumeric(c: char) -> bool;

/// What `char::is_uppercase` returns.
pub uninterp spec fn char_uppercase(c: char) -> bool;

/// Whether `c` is a control character (general category Cc), the test
/// `char::is_control` makes.
pub fn char_is_control(c: char) -> (b: bool)
    ensures
        b == is_control_char(c),
{
    let u = c as u32;
    u <= 0x1f || (0x7f <= u && u <= 0x9f)
}

/// `char::is_alphanumeric`: alphabetic or numeric in the Unicode sense.
/// Stated besides the name: on ASCII it holds exactly of letters and digits.
#[verifier::external_body]
pub fn char_is_alphanumeric(c: char) -> (b: bool)
    ensures
        b == char_alphanumeric(c),
        (c as u32) < 128 ==> (b <==> is_ascii_alphanumeric(c)),
{
    c.is_alphanumeric()
}

/// `char::is_uppercase`: the Unicode `Uppercase` property. Stated besides
/// the name: on ASCII it holds exactly of `'A'..='Z'`.
#[verifier::external_body]
pub fn char_is_uppercase(c: char) -> (b: bool)
    ensures
        b == char_uppercase(c),
        (c as u32) < 128 ==> (b <==> ('A' <= c && c <= 'Z')),
{
    c.is_uppercase()
}

/// No character of `s` is a control character.
pub open spec fn free_of_control(s: Seq<char>) -> bool {
    forall|i: int| 0 <= i < s.len() ==> !is_control_char(#[trigger] s[i])
}

/// Whether `s` holds no control character (the test the editor applies to
/// typed text before inserting it).
pub fn has_no_control_chars(s: &str) -> (b: bool)
    ensures
        b == free_of_control(s@),
{
    let v = str_chars(s);
    let n = v.len();
    let mut i: usize = 0;
    while i < n
        invariant
            n == v@.len(),
            v@ == s@,
            i <= n,
            forall|j: int| 0 <= j < i ==> !is_control_char(#[trigger] s@[j]),
        decreases n - i,
    {
        if char_is_control(v[i]) {
            return false;
        }
        i = i + 1;
    }
    true
}

/// Whether the characters in `a` are exactly those of `b`.
pub fn chars_equal_str(a: &Vec<char>, b: &str) -> (r: bool)
    ensures
        r == (a@ == b@),
{
    if a.len() != b.unicode_len() {
        return false;
    }
    let bv = str_chars(b);
    let n = a.len();
    let mut i: usize = 0;
    while i < n
        invariant
            n == a@.len(),
            n == bv@.len(),
            bv@ == b@,
            i <= n,
            forall|j: int| 0 <= j < i ==> a@[j] == bv@[j],
        decreases n - i,
    {
        if a[i] != bv[i] {
            assert(a@[i as int] != b@[i as int]);
            return false;
        }
        i = i + 1;
    }
    assert(a@ =~= b@);
    true
}

/// `needle` occurs in `hay` at position `i`.
pub open spec fn occurs_at(hay: Seq<char>, needle: Seq<char>, i: int) -> bool {
    0 <= i && i + needle.len() <= hay.len() && hay.subrange(i, i + needle.len()) == needle
}

/// `needle` occurs somewhere in `hay`.
pub open spec fn seq_contains(hay: Seq<char>, needle: Seq<char>) -> bool {
    exists|i: int| occurs_at(hay, needle, i)
}

/// Whether `needle` occurs in `hay` as a run of consecutive characters.
pub fn str_contains(hay: &str, needle: &str) -> (r: bool)
    ensures
        r == seq_contains(hay@, needle@),
{
    let h = str_chars(hay);
    let nd = str_chars(needle);
    let hn = h.len();
    let nn = nd.len();
    if nn > hn {
        assert forall|i: int| !occurs_at(hay@, needle@, i) by {}
        return false;
    }
    if nn == 0 {
        assert(hay@.subrange(0, 0) =~= needle@);
        assert(occurs_at(hay@, needle@, 0));
        return true;
    }
    let mut i: usize = 0;
    while i <= hn - nn
        invariant
            h@ == hay@,
            nd@ == needle@,
            hn == h@.len(),
            nn == nd@.len(),
            1 <= nn <= hn,
            i <= hn - nn + 1,
            forall|k: int| 0 <= k < i ==> !occurs_at(hay@, needle@, k),
        decreases hn - nn + 1 - i,
    {
        let mut j: usize = 0;
        let mut same = true;
        while j < nn
            invariant
                h@ == hay@,
                nd@ == needle@,
                hn == h@.len(),
                nn == nd@.len(),
                i + nn <= hn,
                j <= nn,
                same ==> forall|k: int| 0 <= k < j ==> h@[i + k] == nd@[k],
                !same ==> !occurs_at(hay@, needle@, i as int),
            decreases nn - j,
        {
            if h[i + j] != nd[j] {
                same = false;
                assert(hay@.subrange(i as int, i + nn)[j as int] != needle@[j as int]);
            }
            j = j + 1;
        }
        if same {
            assert(hay@.subrange(i as int, i + nn) =~= needle@);
            assert(occurs_at(hay@, needle@, i as int));
            return true;
        }
        i = i + 1;
    }
    assert forall|k: int| !occurs_at(hay@, needle@, k) by {
        if 0 <= k && k + needle@.len() <= hay@.len() {
            assert(k < i);
        }
    }
    false
}

/// The number of decimal digits of `n`.
pub open spec fn decimal_digits(n: nat) -> nat
    decreases n,
{
    if n < 10 {
        1
    } else {
        1 + decimal_digits(n / 10)
    }
}

proof fn lemma_decimal_digits_bounds(n: nat)
    ensures
        decimal_digits(n) >= 1,
        n >= 1 ==> decimal_digits(n) <= n,
        n >= 10 ==> decimal_digits(n) >= 2,
    decreases n,
{
    if n >= 10 {
        lemma_decimal_digits_bounds(n / 10);
    }
}

/// The number of decimal digits of `n` (the length of `n.to_string()`).
pub fn count_digits(n: usize) -> (d: usize)
    ensures
        d == decimal_digits(n as nat),
{
    let mut m = n;
    let mut d: usize = 1;
    proof {
        lemma_decimal_digits_bounds(n as nat);
    }
    while m >= 10
        invariant
            d + decimal_digits(m as nat) == decimal_digits(n as nat) + 1,
            decimal_digits(n as nat) <= usize::MAX,
            d >= 1,
        decreases m,
    {
        proof {
            lemma_decimal_digits_bounds(m as nat);
        }
        m = m / 10;
        d = d + 1;
    }
    d
}

}
