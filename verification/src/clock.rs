//! The wall-clock time of day the output log stamps its lines with.

use vstd::prelude::*;

verus! {

pub open spec fn is_ascii_digit(c: char) -> bool {
    '0' <= c && c <= '9'
}

/// `HH:MM:SS`: two digits, a colon, two digits, a colon, two digits.
pub open spec fn is_clock_stamp(s: Seq<char>) -> bool {
    &&& s.len() == 8
    &&& s[2] == ':'
    &&& s[5] == ':'
    &&& is_ascii_digit(s[0]) && is_ascii_digit(s[1])
    &&& is_ascii_digit(s[3]) && is_ascii_digit(s[4])
    &&& is_ascii_digit(s[6]) && is_ascii_digit(s[7])
}

/// `chrono::Local::now().format("%H:%M:%S").to_string()`: the local time of
/// day, each field zero-padded to two digits. Which time it is depends on
/// the clock and the time zone, so only the shape of the text is stated.
#[verifier::external_body]
pub(crate) fn local_clock_stamp() -> (s: String)
    ensures
        is_clock_stamp(s@),
{
    chrono::Local::now().format("%H:%M:%S").to_string()
}

}
