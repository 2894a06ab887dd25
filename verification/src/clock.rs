//! The fetch-time timestamp that names a work unit when no explicit
//! rename is given. Nothing is trusted about the rendered clock value:
//! its shape is checked executably, with a fixed well-shaped fallback.

use vstd::prelude::*;

verus! {

/// An ASCII decimal digit.
pub open spec fn is_digit(c: char) -> bool {
    '0' <= c && c <= '9'
}

/// A 23-character local-time stamp shaped `YYYY-MM-DD HH:MM:SS.mmm`.
pub open spec fn timestamp_shaped(s: Seq<char>) -> bool {
    &&& s.len() == 23
    &&& is_digit(s[0]) && is_digit(s[1]) && is_digit(s[2]) && is_digit(s[3])
    &&& s[4] == '-'
    &&& is_digit(s[5]) && is_digit(s[6])
    &&& s[7] == '-'
    &&& is_digit(s[8]) && is_digit(s[9])
    &&& s[10] == ' '
    &&& is_digit(s[11]) && is_digit(s[12])
    &&& s[13] == ':'
    &&& is_digit(s[14]) && is_digit(s[15])
    &&& s[16] == ':'
    &&& is_digit(s[17]) && is_digit(s[18])
    &&& s[19] == '.'
    &&& is_digit(s[20]) && is_digit(s[21]) && is_digit(s[22])
}

/// Executable test for an ASCII decimal digit.
fn digit_char(c: char) -> (r: bool)
    ensures
        r == is_digit(c),
{
    '0' <= c && c <= '9'
}

/// Check executably whether a string has the timestamp shape.
pub fn is_timestamp_shaped(s: &str) -> (r: bool)
    ensures
        r == timestamp_shaped(s@),
{
    if s.unicode_len() != 23 {
        return false;
    }
    digit_char(s.get_char(0)) && digit_char(s.get_char(1)) && digit_char(s.get_char(2))
        && digit_char(s.get_char(3)) && s.get_char(4) == '-' && digit_char(s.get_char(5))
        && digit_char(s.get_char(6)) && s.get_char(7) == '-' && digit_char(s.get_char(8))
        && digit_char(s.get_char(9)) && s.get_char(10) == ' ' && digit_char(s.get_char(11))
        && digit_char(s.get_char(12)) && s.get_char(13) == ':' && digit_char(s.get_char(14))
        && digit_char(s.get_char(15)) && s.get_char(16) == ':' && digit_char(s.get_char(17))
        && digit_char(s.get_char(18)) && s.get_char(19) == '.' && digit_char(s.get_char(20))
        && digit_char(s.get_char(21)) && digit_char(s.get_char(22))
}

/// Relies on `chrono::Local::now` and `chrono::DateTime::format` with the
/// pattern `%Y-%m-%d %H:%M:%S.%3f` to render the current local time.
/// Nothing is claimed of the result: a clock outside years 0–9999 widens
/// the year field. Inherited from chrono (as in any caller of
/// `Local::now`): the call panics when the system clock is before the
/// Unix epoch or beyond chrono's representable range.
#[verifier::external_body]
fn now_rendered() -> String {
    chrono::Local::now().format("%Y-%m-%d %H:%M:%S.%3f").to_string()
}

/// The current local time as a timestamp-shaped name. Should the clock
/// render outside the shape (a year not of four digits), a fixed
/// well-shaped stamp stands in, so the shape holds of every outcome.
pub fn now_timestamp() -> (r: String)
    ensures
        timestamp_shaped(r@),
{
    let rendered = now_rendered();
    if is_timestamp_shaped(rendered.as_str()) {
        rendered
    } else {
        let fallback = "1970-01-01 00:00:00.000";
        proof {
            reveal_strlit("1970-01-01 00:00:00.000");
            assert(timestamp_shaped(fallback@));
        }
        fallback.to_owned()
    }
}

} // verus!
