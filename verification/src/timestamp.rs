//! Signed timestamps of the form `[+-]hh:mm:ss,mmm`.

use crate::timetypes::{TimeDelta, TimePoint};
use vstd::prelude::*;

verus! {

/// True of the ten decimal digits `0` to `9`.
pub open spec fn is_digit(c: char) -> bool {
    '0' <= c && c <= '9'
}

/// The number that a decimal digit stands for.
pub open spec fn digit_value(c: char) -> int {
    c as int - '0' as int
}

/// The number written by the two digits at `at` and `at + 1`.
pub open spec fn two_digit_number(s: Seq<char>, at: int) -> int {
    10 * digit_value(s[at]) + digit_value(s[at + 1])
}

/// The number written by the three digits at `at` to `at + 2`.
pub open spec fn three_digit_number(s: Seq<char>, at: int) -> int {
    100 * digit_value(s[at]) + 10 * digit_value(s[at + 1]) + digit_value(s[at + 2])
}

/// True when `s` ends with `hh:mm:ss,mmm` starting at position `at`: two
/// digits, a colon, two digits, a colon, two digits, a comma, three digits,
/// and nothing after them. No field has a range: `99:99:99,999` is accepted.
pub open spec fn is_clock_at(s: Seq<char>, at: int) -> bool {
    &&& s.len() == at + 12
    &&& is_digit(s[at]) && is_digit(s[at + 1])
    &&& s[at + 2] == ':'
    &&& is_digit(s[at + 3]) && is_digit(s[at + 4])
    &&& s[at + 5] == ':'
    &&& is_digit(s[at + 6]) && is_digit(s[at + 7])
    &&& s[at + 8] == ','
    &&& is_digit(s[at + 9]) && is_digit(s[at + 10]) && is_digit(s[at + 11])
}

/// The milliseconds that the clock at `at` counts:
/// `((h * 3600 + m * 60 + s) * 1000 + mmm)`.
pub open spec fn clock_msecs_at(s: Seq<char>, at: int) -> int {
    (two_digit_number(s, at) * 3600 + two_digit_number(s, at + 3) * 60 + two_digit_number(
        s,
        at + 6,
    )) * 1000 + three_digit_number(s, at + 9)
}

/// True when `s` starts with a sign.
pub open spec fn has_sign(s: Seq<char>) -> bool {
    s.len() > 0 && (s[0] == '+' || s[0] == '-')
}

/// True when the whole of `s` is a timestamp: an optional sign, then
/// `hh:mm:ss,mmm`.
pub open spec fn is_timestamp(s: Seq<char>) -> bool {
    if has_sign(s) {
        is_clock_at(s, 1)
    } else {
        is_clock_at(s, 0)
    }
}

/// The signed milliseconds that a timestamp denotes: the count of its clock,
/// negated where the sign is `-`.
pub open spec fn timestamp_msecs(s: Seq<char>) -> int {
    if has_sign(s) {
        if s[0] == '-' {
            -clock_msecs_at(s, 1)
        } else {
            clock_msecs_at(s, 1)
        }
    } else {
        clock_msecs_at(s, 0)
    }
}

/// The greatest count of milliseconds that a timestamp denotes, that of
/// `99:99:99,999`. It is the end of the window where no cutoff is given.
pub const MAX_TIMESTAMP_MSECS: i64 = 362_439_999;

/// The value of a decimal digit, or `None` for any other character.
fn digit(c: char) -> (value: Option<i64>)
    ensures
        value is Some <==> is_digit(c),
        value matches Some(v) ==> v == digit_value(c),
{
    if '0' <= c && c <= '9' {
        Some((c as u32 - '0' as u32) as i64)
    } else {
        None
    }
}

/// Reads the two digits at `at` and `at + 1`.
fn two_digits(input: &str, at: usize) -> (value: Option<i64>)
    requires
        at + 2 <= input@.len() <= usize::MAX,
    ensures
        value is Some <==> is_digit(input@[at as int]) && is_digit(input@[at + 1]),
        value matches Some(v) ==> v == two_digit_number(input@, at as int),
{
    match (digit(input.get_char(at)), digit(input.get_char(at + 1))) {
        (Some(tens), Some(ones)) => Some(10 * tens + ones),
        _ => None,
    }
}

/// Reads the three digits at `at` to `at + 2`.
fn three_digits(input: &str, at: usize) -> (value: Option<i64>)
    requires
        at + 3 <= input@.len() <= usize::MAX,
    ensures
        value is Some <==> is_digit(input@[at as int]) && is_digit(input@[at + 1]) && is_digit(
            input@[at + 2],
        ),
        value matches Some(v) ==> v == three_digit_number(input@, at as int),
{
    match (digit(input.get_char(at)), two_digits(input, at + 1)) {
        (Some(hundreds), Some(rest)) => Some(100 * hundreds + rest),
        _ => None,
    }
}

/// Parses a signed timestamp `[+-]hh:mm:ss,mmm` into milliseconds.
///
/// The whole input has to be a timestamp; anything else gives `None`.
pub fn parse_timestamp(input: &str) -> (parsed: Option<TimeDelta>)
    ensures
        parsed is Some <==> is_timestamp(input@),
        parsed matches Some(delta) ==> delta@ == timestamp_msecs(input@),
{
    let len = input.unicode_len();
    if len != 12 && len != 13 {
        return None;
    }
    let first = input.get_char(0);
    let signed = first == '+' || first == '-';
    if signed != (len == 13) {
        return None;
    }
    let at: usize = if signed { 1 } else { 0 };
    if input.get_char(at + 2) != ':' || input.get_char(at + 5) != ':' || input.get_char(at + 8)
        != ',' {
        return None;
    }
    let hours = match two_digits(input, at) {
        Some(v) => v,
        None => return None,
    };
    let mins = match two_digits(input, at + 3) {
        Some(v) => v,
        None => return None,
    };
    let secs = match two_digits(input, at + 6) {
        Some(v) => v,
        None => return None,
    };
    let millis = match three_digits(input, at + 9) {
        Some(v) => v,
        None => return None,
    };
    let total = (hours * 3600 + mins * 60 + secs) * 1000 + millis;
    if first == '-' {
        Some(TimeDelta { msecs: -total })
    } else {
        Some(TimeDelta { msecs: total })
    }
}

/// The end of the window that a cutoff argument asks for: the time that the
/// timestamp denotes, or `MAX_TIMESTAMP_MSECS` where there is no argument.
/// An argument that is no timestamp gives `None`.
pub fn cutoff_point(cutafter: Option<&str>) -> (point: Option<TimePoint>)
    ensures
        match cutafter {
            Some(text) => {
                &&& point is Some <==> is_timestamp(text@)
                &&& point matches Some(p) ==> p@ == timestamp_msecs(text@)
            },
            None => point matches Some(p) && p@ == MAX_TIMESTAMP_MSECS,
        },
{
    match cutafter {
        Some(text) => match parse_timestamp(text) {
            Some(delta) => Some(TimePoint::from_msecs(delta.msecs())),
            None => None,
        },
        None => Some(TimePoint::from_msecs(MAX_TIMESTAMP_MSECS)),
    }
}

/// No timestamp denotes more than `MAX_TIMESTAMP_MSECS` milliseconds, in
/// either direction.
pub proof fn lemma_timestamp_range(s: Seq<char>)
    requires
        is_timestamp(s),
    ensures
        -MAX_TIMESTAMP_MSECS <= timestamp_msecs(s) <= MAX_TIMESTAMP_MSECS,
{
}

/// `99:99:99,999` is a timestamp, and denotes `MAX_TIMESTAMP_MSECS`.
pub proof fn lemma_greatest_timestamp()
    ensures
        is_timestamp("99:99:99,999"@),
        timestamp_msecs("99:99:99,999"@) == MAX_TIMESTAMP_MSECS,
{
    reveal_strlit("99:99:99,999");
}

/// A timestamp ends with its milliseconds: a comma and three digits. Text
/// without them is no timestamp.
pub proof fn lemma_timestamp_has_millis(s: Seq<char>)
    requires
        is_timestamp(s),
    ensures
        s.len() >= 4,
        s[s.len() - 4] == ',',
        is_digit(s[s.len() - 3]) && is_digit(s[s.len() - 2]) && is_digit(s[s.len() - 1]),
{
}

/// The sign alone decides the direction: a timestamp with `-` denotes the
/// negative of the same timestamp with `+` or without a sign.
pub proof fn lemma_sign_negates(s: Seq<char>)
    requires
        is_timestamp(s),
        !has_sign(s),
    ensures
        is_timestamp(seq!['-'] + s) && timestamp_msecs(seq!['-'] + s) == -timestamp_msecs(s),
        is_timestamp(seq!['+'] + s) && timestamp_msecs(seq!['+'] + s) == timestamp_msecs(s),
        timestamp_msecs(s) >= 0,
{
}

} // verus!
