//! Dates and durations (the `dateparser`, `duration-str`, `httpdate` and `chrono` crates).
use vstd::prelude::*;

use crate::text::chars_of;

verus! {

/// Format of the dates shown on rendered pages ("January 2, 2006").
pub const DATE_TIME_FORMAT: &'static str = "%B %-d, %Y";

/// The duration, as whole seconds and nanoseconds, that `duration_str::parse` reads from a
/// representation; `None` when it fails.
pub uninterp spec fn parsed_duration(representation: Seq<char>) -> Option<(u64, u32)>;

/// The time, as seconds since the epoch, that `httpdate::parse_http_date` reads from an HTTP
/// date; `None` when it fails or the time precedes the epoch.
pub uninterp spec fn http_date_timestamp(representation: Seq<char>) -> Option<i64>;

/// What `chrono` writes for the UTC time `timestamp` (seconds since the epoch) with the date
/// format "%B %-d, %Y"; `None` when the timestamp is out of chrono's range.
pub uninterp spec fn formatted_date(timestamp: i64) -> Option<Seq<char>>;

/// Whether every character is an ASCII decimal digit.
pub open spec fn all_digits(s: Seq<char>) -> bool {
    forall|i: int| 0 <= i < s.len() ==> '0' <= #[trigger] s[i] <= '9'
}

/// The number that a string of decimal digits writes.
pub open spec fn digits_value(s: Seq<char>) -> int
    decreases s.len(),
{
    if s.len() == 0 {
        0
    } else {
        digits_value(s.drop_last()) * 10 + (s.last() as int - '0' as int)
    }
}

/// A character that may stand in a zone that dateparser reads at the end of a date-time: a
/// letter, a digit, or one of `+,-./:`.
pub open spec fn zone_char(c: char) -> bool {
    ('+' <= c && c <= ':') || ('a' <= c && c <= 'z') || ('A' <= c && c <= 'Z')
}

/// Whether a character is an ASCII decimal digit.
pub open spec fn is_digit(c: char) -> bool {
    '0' <= c && c <= '9'
}

/// The value of a decimal digit.
pub open spec fn digit_value(c: char) -> int {
    c as int - '0' as int
}

/// The index just past the colons that begin at `i`.
pub open spec fn colon_run_end(text: Seq<char>, i: int) -> int
    decreases text.len() - i,
{
    if 0 <= i < text.len() && text[i] == ':' {
        colon_run_end(text, i + 1)
    } else {
        i
    }
}

/// Whether the zone that may end a date-time at index `p` is an offset of a day or more:
/// from `p` to the end, 3 to 6 zone characters; a sign, two digits of 24 hours or more, any
/// colons, then two digits of minutes (first digit 0 to 5).
pub open spec fn zone_offset_overflows_at(text: Seq<char>, p: int) -> bool {
    let q = colon_run_end(text, p + 3);
    &&& 0 <= p
    &&& p + 3 <= text.len() <= p + 6
    &&& (text[p] == '+' || text[p] == '-')
    &&& forall|k: int| p <= k < text.len() ==> zone_char(#[trigger] text[k])
    &&& is_digit(text[p + 1]) && is_digit(text[p + 2])
    &&& digit_value(text[p + 1]) * 10 + digit_value(text[p + 2]) >= 24
    &&& q + 2 <= text.len()
    &&& '0' <= text[q] && text[q] <= '5'
    &&& is_digit(text[q + 1])
}

/// Whether dateparser may read a trailing zone offset of a day or more (on which chrono's
/// `FixedOffset::east` panics).
pub open spec fn zone_offset_overflows(text: Seq<char>) -> bool {
    exists|p: int| zone_offset_overflows_at(text, p)
}

/// Whether the zone at index `p` is an offset of a day or more.
fn zone_offset_overflows_at_exec(t: &Vec<char>, p: usize) -> (overflows: bool)
    ensures
        overflows == zone_offset_overflows_at(t@, p as int),
{
    let n = t.len();
    if n < 3 || p > n - 3 || n - p > 6 {
        return false;
    }
    if !(t[p] == '+' || t[p] == '-') {
        return false;
    }
    let mut k = p;
    while k < n
        invariant
            p <= k <= n,
            n == t@.len(),
            forall|j: int| p <= j < k ==> zone_char(#[trigger] t@[j]),
        decreases n - k,
    {
        let c = t[k];
        if !(('+' <= c && c <= ':') || ('a' <= c && c <= 'z') || ('A' <= c && c <= 'Z')) {
            return false;
        }
        k = k + 1;
    }
    let h1 = t[p + 1];
    let h2 = t[p + 2];
    if !('0' <= h1 && h1 <= '9' && '0' <= h2 && h2 <= '9') {
        return false;
    }
    let hours = (h1 as u32 - '0' as u32) * 10 + (h2 as u32 - '0' as u32);
    if hours < 24 {
        return false;
    }
    let mut q = p + 3;
    while q < n && t[q] == ':'
        invariant
            p + 3 <= q <= n,
            n == t@.len(),
            colon_run_end(t@, q as int) == colon_run_end(t@, p as int + 3),
        decreases n - q,
    {
        q = q + 1;
    }
    if n - q < 2 {
        return false;
    }
    let m1 = t[q];
    let m2 = t[q + 1];
    '0' <= m1 && m1 <= '5' && '0' <= m2 && m2 <= '9'
}

/// Whether dateparser may read a trailing zone offset of a day or more.
pub fn zone_offset_overflows_exec(text: &str) -> (overflows: bool)
    ensures
        overflows == zone_offset_overflows(text@),
{
    let t = chars_of(text);
    let n = t.len();
    let mut p: usize = if n > 6 { n - 6 } else { 0 };
    while n >= 3 && p <= n - 3
        invariant
            t@ == text@,
            n == t@.len(),
            forall|j: int| 0 <= j < p ==> !zone_offset_overflows_at(t@, j),
        decreases n + 1 - p,
    {
        if zone_offset_overflows_at_exec(&t, p) {
            return true;
        }
        p = p + 1;
    }
    assert forall|j: int| !zone_offset_overflows_at(t@, j) by {
        if 0 <= j && j < p {
        }
    }
    false
}

/// Whether a year is a leap year in the Gregorian calendar.
pub open spec fn is_leap_year(year: int) -> bool {
    (year % 4 == 0 && year % 100 != 0) || year % 400 == 0
}

/// The number of days of a month (1 to 12) in a year.
pub open spec fn days_in_month(year: int, month: int) -> int {
    if month == 2 {
        if is_leap_year(year) { 29 } else { 28 }
    } else if month == 4 || month == 6 || month == 9 || month == 11 {
        30
    } else {
        31
    }
}

/// The number of days of a year before a month begins.
pub open spec fn days_before_month(year: int, month: int) -> int
    decreases month,
{
    if month <= 1 {
        0
    } else {
        days_before_month(year, month - 1) + days_in_month(year, month - 1)
    }
}

/// The number of leap years from year 0 up to (not including) a year.
pub open spec fn leap_years_before(year: int) -> int {
    if year <= 0 {
        0
    } else {
        (year - 1) / 4 - (year - 1) / 100 + (year - 1) / 400 + 1
    }
}

/// The number of days from 1970-01-01 to a date (of a year from 0).
pub open spec fn days_since_epoch(year: int, month: int, day: int) -> int {
    365 * year + leap_years_before(year) + days_before_month(year, month) + (day - 1) - 719528
}

/// The number that two decimal digits at an index write.
pub open spec fn two_digits(text: Seq<char>, i: int) -> int {
    digit_value(text[i]) * 10 + digit_value(text[i + 1])
}

/// The time, in seconds since the epoch, of an RFC 3339 date-time in UTC written exactly as
/// `YYYY-MM-DDTHH:MM:SSZ` with a valid date and time (seconds up to 59); `None` for any other
/// text.
pub open spec fn rfc3339_utc_timestamp(text: Seq<char>) -> Option<int> {
    if text.len() == 20 && is_digit(text[0]) && is_digit(text[1]) && is_digit(text[2]) && is_digit(text[3])
        && text[4] == '-' && is_digit(text[5]) && is_digit(text[6]) && text[7] == '-' && is_digit(text[8])
        && is_digit(text[9]) && text[10] == 'T' && is_digit(text[11]) && is_digit(text[12]) && text[13] == ':'
        && is_digit(text[14]) && is_digit(text[15]) && text[16] == ':' && is_digit(text[17]) && is_digit(text[18])
        && text[19] == 'Z' {
        let year = two_digits(text, 0) * 100 + two_digits(text, 2);
        let month = two_digits(text, 5);
        let day = two_digits(text, 8);
        let hour = two_digits(text, 11);
        let minute = two_digits(text, 14);
        let second = two_digits(text, 17);
        if 1 <= month <= 12 && 1 <= day <= days_in_month(year, month) && hour < 24 && minute < 60 && second < 60 {
            Some(days_since_epoch(year, month, day) * 86400 + hour * 3600 + minute * 60 + second)
        } else {
            None
        }
    } else {
        None
    }
}

/// `dateparser::parse`, as seconds since the epoch.
///
/// What it reads of most forms depends on the machine's time zone (for times without one)
/// and on the current date (for times without a date), so only what holds whatever those are
/// is stated: an empty representation matches none of its forms, and a representation of
/// exactly 10 (or 13) digits is read, before any other form, as a Unix timestamp in seconds
/// (or milliseconds). An RFC 3339 date-time in UTC (`YYYY-MM-DDTHH:MM:SSZ`) names its zone,
/// so it is read the same everywhere too: no earlier form takes it, and chrono's
/// `parse_from_rfc3339` reads it.
///
/// It panics when it reads a trailing zone offset of a day or more (`timezone::parse` takes up
/// to 99 hours, then `FixedOffset::east` refuses a day), so `requires` leaves out every text
/// that ends in such an offset.
#[verifier::external_body]
fn dateparser_parse(representation: &str) -> (timestamp: Option<i64>)
    requires
        !zone_offset_overflows(representation@),
    ensures
        representation@.len() == 0 ==> timestamp is None,
        all_digits(representation@) && representation@.len() == 10 ==> timestamp == Some(digits_value(representation@) as i64),
        all_digits(representation@) && representation@.len() == 13 ==> timestamp == Some((digits_value(representation@) / 1000) as i64),
        rfc3339_utc_timestamp(representation@) matches Some(t) ==> timestamp == Some(t as i64),
{
    ::dateparser::parse(representation).ok().map(|date_time| date_time.timestamp())
}

/// `duration_str::parse`, as whole seconds and nanoseconds; it fails on empty input.
#[verifier::external_body]
fn duration_str_parse(representation: &str) -> (duration: Option<(u64, u32)>)
    ensures
        duration == parsed_duration(representation@),
        representation@.len() == 0 ==> duration is None,
{
    ::duration_str::parse(representation).ok().map(|duration| (duration.as_secs(), duration.subsec_nanos()))
}

/// `httpdate::parse_http_date`, as seconds since the epoch.
#[verifier::external_body]
pub(crate) fn parse_http_date(representation: &str) -> (timestamp: Option<i64>)
    ensures
        timestamp == http_date_timestamp(representation@),
{
    ::httpdate::parse_http_date(representation)
        .ok()
        .and_then(|time| time.duration_since(std::time::UNIX_EPOCH).ok())
        .and_then(|duration| i64::try_from(duration.as_secs()).ok())
}

/// `chrono::DateTime::<Utc>::from_timestamp` then `DateTime::format` with the date format.
#[verifier::external_body]
pub(crate) fn format_date(timestamp: i64, format: &str) -> (date: Option<String>)
    requires
        format@ == DATE_TIME_FORMAT@,
    ensures
        date is Some <==> formatted_date(timestamp) is Some,
        date matches Some(d) ==> formatted_date(timestamp) == Some(d@),
{
    ::chrono::DateTime::<::chrono::Utc>::from_timestamp(timestamp, 0).map(|date_time| date_time.format(format).to_string())
}

//
// ParseDateTime
//

/// Parser of date-times.
///
/// See [dateparser](https://docs.rs/dateparser/latest/dateparser/#accepted-date-formats).
#[derive(Debug, Clone, Copy)]
pub struct ParseDateTime {}

impl ParseDateTime {
    /// Parse a date-time, as seconds since the epoch.
    ///
    /// Most forms are read in the machine's time zone or relative to the current date; of
    /// those only that an empty representation is refused is stated. Unix timestamps of 10
    /// digits (seconds) or 13 digits (milliseconds) are read the same everywhere. A text that
    /// ends in a zone offset of a day or more makes the parser panic, so it is left out.
    pub fn parse(representation: &str) -> (timestamp: Option<i64>)
        requires
            !zone_offset_overflows(representation@),
        ensures
            representation@.len() == 0 ==> timestamp is None,
            all_digits(representation@) && representation@.len() == 10 ==> timestamp == Some(digits_value(representation@) as i64),
            all_digits(representation@) && representation@.len() == 13 ==> timestamp == Some((digits_value(representation@) / 1000) as i64),
            rfc3339_utc_timestamp(representation@) matches Some(t) ==> timestamp == Some(t as i64),
    {
        dateparser_parse(representation)
    }
}

//
// ParseDuration
//

/// Parser of durations.
///
/// See [duration-str](https://docs.rs/duration-str/latest/duration_str/).
#[derive(Debug, Clone, Copy)]
pub struct ParseDuration {}

impl ParseDuration {
    /// Parse a duration, as whole seconds and nanoseconds.
    pub fn parse(representation: &str) -> (duration: Option<(u64, u32)>)
        ensures
            duration == parsed_duration(representation@),
            representation@.len() == 0 ==> duration is None,
    {
        duration_str_parse(representation)
    }
}

} // verus!
