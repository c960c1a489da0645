//! Points in time as seconds, and as text in UTC and in local time.

use crate::numbers::{
    decimal_int, decimal_int_text, i64_bounded, i64_value, law_numbers_read_back, parse_i64,
    saturating_sum,
};
use crate::text::{is_digit, opt_text, res_text, trim, trimmed};
use chrono::TimeZone;
use vstd::prelude::*;
use vstd::string::*;

verus! {

// ---------------------------------------------------------------------------
// The calendar

/// The seconds of the point in time that `s` names in the form of RFC 3339.
pub uninterp spec fn rfc3339_seconds(s: Seq<char>) -> Option<i64>;

/// `chrono::DateTime::parse_from_rfc3339` reads a date and time with its offset;
/// the seconds since the epoch are taken from it. They depend on the text alone.
#[verifier::external_body]
fn parse_rfc3339(s: &str) -> (r: Option<i64>)
    ensures
        r == rfc3339_seconds(s@),
{
    chrono::DateTime::parse_from_rfc3339(s).ok().map(|t| t.timestamp())
}

/// The date and time that `s` names in the form `format`, without an offset: its
/// seconds as if it were UTC, and how it is written.
pub uninterp spec fn naive_reading(s: Seq<char>, format: Seq<char>) -> Option<(i64, Seq<char>)>;

/// `chrono::NaiveDateTime::parse_from_str` reads a date and time without an offset
/// in a given form. Its seconds as if it were UTC and its usual text are taken from
/// it. They depend on the two texts alone.
#[verifier::external_body]
fn parse_naive(s: &str, format: &str) -> (r: Option<(i64, String)>)
    ensures
        (match r {
            Some(x) => Some((x.0, x.1@)),
            None => None,
        }) == naive_reading(s@, format@),
{
    chrono::NaiveDateTime::parse_from_str(s, format).ok().map(
        |t| (t.and_utc().timestamp(), t.to_string()),
    )
}

/// The date that `s` names as year, month and day: the seconds at its start as if
/// it were UTC.
pub uninterp spec fn date_reading(s: Seq<char>) -> Option<i64>;

/// `chrono::NaiveDate::parse_from_str` with the form `%Y-%m-%d` reads a date. The
/// seconds at its start as if it were UTC are taken from it. They depend on the
/// text alone.
#[verifier::external_body]
fn parse_date(s: &str) -> (r: Option<i64>)
    ensures
        r == date_reading(s@),
{
    chrono::NaiveDate::parse_from_str(s, "%Y-%m-%d").ok().map(
        |d| d.and_time(chrono::NaiveTime::MIN).and_utc().timestamp(),
    )
}

/// `chrono::Local::from_local_datetime` finds the points in time at which the clock
/// of this machine shows the given date and time: the earliest and the latest, none
/// where the clock skips it. They depend on the machine's time zone, so nothing is
/// claimed of them.
#[verifier::external_body]
fn local_range(naive: i64) -> (r: Option<(i64, i64)>)
{
    let shown = chrono::DateTime::from_timestamp(naive, 0)?.naive_utc();
    let local = chrono::Local.from_local_datetime(&shown);
    Some((local.earliest()?.timestamp(), local.latest()?.timestamp()))
}

/// Whether two digits stand in `s` at `i`.
pub open spec fn two_digits(s: Seq<char>, i: int) -> bool {
    0 <= i && i + 1 < s.len() && is_digit(s[i]) && is_digit(s[i + 1])
}

/// Whether a text is a date and a time of day: a year of four characters at least,
/// then month, day, hour and minute in two digits each, and the second where
/// `seconds` says so.
pub open spec fn is_clock_text(s: Seq<char>, seconds: bool) -> bool {
    let n = if seconds {
        s.len() - 3
    } else {
        s.len() as int
    };
    &&& n >= 16
    &&& s[n - 12] == '-'
    &&& two_digits(s, n - 11)
    &&& s[n - 9] == '-'
    &&& two_digits(s, n - 8)
    &&& s[n - 6] == ' '
    &&& two_digits(s, n - 5)
    &&& s[n - 3] == ':'
    &&& two_digits(s, n - 2)
    &&& seconds ==> s[n] == ':' && two_digits(s, n + 1)
}

/// Whether a text, where it reads as a date and time without an offset, names one less
/// than a day from `timestamp`, as if it were UTC. A text without seconds names the
/// start of its minute.
pub open spec fn reads_near(s: Seq<char>, seconds: bool, timestamp: i64) -> bool {
    match naive_reading(s, clock_format(seconds)) {
        Some(x) => timestamp - 86400 - (if seconds {
            0int
        } else {
            60
        }) < x.0 < timestamp + 86400,
        None => true,
    }
}

/// The form in which the local clock is written.
pub open spec fn clock_format(seconds: bool) -> Seq<char> {
    if seconds {
        "%Y-%m-%d %H:%M:%S"@
    } else {
        "%Y-%m-%d %H:%M"@
    }
}

/// `chrono::DateTime::from_timestamp`, turned to `chrono::Local` and written with
/// `format`: the date and time that the clock of this machine shows at a point in
/// time. There is one exactly where the calendar holds that point, which is where
/// there is one in UTC, and it is written as the format says. An offset is less than a
/// day, so what is shown, where it can be read back, is less than a day from the point
/// in time. Which hour it is depends on the machine's time zone, so that is not claimed.
#[verifier::external_body]
fn local_text(timestamp: i64, format: &str) -> (r: Option<String>)
    requires
        format@ == clock_format(false) || format@ == clock_format(true),
    ensures
        r is Some <==> utc_rfc3339(timestamp) is Some,
        r is Some ==> is_clock_text(r->0@, format@ == clock_format(true)),
        r is Some ==> reads_near(r->0@, format@ == clock_format(true), timestamp),
{
    chrono::DateTime::from_timestamp(timestamp, 0).map(
        |t| t.with_timezone(&chrono::Local).format(format).to_string(),
    )
}

/// The point in time `timestamp` in the form of RFC 3339, in UTC.
pub uninterp spec fn utc_rfc3339(timestamp: i64) -> Option<Seq<char>>;

/// `chrono::DateTime::from_timestamp` and `to_rfc3339` write a point in time in
/// UTC, none where the calendar ends before it. The text depends on the number
/// alone.
#[verifier::external_body]
fn utc_text(timestamp: i64) -> (r: Option<String>)
    ensures
        opt_text(r) == utc_rfc3339(timestamp),
{
    chrono::DateTime::from_timestamp(timestamp, 0).map(|t| t.to_rfc3339())
}

/// `s` in quotation marks, as Rust's `Debug` writes a text.
pub uninterp spec fn quoted(s: Seq<char>) -> Seq<char>;

/// The `Debug` form of a text: in quotation marks, with escapes. It depends on the
/// text alone.
#[verifier::external_body]
fn quote(s: &str) -> (r: String)
    ensures
        r@ == quoted(s@),
{
    format!("{s:?}")
}

// ---------------------------------------------------------------------------
// Reading a time

/// The local reading of a date and time: at the end of a period the latest, at its
/// start the earliest.
pub open spec fn chosen_local(local: Option<(i64, i64)>, end: bool, missing: Seq<char>) -> Result<
    i64,
    Seq<char>,
> {
    match local {
        Some(range) => if end {
            Ok(range.1)
        } else {
            Ok(range.0)
        },
        None => Err(missing),
    }
}

/// The seconds that `v` names. `local` holds what the machine's clock says of the
/// date and time in it, where it names one without an offset.
pub open spec fn time_of(v: Seq<char>, end: bool, local: Option<(i64, i64)>) -> Result<
    i64,
    Seq<char>,
> {
    match i64_value(v) {
        Some(n) => Ok(n),
        None => match rfc3339_seconds(v) {
            Some(n) => Ok(n),
            None => match naive_reading(v, "%Y-%m-%d %H:%M:%S"@) {
                Some(x) => chosen_local(local, end, x.1 + " is not a valid local time"@),
                None => match naive_reading(v, "%Y-%m-%d %H:%M"@) {
                    Some(x) => chosen_local(local, end, x.1 + " is not a valid local time"@),
                    None => match date_reading(v) {
                        Some(_) => chosen_local(local, end, v + " is not a valid local date"@),
                        None => Err(
                            "invalid time "@ + quoted(v)
                                + "; use a Unix timestamp, RFC 3339, YYYY-MM-DD, or YYYY-MM-DD HH:MM[:SS]"@,
                        ),
                    },
                },
            },
        },
    }
}

/// What a date and time without an offset says of the local clock.
pub fn local_timestamp(local: Option<(i64, i64)>, prefer_latest: bool) -> (r: Option<i64>)
    ensures
        r == (match local {
            Some(range) => Some(
                if prefer_latest {
                    range.1
                } else {
                    range.0
                },
            ),
            None => None,
        }),
{
    match local {
        Some(range) => if prefer_latest {
            Some(range.1)
        } else {
            Some(range.0)
        },
        None => None,
    }
}

fn local_or(local: Option<(i64, i64)>, end: bool, what: &str, missing: &str) -> (r: Result<
    i64,
    String,
>)
    ensures
        res_text(r) == chosen_local(local, end, what@ + missing@),
{
    match local_timestamp(local, end) {
        Some(n) => Ok(n),
        None => {
            let mut m: String = what.to_owned();
            m.append(missing);
            Err(m)
        }
    }
}

/// The second on the local clock that `v` names, as if that clock showed UTC: none
/// where `v` does not name one, be it that it names a point in time without the clock.
pub open spec fn local_second(v: Seq<char>, end: bool) -> Option<i64> {
    if i64_value(v) is Some || rfc3339_seconds(v) is Some {
        None
    } else {
        match naive_reading(v, "%Y-%m-%d %H:%M:%S"@) {
            Some(x) => Some(x.0),
            None => match naive_reading(v, "%Y-%m-%d %H:%M"@) {
                Some(x) => Some(x.0),
                None => match date_reading(v) {
                    Some(start) => Some(second_of_day(start, end)),
                    None => None,
                },
            },
        }
    }
}

/// Whether the clock of this machine says `local` of the second `second` that it shows.
pub closed spec fn clock_says(second: i64, local: Option<(i64, i64)>) -> bool {
    call_ensures(local_range, (second,), local)
}

/// Whether `local` is what the clock of this machine says of the second that `v` names;
/// nothing where the clock is not needed.
pub open spec fn local_reading(v: Seq<char>, end: bool, local: Option<(i64, i64)>) -> bool {
    match local_second(v, end) {
        Some(second) => clock_says(second, local),
        None => local is None,
    }
}

/// A date that ends a period stands for its last second: the period holds the whole
/// day, unless the day is the last that can be counted.
pub proof fn law_end_date_holds_its_day(v: Seq<char>, start: i64)
    requires
        i64_value(v) is None,
        rfc3339_seconds(v) is None,
        naive_reading(v, "%Y-%m-%d %H:%M:%S"@) is None,
        naive_reading(v, "%Y-%m-%d %H:%M"@) is None,
        date_reading(v) == Some(start),
        start + 86399 <= i64::MAX,
    ensures
        local_second(v, false) == Some(start),
        local_second(v, true) == Some((start + 86399) as i64),
{
}

/// The second on the local clock that `value` names, as if that clock showed UTC;
/// none where the local clock is not needed or `value` is no time.
pub fn local_question(value: &str, end_of_day: bool) -> (r: Option<i64>)
    ensures
        r == local_second(trim(value@), end_of_day),
{
    let v: String = trimmed(value);
    if parse_i64(&v).is_some() || parse_rfc3339(&v).is_some() {
        return None;
    }
    if let Some(x) = parse_naive(&v, "%Y-%m-%d %H:%M:%S") {
        return Some(x.0);
    }
    if let Some(x) = parse_naive(&v, "%Y-%m-%d %H:%M") {
        return Some(x.0);
    }
    match parse_date(&v) {
        Some(start) => Some(day_second(start, end_of_day)),
        None => None,
    }
}

/// The seconds that `value` names, given what the local clock says of the second that
/// [`local_question`] asks about.
pub fn parse_time_from(value: &str, end_of_day: bool, local: Option<(i64, i64)>) -> (r: Result<
    i64,
    String,
>)
    ensures
        res_text(r) == time_of(trim(value@), end_of_day, local),
{
    let v: String = trimmed(value);
    if let Some(n) = parse_i64(&v) {
        return Ok(n);
    }
    if let Some(n) = parse_rfc3339(&v) {
        return Ok(n);
    }
    if let Some(x) = parse_naive(&v, "%Y-%m-%d %H:%M:%S") {
        return local_or(local, end_of_day, &x.1, " is not a valid local time");
    }
    if let Some(x) = parse_naive(&v, "%Y-%m-%d %H:%M") {
        return local_or(local, end_of_day, &x.1, " is not a valid local time");
    }
    if parse_date(&v).is_some() {
        return local_or(local, end_of_day, &v, " is not a valid local date");
    }
    let mut m: String = "invalid time ".to_owned();
    let q: String = quote(&v);
    m.append(&q);
    m.append("; use a Unix timestamp, RFC 3339, YYYY-MM-DD, or YYYY-MM-DD HH:MM[:SS]");
    Err(m)
}

/// The seconds that `value` names, on the clock `clock`, which says of a second it
/// shows when that is, at the earliest and at the latest. The clock is asked about the
/// second that `value` names and about no other.
pub fn parse_time_on<C: Fn(i64) -> Option<(i64, i64)>>(value: &str, end_of_day: bool, clock: C) -> (r:
    Result<i64, String>)
    requires
        forall|n: i64| call_requires(clock, (n,)),
    ensures
        match local_second(trim(value@), end_of_day) {
            None => res_text(r) == time_of(trim(value@), end_of_day, None),
            Some(n) => exists|local: Option<(i64, i64)>|
                call_ensures(clock, (n,), local) && res_text(r) == #[trigger] time_of(
                    trim(value@),
                    end_of_day,
                    local,
                ),
        },
{
    match local_question(value, end_of_day) {
        None => parse_time_from(value, end_of_day, None),
        Some(n) => {
            let local: Option<(i64, i64)> = clock(n);
            let r: Result<i64, String> = parse_time_from(value, end_of_day, local);
            assert(res_text(r) == time_of(trim(value@), end_of_day, local));
            r
        }
    }
}

/// The seconds that `value` names: a number of seconds, a date and time with an
/// offset, or a date and time or a date of the local clock. A date stands for its
/// first second, at the end of a period for its last. The clock is this machine's: it
/// is asked about the second that `value` names, and what it says is taken.
pub fn parse_time(value: &str, end_of_day: bool) -> (r: Result<i64, String>)
    ensures
        exists|local: Option<(i64, i64)>|
            local_reading(trim(value@), end_of_day, local) && res_text(r) == #[trigger] time_of(
                trim(value@),
                end_of_day,
                local,
            ),
{
    let r: Result<i64, String> = parse_time_on(value, end_of_day, local_range);
    proof {
        let v = trim(value@);
        if let Some(n) = local_second(v, end_of_day) {
            let local = choose|local: Option<(i64, i64)>|
                call_ensures(local_range, (n,), local) && res_text(r) == #[trigger] time_of(
                    v,
                    end_of_day,
                    local,
                );
            assert(local_reading(v, end_of_day, local));
        } else {
            assert(local_reading(v, end_of_day, None));
            assert(res_text(r) == time_of(v, end_of_day, None));
        }
    }
    r
}

/// The second of a day that a date stands for.
pub open spec fn second_of_day(start: i64, end_of_day: bool) -> i64 {
    if end_of_day {
        i64_bounded(start + 86399)
    } else {
        start
    }
}

/// The second of a day that a date stands for: the first, at the end of a period
/// the last.
pub fn day_second(start: i64, end_of_day: bool) -> (r: i64)
    ensures
        r == second_of_day(start, end_of_day),
{
    if end_of_day {
        saturating_sum(start, 86399)
    } else {
        start
    }
}

// ---------------------------------------------------------------------------
// Writing a time

/// A time as shown: its local text, or its seconds where the calendar has none.
pub open spec fn shown_time(timestamp: i64, local: Option<Seq<char>>) -> Seq<char> {
    match local {
        Some(s) => s,
        None => decimal_int(timestamp as int),
    }
}

/// A time as shown, given its local text.
pub fn time_text(timestamp: i64, local: Option<String>) -> (r: String)
    ensures
        r@ == shown_time(timestamp, opt_text(local)),
{
    match local {
        Some(s) => s,
        None => decimal_int_text(timestamp),
    }
}

/// Whether the clock of this machine shows `local` at the point in time `timestamp`,
/// to the second or to the minute.
pub closed spec fn clock_shows(timestamp: i64, seconds: bool, local: Option<String>) -> bool {
    exists|format: &str|
        format@ == clock_format(seconds) && #[trigger] call_ensures(
            local_text,
            (timestamp, format),
            local,
        )
}

proof fn lemma_formats_differ()
    ensures
        clock_format(false) != clock_format(true),
{
    reveal_strlit("%Y-%m-%d %H:%M");
    reveal_strlit("%Y-%m-%d %H:%M:%S");
    assert("%Y-%m-%d %H:%M"@.len() != "%Y-%m-%d %H:%M:%S"@.len());
}

/// The local text of a time to the minute.
pub(crate) fn local_minute(timestamp: i64) -> (r: Option<String>)
    ensures
        clock_shows(timestamp, false, r),
        r is Some <==> utc_rfc3339(timestamp) is Some,
        r is Some ==> is_clock_text(r->0@, false) && reads_near(r->0@, false, timestamp),
{
    proof {
        lemma_formats_differ();
    }
    local_text(timestamp, "%Y-%m-%d %H:%M")
}

/// The local text of a time to the second.
fn local_moment(timestamp: i64) -> (r: Option<String>)
    ensures
        clock_shows(timestamp, true, r),
        r is Some <==> utc_rfc3339(timestamp) is Some,
        r is Some ==> is_clock_text(r->0@, true) && reads_near(r->0@, true, timestamp),
{
    local_text(timestamp, "%Y-%m-%d %H:%M:%S")
}

/// A time to the minute on the local clock; its seconds where the calendar does not
/// hold it. What the clock of this machine shows at that time is taken.
pub fn format_event_time(timestamp: i64) -> (r: String)
    ensures
        exists|local: Option<String>|
            #[trigger] clock_shows(timestamp, false, local) && r@ == shown_time(
                timestamp,
                opt_text(local),
            ),
        utc_rfc3339(timestamp) is None ==> r@ == decimal_int(timestamp as int),
        utc_rfc3339(timestamp) is Some ==> is_clock_text(r@, false) && reads_near(
            r@,
            false,
            timestamp,
        ),
{
    let local: Option<String> = local_minute(timestamp);
    time_text(timestamp, local)
}

/// A time to the second on the local clock; its seconds where the calendar does not
/// hold it. What the clock of this machine shows at that time is taken.
pub fn format_time(timestamp: i64) -> (r: String)
    ensures
        exists|local: Option<String>|
            #[trigger] clock_shows(timestamp, true, local) && r@ == shown_time(
                timestamp,
                opt_text(local),
            ),
        utc_rfc3339(timestamp) is None ==> r@ == decimal_int(timestamp as int),
        utc_rfc3339(timestamp) is Some ==> is_clock_text(r@, true) && reads_near(
            r@,
            true,
            timestamp,
        ),
{
    let local: Option<String> = local_moment(timestamp);
    time_text(timestamp, local)
}

/// When a message was sent, in UTC: nothing where the platform gave no time.
pub open spec fn sent_at_of(timestamp: i64, utc: Option<Seq<char>>) -> Seq<char> {
    if timestamp <= 0 {
        seq![]
    } else {
        match utc {
            Some(s) => s,
            None => seq![],
        }
    }
}

/// When a message was sent, given the time in UTC.
pub fn sent_at_text(timestamp: i64, utc: Option<String>) -> (r: String)
    ensures
        r@ == sent_at_of(timestamp, opt_text(utc)),
{
    if timestamp <= 0 {
        return String::new();
    }
    match utc {
        Some(s) => s,
        None => String::new(),
    }
}

/// When a message was sent, in UTC: nothing where the platform gave no time, or one
/// past the calendar.
pub fn platform_sent_at(timestamp: i64) -> (r: String)
    ensures
        r@ == sent_at_of(timestamp, utc_rfc3339(timestamp)),
{
    sent_at_text(timestamp, utc_text(timestamp))
}

/// A time that is given as a number of seconds is that second, one that says its own zone is
/// the second that it says, and a local one is the earlier or the later of what it may mean.
pub proof fn law_times_are_read(n: i64, v: Seq<char>, end: bool, local: Option<(i64, i64)>)
    ensures
        time_of(decimal_int(n as int), end, local) == Ok::<i64, Seq<char>>(n),
        i64_value(v) is None && rfc3339_seconds(v) is Some ==> time_of(v, end, local) == Ok::<
            i64,
            Seq<char>,
        >(rfc3339_seconds(v)->0),
        i64_value(v) is None && rfc3339_seconds(v) is None && local is Some && (date_reading(v)
            is Some || naive_reading(v, "%Y-%m-%d %H:%M"@) is Some || naive_reading(
            v,
            "%Y-%m-%d %H:%M:%S"@,
        ) is Some) ==> time_of(v, false, local) == Ok::<i64, Seq<char>>((local->0).0) && time_of(
            v,
            true,
            local,
        ) == Ok::<i64, Seq<char>>((local->0).1),
        i64_value(v) is None && rfc3339_seconds(v) is None && naive_reading(v, "%Y-%m-%d %H:%M:%S"@)
            is None && naive_reading(v, "%Y-%m-%d %H:%M"@) is None && date_reading(v) is None
            ==> time_of(v, end, local) is Err,
{
    law_numbers_read_back(n as int);
}

/// A time is shown as the clock shows it, and as its number where the clock has none; what
/// was never sent has no time of sending.
pub proof fn law_times_are_shown(timestamp: i64, s: Seq<char>)
    ensures
        shown_time(timestamp, Some(s)) == s,
        shown_time(timestamp, None) == decimal_int(timestamp as int),
        timestamp > 0 ==> sent_at_of(timestamp, Some(s)) == s,
        timestamp <= 0 ==> sent_at_of(timestamp, Some(s)).len() == 0,
        sent_at_of(timestamp, None).len() == 0,
        clock_format(true) == "%Y-%m-%d %H:%M:%S"@,
        clock_format(false) == "%Y-%m-%d %H:%M"@,
{
}

} // verus!
