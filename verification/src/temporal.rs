//! Time ranges named in a memory query ("yesterday", "last week", "two
//! fridays ago", "past 3 months") and the memories observed within them.
//!
//! The phrase decides a plan: a span of whole local days between two
//! calendar dates, or a rolling span of days ending now. Calendar
//! arithmetic is chrono's, pattern matching is the regex crate's, and
//! turning dates into instants depends on the machine's time zone.
use vstd::prelude::*;

use chrono::{Datelike, TimeZone, Timelike};

use crate::memory::MemoryEmbedding;
use crate::text::{
    chars_of, contains, has_prefix, has_sub, is_ascii_punct, is_ascii_punctuation, lower_char, str_eq,
    string_of, to_ascii_lower_char, to_string,
};

verus! {

/// A span of time in milliseconds since the epoch, end excluded.
pub struct TemporalRange {
    pub start_ms: u64,
    pub end_ms: u64,
}

/// A memory falls in a range when it was observed within it.
pub open spec fn observed_within(observed_at: Option<u64>, r: TemporalRange) -> bool {
    match observed_at {
        Some(t) => r.start_ms <= t < r.end_ms,
        None => false,
    }
}

pub fn memory_matches_temporal_range(memory: &MemoryEmbedding, range: &TemporalRange) -> (r: bool)
    ensures
        r == observed_within(memory.observed_at, *range),
{
    match memory.observed_at {
        Some(t) => t >= range.start_ms && t < range.end_ms,
        None => false,
    }
}

/// The positions of the memories observed within the range, in order.
pub open spec fn indices_within(ms: Seq<MemoryEmbedding>, r: TemporalRange) -> Seq<usize>
    decreases ms.len(),
{
    if ms.len() == 0 {
        seq![]
    } else if observed_within(ms.last().observed_at, r) {
        indices_within(ms.drop_last(), r).push((ms.len() - 1) as usize)
    } else {
        indices_within(ms.drop_last(), r)
    }
}

/// Where a retrieval looks when the query names a time: the memories
/// observed within the range, by their positions.
pub fn temporal_candidate_indices(memories: &Vec<MemoryEmbedding>, range: &TemporalRange) -> (r: Vec<
    usize,
>)
    ensures
        r@ == indices_within(memories@, *range),
{
    let mut out: Vec<usize> = Vec::new();
    let mut i: usize = 0;
    while i < memories.len()
        invariant
            i <= memories@.len(),
            out@ == indices_within(memories@.take(i as int), *range),
        decreases memories@.len() - i,
    {
        assert(memories@.take(i + 1).drop_last() =~= memories@.take(i as int));
        if memory_matches_temporal_range(&memories[i], range) {
            out.push(i);
        }
        i += 1;
    }
    assert(memories@.take(memories@.len() as int) =~= memories@);
    out
}

// ------------------------------------------------------------------
// The calendar
// ------------------------------------------------------------------

/// A day of the proleptic Gregorian calendar.
#[derive(Clone, Copy, Debug, PartialEq, Eq, Structural)]
pub struct CivilDate {
    pub year: i32,
    pub month: u32,
    pub day: u32,
}

pub open spec fn is_leap_year(y: int) -> bool {
    (y % 4 == 0 && y % 100 != 0) || y % 400 == 0
}

pub open spec fn month_length(y: int, m: int) -> int {
    if m == 2 {
        if is_leap_year(y) {
            29
        } else {
            28
        }
    } else if m == 4 || m == 6 || m == 9 || m == 11 {
        30
    } else {
        31
    }
}

/// The dates chrono can represent: years -262143 to 262142.
pub open spec fn valid_ymd(y: int, m: int, d: int) -> bool {
    -262143 <= y <= 262142 && 1 <= m <= 12 && 1 <= d <= month_length(y, m)
}

pub open spec fn valid_date(c: CivilDate) -> bool {
    valid_ymd(c.year as int, c.month as int, c.day as int)
}

/// The date with these numbers, when it exists.
pub open spec fn ymd(y: int, m: int, d: int) -> Option<CivilDate> {
    if valid_ymd(y, m, d) {
        Some(CivilDate { year: y as i32, month: m as u32, day: d as u32 })
    } else {
        None
    }
}

/// The number of days from 1970-01-01 to `c` in the proleptic Gregorian
/// calendar (negative before it).
#[verifier::opaque]
pub open spec fn day_number(c: CivilDate) -> int {
    let y = if c.month <= 2 {
        c.year - 1
    } else {
        c.year as int
    };
    let era = y / 400;
    let yoe = y - era * 400;
    let mp = (c.month + 9) % 12;
    let doy = (153 * mp + 2) / 5 + c.day - 1;
    let doe = yoe * 365 + yoe / 4 - yoe / 100 + doy;
    era * 146097 + doe - 719468
}

/// The date `n` days after 1970-01-01, the inverse of `day_number`.
#[verifier::opaque]
pub open spec fn civil_from_days(n: int) -> CivilDate {
    let z = n + 719468;
    let era = z / 146097;
    let doe = z - era * 146097;
    let yoe = (doe - doe / 1460 + doe / 36524 - doe / 146096) / 365;
    let doy = doe - (365 * yoe + yoe / 4 - yoe / 100);
    let mp = (5 * doy + 2) / 153;
    let d = doy - (153 * mp + 2) / 5 + 1;
    let m = if mp < 10 {
        mp + 3
    } else {
        mp - 9
    };
    let y = yoe + era * 400 + if m <= 2 {
        1int
    } else {
        0int
    };
    CivilDate { year: y as i32, month: m as u32, day: d as u32 }
}

/// The date `days` days after `date`, when it lies within chrono's range
/// of dates (-262143-01-01 to 262142-12-31).
#[verifier::opaque]
pub open spec fn date_after(date: CivilDate, days: int) -> Option<CivilDate> {
    let k = day_number(date) + days;
    if day_number(CivilDate { year: -262143i32, month: 1u32, day: 1u32 }) <= k <= day_number(
        CivilDate { year: 262142i32, month: 12u32, day: 31u32 },
    ) {
        Some(civil_from_days(k))
    } else {
        None
    }
}

/// The day of the week of `date`, counted from Monday as 0 (1970-01-01 was
/// a Thursday).
#[verifier::opaque]
pub open spec fn weekday_index(date: CivilDate) -> int {
    (day_number(date) + 3) % 7
}


/// The instant `days` whole days before `ms`, when both lie in chrono's
/// range.  (A count of days too large for `TimeDelta` moves the instant out
/// of that range anyway.)
pub open spec fn instant_minus_days_of(ms: i64, days: i64) -> Option<i64> {
    if utc_millis_ok(ms) && -8_334_601_228_800_000 <= ms - days * 86_400_000
        <= 8_210_266_876_799_999 {
        Some((ms - days * 86_400_000) as i64)
    } else {
        None
    }
}

/// `chrono::NaiveDate::from_ymd_opt`: the date when it exists and lies in
/// chrono's range of years.
#[verifier::external_body]
fn civil_date(y: i32, m: u32, d: u32) -> (r: Option<CivilDate>)
    ensures
        r == ymd(y as int, m as int, d as int),
{
    match chrono::NaiveDate::from_ymd_opt(y, m, d) {
        Some(date) => Some(CivilDate { year: date.year(), month: date.month(), day: date.day() }),
        None => None,
    }
}

/// `chrono::NaiveDate::checked_add_signed` by `TimeDelta::try_days(days)`:
/// the date that many days later, or nothing when it leaves chrono's range
/// (a count too large for `TimeDelta` leaves that range anyway).
#[verifier::external_body]
fn shift_days(date: CivilDate, days: i64) -> (r: Option<CivilDate>)
    requires
        valid_date(date),
    ensures
        r == date_after(date, days as int),
        r matches Some(c) ==> valid_date(c),
{
    let naive = chrono::NaiveDate::from_ymd_opt(date.year, date.month, date.day).unwrap();
    match chrono::TimeDelta::try_days(days) {
        Some(delta) => naive.checked_add_signed(delta).map(
            |n| CivilDate { year: n.year(), month: n.month(), day: n.day() },
        ),
        None => None,
    }
}

/// `Datelike::weekday` then `Weekday::num_days_from_monday`: 0 for Monday
/// up to 6 for Sunday.
#[verifier::external_body]
fn weekday_from_monday(date: CivilDate) -> (r: u32)
    requires
        valid_date(date),
    ensures
        r as int == weekday_index(date),
        r < 7,
{
    let day = chrono::NaiveDate::from_ymd_opt(date.year, date.month, date.day).unwrap();
    day.weekday().num_days_from_monday()
}

/// `DateTime::<Utc>::from_timestamp_millis` then `checked_sub_signed` by
/// `TimeDelta::try_days(days)`; subtracting whole days moves the instant by
/// exactly that many milliseconds.
#[verifier::external_body]
fn instant_minus_days(ms: i64, days: i64) -> (r: Option<i64>)
    ensures
        r == instant_minus_days_of(ms, days),
{
    let delta = chrono::TimeDelta::try_days(days)?;
    let at = chrono::DateTime::<chrono::Utc>::from_timestamp_millis(ms)?;
    at.checked_sub_signed(delta).map(|t| t.timestamp_millis())
}

/// A moment as the machine's time zone shows it: the instant, the zone's
/// offset from UTC at that instant, and the local date and time of day.
/// The date comes as chrono reads it and need not be one chrono can build
/// a date from (the local date of the very last instants can overflow).
#[derive(Clone, Copy, Debug, PartialEq, Eq, Structural)]
pub struct LocalMoment {
    pub millis: i64,
    pub offset_secs: i32,
    pub date: CivilDate,
    pub secs_of_day: u32,
}

/// The instants chrono can represent: from the first millisecond of
/// -262143-01-01 to the last of 262142-12-31, UTC.
pub open spec fn utc_millis_ok(ms: i64) -> bool {
    -8_334_601_228_800_000 <= ms <= 8_210_266_876_799_999
}

/// An offset chrono's `FixedOffset` accepts: less than a day either way.
pub open spec fn offset_ok(secs: i32) -> bool {
    -86_400 < secs < 86_400
}

/// A moment chrono produced: a representable instant and offset.
pub open spec fn moment_ok(m: LocalMoment) -> bool {
    utc_millis_ok(m.millis) && offset_ok(m.offset_secs) && m.secs_of_day < 86_400
}

/// `Local.timestamp_millis_opt(ms).earliest()`, read into plain fields.
/// chrono answers for every representable instant (the default
/// `timestamp_millis_opt` fails only when `from_timestamp_millis` does).
#[verifier::external_body]
fn local_moment(ms: i64) -> (r: Option<LocalMoment>)
    ensures
        r is Some <==> utc_millis_ok(ms),
        r matches Some(m) ==> m.millis == ms && moment_ok(m),
{
    let dt = chrono::Local.timestamp_millis_opt(ms).earliest()?;
    Some(LocalMoment {
        millis: dt.timestamp_millis(),
        offset_secs: dt.offset().local_minus_utc(),
        date: CivilDate { year: dt.year(), month: dt.month(), day: dt.day() },
        secs_of_day: dt.num_seconds_from_midnight(),
    })
}

/// `chrono::Local::now()`, read into plain fields.
#[verifier::external_body]
fn local_now() -> (r: LocalMoment)
    ensures
        moment_ok(r),
        valid_date(r.date),
{
    let dt = chrono::Local::now();
    LocalMoment {
        millis: dt.timestamp_millis(),
        offset_secs: dt.offset().local_minus_utc(),
        date: CivilDate { year: dt.year(), month: dt.month(), day: dt.day() },
        secs_of_day: dt.num_seconds_from_midnight(),
    }
}

/// `chrono::Utc::now().timestamp_millis()`.
#[verifier::external_body]
fn utc_now_millis() -> (r: i64) {
    chrono::Utc::now().timestamp_millis()
}

/// `Local.from_local_datetime` of the date at midnight: the moment, when
/// that local time exists (the earlier one when it occurs twice).  Its
/// local date is `date` and its time of day is midnight.
#[verifier::external_body]
fn local_midnight_moment(date: CivilDate) -> (r: Option<LocalMoment>)
    requires
        valid_date(date),
    ensures
        r matches Some(m) ==> m.date == date && m.secs_of_day == 0 && moment_ok(m),
{
    let day = chrono::NaiveDate::from_ymd_opt(date.year, date.month, date.day).unwrap();
    let dt = chrono::Local.from_local_datetime(&day.and_hms_opt(0, 0, 0).unwrap()).earliest()?;
    Some(LocalMoment {
        millis: dt.timestamp_millis(),
        offset_secs: dt.offset().local_minus_utc(),
        date: CivilDate { year: dt.year(), month: dt.month(), day: dt.day() },
        secs_of_day: dt.num_seconds_from_midnight(),
    })
}

/// The moment at `ms`, or now when chrono cannot represent it.
fn local_datetime_from_ms(ms: u64) -> (r: LocalMoment)
    ensures
        moment_ok(r),
        utc_millis_ok(ms as i64) ==> r.millis == ms as i64,
        !utc_millis_ok(ms as i64) ==> valid_date(r.date),
{
    match local_moment(ms as i64) {
        Some(m) => m,
        None => local_now(),
    }
}

fn clamp_to_u64(x: i64) -> (r: u64)
    ensures
        r == clamped(x),
{
    if x < 0 {
        0
    } else {
        x as u64
    }
}

/// The current local moment, read from the clock.
fn current_moment() -> (r: LocalMoment)
    ensures
        moment_ok(r),
{
    let now = clamp_to_u64(utc_now_millis());
    local_datetime_from_ms(now)
}

/// Whether chrono can build `date` (`NaiveDate::from_ymd_opt`).
fn date_is_valid(date: CivilDate) -> (r: bool)
    ensures
        r == valid_date(date),
{
    civil_date(date.year, date.month, date.day).is_some()
}

// ------------------------------------------------------------------
// Reading the query
// ------------------------------------------------------------------

/// ASCII punctuation becomes a space and ASCII letters lower case.
pub open spec fn normalized(s: Seq<char>) -> Seq<char> {
    s.map_values(|c: char| lower_char(if is_ascii_punct(c) { ' ' } else { c }))
}

pub fn normalized_query(query: &str) -> (r: String)
    ensures
        r@ == normalized(query@),
{
    let v = chars_of(query);
    let mut out: Vec<char> = Vec::new();
    let mut i: usize = 0;
    while i < v.len()
        invariant
            i <= v@.len(),
            out@.len() == i,
            forall|k: int| 0 <= k < i ==> out@[k] == normalized(v@)[k],
        decreases v@.len() - i,
    {
        let c = v[i];
        let d = if is_ascii_punctuation(c) {
            ' '
        } else {
            c
        };
        out.push(to_ascii_lower_char(d));
        i += 1;
    }
    assert(out@ =~= normalized(v@));
    string_of(out.as_slice())
}

pub open spec fn is_digit(c: char) -> bool {
    '0' <= c <= '9'
}

pub open spec fn all_digits(s: Seq<char>) -> bool {
    forall|i: int| 0 <= i < s.len() ==> is_digit(#[trigger] s[i])
}

pub open spec fn digits_value(s: Seq<char>) -> int
    decreases s.len(),
{
    if s.len() == 0 {
        0
    } else {
        digits_value(s.drop_last()) * 10 + (s.last() as int - '0' as int)
    }
}

/// `str::parse::<i64>`: an optional sign, then one or more ASCII digits,
/// with a value that fits.
pub open spec fn parsed_i64(s: Seq<char>) -> Option<int> {
    let neg = s.len() > 0 && s[0] == '-';
    let body = if s.len() > 0 && (s[0] == '-' || s[0] == '+') {
        s.drop_first()
    } else {
        s
    };
    let v = if neg {
        -digits_value(body)
    } else {
        digits_value(body)
    };
    if body.len() == 0 || !all_digits(body) || v < i64::MIN || v > i64::MAX {
        None
    } else {
        Some(v)
    }
}

pub(crate) proof fn lemma_digits_value_grows(s: Seq<char>, k: int)
    requires
        all_digits(s),
        0 <= k <= s.len(),
    ensures
        0 <= digits_value(s.take(k)) <= digits_value(s),
    decreases s.len() - k,
{
    if k < s.len() {
        lemma_digits_value_grows(s, k + 1);
        assert(s.take(k + 1).drop_last() =~= s.take(k));
        assert(is_digit(s.take(k + 1).last()));
    } else {
        assert(s.take(k) =~= s);
        lemma_digits_value_nonneg(s);
    }
}

pub(crate) proof fn lemma_digits_value_nonneg(s: Seq<char>)
    requires
        all_digits(s),
    ensures
        digits_value(s) >= 0,
    decreases s.len(),
{
    if s.len() > 0 {
        assert(all_digits(s.drop_last())) by {
            assert forall|i: int| 0 <= i < s.drop_last().len() implies is_digit(
                #[trigger] s.drop_last()[i],
            ) by {
                assert(s.drop_last()[i] == s[i]);
            }
        }
        lemma_digits_value_nonneg(s.drop_last());
        assert(is_digit(s[s.len() - 1]));
    }
}

proof fn lemma_parsed_needs_digits(s: Seq<char>)
    ensures
        !all_digits(
            if s.len() > 0 && (s[0] == '-' || s[0] == '+') {
                s.drop_first()
            } else {
                s
            },
        ) ==> parsed_i64(s) is None,
{
}

/// `str::parse::<i64>`.
pub fn parse_i64(s: &str) -> (r: Option<i64>)
    ensures
        match r {
            Some(v) => parsed_i64(s@) == Some(v as int),
            None => parsed_i64(s@) is None,
        },
{
    let v = chars_of(s);
    let n = v.len();
    let neg = n > 0 && v[0] == '-';
    let start: usize = if n > 0 && (v[0] == '-' || v[0] == '+') {
        1
    } else {
        0
    };
    let ghost body = if v@.len() > 0 && (v@[0] == '-' || v@[0] == '+') {
        v@.drop_first()
    } else {
        v@
    };
    assert(body =~= v@.skip(start as int));
    if start == n {
        return None;
    }
    let limit: u64 = 9_223_372_036_854_775_808;
    let mut acc: u64 = 0;
    let mut i: usize = start;
    while i < n
        invariant
            start <= i <= n,
            n == v@.len(),
            v@ == s@,
            start == (if v@.len() > 0 && (v@[0] == '-' || v@[0] == '+') {
                1int
            } else {
                0int
            }),
            body == (if v@.len() > 0 && (v@[0] == '-' || v@[0] == '+') {
                v@.drop_first()
            } else {
                v@
            }),
            body == v@.skip(start as int),
            acc == digits_value(body.take(i - start)),
            acc <= limit,
            limit == 9_223_372_036_854_775_808u64,
            all_digits(body.take(i - start)),
        decreases n - i,
    {
        let c = v[i];
        assert(body[i - start] == c);
        if !('0' <= c && c <= '9') {
            assert(!is_digit(body[i - start]));
            assert(!all_digits(body));
            proof {
                lemma_parsed_needs_digits(v@);
            }
            return None;
        }
        let d = (c as u32 - '0' as u32) as u64;
        assert(body.take(i - start + 1).drop_last() =~= body.take(i - start));
        assert(body.take(i - start + 1).last() == c);
        if acc > (limit - d) / 10 {
            proof {
                assert(acc * 10 + d > limit) by (nonlinear_arith)
                    requires
                        acc > (limit - d) / 10,
                        d <= 9,
                        limit == 9_223_372_036_854_775_808u64,
                ;
                if all_digits(body) {
                    lemma_digits_value_grows(body, i - start + 1);
                }
            }
            return None;
        }
        proof {
            assert(acc * 10 + d <= limit) by (nonlinear_arith)
                requires
                    acc <= (limit - d) / 10,
                    d <= 9,
                    limit == 9_223_372_036_854_775_808u64,
            ;
        }
        acc = acc * 10 + d;
        i += 1;
        assert(all_digits(body.take(i - start))) by {
            assert forall|k: int| 0 <= k < body.take(i - start).len() implies is_digit(
                #[trigger] body.take(i - start)[k],
            ) by {
                if k < i - start - 1 {
                    assert(body.take(i - start)[k] == body.take(i - start - 1)[k]);
                }
            }
        }
    }
    assert(body.take(n - start) =~= body);
    if neg {
        if acc == limit {
            Some(i64::MIN)
        } else {
            Some(-(acc as i64))
        }
    } else if acc <= 9_223_372_036_854_775_807 {
        Some(acc as i64)
    } else {
        None
    }
}

/// A count written as a word from one to twelve, or as a number.
pub open spec fn count_value(raw: Seq<char>) -> Option<int> {
    if raw == "one"@ {
        Some(1)
    } else if raw == "two"@ {
        Some(2)
    } else if raw == "three"@ {
        Some(3)
    } else if raw == "four"@ {
        Some(4)
    } else if raw == "five"@ {
        Some(5)
    } else if raw == "six"@ {
        Some(6)
    } else if raw == "seven"@ {
        Some(7)
    } else if raw == "eight"@ {
        Some(8)
    } else if raw == "nine"@ {
        Some(9)
    } else if raw == "ten"@ {
        Some(10)
    } else if raw == "eleven"@ {
        Some(11)
    } else if raw == "twelve"@ {
        Some(12)
    } else {
        parsed_i64(raw)
    }
}

pub fn parse_count(raw: &str) -> (r: Option<i64>)
    ensures
        match r {
            Some(v) => count_value(raw@) == Some(v as int),
            None => count_value(raw@) is None,
        },
{
    if str_eq(raw, "one") {
        Some(1)
    } else if str_eq(raw, "two") {
        Some(2)
    } else if str_eq(raw, "three") {
        Some(3)
    } else if str_eq(raw, "four") {
        Some(4)
    } else if str_eq(raw, "five") {
        Some(5)
    } else if str_eq(raw, "six") {
        Some(6)
    } else if str_eq(raw, "seven") {
        Some(7)
    } else if str_eq(raw, "eight") {
        Some(8)
    } else if str_eq(raw, "nine") {
        Some(9)
    } else if str_eq(raw, "ten") {
        Some(10)
    } else if str_eq(raw, "eleven") {
        Some(11)
    } else if str_eq(raw, "twelve") {
        Some(12)
    } else {
        parse_i64(raw)
    }
}

/// The day of the week, Monday as 0.
pub open spec fn weekday_value(name: Seq<char>) -> Option<int> {
    if name == "monday"@ {
        Some(0)
    } else if name == "tuesday"@ {
        Some(1)
    } else if name == "wednesday"@ {
        Some(2)
    } else if name == "thursday"@ {
        Some(3)
    } else if name == "friday"@ {
        Some(4)
    } else if name == "saturday"@ {
        Some(5)
    } else if name == "sunday"@ {
        Some(6)
    } else {
        None
    }
}

pub fn weekday_number(name: &str) -> (r: Option<u32>)
    ensures
        match r {
            Some(v) => weekday_value(name@) == Some(v as int),
            None => weekday_value(name@) is None,
        },
{
    if str_eq(name, "monday") {
        Some(0)
    } else if str_eq(name, "tuesday") {
        Some(1)
    } else if str_eq(name, "wednesday") {
        Some(2)
    } else if str_eq(name, "thursday") {
        Some(3)
    } else if str_eq(name, "friday") {
        Some(4)
    } else if str_eq(name, "saturday") {
        Some(5)
    } else if str_eq(name, "sunday") {
        Some(6)
    } else {
        None
    }
}

// ------------------------------------------------------------------
// Patterns
// ------------------------------------------------------------------

pub const AGO_PATTERN: &'static str =
    r"\b(?P<num>\d+|one|two|three|four|five|six|seven|eight|nine|ten|eleven|twelve)\s+(?P<unit>day|days|week|weeks|month|months|year|years)\s+ago(?:\s+(?P<anchor>today|tonight))?\b";

pub const PAST_RANGE_PATTERN: &'static str =
    r"\b(?:past|last|previous|within the last|in the last)\s+(?P<num>\d+|one|two|three|four|five|six|seven|eight|nine|ten|eleven|twelve)\s+(?P<unit>day|days|week|weeks|month|months|year|years)\b";

pub const WEEKDAY_PATTERN: &'static str =
    r"\b(?P<qualifier>last|this)\s+(?P<weekday>monday|tuesday|wednesday|thursday|friday|saturday|sunday)\b";

pub const WEEKDAY_AGO_PATTERN: &'static str =
    r"\b(?P<num>\d+|one|two|three|four|five|six|seven|eight|nine|ten|eleven|twelve)\s+(?P<weekday>monday|tuesday|wednesday|thursday|friday|saturday|sunday)s?\s+ago\b";

pub open spec fn names_view(v: Seq<&'static str>) -> Seq<Seq<char>> {
    v.map_values(|s: &'static str| s@)
}

pub open spec fn groups_view(v: Seq<Option<String>>) -> Seq<Option<Seq<char>>> {
    v.map_values(|g: Option<String>| match g {
        Some(t) => Some(t@),
        None => None,
    })
}

/// What `regex::Regex::new(pattern)` and then `captures(text)` give: nothing
/// when the pattern does not compile or does not match `text`, else for each
/// of `names` the text its group captured, if it took part in the match.
pub uninterp spec fn regex_named_captures(
    pattern: Seq<char>,
    text: Seq<char>,
    names: Seq<Seq<char>>,
) -> Option<Seq<Option<Seq<char>>>>;

/// `regex::Regex::new` then `Regex::captures` and `Captures::name` for each
/// of `names`.
#[verifier::external_body]
fn named_captures(pattern: &str, text: &str, names: &Vec<&'static str>) -> (r: Option<
    Vec<Option<String>>,
>)
    ensures
        match r {
            Some(v) => regex_named_captures(pattern@, text@, names_view(names@)) == Some(
                groups_view(v@),
            ),
            None => regex_named_captures(pattern@, text@, names_view(names@)) is None,
        },
        r matches Some(v) ==> v@.len() == names@.len(),
{
    let re = regex::Regex::new(pattern).ok()?;
    let caps = re.captures(text)?;
    Some(names.iter().map(|n| caps.name(n).map(|m| m.as_str().to_string())).collect())
}

// ------------------------------------------------------------------
// Planning a range
// ------------------------------------------------------------------

/// Whole local days from `start` up to `end`, or the `days` days up to now.
#[derive(Clone, Copy, Debug, PartialEq, Eq, Structural)]
pub enum RangePlan {
    Dates { start: CivilDate, end: CivilDate },
    Rolling { days: i64 },
}

/// The date `n` days after `d`; nothing when `n` or the date is out of range.
pub open spec fn shift_by(d: CivilDate, n: int) -> Option<CivilDate> {
    if i64::MIN <= n <= i64::MAX {
        date_after(d, n)
    } else {
        None
    }
}

fn shift_checked(d: CivilDate, n: i128) -> (r: Option<CivilDate>)
    requires
        valid_date(d),
    ensures
        r == shift_by(d, n as int),
        r matches Some(c) ==> valid_date(c),
{
    if n < i64::MIN as i128 || n > i64::MAX as i128 {
        None
    } else {
        shift_days(d, n as i64)
    }
}

pub open spec fn dates(a: Option<CivilDate>, b: Option<CivilDate>) -> Option<RangePlan> {
    match (a, b) {
        (Some(x), Some(y)) => Some(RangePlan::Dates { start: x, end: y }),
        _ => None,
    }
}

/// The single day `a`.
pub open spec fn day_span(a: Option<CivilDate>) -> Option<RangePlan> {
    match a {
        Some(x) => dates(Some(x), shift_by(x, 1)),
        None => None,
    }
}

pub open spec fn week_start(t: CivilDate) -> Option<CivilDate> {
    shift_by(t, -weekday_index(t))
}

/// The day a weekday named with `this` or `last` falls on: `this` counts
/// within the current week, `last` is the most recent one before today.
pub open spec fn relative_weekday(t: CivilDate, q: Seq<char>, w: Seq<char>) -> Option<CivilDate> {
    match weekday_value(w) {
        None => None,
        Some(target) => {
            let cur = weekday_index(t);
            if q == "this"@ {
                shift_by(t, target - cur)
            } else if q == "last"@ {
                let back = (cur - target) % 7;
                shift_by(
                    t,
                    -(if back == 0 {
                        7
                    } else {
                        back
                    }),
                )
            } else {
                None
            }
        },
    }
}

/// The `count`-th most recent such weekday before today.
pub open spec fn nth_prior(t: CivilDate, w: Seq<char>, count: int) -> Option<CivilDate> {
    match weekday_value(w) {
        None => None,
        Some(target) => {
            let back = (weekday_index(t) - target) % 7;
            let first = if back == 0 {
                7
            } else {
                back
            };
            let extra = if count - 1 > 0 {
                count - 1
            } else {
                0
            };
            shift_by(t, -(first + extra * 7))
        },
    }
}

pub open spec fn in_i32(x: int) -> bool {
    i32::MIN <= x <= i32::MAX
}

/// The number of days in a month: the day before the first of the next one.
pub open spec fn month_days_of(y: int, m: int) -> Option<int> {
    let next = if m == 12 {
        ymd(y + 1, 1, 1)
    } else {
        ymd(y, m + 1, 1)
    };
    match next {
        Some(n) => match shift_by(n, -1) {
            Some(p) => Some(p.day as int),
            None => None,
        },
        None => None,
    }
}

/// Year and month `back` months before month `m` of year `y`, as written
/// with the month count kept positive.
pub open spec fn months_back(y: int, m: int, back: int) -> Option<(int, int)> {
    let m0 = m - back;
    if !in_i32(m0) {
        None
    } else if m0 <= 0 {
        let k = (12 - m0) / 12;
        if in_i32(y - k) {
            Some((y - k, m0 + 12 * k))
        } else {
            None
        }
    } else {
        Some((y, m0))
    }
}

pub open spec fn min_int(a: int, b: int) -> int {
    if a <= b {
        a
    } else {
        b
    }
}

/// The plan for `amount` units ago, on that day when `anchored`.
pub open spec fn ago_plan(t: CivilDate, amount: int, unit: Seq<char>, anchored: bool) -> Option<
    RangePlan,
> {
    let back = (amount as i32) as int;
    if unit == "day"@ || unit == "days"@ {
        if anchored {
            day_span(shift_by(t, -amount))
        } else {
            Some(RangePlan::Rolling { days: amount as i64 })
        }
    } else if unit == "week"@ || unit == "weeks"@ {
        if anchored {
            day_span(shift_by(t, -(7 * amount)))
        } else {
            match week_start(t) {
                Some(s) => match shift_by(s, -(7 * amount)) {
                    Some(st) => dates(Some(st), shift_by(st, 7)),
                    None => None,
                },
                None => None,
            }
        }
    } else if unit == "month"@ || unit == "months"@ {
        match months_back(t.year as int, t.month as int, back) {
            None => None,
            Some((y, m)) => if anchored {
                match month_days_of(y, m) {
                    Some(dim) => day_span(ymd(y, m, min_int(t.day as int, dim))),
                    None => None,
                }
            } else {
                dates(
                    ymd(y, m, 1),
                    if m == 12 {
                        ymd(y + 1, 1, 1)
                    } else {
                        ymd(y, m + 1, 1)
                    },
                )
            },
        }
    } else if unit == "year"@ || unit == "years"@ {
        let ty = t.year as int - back;
        if !in_i32(ty) {
            None
        } else if anchored {
            match month_days_of(ty, t.month as int) {
                Some(dim) => day_span(ymd(ty, t.month as int, min_int(t.day as int, dim))),
                None => None,
            }
        } else if !in_i32(ty + 1) {
            None
        } else {
            dates(ymd(ty, 1, 1), ymd(ty + 1, 1, 1))
        }
    } else {
        None
    }
}

/// The rolling plan for "past `amount` units".
pub open spec fn past_plan(amount: int, unit: Seq<char>) -> Option<RangePlan> {
    let per = if unit == "day"@ || unit == "days"@ {
        1int
    } else if unit == "week"@ || unit == "weeks"@ {
        7int
    } else if unit == "month"@ || unit == "months"@ {
        30int
    } else if unit == "year"@ || unit == "years"@ {
        365int
    } else {
        0int
    };
    if per == 0 || !(i64::MIN <= per * amount <= i64::MAX) {
        None
    } else {
        Some(RangePlan::Rolling { days: (per * amount) as i64 })
    }
}

pub open spec fn weekday_names() -> Seq<Seq<char>> {
    seq!["qualifier"@, "weekday"@]
}

pub open spec fn weekday_ago_names() -> Seq<Seq<char>> {
    seq!["num"@, "weekday"@]
}

pub open spec fn ago_names() -> Seq<Seq<char>> {
    seq!["num"@, "unit"@, "anchor"@]
}

pub open spec fn past_names() -> Seq<Seq<char>> {
    seq!["num"@, "unit"@]
}

/// The plan from the patterns, tried in order; the first that matches
/// decides.
pub open spec fn pattern_plan(n: Seq<char>, t: CivilDate) -> Option<RangePlan> {
    match regex_named_captures(WEEKDAY_PATTERN@, n, weekday_names()) {
        Some(g) => match (g[0], g[1]) {
            (Some(q), Some(w)) => day_span(relative_weekday(t, q, w)),
            _ => None,
        },
        None => match regex_named_captures(WEEKDAY_AGO_PATTERN@, n, weekday_ago_names()) {
            Some(g) => match (g[0], g[1]) {
                (Some(num), Some(w)) => match count_value(num) {
                    Some(amount) => day_span(nth_prior(t, w, amount)),
                    None => None,
                },
                _ => None,
            },
            None => match regex_named_captures(AGO_PATTERN@, n, ago_names()) {
                Some(g) => match (g[0], g[1]) {
                    (Some(num), Some(unit)) => match count_value(num) {
                        Some(amount) => ago_plan(t, amount, unit, g[2] is Some),
                        None => None,
                    },
                    _ => None,
                },
                None => match regex_named_captures(PAST_RANGE_PATTERN@, n, past_names()) {
                    Some(g) => match (g[0], g[1]) {
                        (Some(num), Some(unit)) => match count_value(num) {
                            Some(amount) => past_plan(amount, unit),
                            None => None,
                        },
                        _ => None,
                    },
                    None => None,
                },
            },
        },
    }
}

/// The plan for a normalized query on the day `t`: fixed phrases first,
/// then the patterns.
pub open spec fn plan(n: Seq<char>, t: CivilDate) -> Option<RangePlan> {
    if has_sub(n, "yesterday"@) {
        dates(shift_by(t, -1), Some(t))
    } else if has_sub(n, "today"@) || has_sub(n, "tonight"@) {
        dates(Some(t), shift_by(t, 1))
    } else if has_sub(n, "last week"@) {
        match week_start(t) {
            Some(s) => dates(shift_by(s, -7), Some(s)),
            None => None,
        }
    } else if has_sub(n, "this week"@) || has_sub(n, "earlier this week"@) {
        match week_start(t) {
            Some(s) => dates(Some(s), shift_by(s, 7)),
            None => None,
        }
    } else if has_sub(n, "last month"@) {
        match ymd(t.year as int, t.month as int, 1) {
            Some(som) => match shift_by(som, -1) {
                Some(e) => dates(ymd(e.year as int, e.month as int, 1), Some(som)),
                None => None,
            },
            None => None,
        }
    } else if has_sub(n, "this month"@) || has_sub(n, "earlier this month"@) {
        match ymd(t.year as int, t.month as int, 1) {
            Some(som) => dates(
                Some(som),
                if som.month == 12 {
                    ymd(som.year + 1, 1, 1)
                } else {
                    ymd(som.year as int, som.month + 1, 1)
                },
            ),
            None => None,
        }
    } else if has_sub(n, "last year"@) {
        dates(ymd(t.year - 1, 1, 1), ymd(t.year as int, 1, 1))
    } else if has_sub(n, "this year"@) || has_sub(n, "earlier this year"@) {
        dates(ymd(t.year as int, 1, 1), ymd(t.year + 1, 1, 1))
    } else {
        pattern_plan(n, t)
    }
}

/// Both ends of a plan of whole days are real dates.
pub open spec fn plan_valid(p: Option<RangePlan>) -> bool {
    match p {
        Some(RangePlan::Dates { start, end }) => valid_date(start) && valid_date(end),
        _ => true,
    }
}

fn ymd_exec(y: i64, m: i64, d: i64) -> (r: Option<CivilDate>)
    ensures
        r == ymd(y as int, m as int, d as int),
        r matches Some(c) ==> valid_date(c),
{
    if y < i32::MIN as i64 || y > i32::MAX as i64 || m < 0 || m > u32::MAX as i64 || d < 0 || d
        > u32::MAX as i64 {
        return None;
    }
    civil_date(y as i32, m as u32, d as u32)
}

fn week_start_exec(t: CivilDate) -> (r: Option<CivilDate>)
    requires
        valid_date(t),
    ensures
        r == week_start(t),
        r matches Some(c) ==> valid_date(c),
{
    let wd = weekday_from_monday(t);
    shift_checked(t, -(wd as i128))
}

fn day_span_exec(a: Option<CivilDate>) -> (r: Option<RangePlan>)
    requires
        a matches Some(x) ==> valid_date(x),
    ensures
        r == day_span(a),
        plan_valid(r),
{
    match a {
        Some(x) => match shift_checked(x, 1) {
            Some(e) => Some(RangePlan::Dates { start: x, end: e }),
            None => None,
        },
        None => None,
    }
}

fn dates_exec(a: Option<CivilDate>, b: Option<CivilDate>) -> (r: Option<RangePlan>)
    requires
        a matches Some(x) ==> valid_date(x),
        b matches Some(x) ==> valid_date(x),
    ensures
        r == dates(a, b),
        plan_valid(r),
{
    match (a, b) {
        (Some(x), Some(y)) => Some(RangePlan::Dates { start: x, end: y }),
        _ => None,
    }
}

/// Days back from weekday `cur` to weekday `target`, a whole week when
/// they are the same day.
fn days_back(cur: i64, target: i64) -> (r: i64)
    requires
        0 <= cur < 7,
        0 <= target < 7,
    ensures
        r == (if (cur - target) % 7 == 0 {
            7
        } else {
            (cur - target) % 7
        }),
        1 <= r <= 7,
{
    let b = if cur >= target {
        cur - target
    } else {
        cur - target + 7
    };
    if b == 0 {
        7
    } else {
        b
    }
}

fn resolve_relative_weekday(t: CivilDate, q: &str, w: &str) -> (r: Option<CivilDate>)
    requires
        valid_date(t),
    ensures
        r == relative_weekday(t, q@, w@),
        r matches Some(c) ==> valid_date(c),
{
    let target = match weekday_number(w) {
        Some(v) => v as i64,
        None => {
            return None;
        },
    };
    let cur = weekday_from_monday(t) as i64;
    if str_eq(q, "this") {
        shift_checked(t, (target - cur) as i128)
    } else if str_eq(q, "last") {
        let back = days_back(cur, target);
        shift_checked(t, -(back as i128))
    } else {
        None
    }
}

fn nth_prior_weekday(t: CivilDate, w: &str, count: i64) -> (r: Option<CivilDate>)
    requires
        valid_date(t),
    ensures
        r == nth_prior(t, w@, count as int),
        r matches Some(c) ==> valid_date(c),
{
    let target = match weekday_number(w) {
        Some(v) => v as i64,
        None => {
            return None;
        },
    };
    let cur = weekday_from_monday(t) as i64;
    let first = days_back(cur, target);
    let extra: i128 = if (count as i128) - 1 > 0 {
        (count as i128) - 1
    } else {
        0
    };
    shift_checked(t, -((first as i128) + extra * 7))
}

fn days_in_month(y: i64, m: i64) -> (r: Option<i64>)
    requires
        in_i32(y as int),
        1 <= m <= i32::MAX,
    ensures
        r == match month_days_of(y as int, m as int) {
            Some(d) => Some(d as i64),
            None => None::<i64>,
        },
        r matches Some(d) ==> 1 <= d <= 31,
{
    let next = if m == 12 {
        ymd_exec(y + 1, 1, 1)
    } else {
        ymd_exec(y, m + 1, 1)
    };
    match next {
        Some(n) => match shift_checked(n, -1) {
            Some(p) => Some(p.day as i64),
            None => None,
        },
        None => None,
    }
}

fn months_back_exec(y: i64, m: i64, back: i64) -> (r: Option<(i64, i64)>)
    requires
        in_i32(y as int),
        1 <= m <= 12,
        in_i32(back as int),
    ensures
        r == match months_back(y as int, m as int, back as int) {
            Some((a, b)) => Some((a as i64, b as i64)),
            None => None::<(i64, i64)>,
        },
        r matches Some((a, b)) ==> in_i32(a as int) && 1 <= b <= i32::MAX,
{
    let m0 = m - back;
    if m0 < i32::MIN as i64 || m0 > i32::MAX as i64 {
        return None;
    }
    if m0 <= 0 {
        let k = (12 - m0) / 12;
        proof {
            assert(k >= 1);
            assert(1 <= m0 + 12 * k <= 12) by (nonlinear_arith)
                requires
                    m0 <= 0,
                    k == (12 - m0) / 12,
            ;
        }
        if y - k < i32::MIN as i64 {
            return None;
        }
        Some((y - k, m0 + 12 * k))
    } else {
        Some((y, m0))
    }
}

fn min_i64(a: i64, b: i64) -> (r: i64)
    ensures
        r == min_int(a as int, b as int),
{
    if a <= b {
        a
    } else {
        b
    }
}

fn is_one_of(s: &str, a: &str, b: &str) -> (r: bool)
    ensures
        r == (s@ == a@ || s@ == b@),
{
    str_eq(s, a) || str_eq(s, b)
}

fn ago_plan_exec(t: CivilDate, amount: i64, unit: &str, anchored: bool) -> (r: Option<RangePlan>)
    requires
        valid_date(t),
    ensures
        r == ago_plan(t, amount as int, unit@, anchored),
        plan_valid(r),
{
    let back = (amount as i32) as i64;
    let ty = t.year as i64;
    let tm = t.month as i64;
    let td = t.day as i64;
    if is_one_of(unit, "day", "days") {
        if anchored {
            day_span_exec(shift_checked(t, -(amount as i128)))
        } else {
            Some(RangePlan::Rolling { days: amount })
        }
    } else if is_one_of(unit, "week", "weeks") {
        if anchored {
            day_span_exec(shift_checked(t, -(7 * (amount as i128))))
        } else {
            match week_start_exec(t) {
                Some(s) => match shift_checked(s, -(7 * (amount as i128))) {
                    Some(st) => dates_exec(Some(st), shift_checked(st, 7)),
                    None => None,
                },
                None => None,
            }
        }
    } else if is_one_of(unit, "month", "months") {
        match months_back_exec(ty, tm, back) {
            None => None,
            Some((y, m)) => if anchored {
                match days_in_month(y, m) {
                    Some(dim) => day_span_exec(ymd_exec(y, m, min_i64(td, dim))),
                    None => None,
                }
            } else {
                let end = if m == 12 {
                    ymd_exec(y + 1, 1, 1)
                } else {
                    ymd_exec(y, m + 1, 1)
                };
                dates_exec(ymd_exec(y, m, 1), end)
            },
        }
    } else if is_one_of(unit, "year", "years") {
        let target = ty - back;
        if target < i32::MIN as i64 || target > i32::MAX as i64 {
            None
        } else if anchored {
            match days_in_month(target, tm) {
                Some(dim) => day_span_exec(ymd_exec(target, tm, min_i64(td, dim))),
                None => None,
            }
        } else if target + 1 > i32::MAX as i64 {
            None
        } else {
            dates_exec(ymd_exec(target, 1, 1), ymd_exec(target + 1, 1, 1))
        }
    } else {
        None
    }
}

fn past_plan_exec(amount: i64, unit: &str) -> (r: Option<RangePlan>)
    ensures
        r == past_plan(amount as int, unit@),
        plan_valid(r),
{
    let per: i128 = if is_one_of(unit, "day", "days") {
        1
    } else if is_one_of(unit, "week", "weeks") {
        7
    } else if is_one_of(unit, "month", "months") {
        30
    } else if is_one_of(unit, "year", "years") {
        365
    } else {
        0
    };
    let total = per * (amount as i128);
    if per == 0 || total < i64::MIN as i128 || total > i64::MAX as i128 {
        None
    } else {
        Some(RangePlan::Rolling { days: total as i64 })
    }
}

fn group<'a>(g: &'a Vec<Option<String>>, k: usize) -> (r: Option<&'a str>)
    requires
        k < g@.len(),
    ensures
        match r {
            Some(t) => groups_view(g@)[k as int] == Some(t@),
            None => groups_view(g@)[k as int] is None,
        },
{
    match &g[k] {
        Some(t) => Some(t.as_str()),
        None => None,
    }
}

fn pattern_plan_exec(n: &str, t: CivilDate) -> (r: Option<RangePlan>)
    requires
        valid_date(t),
    ensures
        r == pattern_plan(n@, t),
        plan_valid(r),
{
    let names = vec!["qualifier", "weekday"];
    assert(names_view(names@) =~= weekday_names());
    match named_captures(WEEKDAY_PATTERN, n, &names) {
        Some(g) => {
            return match (group(&g, 0), group(&g, 1)) {
                (Some(q), Some(w)) => day_span_exec(resolve_relative_weekday(t, q, w)),
                _ => None,
            };
        },
        None => {},
    }
    let names = vec!["num", "weekday"];
    assert(names_view(names@) =~= weekday_ago_names());
    match named_captures(WEEKDAY_AGO_PATTERN, n, &names) {
        Some(g) => {
            return match (group(&g, 0), group(&g, 1)) {
                (Some(num), Some(w)) => match parse_count(num) {
                    Some(amount) => day_span_exec(nth_prior_weekday(t, w, amount)),
                    None => None,
                },
                _ => None,
            };
        },
        None => {},
    }
    let names = vec!["num", "unit", "anchor"];
    assert(names_view(names@) =~= ago_names());
    match named_captures(AGO_PATTERN, n, &names) {
        Some(g) => {
            return match (group(&g, 0), group(&g, 1)) {
                (Some(num), Some(unit)) => match parse_count(num) {
                    Some(amount) => ago_plan_exec(t, amount, unit, group(&g, 2).is_some()),
                    None => None,
                },
                _ => None,
            };
        },
        None => {},
    }
    let names = vec!["num", "unit"];
    assert(names_view(names@) =~= past_names());
    match named_captures(PAST_RANGE_PATTERN, n, &names) {
        Some(g) => match (group(&g, 0), group(&g, 1)) {
            (Some(num), Some(unit)) => match parse_count(num) {
                Some(amount) => past_plan_exec(amount, unit),
                None => None,
            },
            _ => None,
        },
        None => None,
    }
}

/// What a normalized query asks for, on the day `today`.
pub fn plan_temporal_range(normalized: &str, today: CivilDate) -> (r: Option<RangePlan>)
    requires
        valid_date(today),
    ensures
        r == plan(normalized@, today),
        plan_valid(r),
{
    let t = today;
    let n = normalized;
    if contains(n, "yesterday") {
        dates_exec(shift_checked(t, -1), Some(t))
    } else if contains(n, "today") || contains(n, "tonight") {
        dates_exec(Some(t), shift_checked(t, 1))
    } else if contains(n, "last week") {
        match week_start_exec(t) {
            Some(s) => dates_exec(shift_checked(s, -7), Some(s)),
            None => None,
        }
    } else if contains(n, "this week") || contains(n, "earlier this week") {
        match week_start_exec(t) {
            Some(s) => dates_exec(Some(s), shift_checked(s, 7)),
            None => None,
        }
    } else if contains(n, "last month") {
        match ymd_exec(t.year as i64, t.month as i64, 1) {
            Some(som) => match shift_checked(som, -1) {
                Some(e) => dates_exec(ymd_exec(e.year as i64, e.month as i64, 1), Some(som)),
                None => None,
            },
            None => None,
        }
    } else if contains(n, "this month") || contains(n, "earlier this month") {
        match ymd_exec(t.year as i64, t.month as i64, 1) {
            Some(som) => {
                let next = if som.month == 12 {
                    ymd_exec(som.year as i64 + 1, 1, 1)
                } else {
                    ymd_exec(som.year as i64, som.month as i64 + 1, 1)
                };
                dates_exec(Some(som), next)
            },
            None => None,
        }
    } else if contains(n, "last year") {
        dates_exec(ymd_exec(t.year as i64 - 1, 1, 1), ymd_exec(t.year as i64, 1, 1))
    } else if contains(n, "this year") || contains(n, "earlier this year") {
        dates_exec(ymd_exec(t.year as i64, 1, 1), ymd_exec(t.year as i64 + 1, 1, 1))
    } else {
        pattern_plan_exec(n, t)
    }
}

pub open spec fn clamped(x: i64) -> u64 {
    if x < 0 {
        0
    } else {
        x as u64
    }
}

/// The rolling span of `days` days up to the instant `now_ms`.
pub open spec fn rolling_range_of(now_ms: i64, days: i64) -> Option<TemporalRange> {
    match instant_minus_days_of(now_ms, days) {
        Some(st) => Some(TemporalRange { start_ms: clamped(st), end_ms: clamped(now_ms) }),
        None => None,
    }
}

/// The span from the instant of one moment to that of another.
pub open spec fn span_of(start: LocalMoment, end: LocalMoment) -> TemporalRange {
    TemporalRange { start_ms: clamped(start.millis), end_ms: clamped(end.millis) }
}

/// A moment that is the local midnight beginning `date`.
pub open spec fn is_midnight_of(m: LocalMoment, date: CivilDate) -> bool {
    m.date == date && m.secs_of_day == 0 && moment_ok(m)
}

/// What asking for the local midnight of `date` may give: that midnight,
/// or nothing where the time zone skips it.
pub open spec fn midnight_answer(m: Option<LocalMoment>, date: CivilDate) -> bool {
    m matches Some(x) ==> is_midnight_of(x, date)
}

pub open spec fn or_moment(m: Option<LocalMoment>, fallback: LocalMoment) -> LocalMoment {
    match m {
        Some(x) => x,
        None => fallback,
    }
}

/// The range between two local midnights: from the first instant to the
/// second, each clamped at the epoch.
pub fn range_from_local_dates(start: LocalMoment, end: LocalMoment) -> (r: TemporalRange)
    ensures
        r == span_of(start, end),
{
    TemporalRange { start_ms: clamp_to_u64(start.millis), end_ms: clamp_to_u64(end.millis) }
}

/// The range between the midnights found for two dates; where one was not
/// found, `fallback` (the current moment) stands in for it.
pub fn range_from_midnights(
    start: Option<LocalMoment>,
    end: Option<LocalMoment>,
    fallback: LocalMoment,
) -> (r: TemporalRange)
    ensures
        r == span_of(or_moment(start, fallback), or_moment(end, fallback)),
{
    let s = match start {
        Some(m) => m,
        None => fallback,
    };
    let e = match end {
        Some(m) => m,
        None => fallback,
    };
    range_from_local_dates(s, e)
}

/// What a plan covers at the moment `now`: for dates, the span from the
/// local midnight of the first to that of the second, where the time zone
/// skips one of them the current moment standing in; for a rolling plan,
/// the span of its days up to `now`.
pub open spec fn covers(p: RangePlan, now: LocalMoment, r: Option<TemporalRange>) -> bool {
    match p {
        RangePlan::Dates { start, end } => exists|ms: Option<LocalMoment>, me: Option<LocalMoment>, f: LocalMoment|
            #![trigger midnight_answer(ms, start), midnight_answer(me, end), moment_ok(f)]
            midnight_answer(ms, start) && midnight_answer(me, end) && moment_ok(f) && r == Some(
                span_of(or_moment(ms, f), or_moment(me, f)),
            ),
        RangePlan::Rolling { days } => r == rolling_range_of(now.millis, days),
    }
}

pub fn range_for_plan(p: RangePlan, now: LocalMoment) -> (r: Option<TemporalRange>)
    requires
        plan_valid(Some(p)),
    ensures
        covers(p, now, r),
{
    match p {
        RangePlan::Dates { start, end } => {
            let ms = local_midnight_moment(start);
            let me = local_midnight_moment(end);
            let f = match (&ms, &me) {
                (Some(m), Some(_)) => *m,
                _ => current_moment(),
            };
            let r = range_from_midnights(ms, me, f);
            assert(midnight_answer(ms, start) && midnight_answer(me, end) && moment_ok(f) && Some(r)
                == Some(span_of(or_moment(ms, f), or_moment(me, f))));
            Some(r)
        },
        RangePlan::Rolling { days } => match instant_minus_days(now.millis, days) {
            Some(st) => Some(
                TemporalRange { start_ms: clamp_to_u64(st), end_ms: clamp_to_u64(now.millis) },
            ),
            None => None,
        },
    }
}

/// The time range a memory query names, judged at the moment
/// `reference_ms` in the local time zone (now, when that moment cannot be
/// represented). The local date the plan is made for, and so the range,
/// depends on the time zone; what holds whatever it is: there is a local
/// moment, at `reference_ms` when chrono can represent that instant, whose
/// date gives the plan and whose instant bounds a rolling span.  When the
/// local date of that moment lies beyond chrono's calendar, no range is
/// found.
pub fn detect_temporal_query_range(query: &str, reference_ms: u64) -> (r: Option<TemporalRange>)
    ensures
        exists|now: LocalMoment|
            #![trigger plan(normalized(query@), now.date)]
            {
                &&& moment_ok(now)
                &&& utc_millis_ok(reference_ms as i64) ==> now.millis == reference_ms as i64
                &&& valid_date(now.date) ==> match plan(normalized(query@), now.date) {
                    Some(p) => covers(p, now, r),
                    None => r is None,
                }
                &&& !valid_date(now.date) ==> r is None
            },
{
    let n = normalized_query(query);
    let now = local_datetime_from_ms(reference_ms);
    if !date_is_valid(now.date) {
        assert(plan(normalized(query@), now.date) == plan(normalized(query@), now.date));
        return None;
    }
    let p = plan_temporal_range(n.as_str(), now.date);
    let r = match p {
        Some(plan) => range_for_plan(plan, now),
        None => None,
    };
    assert(valid_date(now.date) && match plan(normalized(query@), now.date) {
        Some(p) => covers(p, now, r),
        None => r is None,
    });
    r
}

// ------------------------------------------------------------------
// Local time as text
// ------------------------------------------------------------------

/// The formats the library writes local time with.
pub open spec fn known_time_format(fmt: Seq<char>) -> bool {
    ||| fmt == "%A"@
    ||| fmt == "%B"@
    ||| fmt == "%-d"@
    ||| fmt == "%Y-%m-%d"@
    ||| fmt == "%H"@
    ||| fmt == "%M"@
    ||| fmt == "%S"@
    ||| fmt == "%H:%M:%S %:z"@
    ||| fmt == "%I:%M %p"@
    ||| fmt == "%:z"@
    ||| fmt == "%Z"@
    ||| fmt == ""@
    ||| fmt == "%Y-%m-%d %H:%M %Z"@
}

pub open spec fn is_digit_char(c: char) -> bool {
    '0' <= c && c <= '9'
}

/// Two ASCII digits whose number lies in `lo..=hi`.
pub open spec fn two_digits(s: Seq<char>, lo: int, hi: int) -> bool {
    &&& s.len() == 2
    &&& is_digit_char(s[0]) && is_digit_char(s[1])
    &&& lo <= (s[0] as int - '0' as int) * 10 + (s[1] as int - '0' as int) <= hi
}

/// chrono's English weekday names, Sunday first.
pub open spec fn long_weekday_names() -> Seq<Seq<char>> {
    seq!["Sunday"@, "Monday"@, "Tuesday"@, "Wednesday"@, "Thursday"@, "Friday"@, "Saturday"@]
}

/// chrono's English month names.
pub open spec fn long_month_names() -> Seq<Seq<char>> {
    seq![
        "January"@,
        "February"@,
        "March"@,
        "April"@,
        "May"@,
        "June"@,
        "July"@,
        "August"@,
        "September"@,
        "October"@,
        "November"@,
        "December"@,
    ]
}

/// What chrono's documentation promises of the text a format gives: a
/// weekday or month name, a day without padding, zero-padded hours,
/// minutes and seconds in range, a date ending in `-MM-DD`, a 12-hour time
/// with `AM` or `PM`.  Formats with an offset, a zone or a year alone are
/// not described further.
pub open spec fn format_shape(fmt: Seq<char>, text: Seq<char>) -> bool {
    if fmt.len() == 0 {
        true
    } else if fmt == "%A"@ {
        long_weekday_names().contains(text)
    } else if fmt == "%B"@ {
        long_month_names().contains(text)
    } else if fmt == "%-d"@ {
        ||| text.len() == 1 && is_digit_char(text[0]) && text[0] != '0'
        ||| two_digits(text, 10, 31)
    } else if fmt == "%H"@ {
        two_digits(text, 0, 23)
    } else if fmt == "%M"@ {
        two_digits(text, 0, 59)
    } else if fmt == "%S"@ {
        two_digits(text, 0, 60)
    } else if fmt == "%Y-%m-%d"@ {
        let n = text.len() as int;
        &&& n >= 10
        &&& text[n - 6] == '-'
        &&& two_digits(text.subrange(n - 5, n - 3), 1, 12)
        &&& text[n - 3] == '-'
        &&& two_digits(text.subrange(n - 2, n), 1, 31)
    } else if fmt == "%I:%M %p"@ {
        &&& text.len() == 8
        &&& two_digits(text.take(2), 1, 12)
        &&& text[2] == ':'
        &&& two_digits(text.subrange(3, 5), 0, 59)
        &&& text[5] == ' '
        &&& (text.skip(6) == "AM"@ || text.skip(6) == "PM"@)
    } else {
        true
    }
}

/// The text chrono's `format` gives for the instant `millis` seen at the
/// UTC offset `offset_secs`.  It is a function of those two numbers and the
/// format: a local `DateTime` formats as a `FixedOffset` one with the same
/// instant and offset (`Local`'s offset type is `FixedOffset`, and its
/// zone name is the offset's text).
pub uninterp spec fn chrono_format(millis: i64, offset_secs: i32, fmt: Seq<char>) -> Seq<char>;

/// The text chrono's `to_rfc3339` gives for the instant `millis` seen at
/// the offset `offset_secs`.
pub uninterp spec fn chrono_rfc3339(millis: i64, offset_secs: i32) -> Seq<char>;

/// `DateTime::<FixedOffset>::format(fmt).to_string()` of the instant at the
/// offset.  The text is named; what chrono's documentation gives of its
/// shape is stated.  (An invalid format would make `to_string` panic; only
/// the library's own formats are accepted.)
#[verifier::external_body]
fn format_at(millis: i64, offset_secs: i32, fmt: &str) -> (r: String)
    requires
        utc_millis_ok(millis),
        offset_ok(offset_secs),
        known_time_format(fmt@),
    ensures
        r@ == chrono_format(millis, offset_secs, fmt@),
        format_shape(fmt@, r@),
{
    let tz = chrono::FixedOffset::east_opt(offset_secs).unwrap();
    tz.timestamp_millis_opt(millis).unwrap().format(fmt).to_string()
}

/// `DateTime::<FixedOffset>::to_rfc3339()` of the instant at the offset.
/// It begins with the `%Y-%m-%d` date (both write the year the same way)
/// and a `T`.
#[verifier::external_body]
fn rfc3339_at(millis: i64, offset_secs: i32) -> (r: String)
    requires
        utc_millis_ok(millis),
        offset_ok(offset_secs),
    ensures
        r@ == chrono_rfc3339(millis, offset_secs),
        has_prefix(r@, chrono_format(millis, offset_secs, "%Y-%m-%d"@) + "T"@),
{
    let tz = chrono::FixedOffset::east_opt(offset_secs).unwrap();
    tz.timestamp_millis_opt(millis).unwrap().to_rfc3339()
}

/// The text of a moment in a format: RFC 3339 for the empty format, the
/// formatted text otherwise.
pub open spec fn moment_text(m: LocalMoment, fmt: Seq<char>) -> Seq<char> {
    if fmt.len() == 0 {
        chrono_rfc3339(m.millis, m.offset_secs)
    } else {
        chrono_format(m.millis, m.offset_secs, fmt)
    }
}

fn text_at(m: LocalMoment, fmt: &str) -> (r: String)
    requires
        moment_ok(m),
        known_time_format(fmt@),
    ensures
        r@ == moment_text(m, fmt@),
        format_shape(fmt@, r@),
        fmt@.len() == 0 ==> has_prefix(r@, chrono_format(m.millis, m.offset_secs, "%Y-%m-%d"@) + "T"@),
{
    if fmt.unicode_len() == 0 {
        rfc3339_at(m.millis, m.offset_secs)
    } else {
        format_at(m.millis, m.offset_secs, fmt)
    }
}

/// A signed year written in decimal.
pub open spec fn year_text(y: int) -> Seq<char> {
    if y < 0 {
        "-"@ + crate::text::decimal((-y) as nat)
    } else {
        crate::text::decimal(y as nat)
    }
}

fn year_to_string(y: i32) -> (r: String)
    ensures
        r@ == year_text(y as int),
{
    if y < 0 {
        let mut s = to_string("-");
        let d = crate::text::u64_to_string((-(y as i64)) as u64);
        s.append(d.as_str());
        s
    } else {
        crate::text::u64_to_string(y as u64)
    }
}

/// The placeholders of the current time a prompt can hold, in order.
pub open spec fn time_placeholders() -> Seq<Seq<char>> {
    seq![
        "{{date}}"@,
        "{{date_full}}"@,
        "{{weekday}}"@,
        "{{time_hour}}"@,
        "{{time_minute}}"@,
        "{{time_second}}"@,
        "{{time_full}}"@,
        "{{time_12hour_format}}"@,
        "{{time_timezone}}"@,
        "{{time_timezone_name}}"@,
        "{{datetime_iso}}"@,
    ]
}

pub open spec fn placeholder_keys(v: Seq<(&'static str, String)>) -> Seq<Seq<char>> {
    v.map_values(|p: (&'static str, String)| p.0@)
}

pub open spec fn placeholder_values(v: Seq<(&'static str, String)>) -> Seq<Seq<char>> {
    v.map_values(|p: (&'static str, String)| p.1@)
}

/// The values of the time placeholders at the moment `m`, in the order of
/// `time_placeholders`: the date, the full date (weekday, month, day and
/// year), the weekday, hour, minute, second, full time, 12-hour time,
/// offset, zone and the RFC 3339 text.
pub open spec fn time_texts(m: LocalMoment) -> Seq<Seq<char>> {
    seq![
        moment_text(m, "%Y-%m-%d"@),
        moment_text(m, "%A"@) + ", "@ + moment_text(m, "%B"@) + " "@ + crate::text::decimal(
            m.date.day as nat,
        ) + ", "@ + year_text(m.date.year as int),
        moment_text(m, "%A"@),
        moment_text(m, "%H"@),
        moment_text(m, "%M"@),
        moment_text(m, "%S"@),
        moment_text(m, "%H:%M:%S %:z"@),
        moment_text(m, "%I:%M %p"@),
        moment_text(m, "%:z"@),
        moment_text(m, "%Z"@),
        chrono_rfc3339(m.millis, m.offset_secs),
    ]
}

/// The values of the time placeholders, all written from one local moment:
/// the one at `reference_ms` when chrono can represent it, else now.
pub fn time_placeholder_values(reference_ms: u64) -> (r: Vec<(&'static str, String)>)
    ensures
        placeholder_keys(r@) == time_placeholders(),
        exists|m: LocalMoment|
            #![trigger time_texts(m)]
            {
                &&& moment_ok(m)
                &&& utc_millis_ok(reference_ms as i64) ==> m.millis == reference_ms as i64
                &&& placeholder_values(r@) == time_texts(m)
            },
        format_shape("%Y-%m-%d"@, r@[0].1@),
        format_shape("%A"@, r@[2].1@),
        format_shape("%H"@, r@[3].1@),
        format_shape("%M"@, r@[4].1@),
        format_shape("%S"@, r@[5].1@),
        format_shape("%I:%M %p"@, r@[7].1@),
        has_prefix(r@[10].1@, r@[0].1@ + "T"@),
        has_prefix(r@[1].1@, r@[2].1@ + ", "@),
{
    let moment = local_datetime_from_ms(reference_ms);
    let weekday = text_at(moment, "%A");
    let mut date_full = text_at(moment, "%A");
    date_full.append(", ");
    let month = text_at(moment, "%B");
    date_full.append(month.as_str());
    date_full.append(" ");
    let day = crate::text::u64_to_string(moment.date.day as u64);
    date_full.append(day.as_str());
    date_full.append(", ");
    let year = year_to_string(moment.date.year);
    date_full.append(year.as_str());
    let date = text_at(moment, "%Y-%m-%d");
    let iso = text_at(moment, "");
    proof {
        reveal_strlit("");
        reveal_strlit("%Y-%m-%d");
        reveal_strlit(", ");
    }
    let ghost full = date_full@;
    let ghost wd = weekday@;
    assert(full == wd + ", "@ + month@ + " "@ + day@ + ", "@ + year@);
    let r = vec![
        ("{{date}}", date),
        ("{{date_full}}", date_full),
        ("{{weekday}}", weekday),
        ("{{time_hour}}", text_at(moment, "%H")),
        ("{{time_minute}}", text_at(moment, "%M")),
        ("{{time_second}}", text_at(moment, "%S")),
        ("{{time_full}}", text_at(moment, "%H:%M:%S %:z")),
        ("{{time_12hour_format}}", text_at(moment, "%I:%M %p")),
        ("{{time_timezone}}", text_at(moment, "%:z")),
        ("{{time_timezone_name}}", text_at(moment, "%Z")),
        ("{{datetime_iso}}", iso),
    ];
    assert(placeholder_keys(r@) =~= time_placeholders());
    assert(placeholder_values(r@) =~= time_texts(moment));
    assert(r@[1].1@ == full);
    assert(full.subrange(0, wd.len() as int + 2) =~= wd + ", "@);
    assert(crate::text::occurs_at(full, wd + ", "@, 0));
    r
}

/// `- text`, followed by when it was observed when that is known: the
/// local moment at that instant (now, when chrono cannot represent it)
/// written `%Y-%m-%d %H:%M %Z`.
pub fn format_memory_for_prompt(memory: &MemoryEmbedding) -> (r: String)
    ensures
        memory.observed_at is None ==> r@ == "- "@ + memory.text@,
        memory.observed_at matches Some(t) ==> exists|m: LocalMoment|
            #![trigger moment_ok(m)]
            {
                &&& moment_ok(m)
                &&& utc_millis_ok(t as i64) ==> m.millis == t as i64
                &&& r@ == "- "@ + memory.text@ + " (observed "@ + chrono_format(
                    m.millis,
                    m.offset_secs,
                    "%Y-%m-%d %H:%M %Z"@,
                ) + ")"@
            },
{
    let mut line = to_string("- ");
    line.append(memory.text.as_str());
    match memory.observed_at {
        Some(observed_at) => {
            let moment = local_datetime_from_ms(observed_at);
            let when = format_at(moment.millis, moment.offset_secs, "%Y-%m-%d %H:%M %Z");
            line.append(" (observed ");
            line.append(when.as_str());
            line.append(")");
            assert(moment_ok(moment));
        },
        None => {},
    }
    line
}

} // verus!
verus! {

/// The first and the last day chrono can represent, as day numbers.
pub open spec fn first_day_number() -> int {
    day_number(CivilDate { year: -262143i32, month: 1u32, day: 1u32 })
}

pub open spec fn last_day_number() -> int {
    day_number(CivilDate { year: 262142i32, month: 12u32, day: 31u32 })
}

proof fn lemma_day_range()
    ensures
        first_day_number() == -96465292,
        last_day_number() == 95026236,
{
    reveal(day_number);
}

/// Counting days back from a day number gives that number again.
#[verifier::spinoff_prover]
#[verifier::rlimit(60)]
proof fn lemma_day_number_round_trip(k: int)
    requires
        -96465292 <= k <= 95026236,
    ensures
        day_number(civil_from_days(k)) == k,
{
    reveal(day_number);
    reveal(civil_from_days);
    let z = k + 719468;
    let era = z / 146097;
    let doe = z - era * 146097;
    let yoe = (doe - doe / 1460 + doe / 36524 - doe / 146096) / 365;
    let doy = doe - (365 * yoe + yoe / 4 - yoe / 100);
    let mp = (5 * doy + 2) / 153;
    let d = doy - (153 * mp + 2) / 5 + 1;
    let m = if mp < 10 { mp + 3 } else { mp - 9 };
    let y = yoe + era * 400 + if m <= 2 { 1int } else { 0int };
    assert(0 <= doe < 146097);
    assert(0 <= yoe < 400);
    assert(0 <= doy <= 365);
    assert(0 <= mp <= 11);
    assert(1 <= d <= 31);
    assert(-262144 <= y <= 262143);
    let c = civil_from_days(k);
    assert(c.year as int == y && c.month as int == m && c.day as int == d);
}

/// The date `a` days after `d` is there exactly when its day number lies
/// in chrono's range, and its day number is that of `d` plus `a`.
pub proof fn lemma_date_after_counts_days(d: CivilDate, a: int)
    ensures
        date_after(d, a) is Some <==> first_day_number() <= day_number(d) + a <= last_day_number(),
        date_after(d, a) matches Some(c) ==> day_number(c) == day_number(d) + a && c
            == civil_from_days(day_number(d) + a),
{
    reveal(date_after);
    lemma_day_range();
    let k = day_number(d) + a;
    if first_day_number() <= k <= last_day_number() {
        lemma_day_number_round_trip(k);
    }
}

/// Moving `a` days and then `b` days is moving `a + b` days.
pub proof fn lemma_date_after_compose(d: CivilDate, a: int, b: int)
    requires
        date_after(d, a) is Some,
    ensures
        date_after(date_after(d, a)->0, b) == date_after(d, a + b),
{
    let c = date_after(d, a)->0;
    lemma_date_after_counts_days(d, a);
    lemma_date_after_counts_days(c, b);
    lemma_date_after_counts_days(d, a + b);
    reveal(date_after);
}

/// The unit names of weeks differ from those of days.
proof fn lemma_week_units_are_not_days(unit: Seq<char>)
    requires
        unit == "week"@ || unit == "weeks"@,
    ensures
        unit != "day"@ && unit != "days"@,
{
    reveal_strlit("week");
    reveal_strlit("weeks");
    reveal_strlit("day");
    reveal_strlit("days");
    assert("week"@[0] == 'w' && "weeks"@[0] == 'w' && "day"@[0] == 'd' && "days"@[0] == 'd');
}

/// "N weeks ago" without "on that day" is a whole Monday-based week: it
/// begins on a Monday exactly 7N days before the Monday that begins the
/// current week, and ends seven days after it begins.  It is found
/// whenever those days lie in chrono's range.
pub proof fn lemma_weeks_ago_is_a_past_week(t: CivilDate, amount: int, unit: Seq<char>)
    requires
        unit == "week"@ || unit == "weeks"@,
        0 <= amount <= 1_000_000_000,
    ensures
        ago_plan(t, amount, unit, false) matches Some(RangePlan::Dates { start, end }) ==> {
            &&& day_number(start) == day_number(t) - weekday_index(t) - 7 * amount
            &&& day_number(end) == day_number(start) + 7
            &&& weekday_index(start) == 0
        },
        first_day_number() <= day_number(t) - weekday_index(t) - 7 * amount
            && day_number(t) - weekday_index(t) - 7 * amount + 7 <= last_day_number()
            && day_number(t) - weekday_index(t) <= last_day_number()
            ==> ago_plan(t, amount, unit, false) is Some,
{
    lemma_week_units_are_not_days(unit);
    reveal(weekday_index);
    let w = weekday_index(t);
    assert(0 <= w < 7);
    lemma_date_after_counts_days(t, -w);
    let k = day_number(t) - w - 7 * amount;
    if week_start(t) is Some {
        let s = week_start(t)->0;
        lemma_date_after_counts_days(s, -(7 * amount));
        if shift_by(s, -(7 * amount)) is Some {
            let st = shift_by(s, -(7 * amount))->0;
            lemma_date_after_counts_days(st, 7);
        }
    }
    if first_day_number() <= k && k + 7 <= last_day_number() && day_number(t) - w <= last_day_number() {
        assert(week_start(t) is Some);
        let s = week_start(t)->0;
        assert(shift_by(s, -(7 * amount)) is Some);
        let st = shift_by(s, -(7 * amount))->0;
        assert(shift_by(st, 7) is Some);
    }
}

/// One week ago is last week, and no weeks ago is this week: the plans
/// for "1 week ago" and "0 weeks ago" are those of "last week" and "this
/// week".
pub proof fn lemma_weeks_ago_agrees_with_last_and_this_week(t: CivilDate, unit: Seq<char>)
    requires
        unit == "week"@ || unit == "weeks"@,
    ensures
        ago_plan(t, 1, unit, false) == match week_start(t) {
            Some(s) => dates(shift_by(s, -7), Some(s)),
            None => None,
        },
        ago_plan(t, 0, unit, false) == match week_start(t) {
            Some(s) => dates(Some(s), shift_by(s, 7)),
            None => None,
        },
{
    lemma_week_units_are_not_days(unit);
    reveal(weekday_index);
    if let Some(s) = week_start(t) {
        let w = weekday_index(t);
        lemma_date_after_counts_days(t, -w);
        assert(s == civil_from_days(day_number(t) - w));
        lemma_date_after_counts_days(s, -7);
        lemma_date_after_counts_days(s, 0);
        if let Some(st) = shift_by(s, -7) {
            lemma_date_after_compose(s, -7, 7);
        }
        assert(shift_by(s, 0) == Some(s));
    }
}

/// Consecutive weeks ago abut: the week `N + 1` weeks ago ends where the
/// week `N` weeks ago begins.
pub proof fn lemma_weeks_ago_abut(t: CivilDate, amount: int, unit: Seq<char>)
    requires
        unit == "week"@ || unit == "weeks"@,
        0 <= amount <= 1_000_000_000,
        ago_plan(t, amount, unit, false) is Some,
        ago_plan(t, amount + 1, unit, false) is Some,
    ensures
        ago_plan(t, amount + 1, unit, false)->0->Dates_end == ago_plan(t, amount, unit, false)->0->Dates_start,
{
    lemma_week_units_are_not_days(unit);
    let s = week_start(t)->0;
    lemma_date_after_compose(s, -(7 * (amount + 1)), 7);
}


/// A plan that is the span of days from day number `a` up to day number `b`.
pub open spec fn spans_days(p: Option<RangePlan>, a: int, b: int) -> bool {
    p matches Some(RangePlan::Dates { start, end }) ==> day_number(start) == a && day_number(end) == b
}

/// The fixed phrases name the spans they say, counted in days from today:
/// "yesterday" is the day before today, up to today; "today" (or
/// "tonight") is today; "last week" is the seven days from the Monday
/// before this week's; "this week" the seven days from this week's Monday.
pub proof fn lemma_fixed_phrases_count_days(n: Seq<char>, t: CivilDate)
    ensures
        has_sub(n, "yesterday"@) ==> spans_days(plan(n, t), day_number(t) - 1, day_number(t)),
        !has_sub(n, "yesterday"@) && (has_sub(n, "today"@) || has_sub(n, "tonight"@)) ==> spans_days(
            plan(n, t),
            day_number(t),
            day_number(t) + 1,
        ),
        !has_sub(n, "yesterday"@) && !has_sub(n, "today"@) && !has_sub(n, "tonight"@) && has_sub(
            n,
            "last week"@,
        ) ==> spans_days(
            plan(n, t),
            day_number(t) - weekday_index(t) - 7,
            day_number(t) - weekday_index(t),
        ),
        !has_sub(n, "yesterday"@) && !has_sub(n, "today"@) && !has_sub(n, "tonight"@) && !has_sub(
            n,
            "last week"@,
        ) && (has_sub(n, "this week"@) || has_sub(n, "earlier this week"@)) ==> spans_days(
            plan(n, t),
            day_number(t) - weekday_index(t),
            day_number(t) - weekday_index(t) + 7,
        ),
{
    reveal(weekday_index);
    let w = weekday_index(t);
    lemma_date_after_counts_days(t, -1);
    lemma_date_after_counts_days(t, 1);
    lemma_date_after_counts_days(t, -w);
    if week_start(t) is Some {
        let s = week_start(t)->0;
        lemma_date_after_counts_days(s, -7);
        lemma_date_after_counts_days(s, 7);
    }
}

/// "N days ago" is the single day N days before today when said "on that
/// day", and otherwise the last N days up to now; "N weeks ago on that
/// day" is the single day 7N days before today.
pub proof fn lemma_days_and_anchored_weeks_ago(t: CivilDate, amount: int, unit: Seq<char>)
    requires
        0 <= amount <= 1_000_000_000,
    ensures
        (unit == "day"@ || unit == "days"@) ==> spans_days(
            ago_plan(t, amount, unit, true),
            day_number(t) - amount,
            day_number(t) - amount + 1,
        ) && ago_plan(t, amount, unit, false) == Some(RangePlan::Rolling { days: amount as i64 }),
        (unit == "week"@ || unit == "weeks"@) ==> spans_days(
            ago_plan(t, amount, unit, true),
            day_number(t) - 7 * amount,
            day_number(t) - 7 * amount + 1,
        ),
{
    if unit == "week"@ || unit == "weeks"@ {
        lemma_week_units_are_not_days(unit);
    }
    lemma_date_after_counts_days(t, -amount);
    lemma_date_after_counts_days(t, -(7 * amount));
    if shift_by(t, -amount) is Some {
        lemma_date_after_counts_days(shift_by(t, -amount)->0, 1);
    }
    if shift_by(t, -(7 * amount)) is Some {
        lemma_date_after_counts_days(shift_by(t, -(7 * amount))->0, 1);
    }
}

}
