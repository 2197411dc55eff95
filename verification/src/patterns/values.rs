//! The random values that replace the placeholders, and what holds of every
//! value drawn.

use vstd::prelude::*;
use rand::Rng;
use chrono::TimeZone;
use super::grammar::{PatternKind, PatternSpan, SpanView};
use crate::text::{decimal_text, extend_all, i64_text, parse_i64, parse_i64_spec, chars_of, string_of_range, trim, trim_span};

verus! {

// ---------------------------------------------------------------------------
// Outside sources of values
// ---------------------------------------------------------------------------

/// The earliest second that a `chrono::DateTime<Utc>` can hold
/// (`DateTime::<Utc>::MIN_UTC.timestamp()`).
pub const EARLIEST_UTC_SECOND: i64 = -8_334_569_779_200;

/// The latest second that a `chrono::DateTime<Utc>` can hold
/// (`DateTime::<Utc>::MAX_UTC.timestamp()`).
pub const LATEST_UTC_SECOND: i64 = 8_210_266_876_799;

/// Thirty days, in seconds.
pub const THIRTY_DAYS_SECONDS: i64 = 2_592_000;

/// A reading of the clock in Unix seconds lies in the range of `chrono`'s
/// `DateTime<Utc>`.
pub open spec fn clock_reading(now: int) -> bool {
    EARLIEST_UTC_SECOND <= now <= LATEST_UTC_SECOND
}

/// `chrono::Utc::now().timestamp()`: the current Unix time in seconds. Of
/// the reading only its range is claimed: every `DateTime<Utc>` lies
/// between `MIN_UTC` and `MAX_UTC`.
#[verifier::external_body]
pub(crate) fn utc_now_seconds() -> (now: i64)
    ensures
        clock_reading(now as int),
{
    chrono::Utc::now().timestamp()
}

/// `rand::rng().random_range(low..=high)`: a random integer in
/// `low..=high`. The range must not be empty (the call panics if it is).
#[verifier::external_body]
pub(crate) fn random_in_range(low: i64, high: i64) -> (v: i64)
    requires
        low <= high,
    ensures
        low <= v <= high,
{
    rand::rng().random_range(low..=high)
}

/// The text of a version-4 UUID as `Uuid::to_string` prints it: 36
/// characters, hyphens at 8, 13, 18 and 23, lowercase hexadecimal digits
/// elsewhere, the version digit `4` at 14 and a variant digit of `8`, `9`,
/// `a` or `b` at 19.
pub open spec fn uuid_text(t: Seq<char>) -> bool {
    &&& t.len() == 36
    &&& forall|i: int|
        0 <= i < 36 ==> if i == 8 || i == 13 || i == 18 || i == 23 {
            #[trigger] t[i] == '-'
        } else {
            ('0' <= t[i] <= '9') || ('a' <= t[i] <= 'f')
        }
    &&& t[14] == '4'
    &&& (t[19] == '8' || t[19] == '9' || t[19] == 'a' || t[19] == 'b')
}

/// `uuid::Uuid::new_v4().to_string()`: a random version-4 UUID in its
/// hyphenated lowercase form (`new_v4` sets the version and variant bits;
/// `Display` writes `LowerHex`).
#[verifier::external_body]
pub(crate) fn new_uuid_text() -> (t: String)
    ensures
        uuid_text(t@),
{
    uuid::Uuid::new_v4().to_string()
}

/// What `Utc.timestamp_opt(seconds, 0)` followed by `to_rfc3339` gives: the
/// RFC 3339 text of that second, or none where `chrono` has no such time.
pub uninterp spec fn rfc3339_text(seconds: i64) -> Option<Seq<char>>;

/// Formats the Unix second `seconds` with `chrono`: `Utc.timestamp_opt`,
/// then `DateTime::to_rfc3339` on a single result. The contract only names
/// the result.
#[verifier::external_body]
pub(crate) fn rfc3339_of(seconds: i64) -> (t: Option<String>)
    ensures
        match t {
            Some(s) => rfc3339_text(seconds) == Some(s@),
            None => rfc3339_text(seconds) is None,
        },
{
    match chrono::Utc.timestamp_opt(seconds, 0) {
        chrono::LocalResult::Single(dt) => Some(dt.to_rfc3339()),
        _ => None,
    }
}

/// What `DateTime::parse_from_rfc3339(text)` followed by `timestamp` gives:
/// the Unix second of an RFC 3339 date-time, or none where `text` is not one.
pub uninterp spec fn rfc3339_seconds(text: Seq<char>) -> Option<i64>;

/// Reads an RFC 3339 date-time with `chrono::DateTime::parse_from_rfc3339`
/// and returns its Unix second (`DateTime::timestamp`). The contract only
/// names the result.
#[verifier::external_body]
pub(crate) fn parse_rfc3339_seconds(text: &str) -> (r: Option<i64>)
    ensures
        r == rfc3339_seconds(text@),
{
    match chrono::DateTime::parse_from_rfc3339(text) {
        Ok(dt) => Some(dt.timestamp()),
        Err(_) => None,
    }
}

// ---------------------------------------------------------------------------
// What each replacement is
// ---------------------------------------------------------------------------

pub open spec fn low_of(a: int, b: int) -> int {
    if a <= b {
        a
    } else {
        b
    }
}

pub open spec fn high_of(a: int, b: int) -> int {
    if a <= b {
        b
    } else {
        a
    }
}

/// An integer bound as written, or `default` where it does not parse as an
/// `i64`.
pub open spec fn int_bound(f: Seq<char>, default: int) -> int {
    match parse_i64_spec(trim(f)) {
        Some(v) => v as int,
        None => default,
    }
}

/// A date-time bound: an RFC 3339 date-time, else a Unix second, else
/// `default`.
pub open spec fn datetime_bound(f: Seq<char>, default: int) -> int {
    match rfc3339_seconds(trim(f)) {
        Some(t) => t as int,
        None => int_bound(f, default),
    }
}

/// The text of the drawn second `v`, given its RFC 3339 form where `chrono`
/// has one: that form, or an error marker.
pub open spec fn datetime_text_from(v: i64, formatted: Option<Seq<char>>) -> Seq<char> {
    match formatted {
        Some(t) => t,
        None => "{datetime_error: invalid_timestamp_"@ + decimal_text(v as int) + "}"@,
    }
}

/// The text of a drawn second: its RFC 3339 form, or an error marker where
/// `chrono` has no such time.
pub open spec fn datetime_text(v: i64) -> Seq<char> {
    datetime_text_from(v, rfc3339_text(v))
}

/// `<rnd:int[min, max]>`: the decimal text of `v`, an integer between the
/// bounds in either order (unparsable bounds count as 0 and 100).
pub open spec fn int_choice(f1: Seq<char>, f2: Seq<char>, v: int, r: Seq<char>) -> bool {
    let a = int_bound(f1, 0);
    let b = int_bound(f2, 100);
    low_of(a, b) <= v <= high_of(a, b) && r == decimal_text(v)
}

/// `<rnd:ts[start, end]>`: the decimal text of `v`, a second between the
/// bounds in either order (an unparsable start counts as 0, an unparsable
/// end as the clock reading `now`).
pub open spec fn timestamp_range_choice(f1: Seq<char>, f2: Seq<char>, now: int, v: int, r: Seq<char>) -> bool {
    let a = int_bound(f1, 0);
    let b = int_bound(f2, now);
    clock_reading(now) && low_of(a, b) <= v <= high_of(a, b) && r == decimal_text(v)
}

/// `<rnd:ts>`: the decimal text of `v`, a second within the thirty days up
/// to the clock reading `now`.
pub open spec fn recent_timestamp_choice(now: int, v: int, r: Seq<char>) -> bool {
    clock_reading(now) && now - THIRTY_DAYS_SECONDS <= v <= now && r == decimal_text(v)
}

/// `<rnd:datetime>`: the date-time text of `v`, a second within the thirty
/// days up to the clock reading `now`.
pub open spec fn recent_datetime_choice(now: int, v: i64, r: Seq<char>) -> bool {
    clock_reading(now) && now - THIRTY_DAYS_SECONDS <= v <= now && r == datetime_text(v)
}

/// `<rnd:datetime[start, end]>`: the date-time text of `v`, a second
/// between the bounds in either order (bounds are RFC 3339 date-times or
/// Unix seconds; an unreadable start counts as 0, an unreadable end as the
/// clock reading `now`).
pub open spec fn datetime_range_choice(f1: Seq<char>, f2: Seq<char>, now: int, v: i64, r: Seq<char>) -> bool {
    let a = datetime_bound(f1, 0);
    let b = datetime_bound(f2, now);
    clock_reading(now) && low_of(a, b) <= v <= high_of(a, b) && r == datetime_text(v)
}

/// What replacing a placeholder of `kind` whose fields read `f1` and `f2`
/// with `r` requires: `r` is a value that the placeholder may draw.
pub open spec fn replacement_ok(kind: PatternKind, f1: Seq<char>, f2: Seq<char>, r: Seq<char>) -> bool {
    match kind {
        PatternKind::Uuid => uuid_text(r),
        PatternKind::IntRange => exists|v: int| #[trigger] int_choice(f1, f2, v, r),
        PatternKind::FloatRange => false,
        PatternKind::TimestampRange => exists|now: int, v: int|
            #[trigger] timestamp_range_choice(f1, f2, now, v, r),
        PatternKind::Timestamp => exists|now: int, v: int| #[trigger] recent_timestamp_choice(now, v, r),
        PatternKind::Datetime => exists|now: int, v: i64| #[trigger] recent_datetime_choice(now, v, r),
        PatternKind::DatetimeRange => exists|now: int, v: i64|
            #[trigger] datetime_range_choice(f1, f2, now, v, r),
    }
}

/// The first field of a match in `s`.
pub open spec fn first_field(s: Seq<char>, m: SpanView) -> Seq<char> {
    s.subrange(m.first_start, m.first_end)
}

/// The second field of a match in `s`.
pub open spec fn second_field(s: Seq<char>, m: SpanView) -> Seq<char> {
    s.subrange(m.second_start, m.second_end)
}

/// The integer that `s[from..to]`, trimmed, spells, or `None`.
fn read_i64(s: &Vec<char>, from: usize, to: usize) -> (r: Option<i64>)
    requires
        from <= to <= s.len(),
    ensures
        r == parse_i64_spec(trim(s@.subrange(from as int, to as int))),
{
    let (a, b) = trim_span(s, from, to);
    parse_i64(s, a, b)
}

/// The date-time bound that `s[from..to]` gives, or `None` where it is
/// neither an RFC 3339 date-time nor a Unix second.
fn read_datetime(s: &Vec<char>, from: usize, to: usize) -> (r: Option<i64>)
    requires
        from <= to <= s.len(),
    ensures
        match rfc3339_seconds(trim(s@.subrange(from as int, to as int))) {
            Some(t) => r == Some(t),
            None => r == parse_i64_spec(trim(s@.subrange(from as int, to as int))),
        },
{
    let (a, b) = trim_span(s, from, to);
    let text = string_of_range(s, a, b);
    datetime_bound_from(parse_rfc3339_seconds(text.as_str()), text.as_str())
}

/// The date-time bound that the trimmed field `text` gives, given the Unix
/// second of its RFC 3339 reading where it has one: that second, else the
/// field read as a Unix second.
pub fn datetime_bound_from(rfc3339: Option<i64>, text: &str) -> (r: Option<i64>)
    ensures
        match rfc3339 {
            Some(t) => r == Some(t),
            None => r == parse_i64_spec(text@),
        },
{
    match rfc3339 {
        Some(t) => Some(t),
        None => {
            let cs = chars_of(text);
            assert(cs@.subrange(0, cs.len() as int) =~= text@);
            parse_i64(&cs, 0, cs.len())
        },
    }
}

/// The text of the drawn second `v`.
pub fn datetime_text_of(v: i64) -> (t: Vec<char>)
    ensures
        t@ == datetime_text(v),
{
    datetime_text_with(v, rfc3339_of(v))
}

/// The text of the drawn second `v`, given its RFC 3339 form where `chrono`
/// has one.
pub fn datetime_text_with(v: i64, formatted: Option<String>) -> (t: Vec<char>)
    ensures
        t@ == datetime_text_from(
            v,
            match formatted {
                Some(f) => Some(f@),
                None => None,
            },
        ),
{
    match formatted {
        Some(text) => chars_of(text.as_str()),
        None => {
            let mut t = chars_of("{datetime_error: invalid_timestamp_");
            let digits = i64_text(v);
            extend_all(&mut t, &digits);
            let close = chars_of("}");
            extend_all(&mut t, &close);
            t
        },
    }
}

/// A random value between `a` and `b`, in either order.
pub fn draw_between(a: i64, b: i64) -> (v: i64)
    ensures
        low_of(a as int, b as int) <= v <= high_of(a as int, b as int),
{
    if a <= b {
        random_in_range(a, b)
    } else {
        random_in_range(b, a)
    }
}

/// A second within the thirty days up to the clock reading.
pub fn draw_recent() -> (r: (i64, i64))
    ensures
        clock_reading(r.0 as int),
        r.0 - THIRTY_DAYS_SECONDS <= r.1 <= r.0,
{
    let now = utc_now_seconds();
    let v = random_in_range(now - THIRTY_DAYS_SECONDS, now);
    (now, v)
}

/// Draws the value that replaces the placeholder `m` of `kind` in `s`.
pub fn replacement_for(kind: PatternKind, s: &Vec<char>, m: PatternSpan) -> (r: Vec<char>)
    requires
        kind != PatternKind::FloatRange,
        m.first_start <= m.first_end <= m.second_start <= m.second_end <= s.len(),
    ensures
        replacement_ok(kind, first_field(s@, m@), second_field(s@, m@), r@),
{
    let ghost f1 = first_field(s@, m@);
    let ghost f2 = second_field(s@, m@);
    match kind {
        PatternKind::Uuid => {
            let t = new_uuid_text();
            chars_of(t.as_str())
        },
        PatternKind::IntRange => {
            let a = match read_i64(s, m.first_start, m.first_end) {
                Some(v) => v,
                None => 0,
            };
            let b = match read_i64(s, m.second_start, m.second_end) {
                Some(v) => v,
                None => 100,
            };
            let v = draw_between(a, b);
            let r = i64_text(v);
            assert(int_choice(f1, f2, v as int, r@));
            r
        },
        PatternKind::TimestampRange => {
            let a = match read_i64(s, m.first_start, m.first_end) {
                Some(v) => v,
                None => 0,
            };
            let (b, now) = match read_i64(s, m.second_start, m.second_end) {
                Some(v) => (v, 0i64),
                None => {
                    let now = utc_now_seconds();
                    (now, now)
                },
            };
            let v = draw_between(a, b);
            let r = i64_text(v);
            assert(timestamp_range_choice(f1, f2, now as int, v as int, r@));
            r
        },
        PatternKind::Timestamp => {
            let (now, v) = draw_recent();
            let r = i64_text(v);
            assert(recent_timestamp_choice(now as int, v as int, r@));
            r
        },
        PatternKind::Datetime => {
            let (now, v) = draw_recent();
            let r = datetime_text_of(v);
            assert(recent_datetime_choice(now as int, v, r@));
            r
        },
        _ => {
            let a = match read_datetime(s, m.first_start, m.first_end) {
                Some(v) => v,
                None => 0,
            };
            let (b, now) = match read_datetime(s, m.second_start, m.second_end) {
                Some(v) => (v, 0i64),
                None => {
                    let now = utc_now_seconds();
                    (now, now)
                },
            };
            let v = draw_between(a, b);
            let r = datetime_text_of(v);
            assert(datetime_range_choice(f1, f2, now as int, v, r@));
            r
        },
    }
}

} // verus!
