//! Random values for placeholders in target URLs and payloads.
//!
//! A text is resolved in seven passes, one per kind of placeholder, in this
//! order: `<rnd:uuid>`, `<rnd:int[min, max]>`, `<rnd:float[min, max]>`,
//! `<rnd:ts[start, end]>`, `<rnd:ts>`, `<rnd:datetime>` and
//! `<rnd:datetime[start, end]>`. Each pass replaces every placeholder of its
//! kind that it finds in the output of the pass before, each with a fresh
//! random value. Malformed placeholders stay as they are.
//!
//! The float pass draws floating-point numbers, which this library does not
//! hold: `float_patterns` says what each float placeholder asks for and
//! `replace_floats` puts in the texts that the caller drew.

pub mod grammar;
pub mod values;

use vstd::prelude::*;
use vstd::utf8::encode_utf8;
use grammar::{find_matches, matches_in, ordered_matches, lemma_matches_ordered, PatternKind, PatternSpan, SpanView};
use values::{
    clock_reading, datetime_text, datetime_text_of, draw_between, draw_recent, first_field, high_of, low_of,
    new_uuid_text, recent_datetime_choice, replacement_for, replacement_ok, second_field, uuid_text, THIRTY_DAYS_SECONDS,
};
use crate::text::{chars_of, extend_all, extend_from_range, find_char, find_char_from, string_of, string_of_range, trim, trim_span};

verus! {

/// `s[from..]` with the matches `ms` replaced, in order, by `reps`.
pub open spec fn splice(s: Seq<char>, ms: Seq<SpanView>, reps: Seq<Seq<char>>, from: int) -> Seq<char>
    decreases ms.len(),
{
    if ms.len() == 0 {
        s.subrange(from, s.len() as int)
    } else {
        s.subrange(from, ms[0].start) + reps[0] + splice(
            s,
            ms.drop_first(),
            reps.drop_first(),
            ms[0].end,
        )
    }
}

/// `reps` are values that the placeholders `ms` of `kind` in `s` may draw,
/// one for each.
pub open spec fn replacements_ok(kind: PatternKind, s: Seq<char>, ms: Seq<SpanView>, reps: Seq<Seq<char>>) -> bool {
    &&& reps.len() == ms.len()
    &&& forall|k: int|
        0 <= k < ms.len() ==> replacement_ok(
            kind,
            first_field(s, ms[k]),
            second_field(s, ms[k]),
            #[trigger] reps[k],
        )
}

/// `out` is what one pass of `kind` may make of `s`: every placeholder of
/// that kind replaced by a value that it may draw, the rest unchanged.
pub open spec fn pass_result(kind: PatternKind, s: Seq<char>, out: Seq<char>) -> bool {
    exists|reps: Seq<Seq<char>>|
        #[trigger] replacements_ok(kind, s, matches_in(kind, s), reps) && out == splice(
            s,
            matches_in(kind, s),
            reps,
            0,
        )
}

/// `s` with the matches `ms` replaced, in order, by `reps`.
pub fn splice_exec(s: &Vec<char>, ms: &Vec<PatternSpan>, reps: &Vec<Vec<char>>) -> (out: Vec<char>)
    requires
        ordered_matches(ms@.map_values(|m: PatternSpan| m@), s@, 0),
        reps.len() == ms.len(),
    ensures
        out@ == splice(
            s@,
            ms@.map_values(|m: PatternSpan| m@),
            reps@.map_values(|r: Vec<char>| r@),
            0,
        ),
{
    let ghost msv = ms@.map_values(|m: PatternSpan| m@);
    let ghost rv = reps@.map_values(|r: Vec<char>| r@);
    let mut out: Vec<char> = Vec::new();
    let mut cursor: usize = 0;
    let mut k: usize = 0;
    assert(msv.skip(0) =~= msv);
    assert(rv.skip(0) =~= rv);
    while k < ms.len()
        invariant
            k <= ms.len() == reps.len(),
            msv == ms@.map_values(|m: PatternSpan| m@),
            rv == reps@.map_values(|r: Vec<char>| r@),
            ordered_matches(msv, s@, 0),
            cursor <= s.len(),
            k < ms.len() ==> cursor <= ms@[k as int].start,
            splice(s@, msv, rv, 0) == out@ + splice(s@, msv.skip(k as int), rv.skip(k as int), cursor as int),
        decreases ms.len() - k,
    {
        let m = ms[k];
        assert(msv[k as int] == m@);
        assert(msv.skip(k as int)[0] == m@);
        assert(rv.skip(k as int)[0] == reps@[k as int]@);
        assert(msv.skip(k as int).drop_first() =~= msv.skip(k + 1));
        assert(rv.skip(k as int).drop_first() =~= rv.skip(k + 1));
        let ghost before = out@;
        extend_from_range(&mut out, s, cursor, m.start);
        extend_all(&mut out, &reps[k]);
        assert(out@ =~= before + s@.subrange(cursor as int, m.start as int) + reps@[k as int]@);
        cursor = m.end;
        k += 1;
        proof {
            if k < ms.len() {
                assert(msv[k - 1] == ms@[k - 1]@);
                assert(msv[k as int] == ms@[k as int]@);
            }
        }
    }
    let ghost before = out@;
    extend_from_range(&mut out, s, cursor, s.len());
    assert(msv.skip(k as int).len() == 0);
    out
}

/// Resolves every placeholder of `kind` in `text` (any kind but floats).
pub fn resolve_pass(kind: PatternKind, text: &str) -> (r: String)
    requires
        kind != PatternKind::FloatRange,
    ensures
        pass_result(kind, text@, r@),
{
    let s = chars_of(text);
    let ms = find_matches(kind, &s);
    let ghost msv = ms@.map_values(|m: PatternSpan| m@);
    proof {
        lemma_matches_ordered(kind, s@, 0);
    }
    let mut reps: Vec<Vec<char>> = Vec::new();
    let mut k: usize = 0;
    while k < ms.len()
        invariant
            k <= ms.len(),
            reps.len() == k,
            kind != PatternKind::FloatRange,
            msv == ms@.map_values(|m: PatternSpan| m@),
            msv == matches_in(kind, s@),
            ordered_matches(msv, s@, 0),
            forall|j: int|
                0 <= j < k ==> replacement_ok(
                    kind,
                    first_field(s@, msv[j]),
                    second_field(s@, msv[j]),
                    #[trigger] reps@[j]@,
                ),
        decreases ms.len() - k,
    {
        assert(msv[k as int] == ms@[k as int]@);
        let r = replacement_for(kind, &s, ms[k]);
        reps.push(r);
        k += 1;
    }
    let out = splice_exec(&s, &ms, &reps);
    let ghost rv = reps@.map_values(|r: Vec<char>| r@);
    assert(replacements_ok(kind, s@, matches_in(kind, s@), rv)) by {
        assert forall|j: int| 0 <= j < msv.len() implies replacement_ok(
            kind,
            first_field(s@, msv[j]),
            second_field(s@, msv[j]),
            #[trigger] rv[j],
        ) by {
            assert(rv[j] == reps@[j]@);
        }
    }
    string_of(&out)
}

/// The uuid and integer passes.
pub fn resolve_before_floats(input: &str) -> (r: String)
    ensures
        exists|a: Seq<char>|
            pass_result(PatternKind::Uuid, input@, a) && #[trigger] pass_result(
                PatternKind::IntRange,
                a,
                r@,
            ),
{
    let a = resolve_pass(PatternKind::Uuid, input);
    resolve_pass(PatternKind::IntRange, a.as_str())
}

/// The passes after the float pass: timestamp ranges, timestamps,
/// date-times and date-time ranges.
pub fn resolve_after_floats(text: &str) -> (r: String)
    ensures
        exists|a: Seq<char>, b: Seq<char>, c: Seq<char>|
            #![trigger pass_result(PatternKind::TimestampRange, text@, a), pass_result(PatternKind::Datetime, b, c)]
            pass_result(PatternKind::TimestampRange, text@, a) && pass_result(
                PatternKind::Timestamp,
                a,
                b,
            ) && pass_result(PatternKind::Datetime, b, c) && pass_result(
                PatternKind::DatetimeRange,
                c,
                r@,
            ),
{
    let a = resolve_pass(PatternKind::TimestampRange, text);
    let b = resolve_pass(PatternKind::Timestamp, a.as_str());
    let c = resolve_pass(PatternKind::Datetime, b.as_str());
    resolve_pass(PatternKind::DatetimeRange, c.as_str())
}

/// What a float placeholder asks for: the text of its bounds, trimmed,
/// and the number of decimals to print, which is the length in UTF-8 bytes
/// of the minimum's digits after its decimal point.
#[derive(Debug, Clone)]
pub struct FloatPattern {
    pub start: usize,
    pub end: usize,
    pub min_text: String,
    pub max_text: String,
    pub precision: usize,
}

/// The decimals of a float bound: the UTF-8 length of the text after its
/// first `.` up to the next `.` (`split('.').nth(1)`), or zero without `.`.
pub open spec fn decimals_of(t: Seq<char>) -> nat {
    let d = find_char(t, '.', 0);
    if d < t.len() {
        encode_utf8(t.subrange(d + 1, find_char(t, '.', d + 1))).len()
    } else {
        0
    }
}

/// The float placeholder `f` describes the match `m` in `s`.
pub open spec fn describes(f: FloatPattern, s: Seq<char>, m: SpanView) -> bool {
    &&& f.start == m.start
    &&& f.end == m.end
    &&& f.min_text@ == trim(first_field(s, m))
    &&& f.max_text@ == trim(second_field(s, m))
    &&& f.precision == decimals_of(f.min_text@) as usize
}

/// The float placeholders of `text`, in order.
pub fn float_patterns(text: &str) -> (fs: Vec<FloatPattern>)
    ensures
        fs.len() == matches_in(PatternKind::FloatRange, text@).len(),
        forall|k: int|
            0 <= k < fs.len() ==> describes(
                #[trigger] fs@[k],
                text@,
                matches_in(PatternKind::FloatRange, text@)[k],
            ),
{
    let s = chars_of(text);
    let ms = find_matches(PatternKind::FloatRange, &s);
    let ghost msv = ms@.map_values(|m: PatternSpan| m@);
    proof {
        lemma_matches_ordered(PatternKind::FloatRange, s@, 0);
    }
    let mut fs: Vec<FloatPattern> = Vec::new();
    let mut k: usize = 0;
    while k < ms.len()
        invariant
            k <= ms.len(),
            fs.len() == k,
            msv == ms@.map_values(|m: PatternSpan| m@),
            msv == matches_in(PatternKind::FloatRange, s@),
            s@ == text@,
            ordered_matches(msv, s@, 0),
            forall|j: int| 0 <= j < k ==> describes(#[trigger] fs@[j], s@, msv[j]),
        decreases ms.len() - k,
    {
        let m = ms[k];
        assert(msv[k as int] == m@);
        let (a0, a1) = trim_span(&s, m.first_start, m.first_end);
        let (b0, b1) = trim_span(&s, m.second_start, m.second_end);
        let min_text = string_of_range(&s, a0, a1);
        let max_text = string_of_range(&s, b0, b1);
        let t = chars_of(min_text.as_str());
        let d = find_char_from(&t, '.', 0);
        let precision = if d < t.len() {
            let e = find_char_from(&t, '.', d + 1);
            let decimals = string_of_range(&t, d + 1, e);
            decimals.as_str().len()
        } else {
            0
        };
        fs.push(FloatPattern { start: m.start, end: m.end, min_text, max_text, precision });
        k += 1;
    }
    fs
}

/// Puts the drawn texts `drawn` in place of the float placeholders of
/// `text`, in order.
pub fn replace_floats(text: &str, drawn: &Vec<String>) -> (r: String)
    requires
        drawn.len() == matches_in(PatternKind::FloatRange, text@).len(),
    ensures
        r@ == splice(
            text@,
            matches_in(PatternKind::FloatRange, text@),
            drawn@.map_values(|d: String| d@),
            0,
        ),
{
    let s = chars_of(text);
    let ms = find_matches(PatternKind::FloatRange, &s);
    proof {
        lemma_matches_ordered(PatternKind::FloatRange, s@, 0);
    }
    let mut reps: Vec<Vec<char>> = Vec::new();
    let mut k: usize = 0;
    while k < drawn.len()
        invariant
            k <= drawn.len(),
            reps.len() == k,
            forall|j: int| 0 <= j < k ==> (#[trigger] reps@[j])@ == drawn@[j]@,
        decreases drawn.len() - k,
    {
        reps.push(chars_of(drawn[k].as_str()));
        k += 1;
    }
    let out = splice_exec(&s, &ms, &reps);
    assert(reps@.map_values(|r: Vec<char>| r@) =~= drawn@.map_values(|d: String| d@));
    string_of(&out)
}

/// A random version-4 UUID in its hyphenated lowercase form.
pub fn uuid() -> (t: String)
    ensures
        uuid_text(t@),
{
    new_uuid_text()
}

/// A random integer between `min` and `max`, in either order.
pub fn int_range(min: i64, max: i64) -> (v: i64)
    ensures
        low_of(min as int, max as int) <= v <= high_of(min as int, max as int),
{
    draw_between(min, max)
}

/// A random Unix second between `start` and `end`, in either order.
pub fn timestamp_range(start: i64, end: i64) -> (v: i64)
    ensures
        low_of(start as int, end as int) <= v <= high_of(start as int, end as int),
{
    draw_between(start, end)
}

/// A random Unix second within the thirty days up to now.
pub fn timestamp() -> (v: i64)
    ensures
        exists|now: int| #[trigger] clock_reading(now) && now - THIRTY_DAYS_SECONDS <= v <= now,
{
    let (now, v) = draw_recent();
    assert(clock_reading(now as int) && now - THIRTY_DAYS_SECONDS <= v <= now);
    v
}

/// A random RFC 3339 date-time within the thirty days up to now.
pub fn datetime() -> (t: String)
    ensures
        exists|now: int, v: i64| #[trigger] recent_datetime_choice(now, v, t@),
{
    let (now, v) = draw_recent();
    let t = string_of(&datetime_text_of(v));
    assert(recent_datetime_choice(now as int, v, t@));
    t
}

/// A random RFC 3339 date-time between the Unix seconds `start` and `end`,
/// in either order.
pub fn datetime_range(start: i64, end: i64) -> (t: String)
    ensures
        exists|v: i64|
            low_of(start as int, end as int) <= v <= high_of(start as int, end as int)
                && #[trigger] datetime_text(v) == t@,
{
    let v = draw_between(start, end);
    let t = string_of(&datetime_text_of(v));
    assert(datetime_text(v) == t@);
    t
}

} // verus!
