//! The syntax of the random-value placeholders and where they occur in a
//! text.
//!
//! Each kind of placeholder is matched the way a leftmost-first regular
//! expression search with `replace_all` finds it: scanning from the left, the
//! first position where the placeholder matches starts a match, and the
//! search goes on after its end. `\s` is the Unicode `White_Space` property
//! and `\d` a Unicode decimal digit, as for the `regex` crate.

use vstd::prelude::*;
use crate::text::{find_char, find_char_from, has_at, is_ascii_digit, lemma_find_char_bounds, lemma_skip_ws_bounds, push_char, skip_white_space, skip_ws, starts_with_at};

verus! {

/// The kinds of placeholders, in the order in which they are resolved.
#[derive(Debug, Clone, Copy, PartialEq, Eq, Structural)]
pub enum PatternKind {
    /// `<rnd:uuid>`
    Uuid,
    /// `<rnd:int[min, max]>`
    IntRange,
    /// `<rnd:float[min, max]>`
    FloatRange,
    /// `<rnd:ts[start, end]>`
    TimestampRange,
    /// `<rnd:ts>`
    Timestamp,
    /// `<rnd:datetime>`
    Datetime,
    /// `<rnd:datetime[start, end]>`
    DatetimeRange,
}

/// Where a placeholder occurs: `text[start..end]`, with its two fields at
/// `text[first_start..first_end]` and `text[second_start..second_end]`
/// (empty for placeholders without fields).
#[derive(Debug, Clone, Copy, PartialEq, Eq, Structural)]
pub struct PatternSpan {
    pub start: usize,
    pub end: usize,
    pub first_start: usize,
    pub first_end: usize,
    pub second_start: usize,
    pub second_end: usize,
}

/// The regular expression that matches one decimal digit and nothing else.
pub const DIGIT_CLASS: &'static str = "\\A\\d\\z";

/// Whether `Regex::new(pattern)` compiles and its `is_match` holds of `text`.
pub uninterp spec fn regex_matches(pattern: Seq<char>, text: Seq<char>) -> bool;

/// Compiles `pattern` with `regex::Regex::new` and tests `text` with
/// `Regex::is_match`; false where the pattern does not compile. The
/// contract only names the result.
#[verifier::external_body]
pub(crate) fn regex_is_match(pattern: &str, text: &str) -> (b: bool)
    ensures
        b == regex_matches(pattern@, text@),
{
    match regex::Regex::new(pattern) {
        Ok(re) => re.is_match(text),
        Err(_) => false,
    }
}

/// `\d`: an ASCII digit, or a non-ASCII character that the `regex` crate
/// counts as a decimal digit.
pub open spec fn is_digit_class(c: char) -> bool {
    if (c as u32) < 128 {
        is_ascii_digit(c)
    } else {
        regex_matches(DIGIT_CLASS@, seq![c])
    }
}

/// Whether `c` is matched by `\d`.
pub fn digit_class(c: char) -> (b: bool)
    ensures
        b == is_digit_class(c),
{
    if (c as u32) < 128 {
        '0' <= c && c <= '9'
    } else {
        let mut t = String::new();
        push_char(&mut t, c);
        assert(t@ =~= seq![c]);
        regex_is_match(DIGIT_CLASS, t.as_str())
    }
}

pub open spec fn lit_uuid() -> Seq<char> {
    seq!['<', 'r', 'n', 'd', ':', 'u', 'u', 'i', 'd', '>']
}

pub open spec fn lit_int_open() -> Seq<char> {
    seq!['<', 'r', 'n', 'd', ':', 'i', 'n', 't', '[']
}

pub open spec fn lit_float_open() -> Seq<char> {
    seq!['<', 'r', 'n', 'd', ':', 'f', 'l', 'o', 'a', 't', '[']
}

pub open spec fn lit_ts_open() -> Seq<char> {
    seq!['<', 'r', 'n', 'd', ':', 't', 's', '[']
}

pub open spec fn lit_ts() -> Seq<char> {
    seq!['<', 'r', 'n', 'd', ':', 't', 's', '>']
}

pub open spec fn lit_datetime() -> Seq<char> {
    seq!['<', 'r', 'n', 'd', ':', 'd', 'a', 't', 'e', 't', 'i', 'm', 'e', '>']
}

pub open spec fn lit_datetime_open() -> Seq<char> {
    seq!['<', 'r', 'n', 'd', ':', 'd', 'a', 't', 'e', 't', 'i', 'm', 'e', '[']
}

pub open spec fn lit_close() -> Seq<char> {
    seq![']', '>']
}

/// The literal that opens a placeholder of `kind` (all of it, for the
/// placeholders without fields).
pub open spec fn opening(kind: PatternKind) -> Seq<char> {
    match kind {
        PatternKind::Uuid => lit_uuid(),
        PatternKind::IntRange => lit_int_open(),
        PatternKind::FloatRange => lit_float_open(),
        PatternKind::TimestampRange => lit_ts_open(),
        PatternKind::Timestamp => lit_ts(),
        PatternKind::Datetime => lit_datetime(),
        PatternKind::DatetimeRange => lit_datetime_open(),
    }
}

/// The opening literal of `kind`, as characters.
pub fn opening_chars(kind: PatternKind) -> (v: Vec<char>)
    ensures
        v@ == opening(kind),
{
    let v = match kind {
        PatternKind::Uuid => vec!['<', 'r', 'n', 'd', ':', 'u', 'u', 'i', 'd', '>'],
        PatternKind::IntRange => vec!['<', 'r', 'n', 'd', ':', 'i', 'n', 't', '['],
        PatternKind::FloatRange => vec!['<', 'r', 'n', 'd', ':', 'f', 'l', 'o', 'a', 't', '['],
        PatternKind::TimestampRange => vec!['<', 'r', 'n', 'd', ':', 't', 's', '['],
        PatternKind::Timestamp => vec!['<', 'r', 'n', 'd', ':', 't', 's', '>'],
        PatternKind::Datetime => vec![
            '<',
            'r',
            'n',
            'd',
            ':',
            'd',
            'a',
            't',
            'e',
            't',
            'i',
            'm',
            'e',
            '>',
        ],
        PatternKind::DatetimeRange => vec![
            '<',
            'r',
            'n',
            'd',
            ':',
            'd',
            'a',
            't',
            'e',
            't',
            'i',
            'm',
            'e',
            '[',
        ],
    };
    assert(v@ =~= opening(kind));
    v
}

/// The first index at or after `i` that does not hold a `\d` character.
pub open spec fn skip_digits(s: Seq<char>, i: int) -> int
    decreases s.len() - i,
{
    if 0 <= i < s.len() && is_digit_class(s[i]) {
        skip_digits(s, i + 1)
    } else {
        i
    }
}

pub proof fn lemma_skip_digits_bounds(s: Seq<char>, i: int)
    requires
        0 <= i <= s.len(),
    ensures
        i <= skip_digits(s, i) <= s.len(),
    decreases s.len() - i,
{
    if i < s.len() && is_digit_class(s[i]) {
        lemma_skip_digits_bounds(s, i + 1);
    }
}

/// The end of a number starting at `i`: `-?\d+` (the sign only where
/// `signed`), then `(\.\d+)?` where `fraction`.
pub open spec fn number_end(s: Seq<char>, i: int, signed: bool, fraction: bool) -> Option<int> {
    let j1 = if signed && 0 <= i < s.len() && s[i] == '-' {
        i + 1
    } else {
        i
    };
    let j2 = skip_digits(s, j1);
    if j2 == j1 {
        None
    } else if fraction && j2 < s.len() && s[j2] == '.' && skip_digits(s, j2 + 1) > j2 + 1 {
        Some(skip_digits(s, j2 + 1))
    } else {
        Some(j2)
    }
}

pub proof fn lemma_number_end_bounds(s: Seq<char>, i: int, signed: bool, fraction: bool)
    requires
        0 <= i <= s.len(),
    ensures
        number_end(s, i, signed, fraction) matches Some(e) ==> i < e <= s.len(),
{
    let j1 = if signed && 0 <= i < s.len() && s[i] == '-' {
        i + 1
    } else {
        i
    };
    lemma_skip_digits_bounds(s, j1);
    let j2 = skip_digits(s, j1);
    if j2 < s.len() {
        lemma_skip_digits_bounds(s, j2 + 1);
    }
}

/// The matched region of a placeholder: its start and end, and the spans of
/// its two fields.
pub struct SpanView {
    pub start: int,
    pub end: int,
    pub first_start: int,
    pub first_end: int,
    pub second_start: int,
    pub second_end: int,
}

impl View for PatternSpan {
    type V = SpanView;

    open spec fn view(&self) -> SpanView {
        SpanView {
            start: self.start as int,
            end: self.end as int,
            first_start: self.first_start as int,
            first_end: self.first_end as int,
            second_start: self.second_start as int,
            second_end: self.second_end as int,
        }
    }
}

/// `\s*(number)\s*,\s*(number)\s*\]>` from `q`: the spans of the two numbers
/// and the end of the match.
pub open spec fn range_fields(s: Seq<char>, p: int, q: int, signed: bool, fraction: bool) -> Option<SpanView> {
    let a0 = skip_ws(s, q);
    match number_end(s, a0, signed, fraction) {
        None => None,
        Some(a1) => {
            let c = skip_ws(s, a1);
            if !(c < s.len() && s[c] == ',') {
                None
            } else {
                let b0 = skip_ws(s, c + 1);
                match number_end(s, b0, signed, fraction) {
                    None => None,
                    Some(b1) => {
                        let e = skip_ws(s, b1);
                        if has_at(s, e, lit_close()) {
                            Some(
                                SpanView {
                                    start: p,
                                    end: e + 2,
                                    first_start: a0,
                                    first_end: a1,
                                    second_start: b0,
                                    second_end: b1,
                                },
                            )
                        } else {
                            None
                        }
                    },
                }
            }
        },
    }
}

/// `([^,]+),\s*([^\]]+)\]>` from `q`: the text up to the first comma, and
/// the text from that comma to the first `]`, which `>` must follow. (The
/// white space that `\s*` takes from the second field is dropped by the
/// trimming that the field goes through anyway, so the span holds it.)
pub open spec fn datetime_fields(s: Seq<char>, p: int, q: int) -> Option<SpanView> {
    let c = find_char(s, ',', q);
    if c >= s.len() || c == q {
        None
    } else {
        let r = find_char(s, ']', c + 1);
        if r >= s.len() || r == c + 1 || !(r + 1 < s.len() && s[r + 1] == '>') {
            None
        } else {
            Some(
                SpanView {
                    start: p,
                    end: r + 2,
                    first_start: q,
                    first_end: c,
                    second_start: c + 1,
                    second_end: r,
                },
            )
        }
    }
}

/// The placeholder of `kind` that starts at `p`, if one does.
pub open spec fn match_at(kind: PatternKind, s: Seq<char>, p: int) -> Option<SpanView> {
    let lit = opening(kind);
    if !has_at(s, p, lit) {
        None
    } else {
        let q = p + lit.len();
        match kind {
            PatternKind::IntRange => range_fields(s, p, q, true, false),
            PatternKind::FloatRange => range_fields(s, p, q, true, true),
            PatternKind::TimestampRange => range_fields(s, p, q, false, false),
            PatternKind::DatetimeRange => datetime_fields(s, p, q),
            _ => Some(
                SpanView {
                    start: p,
                    end: q,
                    first_start: q,
                    first_end: q,
                    second_start: q,
                    second_end: q,
                },
            ),
        }
    }
}

/// A match is well placed: it starts at `p`, ends after `p` and within `s`,
/// and its fields lie in order inside it.
pub open spec fn well_placed(m: SpanView, s: Seq<char>, p: int) -> bool {
    &&& m.start == p
    &&& p < m.end <= s.len()
    &&& p <= m.first_start <= m.first_end <= m.second_start <= m.second_end <= m.end
}

pub proof fn lemma_match_at_placed(kind: PatternKind, s: Seq<char>, p: int)
    requires
        0 <= p <= s.len(),
    ensures
        match_at(kind, s, p) matches Some(m) ==> well_placed(m, s, p),
{
    let lit = opening(kind);
    if has_at(s, p, lit) {
        let q = p + lit.len();
        assert(lit.len() > 0);
        if kind == PatternKind::DatetimeRange {
            lemma_find_char_bounds(s, ',', q);
            let c = find_char(s, ',', q);
            if c < s.len() {
                lemma_find_char_bounds(s, ']', c + 1);
            }
        } else if kind == PatternKind::IntRange || kind == PatternKind::FloatRange || kind
            == PatternKind::TimestampRange {
            let signed = kind != PatternKind::TimestampRange;
            let fraction = kind == PatternKind::FloatRange;
            lemma_skip_ws_bounds(s, q);
            let a0 = skip_ws(s, q);
            lemma_number_end_bounds(s, a0, signed, fraction);
            if let Some(a1) = number_end(s, a0, signed, fraction) {
                lemma_skip_ws_bounds(s, a1);
                let c = skip_ws(s, a1);
                if c < s.len() {
                    lemma_skip_ws_bounds(s, c + 1);
                    let b0 = skip_ws(s, c + 1);
                    lemma_number_end_bounds(s, b0, signed, fraction);
                    if let Some(b1) = number_end(s, b0, signed, fraction) {
                        lemma_skip_ws_bounds(s, b1);
                    }
                }
            }
        }
    }
}

/// All placeholders of `kind` in `s` from `i` on, as `replace_all` finds
/// them: leftmost first, without overlaps.
pub open spec fn matches_from(kind: PatternKind, s: Seq<char>, i: int) -> Seq<SpanView>
    decreases s.len() - i,
{
    if i < 0 || i >= s.len() {
        Seq::empty()
    } else {
        match match_at(kind, s, i) {
            Some(m) => if m.end > i {
                seq![m] + matches_from(kind, s, m.end)
            } else {
                Seq::empty()
            },
            None => matches_from(kind, s, i + 1),
        }
    }
}

/// The matches of `kind` in all of `s`.
pub open spec fn matches_in(kind: PatternKind, s: Seq<char>) -> Seq<SpanView> {
    matches_from(kind, s, 0)
}

/// The matches lie in order in `s[i..]`, each well placed.
pub open spec fn ordered_matches(ms: Seq<SpanView>, s: Seq<char>, i: int) -> bool {
    &&& forall|k: int| 0 <= k < ms.len() ==> i <= (#[trigger] ms[k]).start && well_placed(
        ms[k],
        s,
        ms[k].start,
    )
    &&& forall|k: int| 0 <= k < ms.len() - 1 ==> (#[trigger] ms[k]).end <= ms[k + 1].start
}

pub proof fn lemma_matches_ordered(kind: PatternKind, s: Seq<char>, i: int)
    requires
        0 <= i <= s.len(),
    ensures
        ordered_matches(matches_from(kind, s, i), s, i),
    decreases s.len() - i,
{
    if i < s.len() {
        lemma_match_at_placed(kind, s, i);
        match match_at(kind, s, i) {
            Some(m) => {
                lemma_matches_ordered(kind, s, m.end);
                let rest = matches_from(kind, s, m.end);
                let all = seq![m] + rest;
                assert forall|k: int| 0 <= k < all.len() implies i <= (#[trigger] all[k]).start
                    && well_placed(all[k], s, all[k].start) by {
                    if k > 0 {
                        assert(all[k] == rest[k - 1]);
                    }
                }
                assert forall|k: int| 0 <= k < all.len() - 1 implies (#[trigger] all[k]).end
                    <= all[k + 1].start by {
                    if k > 0 {
                        assert(all[k] == rest[k - 1]);
                        assert(all[k + 1] == rest[k]);
                    } else {
                        assert(all[1] == rest[0]);
                    }
                }
            },
            None => {
                lemma_matches_ordered(kind, s, i + 1);
            },
        }
    }
}

/// Index of the first character at or after `i` that `\d` does not match.
pub fn skip_digit_class(s: &Vec<char>, i: usize) -> (r: usize)
    requires
        i <= s.len(),
    ensures
        r == skip_digits(s@, i as int),
        i <= r <= s.len(),
{
    proof {
        lemma_skip_digits_bounds(s@, i as int);
    }
    let mut k = i;
    while k < s.len() && digit_class(s[k])
        invariant
            i <= k <= s.len(),
            skip_digits(s@, k as int) == skip_digits(s@, i as int),
        decreases s.len() - k,
    {
        k += 1;
    }
    k
}

fn number_end_at(s: &Vec<char>, i: usize, signed: bool, fraction: bool) -> (r: Option<usize>)
    requires
        i <= s.len(),
    ensures
        match r {
            Some(e) => number_end(s@, i as int, signed, fraction) == Some(e as int),
            None => number_end(s@, i as int, signed, fraction) is None,
        },
{
    let j1 = if signed && i < s.len() && s[i] == '-' {
        i + 1
    } else {
        i
    };
    let j2 = skip_digit_class(s, j1);
    if j2 == j1 {
        None
    } else if fraction && j2 < s.len() && s[j2] == '.' {
        let j3 = skip_digit_class(s, j2 + 1);
        if j3 > j2 + 1 {
            Some(j3)
        } else {
            Some(j2)
        }
    } else {
        Some(j2)
    }
}

fn range_fields_at(s: &Vec<char>, p: usize, q: usize, signed: bool, fraction: bool) -> (r: Option<PatternSpan>)
    requires
        p <= q <= s.len(),
    ensures
        match r {
            Some(m) => range_fields(s@, p as int, q as int, signed, fraction) == Some(m@),
            None => range_fields(s@, p as int, q as int, signed, fraction) is None,
        },
{
    let a0 = skip_white_space(s, q);
    let a1 = match number_end_at(s, a0, signed, fraction) {
        Some(a1) => a1,
        None => {
            return None;
        },
    };
    proof {
        lemma_number_end_bounds(s@, a0 as int, signed, fraction);
    }
    let c = skip_white_space(s, a1);
    if !(c < s.len() && s[c] == ',') {
        return None;
    }
    let b0 = skip_white_space(s, c + 1);
    let b1 = match number_end_at(s, b0, signed, fraction) {
        Some(b1) => b1,
        None => {
            return None;
        },
    };
    proof {
        lemma_number_end_bounds(s@, b0 as int, signed, fraction);
    }
    let e = skip_white_space(s, b1);
    let close = vec![']', '>'];
    assert(close@ =~= lit_close());
    if starts_with_at(s, e, &close) {
        Some(
            PatternSpan {
                start: p,
                end: e + 2,
                first_start: a0,
                first_end: a1,
                second_start: b0,
                second_end: b1,
            },
        )
    } else {
        None
    }
}

fn datetime_fields_at(s: &Vec<char>, p: usize, q: usize) -> (r: Option<PatternSpan>)
    requires
        p <= q <= s.len(),
    ensures
        match r {
            Some(m) => datetime_fields(s@, p as int, q as int) == Some(m@),
            None => datetime_fields(s@, p as int, q as int) is None,
        },
{
    let c = find_char_from(s, ',', q);
    if c >= s.len() || c == q {
        return None;
    }
    let r = find_char_from(s, ']', c + 1);
    if r >= s.len() || r == c + 1 || !(r + 1 < s.len() && s[r + 1] == '>') {
        return None;
    }
    Some(
        PatternSpan {
            start: p,
            end: r + 2,
            first_start: q,
            first_end: c,
            second_start: c + 1,
            second_end: r,
        },
    )
}

/// The placeholder of `kind` that starts at `p`, if one does.
pub fn match_at_exec(kind: PatternKind, s: &Vec<char>, p: usize, lit: &Vec<char>) -> (r: Option<PatternSpan>)
    requires
        p <= s.len(),
        lit@ == opening(kind),
    ensures
        match r {
            Some(m) => match_at(kind, s@, p as int) == Some(m@),
            None => match_at(kind, s@, p as int) is None,
        },
{
    if !starts_with_at(s, p, lit) {
        return None;
    }
    let q = p + lit.len();
    match kind {
        PatternKind::IntRange => range_fields_at(s, p, q, true, false),
        PatternKind::FloatRange => range_fields_at(s, p, q, true, true),
        PatternKind::TimestampRange => range_fields_at(s, p, q, false, false),
        PatternKind::DatetimeRange => datetime_fields_at(s, p, q),
        _ => Some(
            PatternSpan { start: p, end: q, first_start: q, first_end: q, second_start: q, second_end: q },
        ),
    }
}

/// All placeholders of `kind` in `s`, leftmost first, without overlaps.
pub fn find_matches(kind: PatternKind, s: &Vec<char>) -> (ms: Vec<PatternSpan>)
    ensures
        ms@.map_values(|m: PatternSpan| m@) == matches_in(kind, s@),
{
    let lit = opening_chars(kind);
    let mut ms: Vec<PatternSpan> = Vec::new();
    let mut i: usize = 0;
    while i < s.len()
        invariant
            i <= s.len(),
            lit@ == opening(kind),
            matches_in(kind, s@) == ms@.map_values(|m: PatternSpan| m@) + matches_from(
                kind,
                s@,
                i as int,
            ),
        decreases s.len() - i,
    {
        proof {
            lemma_match_at_placed(kind, s@, i as int);
        }
        match match_at_exec(kind, s, i, &lit) {
            Some(m) => {
                let ghost before = ms@.map_values(|m: PatternSpan| m@);
                ms.push(m);
                assert(ms@.map_values(|m: PatternSpan| m@) =~= before.push(m@));
                assert(before.push(m@) + matches_from(kind, s@, m.end as int) =~= before + (seq![
                    m@,
                ] + matches_from(kind, s@, m.end as int)));
                i = m.end;
            },
            None => {
                i += 1;
            },
        }
    }
    assert(matches_from(kind, s@, i as int) =~= Seq::<SpanView>::empty());
    assert(ms@.map_values(|m: PatternSpan| m@) + Seq::<SpanView>::empty() =~= ms@.map_values(
        |m: PatternSpan| m@,
    ));
    ms
}

} // verus!
