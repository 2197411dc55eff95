//! Character-level text utilities shared by the parsers of this crate:
//! whitespace and trimming as `str::trim` does it, decimal parsing as
//! `str::parse` does it for the integer types, and decimal printing.

use vstd::prelude::*;

verus! {

// ---------------------------------------------------------------------------
// Building strings
// ---------------------------------------------------------------------------

/// `String::push`: appends one character.
#[verifier::external_body]
pub(crate) fn push_char(s: &mut String, c: char)
    ensures
        final(s)@ == old(s)@.push(c),
{
    s.push(c);
}

/// The characters of `s`, in order.
pub fn chars_of(s: &str) -> (v: Vec<char>)
    ensures
        v@ == s@,
{
    let mut v: Vec<char> = Vec::new();
    for c in it: s.chars()
        invariant
            v@ == it.seq().take(it.index() as int),
    {
        v.push(c);
    }
    v
}

/// The string holding the characters `v`.
pub fn string_of(v: &Vec<char>) -> (s: String)
    ensures
        s@ == v@,
{
    let mut s = String::new();
    let mut i: usize = 0;
    while i < v.len()
        invariant
            i <= v.len(),
            s@ == v@.take(i as int),
        decreases v.len() - i,
    {
        push_char(&mut s, v[i]);
        assert(v@.take(i as int).push(v@[i as int]) =~= v@.take(i + 1));
        i += 1;
    }
    assert(v@.take(v.len() as int) =~= v@);
    s
}

/// The string holding the characters `v[from..to]`.
pub fn string_of_range(v: &Vec<char>, from: usize, to: usize) -> (s: String)
    requires
        from <= to <= v.len(),
    ensures
        s@ == v@.subrange(from as int, to as int),
{
    let mut s = String::new();
    let mut i: usize = from;
    while i < to
        invariant
            from <= i <= to <= v.len(),
            s@ == v@.subrange(from as int, i as int),
        decreases to - i,
    {
        push_char(&mut s, v[i]);
        assert(v@.subrange(from as int, i as int).push(v@[i as int]) =~= v@.subrange(
            from as int,
            i + 1,
        ));
        i += 1;
    }
    s
}

/// Appends `v[from..to]` to `out`.
pub fn extend_from_range(out: &mut Vec<char>, v: &Vec<char>, from: usize, to: usize)
    requires
        from <= to <= v.len(),
    ensures
        final(out)@ == old(out)@ + v@.subrange(from as int, to as int),
{
    let mut i: usize = from;
    while i < to
        invariant
            from <= i <= to <= v.len(),
            out@ == old(out)@ + v@.subrange(from as int, i as int),
        decreases to - i,
    {
        out.push(v[i]);
        assert(old(out)@ + v@.subrange(from as int, i + 1) =~= (old(out)@ + v@.subrange(
            from as int,
            i as int,
        )).push(v@[i as int]));
        i += 1;
    }
}

/// Appends all of `v` to `out`.
pub fn extend_all(out: &mut Vec<char>, v: &Vec<char>)
    ensures
        final(out)@ == old(out)@ + v@,
{
    extend_from_range(out, v, 0, v.len());
    assert(v@.subrange(0, v@.len() as int) =~= v@);
}

// ---------------------------------------------------------------------------
// Whitespace and trimming
// ---------------------------------------------------------------------------

/// The Unicode `White_Space` property, which `char::is_whitespace` tests and
/// which `\s` of the `regex` crate matches.
pub open spec fn is_white_space(c: char) -> bool {
    let u = c as u32;
    ||| 0x9 <= u <= 0xd
    ||| u == 0x20
    ||| u == 0x85
    ||| u == 0xa0
    ||| u == 0x1680
    ||| 0x2000 <= u <= 0x200a
    ||| u == 0x2028
    ||| u == 0x2029
    ||| u == 0x202f
    ||| u == 0x205f
    ||| u == 0x3000
}

/// Whether `c` is white space (`char::is_whitespace`).
pub fn white_space(c: char) -> (b: bool)
    ensures
        b == is_white_space(c),
{
    let u = c as u32;
    (0x9 <= u && u <= 0xd) || u == 0x20 || u == 0x85 || u == 0xa0 || u == 0x1680 || (0x2000 <= u
        && u <= 0x200a) || u == 0x2028 || u == 0x2029 || u == 0x202f || u == 0x205f || u == 0x3000
}

/// The first index at or after `i` that does not hold white space.
pub open spec fn skip_ws(s: Seq<char>, i: int) -> int
    decreases s.len() - i,
{
    if 0 <= i < s.len() && is_white_space(s[i]) {
        skip_ws(s, i + 1)
    } else {
        i
    }
}

/// The end of `s[..j]` once trailing white space after `start` is dropped.
pub open spec fn trim_end_from(s: Seq<char>, start: int, j: int) -> int
    decreases j - start,
{
    if start < j && is_white_space(s[j - 1]) {
        trim_end_from(s, start, j - 1)
    } else {
        j
    }
}

/// `str::trim`: `s` without leading and trailing white space.
pub open spec fn trim(s: Seq<char>) -> Seq<char> {
    let a = skip_ws(s, 0);
    s.subrange(a, trim_end_from(s, a, s.len() as int))
}

pub proof fn lemma_skip_ws_bounds(s: Seq<char>, i: int)
    requires
        0 <= i <= s.len(),
    ensures
        i <= skip_ws(s, i) <= s.len(),
        skip_ws(s, i) < s.len() ==> !is_white_space(s[skip_ws(s, i)]),
        forall|k: int| i <= k < skip_ws(s, i) ==> is_white_space(#[trigger] s[k]),
    decreases s.len() - i,
{
    if i < s.len() && is_white_space(s[i]) {
        lemma_skip_ws_bounds(s, i + 1);
    }
}

pub proof fn lemma_trim_end_bounds(s: Seq<char>, start: int, j: int)
    requires
        0 <= start <= j <= s.len(),
    ensures
        start <= trim_end_from(s, start, j) <= j,
    decreases j - start,
{
    if start < j && is_white_space(s[j - 1]) {
        lemma_trim_end_bounds(s, start, j - 1);
    }
}

/// Index of the first non-white-space character at or after `i`.
pub fn skip_white_space(s: &Vec<char>, i: usize) -> (r: usize)
    requires
        i <= s.len(),
    ensures
        r == skip_ws(s@, i as int),
        i <= r <= s.len(),
{
    proof {
        lemma_skip_ws_bounds(s@, i as int);
    }
    let mut k = i;
    while k < s.len() && white_space(s[k])
        invariant
            i <= k <= s.len(),
            skip_ws(s@, k as int) == skip_ws(s@, i as int),
        decreases s.len() - k,
    {
        k += 1;
    }
    k
}

/// `str::trim` on a character vector: the trimmed span `(start, end)`.
pub fn trim_span(s: &Vec<char>, from: usize, to: usize) -> (r: (usize, usize))
    requires
        from <= to <= s.len(),
    ensures
        from <= r.0 <= r.1 <= to,
        s@.subrange(r.0 as int, r.1 as int) == trim(s@.subrange(from as int, to as int)),
{
    let ghost t = s@.subrange(from as int, to as int);
    let mut a = from;
    while a < to && white_space(s[a])
        invariant
            from <= a <= to <= s.len(),
            t == s@.subrange(from as int, to as int),
            skip_ws(t, (a - from) as int) == skip_ws(t, 0),
        decreases to - a,
    {
        assert(t[(a - from) as int] == s@[a as int]);
        a += 1;
    }
    proof {
        if a < to {
            assert(t[(a - from) as int] == s@[a as int]);
        }
        assert(skip_ws(t, (a - from) as int) == (a - from) as int);
    }
    let mut b = to;
    while b > a && white_space(s[b - 1])
        invariant
            from <= a <= b <= to <= s.len(),
            t == s@.subrange(from as int, to as int),
            skip_ws(t, 0) == (a - from) as int,
            trim_end_from(t, (a - from) as int, (b - from) as int) == trim_end_from(
                t,
                (a - from) as int,
                t.len() as int,
            ),
        decreases b - a,
    {
        assert(t[(b - 1 - from) as int] == s@[b - 1]);
        b -= 1;
    }
    proof {
        if b > a {
            assert(t[(b - 1 - from) as int] == s@[b - 1]);
        }
        assert(trim_end_from(t, (a - from) as int, (b - from) as int) == (b - from) as int);
        assert(t.subrange((a - from) as int, (b - from) as int) =~= s@.subrange(
            a as int,
            b as int,
        ));
    }
    (a, b)
}

/// `str::trim`, as a new string.
pub fn trimmed(s: &Vec<char>, from: usize, to: usize) -> (r: String)
    requires
        from <= to <= s.len(),
    ensures
        r@ == trim(s@.subrange(from as int, to as int)),
{
    let (a, b) = trim_span(s, from, to);
    string_of_range(s, a, b)
}

// ---------------------------------------------------------------------------
// Searching
// ---------------------------------------------------------------------------

/// The first index at or after `i` that holds `c`, or `s.len()`.
pub open spec fn find_char(s: Seq<char>, c: char, i: int) -> int
    decreases s.len() - i,
{
    if i < 0 || i >= s.len() {
        s.len() as int
    } else if s[i] == c {
        i
    } else {
        find_char(s, c, i + 1)
    }
}

pub proof fn lemma_find_char_bounds(s: Seq<char>, c: char, i: int)
    requires
        0 <= i <= s.len(),
    ensures
        i <= find_char(s, c, i) <= s.len(),
        find_char(s, c, i) < s.len() ==> s[find_char(s, c, i)] == c,
        forall|k: int| i <= k < find_char(s, c, i) ==> #[trigger] s[k] != c,
    decreases s.len() - i,
{
    if i < s.len() && s[i] != c {
        lemma_find_char_bounds(s, c, i + 1);
    }
}

/// Index of the first `c` at or after `i`, or `s.len()`.
pub fn find_char_from(s: &Vec<char>, c: char, i: usize) -> (r: usize)
    requires
        i <= s.len(),
    ensures
        r as int == find_char(s@, c, i as int),
        i <= r <= s.len(),
{
    proof {
        lemma_find_char_bounds(s@, c, i as int);
    }
    let mut k = i;
    while k < s.len() && s[k] != c
        invariant
            i <= k <= s.len(),
            find_char(s@, c, k as int) == find_char(s@, c, i as int),
        decreases s.len() - k,
    {
        k += 1;
    }
    k
}

/// Whether `s` holds the character `c` (`str::contains` with a `char`).
pub fn contains_char(s: &str, c: char) -> (b: bool)
    ensures
        b == s@.contains(c),
{
    let v = chars_of(s);
    let k = find_char_from(&v, c, 0);
    proof {
        lemma_find_char_bounds(v@, c, 0);
        if k < v.len() {
            assert(v@[k as int] == c);
        }
    }
    k < v.len()
}

/// `s[i..]` starts with `lit`.
pub open spec fn has_at(s: Seq<char>, i: int, lit: Seq<char>) -> bool {
    0 <= i && i + lit.len() <= s.len() && s.subrange(i, i + lit.len()) == lit
}

/// Whether `s[i..]` starts with the characters of `lit`.
pub fn starts_with_at(s: &Vec<char>, i: usize, lit: &Vec<char>) -> (b: bool)
    requires
        i <= s.len(),
    ensures
        b == has_at(s@, i as int, lit@),
{
    if lit.len() > s.len() - i {
        return false;
    }
    let mut k: usize = 0;
    while k < lit.len()
        invariant
            k <= lit.len(),
            i + lit.len() <= s.len(),
            forall|j: int| 0 <= j < k ==> s@[i + j] == lit@[j],
        decreases lit.len() - k,
    {
        if s[i + k] != lit[k] {
            assert(s@.subrange(i as int, i + lit.len())[k as int] != lit@[k as int]);
            return false;
        }
        k += 1;
    }
    assert(s@.subrange(i as int, i + lit.len()) =~= lit@);
    true
}

// ---------------------------------------------------------------------------
// Decimal numbers
// ---------------------------------------------------------------------------

pub open spec fn is_ascii_digit(c: char) -> bool {
    '0' <= c && c <= '9'
}

pub open spec fn digit_value(c: char) -> nat {
    (c as u32 - '0' as u32) as nat
}

pub open spec fn all_ascii_digits(s: Seq<char>) -> bool {
    forall|i: int| 0 <= i < s.len() ==> is_ascii_digit(#[trigger] s[i])
}

/// The number that the ASCII digits `s` spell in base ten.
pub open spec fn digits_value(s: Seq<char>) -> nat
    decreases s.len(),
{
    if s.len() == 0 {
        0
    } else {
        digits_value(s.drop_last()) * 10 + digit_value(s.last())
    }
}

/// The magnitude and sign that `str::parse` reads from `s` for an integer
/// type: an optional `+` (or `-` where `signed`) followed by at least one
/// ASCII digit. The result is `(negative, magnitude)`.
pub open spec fn integer_syntax(s: Seq<char>, signed: bool) -> Option<(bool, nat)> {
    let negative = signed && s.len() > 0 && s[0] == '-';
    let d = if s.len() > 0 && (s[0] == '+' || negative) {
        s.drop_first()
    } else {
        s
    };
    if d.len() > 0 && all_ascii_digits(d) {
        Some((negative, digits_value(d)))
    } else {
        None
    }
}

/// `str::parse::<u64>`.
pub open spec fn parse_u64_spec(s: Seq<char>) -> Option<u64> {
    match integer_syntax(s, false) {
        Some((_, m)) => if m <= u64::MAX {
            Some(m as u64)
        } else {
            None
        },
        None => None,
    }
}

/// `str::parse::<i64>`.
pub open spec fn parse_i64_spec(s: Seq<char>) -> Option<i64> {
    match integer_syntax(s, true) {
        Some((neg, m)) => if neg && m <= 0x8000_0000_0000_0000 {
            Some((-m) as i64)
        } else if !neg && m <= i64::MAX {
            Some(m as i64)
        } else {
            None
        },
        None => None,
    }
}

pub proof fn lemma_digits_value_prefix_monotone(s: Seq<char>, k: int)
    requires
        0 <= k <= s.len(),
    ensures
        digits_value(s.take(k)) <= digits_value(s),
    decreases s.len() - k,
{
    if k < s.len() {
        lemma_digits_value_prefix_monotone(s, k + 1);
        assert(s.take(k + 1).drop_last() =~= s.take(k));
    } else {
        assert(s.take(k) =~= s);
    }
}

/// The digits of `s[from..to]` as a number, if they are all ASCII digits and
/// the number is at most `limit`.
fn digits_at_most(s: &Vec<char>, from: usize, to: usize, limit: u64) -> (r: Option<u64>)
    requires
        from <= to <= s.len(),
    ensures
        match r {
            Some(v) => all_ascii_digits(s@.subrange(from as int, to as int)) && v == digits_value(
                s@.subrange(from as int, to as int),
            ) && v <= limit,
            None => !all_ascii_digits(s@.subrange(from as int, to as int)) || digits_value(
                s@.subrange(from as int, to as int),
            ) > limit,
        },
{
    let ghost d = s@.subrange(from as int, to as int);
    let mut acc: u64 = 0;
    let mut i = from;
    while i < to
        invariant
            from <= i <= to <= s.len(),
            d == s@.subrange(from as int, to as int),
            all_ascii_digits(d.take(i - from)),
            acc == digits_value(d.take(i - from)),
            acc <= limit,
        decreases to - i,
    {
        let c = s[i];
        assert(d[i - from] == c);
        if !('0' <= c && c <= '9') {
            return None;
        }
        let dv = (c as u32 - '0' as u32) as u64;
        assert(d.take(i - from + 1).drop_last() =~= d.take(i - from));
        if dv > limit || acc > (limit - dv) / 10 {
            proof {
                assert(digits_value(d.take(i - from + 1)) == acc * 10 + dv);
                lemma_digits_value_prefix_monotone(d, i - from + 1);
                assert(acc * 10 + dv > limit) by (nonlinear_arith)
                    requires
                        dv > limit || acc > (limit - dv) / 10,
                        dv <= 9,
                ;
            }
            return None;
        }
        proof {
            assert(acc * 10 + dv <= limit) by (nonlinear_arith)
                requires
                    acc <= (limit - dv) / 10,
                    dv <= limit,
            ;
            assert forall|j: int| 0 <= j < d.take(i - from + 1).len() implies is_ascii_digit(
                #[trigger] d.take(i - from + 1)[j],
            ) by {
                if j < i - from {
                    assert(d.take(i - from + 1)[j] == d.take(i - from)[j]);
                }
            }
        }
        acc = acc * 10 + dv;
        i += 1;
    }
    assert(d.take(to - from) =~= d);
    Some(acc)
}

/// `str::parse::<u64>` on `s[from..to]`.
pub fn parse_u64(s: &Vec<char>, from: usize, to: usize) -> (r: Option<u64>)
    requires
        from <= to <= s.len(),
    ensures
        r == parse_u64_spec(s@.subrange(from as int, to as int)),
{
    let ghost t = s@.subrange(from as int, to as int);
    let start = if from < to && s[from] == '+' {
        from + 1
    } else {
        from
    };
    proof {
        if from < to && s@[from as int] == '+' {
            assert(t[0] == '+');
            assert(t.drop_first() =~= s@.subrange(start as int, to as int));
        } else {
            if t.len() > 0 {
                assert(t[0] == s@[from as int]);
            }
            assert(t =~= s@.subrange(start as int, to as int));
        }
    }
    if start == to {
        return None;
    }
    digits_at_most(s, start, to, u64::MAX)
}

/// `str::parse::<i64>` on `s[from..to]`.
pub fn parse_i64(s: &Vec<char>, from: usize, to: usize) -> (r: Option<i64>)
    requires
        from <= to <= s.len(),
    ensures
        r == parse_i64_spec(s@.subrange(from as int, to as int)),
{
    let ghost t = s@.subrange(from as int, to as int);
    let negative = from < to && s[from] == '-';
    let start = if from < to && (s[from] == '+' || s[from] == '-') {
        from + 1
    } else {
        from
    };
    proof {
        if from < to {
            assert(t[0] == s@[from as int]);
        }
        if start == from + 1 {
            assert(t.drop_first() =~= s@.subrange(start as int, to as int));
        } else {
            assert(t =~= s@.subrange(start as int, to as int));
        }
    }
    if start == to {
        return None;
    }
    if negative {
        match digits_at_most(s, start, to, 0x8000_0000_0000_0000u64) {
            Some(m) => {
                if m == 0x8000_0000_0000_0000u64 {
                    Some(i64::MIN)
                } else {
                    Some(-(m as i64))
                }
            },
            None => None,
        }
    } else {
        match digits_at_most(s, start, to, i64::MAX as u64) {
            Some(m) => Some(m as i64),
            None => None,
        }
    }
}

/// The character of the ASCII digit `d`.
pub open spec fn digit_char(d: nat) -> char {
    (('0' as u32) + d) as char
}

/// The decimal digits of `n`, most significant first, without leading zeros.
pub open spec fn natural_text(n: nat) -> Seq<char>
    decreases n,
{
    if n < 10 {
        seq![digit_char(n)]
    } else {
        natural_text(n / 10).push(digit_char(n % 10))
    }
}

/// The decimal text of `v`, as `to_string` prints an integer.
pub open spec fn decimal_text(v: int) -> Seq<char> {
    if v < 0 {
        seq!['-'] + natural_text((-v) as nat)
    } else {
        natural_text(v as nat)
    }
}

/// The decimal text of `n`.
pub fn u128_text(n: u128) -> (v: Vec<char>)
    ensures
        v@ == natural_text(n as nat),
    decreases n,
{
    let d = (n % 10) as u32;
    let c = char_of_digit(d);
    if n < 10 {
        let mut v = Vec::new();
        v.push(c);
        assert(v@ =~= seq![digit_char(n as nat)]);
        v
    } else {
        let mut v = u128_text(n / 10);
        v.push(c);
        v
    }
}

/// The character of the ASCII digit `d`.
pub fn char_of_digit(d: u32) -> (c: char)
    requires
        d < 10,
    ensures
        c == digit_char(d as nat),
{
    match d {
        0 => '0',
        1 => '1',
        2 => '2',
        3 => '3',
        4 => '4',
        5 => '5',
        6 => '6',
        7 => '7',
        8 => '8',
        _ => '9',
    }
}

/// The decimal text of `v`, as `i64::to_string` prints it.
pub fn i64_text(v: i64) -> (t: Vec<char>)
    ensures
        t@ == decimal_text(v as int),
{
    if v < 0 {
        let m = (0 - (v as i128)) as u128;
        let digits = u128_text(m);
        let mut t = Vec::new();
        t.push('-');
        extend_all(&mut t, &digits);
        assert(t@ =~= seq!['-'] + natural_text(m as nat));
        t
    } else {
        u128_text(v as u128)
    }
}

} // verus!
