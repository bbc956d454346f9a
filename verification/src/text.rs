//! Character-level string helpers shared by the rest of the library.
//!
//! Strings are handled as sequences of `char`s: a `String`'s view is its
//! `Seq<char>`, and the helpers here build new strings one character at a time.

use vstd::prelude::*;

verus! {

/// The characters of an optional string.
pub open spec fn opt_chars(o: Option<String>) -> Option<Seq<char>> {
    match o {
        Some(s) => Some(s@),
        None => None,
    }
}

/// Appends one character to a `String` (`String::push`).
///
/// Trusted: the new contents are the old ones followed by `c`, as the
/// documentation of `String::push` states.
#[verifier::external_body]
pub(crate) fn push_char(s: &mut String, c: char)
    ensures
        final(s)@ == old(s)@.push(c),
{
    s.push(c);
}

/// Copies the characters of `s` into a vector.
pub fn chars_of(s: &str) -> (r: Vec<char>)
    ensures
        r@ == s@,
{
    let mut r: Vec<char> = Vec::new();
    for c in it: s.chars()
        invariant
            r@ == it.seq().take(it.index()),
    {
        r.push(c);
        proof {
            assert(it.seq().take(it.index() + 1) == it.seq().take(it.index()).push(c));
        }
    }
    r
}

/// Builds a `String` holding exactly the given characters.
pub fn string_of(v: &Vec<char>) -> (r: String)
    ensures
        r@ == v@,
{
    let mut r = String::new();
    let mut i: usize = 0;
    while i < v.len()
        invariant
            i <= v.len(),
            r@ == v@.take(i as int),
        decreases v.len() - i,
    {
        push_char(&mut r, v[i]);
        i = i + 1;
        proof {
            assert(v@.take(i as int) == v@.take(i - 1).push(v@[i - 1]));
        }
    }
    proof {
        assert(v@.take(v.len() as int) == v@);
    }
    r
}

/// Appends all characters of `t` to `v`.
pub fn extend_chars(v: &mut Vec<char>, t: &Vec<char>)
    ensures
        final(v)@ == old(v)@ + t@,
{
    let mut i: usize = 0;
    while i < t.len()
        invariant
            i <= t.len(),
            v@ == old(v)@ + t@.take(i as int),
        decreases t.len() - i,
    {
        v.push(t[i]);
        i = i + 1;
        proof {
            assert(t@.take(i as int) == t@.take(i - 1).push(t@[i - 1]));
        }
    }
    proof {
        assert(t@.take(t.len() as int) == t@);
    }
}

/// Appends all characters of the string `t` to `v`.
pub fn extend_str(v: &mut Vec<char>, t: &str)
    ensures
        final(v)@ == old(v)@ + t@,
{
    let tc = chars_of(t);
    extend_chars(v, &tc);
}

/// ASCII lower-casing of one character (`char::to_ascii_lowercase`).
pub open spec fn lower_char(c: char) -> char {
    if 'A' <= c && c <= 'Z' {
        (((c as u8) + 32) as u8) as char
    } else {
        c
    }
}

/// ASCII lower-casing of a whole sequence (`str::to_ascii_lowercase`).
pub open spec fn lower_seq(s: Seq<char>) -> Seq<char> {
    s.map_values(|c: char| lower_char(c))
}

/// `s` ends with `t`.
pub open spec fn seq_ends_with(s: Seq<char>, t: Seq<char>) -> bool {
    t.len() <= s.len() && s.subrange(s.len() - t.len(), s.len() as int) == t
}

/// `s` starts with `t`.
pub open spec fn seq_starts_with(s: Seq<char>, t: Seq<char>) -> bool {
    t.len() <= s.len() && s.subrange(0, t.len() as int) == t
}

/// Lower-cases one ASCII letter and leaves every other character alone.
pub fn to_lower(c: char) -> (r: char)
    ensures
        r == lower_char(c),
{
    if 'A' <= c && c <= 'Z' {
        let b: u8 = (c as u8) + 32;
        b as char
    } else {
        c
    }
}

} // verus!

verus! {

/// The character of a decimal digit.
pub open spec fn digit_char(d: int) -> char {
    ((('0' as u8) + d) as u8) as char
}

/// Decimal notation of a natural number, without leading zeros.
pub open spec fn nat_decimal(n: nat) -> Seq<char>
    decreases n,
{
    if n < 10 {
        seq![digit_char(n as int)]
    } else {
        nat_decimal(n / 10).push(digit_char((n % 10) as int))
    }
}

/// Decimal notation of an integer: a `-` before the digits of a negative one.
pub open spec fn int_decimal(n: int) -> Seq<char> {
    if n < 0 {
        seq!['-'] + nat_decimal((-n) as nat)
    } else {
        nat_decimal(n as nat)
    }
}

/// Appends the decimal digits of `n`.
pub fn push_u64_decimal(v: &mut Vec<char>, n: u64)
    ensures
        final(v)@ == old(v)@ + nat_decimal(n as nat),
    decreases n,
{
    if n >= 10 {
        push_u64_decimal(v, n / 10);
    }
    let d: u8 = (n % 10) as u8;
    v.push((48u8 + d) as char);
    proof {
        assert(nat_decimal(n as nat) == if n < 10 {
            seq![digit_char(n as int)]
        } else {
            nat_decimal((n / 10) as nat).push(digit_char((n % 10) as int))
        });
    }
}

/// Appends the decimal notation of `n`.
pub fn push_i64_decimal(v: &mut Vec<char>, n: i64)
    ensures
        final(v)@ == old(v)@ + int_decimal(n as int),
{
    if n < 0 {
        v.push('-');
        let m: u64 = if n == i64::MIN {
            9_223_372_036_854_775_808u64
        } else {
            (-n) as u64
        };
        push_u64_decimal(v, m);
        proof {
            assert(old(v)@.push('-') + nat_decimal(m as nat) =~= old(v)@ + (seq!['-']
                + nat_decimal((-n) as nat)));
        }
    } else {
        push_u64_decimal(v, n as u64);
    }
}

} // verus!

verus! {

pub open spec fn is_digit(c: char) -> bool {
    '0' <= c && c <= '9'
}

pub open spec fn digit_value(c: char) -> int {
    (c as int) - 48
}

pub open spec fn all_digits(s: Seq<char>) -> bool {
    forall|i: int| 0 <= i < s.len() ==> is_digit(#[trigger] s[i])
}

/// The number a string of decimal digits denotes.
pub open spec fn digits_value(s: Seq<char>) -> int
    decreases s.len(),
{
    if s.len() == 0 {
        0
    } else {
        digits_value(s.drop_last()) * 10 + digit_value(s.last())
    }
}

/// What `str::parse` gives for an unsigned integer type whose largest value
/// is `max`: an optional `+` followed by one or more ASCII digits, denoting a
/// value no larger than `max`.
pub open spec fn parse_unsigned(s: Seq<char>, max: int) -> Option<int> {
    let d = if s.len() > 0 && s[0] == '+' { s.drop_first() } else { s };
    if d.len() == 0 || !all_digits(d) || digits_value(d) > max {
        None
    } else {
        Some(digits_value(d))
    }
}

proof fn lemma_digits_value_nonneg(s: Seq<char>)
    requires
        all_digits(s),
    ensures
        digits_value(s) >= 0,
    decreases s.len(),
{
    if s.len() > 0 {
        lemma_digits_value_nonneg(s.drop_last());
    }
}

/// Parses an unsigned decimal integer no larger than `max`, as `str::parse`
/// does for the unsigned integer types.
pub fn parse_bounded(s: &str, max: u64) -> (r: Option<u64>)
    ensures
        r matches Some(v) ==> parse_unsigned(s@, max as int) == Some(v as int),
        r is None ==> parse_unsigned(s@, max as int) is None,
{
    let v = chars_of(s);
    let start: usize = if v.len() > 0 && v[0] == '+' { 1 } else { 0 };
    let ghost d = if s@.len() > 0 && s@[0] == '+' { s@.drop_first() } else { s@ };
    assert(d == v@.skip(start as int));
    if start >= v.len() {
        return None;
    }
    let mut acc: u64 = 0;
    let mut digits_only = true;
    let mut overflow = false;
    let mut i: usize = start;
    while i < v.len()
        invariant
            start <= i <= v.len(),
            d == v@.skip(start as int),
            digits_only == all_digits(d.take(i - start)),
            digits_only && !overflow ==> acc == digits_value(d.take(i - start)) && acc <= max,
            digits_only && overflow ==> digits_value(d.take(i - start)) > max,
        decreases v.len() - i,
    {
        let c = v[i];
        let ghost p = d.take(i - start);
        proof {
            assert(d.take(i - start + 1).drop_last() == p);
            assert(d.take(i - start + 1).last() == c);
            assert(d[i - start] == c);
        }
        if '0' <= c && c <= '9' {
            proof {
                if digits_only {
                    assert(all_digits(d.take(i - start + 1))) by {
                        assert forall|k: int| 0 <= k < d.take(i - start + 1).len() implies is_digit(#[trigger] d.take(i - start + 1)[k]) by {
                            if k < p.len() {
                                assert(d.take(i - start + 1)[k] == p[k]);
                            }
                        }
                    }
                    lemma_digits_value_nonneg(p);
                }
            }
            if !overflow {
                let dv: u64 = (c as u64) - 48;
                if dv > max || acc > (max - dv) / 10 {
                    overflow = true;
                    proof {
                        if dv <= max {
                            assert(acc * 10 + dv > max) by (nonlinear_arith)
                                requires acc > (max - dv) / 10, dv <= max;
                        }
                    }
                } else {
                    proof {
                        assert(acc * 10 + dv <= max) by (nonlinear_arith)
                            requires acc <= (max - dv) / 10, dv <= 9;
                    }
                    acc = acc * 10 + dv;
                }
            }
        } else {
            digits_only = false;
            proof {
                let q = d.take(i - start + 1);
                assert(!is_digit(q[q.len() - 1]));
            }
        }
        i = i + 1;
    }
    proof {
        assert(d.take(v.len() - start) == d);
    }
    if !digits_only || overflow {
        None
    } else {
        Some(acc)
    }
}

} // verus!

verus! {

/// `char::is_whitespace`: the characters with the Unicode `White_Space`
/// property.
pub open spec fn is_whitespace(c: char) -> bool {
    ||| ('\u{9}' <= c && c <= '\u{d}')
    ||| c == ' ' || c == '\u{85}' || c == '\u{a0}' || c == '\u{1680}'
    ||| ('\u{2000}' <= c && c <= '\u{200a}')
    ||| c == '\u{2028}' || c == '\u{2029}' || c == '\u{202f}' || c == '\u{205f}' || c == '\u{3000}'
}

pub fn is_whitespace_exec(c: char) -> (r: bool)
    ensures
        r == is_whitespace(c),
{
    ('\u{9}' <= c && c <= '\u{d}') || c == ' ' || c == '\u{85}' || c == '\u{a0}' || c == '\u{1680}'
        || ('\u{2000}' <= c && c <= '\u{200a}') || c == '\u{2028}' || c == '\u{2029}' || c
        == '\u{202f}' || c == '\u{205f}' || c == '\u{3000}'
}

/// `str::trim_start`.
pub open spec fn trim_start(s: Seq<char>) -> Seq<char>
    decreases s.len(),
{
    if s.len() > 0 && is_whitespace(s[0]) {
        trim_start(s.drop_first())
    } else {
        s
    }
}

/// `str::trim_end`.
pub open spec fn trim_end(s: Seq<char>) -> Seq<char>
    decreases s.len(),
{
    if s.len() > 0 && is_whitespace(s.last()) {
        trim_end(s.drop_last())
    } else {
        s
    }
}

/// `str::trim`: whitespace removed from both ends.
pub open spec fn trim(s: Seq<char>) -> Seq<char> {
    trim_end(trim_start(s))
}

/// The characters of `v` from `start` up to `end`.
pub fn slice_chars(v: &Vec<char>, start: usize, end: usize) -> (r: Vec<char>)
    requires
        start <= end <= v@.len(),
    ensures
        r@ == v@.subrange(start as int, end as int),
{
    let mut out: Vec<char> = Vec::new();
    let mut i = start;
    while i < end
        invariant
            start <= i <= end,
            end <= v@.len(),
            out@ == v@.subrange(start as int, i as int),
        decreases end - i,
    {
        out.push(v[i]);
        i = i + 1;
        proof {
            assert(v@.subrange(start as int, i as int) == v@.subrange(start as int, i - 1).push(v@[i - 1]));
        }
    }
    out
}

/// The text with surrounding whitespace removed.
pub fn trim_chars(v: &Vec<char>) -> (r: Vec<char>)
    ensures
        r@ == trim(v@),
{
    let mut a: usize = 0;
    assert(v@.skip(0) == v@);
    while a < v.len() && is_whitespace_exec(v[a])
        invariant
            a <= v@.len(),
            trim_start(v@) == trim_start(v@.skip(a as int)),
        decreases v.len() - a,
    {
        proof {
            assert(v@.skip(a as int).drop_first() == v@.skip(a + 1));
        }
        a = a + 1;
    }
    proof {
        assert(v@.skip(0) == v@);
    }
    let mut b: usize = v.len();
    let ghost st = v@.skip(a as int);
    proof {
        assert(st == v@.subrange(a as int, b as int));
    }
    while b > a && is_whitespace_exec(v[b - 1])
        invariant
            a <= b <= v@.len(),
            st == v@.skip(a as int),
            trim_end(st) == trim_end(v@.subrange(a as int, b as int)),
        decreases b,
    {
        proof {
            assert(v@.subrange(a as int, b as int).drop_last() == v@.subrange(a as int, b - 1));
        }
        b = b - 1;
    }
    proof {
        if a < v@.len() {
            assert(!is_whitespace(v@.skip(a as int)[0]));
        }
        assert(trim_start(v@) == st) by {
            assert(trim_start(v@) == trim_start(v@.skip(a as int)));
        }
        let t = v@.subrange(a as int, b as int);
        if b > a {
            assert(t.last() == v@[b - 1]);
        }
    }
    slice_chars(v, a, b)
}

} // verus!

verus! {

/// `pat` occurs in `s` at index `k`.
pub open spec fn matches_at(s: Seq<char>, pat: Seq<char>, k: int) -> bool {
    s.subrange(k, k + pat.len()) == pat
}

/// The index of the first occurrence of `pat` in `s`.
pub open spec fn find_seq(s: Seq<char>, pat: Seq<char>) -> Option<int>
    decreases s.len(),
{
    if s.len() < pat.len() {
        None
    } else if s.take(pat.len() as int) == pat {
        Some(0)
    } else if s.len() == 0 {
        None
    } else {
        match find_seq(s.drop_first(), pat) {
            Some(i) => Some(i + 1),
            None => None,
        }
    }
}

proof fn lemma_find_seq_step(s: Seq<char>, pat: Seq<char>, i: int)
    requires
        0 <= i,
        pat.len() > 0,
        i + pat.len() <= s.len(),
        forall|k: int| 0 <= k < i ==> !#[trigger] matches_at(s, pat, k),
    ensures
        s.subrange(i, i + pat.len()) == pat ==> find_seq(s, pat) == Some(i),
    decreases i,
{
    if i > 0 {
        assert(s.take(pat.len() as int) == s.subrange(0, pat.len() as int));
        assert(!matches_at(s, pat, 0));
        let t = s.drop_first();
        assert forall|k: int| 0 <= k < i - 1 implies !#[trigger] matches_at(t, pat, k) by {
            assert(!matches_at(s, pat, k + 1));
            assert(t.subrange(k, k + pat.len()) == s.subrange(k + 1, k + 1 + pat.len()));
        }
        assert(t.subrange(i - 1, i - 1 + pat.len()) == s.subrange(i, i + pat.len()));
        lemma_find_seq_step(t, pat, i - 1);
    } else {
        assert(s.take(pat.len() as int) == s.subrange(0, pat.len() as int));
    }
}

proof fn lemma_find_seq_none(s: Seq<char>, pat: Seq<char>)
    requires
        pat.len() > 0,
        forall|k: int| 0 <= k && k + pat.len() <= s.len() ==> !#[trigger] matches_at(s, pat, k),
    ensures
        find_seq(s, pat) is None,
    decreases s.len(),
{
    if s.len() >= pat.len() {
        assert(s.take(pat.len() as int) == s.subrange(0, pat.len() as int));
        assert(!matches_at(s, pat, 0));
        let t = s.drop_first();
        assert forall|k: int| 0 <= k && k + pat.len() <= t.len() implies !#[trigger] matches_at(t, pat, k) by {
            assert(!matches_at(s, pat, k + 1));
            assert(t.subrange(k, k + pat.len()) == s.subrange(k + 1, k + 1 + pat.len()));
        }
        lemma_find_seq_none(t, pat);
    }
}

pub proof fn lemma_find_seq_found(s: Seq<char>, pat: Seq<char>)
    ensures
        find_seq(s, pat) matches Some(k) ==> 0 <= k && k + pat.len() <= s.len() && matches_at(s, pat, k),
    decreases s.len(),
{
    if s.len() >= pat.len() && s.take(pat.len() as int) != pat && s.len() > 0 {
        let t = s.drop_first();
        lemma_find_seq_found(t, pat);
        if let Some(k) = find_seq(t, pat) {
            assert(s.subrange(k + 1, k + 1 + pat.len()) == t.subrange(k, k + pat.len()));
        }
    } else if s.len() >= pat.len() && s.take(pat.len() as int) == pat {
        assert(s.subrange(0, pat.len() as int) == s.take(pat.len() as int));
    }
}

/// Where `pat` occurs at `k`, the search finds it (at `k` or earlier).
pub proof fn lemma_find_seq_some(s: Seq<char>, pat: Seq<char>, k: int)
    requires
        0 <= k,
        k + pat.len() <= s.len(),
        matches_at(s, pat, k),
    ensures
        find_seq(s, pat) is Some,
    decreases k,
{
    if s.take(pat.len() as int) != pat {
        if k == 0 {
            assert(s.take(pat.len() as int) =~= s.subrange(0, pat.len() as int));
        } else {
            let t = s.drop_first();
            assert(t.subrange(k - 1, k - 1 + pat.len()) =~= s.subrange(k, k + pat.len()));
            lemma_find_seq_some(t, pat, k - 1);
        }
    }
}

/// The first index at or after `from` where `pat` occurs in `v`.
pub fn find_from(v: &Vec<char>, pat: &Vec<char>, from: usize) -> (r: Option<usize>)
    requires
        pat@.len() > 0,
        from <= v@.len(),
    ensures
        r matches Some(i) ==> from <= i && i + pat.len() <= v.len() && find_seq(v@.skip(from as int), pat@) == Some(i - from),
        r is None ==> find_seq(v@.skip(from as int), pat@) is None,
{
    let ghost s = v@.skip(from as int);
    let mut i: usize = from;
    while i < v.len() && v.len() - i >= pat.len()
        invariant
            from <= i <= v@.len(),
            pat@.len() > 0,
            s == v@.skip(from as int),
            forall|k: int| 0 <= k < i - from ==> !#[trigger] matches_at(s, pat@, k),
        decreases v.len() - i,
    {
        let mut j: usize = 0;
        while j < pat.len()
            invariant
                j <= pat@.len(),
                i + pat.len() <= v.len(),
                forall|m: int| 0 <= m < j ==> v@[i + m] == pat@[m],
            ensures
                j <= pat@.len(),
                forall|m: int| 0 <= m < j ==> v@[i + m] == pat@[m],
                j < pat@.len() ==> v@[i + j] != pat@[j as int],
            decreases pat.len() - j,
        {
            if v[i + j] != pat[j] {
                break;
            }
            j = j + 1;
        }
        let ghost off = i - from;
        proof {
            assert forall|m: int| 0 <= m < pat@.len() implies #[trigger] s.subrange(off, off + pat@.len())[m] == v@[i + m] by {}
        }
        if j == pat.len() {
            proof {
                assert(s.subrange(off, off + pat@.len()) =~= pat@);
                lemma_find_seq_step(s, pat@, off);
            }
            return Some(i);
        }
        proof {
            assert(s.subrange(off, off + pat@.len())[j as int] != pat@[j as int]);
            assert(!matches_at(s, pat@, off));
        }
        i = i + 1;
    }
    proof {
        assert forall|k: int| 0 <= k && k + pat@.len() <= s.len() implies !#[trigger] matches_at(s, pat@, k) by {
            assert(k < i - from);
        }
        lemma_find_seq_none(s, pat@);
    }
    None
}

} // verus!
