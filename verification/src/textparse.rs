//! Character-level helpers: finding a pattern, splitting, and reading an
//! unsigned decimal number the way `str::parse` does.

use vstd::prelude::*;

verus! {

broadcast use vstd::string::group_string_axioms;

/// The first position at or after `i` where `pat` occurs in `s`.
pub open spec fn find_from(s: Seq<char>, pat: Seq<char>, i: int) -> Option<int>
    decreases s.len() + 1 - i,
{
    if i < 0 || i + pat.len() > s.len() {
        None
    } else if s.subrange(i, i + pat.len()) == pat {
        Some(i)
    } else {
        find_from(s, pat, i + 1)
    }
}

/// The first position where `pat` occurs in `s`.
pub open spec fn find(s: Seq<char>, pat: Seq<char>) -> Option<int> {
    find_from(s, pat, 0)
}

/// Whether `pat` occurs in `s`.
pub open spec fn occurs(s: Seq<char>, pat: Seq<char>) -> bool {
    find(s, pat) is Some
}

/// The first two pieces of `s` split at `pat`: what comes before the first
/// occurrence, and what comes between it and the next one (or the end).
pub open spec fn split_first(s: Seq<char>, pat: Seq<char>) -> (Seq<char>, Seq<char>) {
    let i = find(s, pat)->0;
    let rest = s.skip(i + pat.len());
    match find(rest, pat) {
        Some(j) => (s.take(i), rest.take(j)),
        None => (s.take(i), rest),
    }
}

/// Whether `c` is an ASCII decimal digit.
pub open spec fn is_digit(c: char) -> bool {
    '0' <= c <= '9'
}

/// The value of an ASCII decimal digit.
pub open spec fn digit_value(c: char) -> nat {
    (c as int - '0' as int) as nat
}

/// The value of a string of decimal digits.
pub open spec fn digits_value(s: Seq<char>) -> nat
    decreases s.len(),
{
    if s.len() == 0 {
        0
    } else {
        digits_value(s.drop_last()) * 10 + digit_value(s.last())
    }
}

/// The value of an unsigned decimal number as `str::parse` reads it: an
/// optional `+` and at least one digit, nothing else. `None` when it is not
/// such a number.
pub open spec fn parse_uint(s: Seq<char>) -> Option<nat> {
    let d = unsigned_digits(s);
    if d.len() > 0 && all_digits(d) {
        Some(digits_value(d))
    } else {
        None
    }
}

/// What follows an optional leading `+`.
pub open spec fn unsigned_digits(s: Seq<char>) -> Seq<char> {
    if s.len() > 0 && s[0] == '+' {
        s.skip(1)
    } else {
        s
    }
}

/// Whether every character is a decimal digit.
pub open spec fn all_digits(d: Seq<char>) -> bool {
    forall|i: int| 0 <= i < d.len() ==> is_digit(#[trigger] d[i])
}

proof fn lemma_digits_prefix(s: Seq<char>, i: int)
    requires
        0 <= i <= s.len(),
    ensures
        digits_value(s.take(i)) <= digits_value(s),
    decreases s.len() - i,
{
    if i < s.len() {
        lemma_digits_prefix(s, i + 1);
        assert(s.take(i + 1).drop_last() =~= s.take(i));
    } else {
        assert(s.take(i) =~= s);
    }
}

/// The characters of a string.
pub fn chars_of(s: &str) -> (res: Vec<char>)
    ensures
        res@ == s@,
{
    let mut out: Vec<char> = Vec::new();
    for c in it: s.chars()
        invariant
            it.seq() == s@,
            out@ == s@.take(it.index()),
    {
        assert(s@.take(it.index() + 1) =~= s@.take(it.index()).push(c));
        out.push(c);
    }
    assert(s@.take(s@.len() as int) =~= s@);
    out
}

/// The characters of `v` from `a` up to `b`.
pub fn sub_chars(v: &Vec<char>, a: usize, b: usize) -> (res: Vec<char>)
    requires
        a <= b <= v.len(),
    ensures
        res@ == v@.subrange(a as int, b as int),
{
    let mut out: Vec<char> = Vec::new();
    let mut i = a;
    while i < b
        invariant
            a <= i <= b <= v.len(),
            out@ == v@.subrange(a as int, i as int),
        decreases b - i,
    {
        out.push(v[i]);
        assert(v@.subrange(a as int, i + 1) =~= v@.subrange(a as int, i as int).push(v@[i as int]));
        i = i + 1;
    }
    out
}

/// The string of the characters `v`, from `FromIterator<&char>` for
/// `String` (`collect`). Trusted: it holds those characters in order.
#[verifier::external_body]
pub(crate) fn chars_to_string(v: &Vec<char>) -> (res: String)
    ensures
        res@ == v@,
{
    v.iter().collect()
}

/// What `std::str::from_utf8` makes of a byte string: its characters when
/// the bytes are valid UTF-8, `None` when they are not.
pub uninterp spec fn utf8_decoded(bytes: Seq<u8>) -> Option<Seq<char>>;

/// Whether every byte is an ASCII code.
pub open spec fn all_ascii(b: Seq<u8>) -> bool {
    forall|i: int| 0 <= i < b.len() ==> b[i] < 128
}

/// Decodes bytes with `std::str::from_utf8`. Trusted: the result is
/// `utf8_decoded` of the bytes, a string exactly when they are valid UTF-8;
/// and ASCII bytes, being valid UTF-8, decode to the characters of their
/// codes.
#[verifier::external_body]
pub(crate) fn decode_utf8(bytes: &[u8]) -> (res: Option<String>)
    ensures
        match res {
            Some(s) => utf8_decoded(bytes@) == Some(s@),
            None => utf8_decoded(bytes@) is None,
        },
        all_ascii(bytes@) ==> res is Some && res->0@ == bytes@.map_values(|c: u8| c as char),
{
    match std::str::from_utf8(bytes) {
        Ok(s) => Some(s.to_owned()),
        Err(_) => None,
    }
}

/// Whether `pat` occurs in `v` at position `i`.
fn matches_at(v: &Vec<char>, pat: &Vec<char>, i: usize) -> (res: bool)
    requires
        i + pat.len() <= v.len(),
    ensures
        res == (v@.subrange(i as int, i + pat.len()) == pat@),
{
    let mut j: usize = 0;
    while j < pat.len()
        invariant
            i + pat.len() <= v.len(),
            j <= pat.len(),
            forall|k: int| 0 <= k < j ==> v@[i + k] == pat@[k],
        decreases pat.len() - j,
    {
        if v[i + j] != pat[j] {
            assert(v@.subrange(i as int, i + pat.len())[j as int] != pat@[j as int]);
            return false;
        }
        j = j + 1;
    }
    assert(v@.subrange(i as int, i + pat.len()) =~= pat@);
    true
}

/// The first position where `pat` occurs in `v`.
pub fn find_chars(v: &Vec<char>, pat: &Vec<char>) -> (res: Option<usize>)
    ensures
        match res {
            Some(i) => find(v@, pat@) == Some(i as int),
            None => find(v@, pat@) is None,
        },
{
    if pat.len() == 0 {
        assert(v@.subrange(0, 0) =~= pat@);
        return Some(0);
    }
    let mut i: usize = 0;
    while i < v.len() && pat.len() <= v.len() - i
        invariant
            pat.len() > 0,
            i <= v.len(),
            find(v@, pat@) == find_from(v@, pat@, i as int),
        decreases v.len() + 1 - i,
    {
        if matches_at(v, pat, i) {
            return Some(i);
        }
        i = i + 1;
    }
    assert(find_from(v@, pat@, i as int) is None);
    None
}

/// The first two pieces of `v` split at `pat`, which occurs in `v`.
pub fn split_first_chars(v: &Vec<char>, pat: &Vec<char>, i: usize) -> (res: (Vec<char>, Vec<char>))
    requires
        find(v@, pat@) == Some(i as int),
    ensures
        (res.0@, res.1@) == split_first(v@, pat@),
{
    proof {
        lemma_find_from_bounds(v@, pat@, 0);
        assert(i + pat@.len() <= v@.len());
    }
    let pre = sub_chars(v, 0, i);
    assert(i + pat.len() <= v.len());
    let rest = sub_chars(v, i + pat.len(), v.len());
    assert(rest@ =~= v@.skip(i + pat.len()));
    assert(pre@ =~= v@.take(i as int));
    match find_chars(&rest, pat) {
        Some(j) => {
            proof {
                lemma_find_from_bounds(rest@, pat@, 0);
            }
            let seg = sub_chars(&rest, 0, j);
            assert(seg@ =~= rest@.take(j as int));
            (pre, seg)
        },
        None => (pre, rest),
    }
}

/// A position found is in range.
pub proof fn lemma_find_from_bounds(s: Seq<char>, pat: Seq<char>, i: int)
    ensures
        find_from(s, pat, i) matches Some(k) ==> i <= k && k + pat.len() <= s.len() && s.subrange(
            k,
            k + pat.len(),
        ) == pat,
    decreases s.len() + 1 - i,
{
    if i < 0 || i + pat.len() > s.len() {
    } else if s.subrange(i, i + pat.len()) == pat {
    } else {
        lemma_find_from_bounds(s, pat, i + 1);
    }
}

/// Reads an unsigned decimal number as `u128::from_str` does: `None` when
/// it is not one or does not fit.
pub fn parse_u128(v: &Vec<char>) -> (res: Option<u128>)
    ensures
        match res {
            Some(n) => parse_uint(v@) == Some(n as nat),
            None => parse_uint(v@) is None || parse_uint(v@)->0 > u128::MAX,
        },
{
    let start: usize = if v.len() > 0 && v[0] == '+' {
        1
    } else {
        0
    };
    let ghost d = unsigned_digits(v@);
    assert(d =~= v@.skip(start as int));
    if start >= v.len() {
        return None;
    }
    let mut acc: u128 = 0;
    let mut i = start;
    while i < v.len()
        invariant
            start <= i <= v.len(),
            d == unsigned_digits(v@),
            d =~= v@.skip(start as int),
            forall|k: int| 0 <= k < i - start ==> is_digit(#[trigger] d[k]),
            acc == digits_value(d.take(i - start)),
        decreases v.len() - i,
    {
        let c = v[i];
        if !('0' <= c && c <= '9') {
            assert(!all_digits(d)) by {
                assert(0 <= i - start < d.len());
                assert(!is_digit(d[i - start]));
            }
            assert(parse_uint(v@) is None);
            return None;
        }
        let dv = (c as u32 - '0' as u32) as u128;
        assert(d.take(i - start + 1).drop_last() =~= d.take(i - start));
        assert(d.take(i - start + 1).last() == c);
        if acc > (u128::MAX - dv) / 10 {
            proof {
                assert(digits_value(d.take(i - start + 1)) == acc * 10 + dv);
                assert(acc * 10 + dv > u128::MAX) by (nonlinear_arith)
                    requires
                        acc > (u128::MAX - dv) / 10,
                        0 <= dv <= 9,
                ;
                lemma_digits_prefix(d, i - start + 1);
                if parse_uint(v@) is Some {
                    assert(parse_uint(v@)->0 == digits_value(d));
                }
            }
            return None;
        }
        assert(acc * 10 + dv <= u128::MAX) by (nonlinear_arith)
            requires
                acc <= (u128::MAX - dv) / 10,
                0 <= dv <= 9,
        ;
        acc = acc * 10 + dv;
        i = i + 1;
    }
    assert(d.take(d.len() as int) =~= d);
    Some(acc)
}

} // verus!
