//! Reading repeat intervals such as `1d12h` into seconds.

use crate::textparse::{
    all_digits, digits_value, find_from, is_digit, unsigned_digits,
    find, find_chars, parse_u128, parse_uint, split_first, split_first_chars, sub_chars,
};
use vstd::prelude::*;

verus! {

/// Seconds in a year, a month, a week, a day, an hour and a minute.
pub const YEAR: u128 = 31557600;
pub const MONTH: u128 = 2629800;
pub const WEEK: u128 = 604800;
pub const DAY: u128 = 86400;
pub const HOUR: u128 = 3600;
pub const MINUTE: u128 = 60;

/// The units in the order they are read, each with its seconds. With
/// `month_mo` months are written `mo`, else `m` (and the later `m` for
/// minutes then only matches what the month did not take).
pub open spec fn units(month_mo: bool) -> Seq<(Seq<char>, nat)> {
    seq![
        (seq!['y'], YEAR as nat),
        (if month_mo { seq!['m', 'o'] } else { seq!['m'] }, MONTH as nat),
        (seq!['w'], WEEK as nat),
        (seq!['d'], DAY as nat),
        (seq!['h'], HOUR as nat),
        (seq!['m'], MINUTE as nat),
        (seq!['s'], 1nat),
    ]
}

/// The seconds an interval stands for, reading the units from `k` on with
/// `acc` seconds so far. For each unit that occurs, the text before it is a
/// number of that unit and the text up to its next occurrence is read on;
/// an empty number ends the reading. `None` when a number cannot be read.
pub open spec fn conv_units(st: Seq<char>, us: Seq<(Seq<char>, nat)>, k: int, acc: nat) -> Option<nat>
    decreases us.len() - k,
{
    if k < 0 || k >= us.len() {
        Some(acc)
    } else {
        let (pat, mult) = us[k];
        if find(st, pat) is None {
            conv_units(st, us, k + 1, acc)
        } else {
            let (pre, seg) = split_first(st, pat);
            if pre.len() == 0 {
                Some(acc)
            } else {
                match parse_uint(pre) {
                    None => None,
                    Some(n) => conv_units(seg, us, k + 1, acc + mult * n),
                }
            }
        }
    }
}

proof fn lemma_conv_units_grows(st: Seq<char>, us: Seq<(Seq<char>, nat)>, k: int, acc: nat)
    ensures
        conv_units(st, us, k, acc) matches Some(v) ==> v >= acc,
    decreases us.len() - k,
{
    if k < 0 || k >= us.len() {
    } else {
        let (pat, mult) = us[k];
        if find(st, pat) is None {
            lemma_conv_units_grows(st, us, k + 1, acc);
        } else {
            let (pre, seg) = split_first(st, pat);
            if pre.len() != 0 {
                match parse_uint(pre) {
                    None => {},
                    Some(n) => {
                        lemma_conv_units_grows(seg, us, k + 1, acc + mult * n);
                    },
                }
            }
        }
    }
}

/// The unit at position `k`.
fn unit_at(month_mo: bool, k: usize) -> (res: (Vec<char>, u128))
    requires
        k < 7,
    ensures
        res.0@ == units(month_mo)[k as int].0,
        res.1 as nat == units(month_mo)[k as int].1,
        res.1 >= 1,
{
    let ghost u = units(month_mo);
    if k == 0 {
        (vec!['y'], YEAR)
    } else if k == 1 {
        if month_mo {
            (vec!['m', 'o'], MONTH)
        } else {
            (vec!['m'], MONTH)
        }
    } else if k == 2 {
        (vec!['w'], WEEK)
    } else if k == 3 {
        (vec!['d'], DAY)
    } else if k == 4 {
        (vec!['h'], HOUR)
    } else if k == 5 {
        (vec!['m'], MINUTE)
    } else {
        (vec!['s'], 1)
    }
}

/// Reads an interval into seconds: `None` when a number cannot be read or
/// the total does not fit a `u128`.
pub fn conv_interval(s: &Vec<char>, month_mo: bool) -> (res: Option<u128>)
    ensures
        match res {
            Some(v) => conv_units(s@, units(month_mo), 0, 0) == Some(v as nat),
            None => conv_units(s@, units(month_mo), 0, 0) is None
                || conv_units(s@, units(month_mo), 0, 0)->0 > u128::MAX,
        },
{
    let ghost us = units(month_mo);
    let ghost total = conv_units(s@, us, 0, 0);
    let mut st = sub_chars(s, 0, s.len());
    assert(st@ =~= s@);
    let mut acc: u128 = 0;
    let mut k: usize = 0;
    while k < 7
        invariant
            us == units(month_mo),
            us.len() == 7,
            total == conv_units(s@, us, 0, 0),
            k <= 7,
            total == conv_units(st@, us, k as int, acc as nat),
        decreases 7 - k,
    {
        let (pat, mult) = unit_at(month_mo, k);
        match find_chars(&st, &pat) {
            None => {},
            Some(i) => {
                let (pre, seg) = split_first_chars(&st, &pat, i);
                if pre.len() == 0 {
                    return Some(acc);
                }
                match parse_u128(&pre) {
                    None => {
                        proof {
                            if parse_uint(pre@) is Some {
                                let n = parse_uint(pre@)->0;
                                lemma_conv_units_grows(seg@, us, k + 1, (acc + mult * n) as nat);
                                assert(mult * n >= n) by (nonlinear_arith)
                                    requires
                                        mult >= 1,
                                ;
                            }
                        }
                        return None;
                    },
                    Some(n) => {
                        if n > (u128::MAX - acc) / mult {
                            proof {
                                lemma_conv_units_grows(seg@, us, k + 1, (acc + mult * n) as nat);
                                assert(acc + mult * n > u128::MAX) by (nonlinear_arith)
                                    requires
                                        n > (u128::MAX - acc) as int / mult as int,
                                        mult >= 1,
                                        acc <= u128::MAX,
                                ;
                            }
                            return None;
                        }
                        assert(acc + mult * n <= u128::MAX) by (nonlinear_arith)
                            requires
                                n <= (u128::MAX - acc) as int / mult as int,
                                mult >= 1,
                                acc <= u128::MAX,
                        ;
                        acc = acc + mult * n;
                        st = seg;
                    },
                }
            },
        }
        k = k + 1;
    }
    Some(acc)
}

/// The seconds of the unit written `c`: a year, a week, a day, an hour, a
/// second, and for `m` a minute when months are written `mo`, else a month.
pub open spec fn unit_secs(c: char, month_mo: bool) -> nat {
    if c == 'y' {
        31557600
    } else if c == 'w' {
        604800
    } else if c == 'd' {
        86400
    } else if c == 'h' {
        3600
    } else if c == 'm' {
        if month_mo { 60 } else { 2629800 }
    } else {
        1
    }
}

/// The position of the unit written `c` in the reading order.
spec fn unit_index(c: char, month_mo: bool) -> int {
    if c == 'y' {
        0
    } else if c == 'w' {
        2
    } else if c == 'd' {
        3
    } else if c == 'h' {
        4
    } else if c == 'm' {
        if month_mo { 5 } else { 1 }
    } else {
        6
    }
}

proof fn lemma_find_from_none(s: Seq<char>, pat: Seq<char>, i: int)
    requires
        pat.len() > 0,
        forall|k: int| i <= k && k + pat.len() <= s.len() ==> s[k] != pat[0],
    ensures
        find_from(s, pat, i) is None,
    decreases s.len() + 1 - i,
{
    if i < 0 || i + pat.len() > s.len() {
    } else {
        assert(s.subrange(i, i + pat.len())[0] == s[i]);
        lemma_find_from_none(s, pat, i + 1);
    }
}

proof fn lemma_find_last(s: Seq<char>, c: char, i: int)
    requires
        s.len() > 0,
        s.last() == c,
        0 <= i < s.len(),
        forall|k: int| 0 <= k < s.len() - 1 ==> s[k] != c,
    ensures
        find_from(s, seq![c], i) == Some(s.len() - 1),
    decreases s.len() - i,
{
    if i < s.len() - 1 {
        assert(s.subrange(i, i + 1)[0] != c);
        lemma_find_last(s, c, i + 1);
    } else {
        assert(s.subrange(i, i + 1) =~= seq![c]);
    }
}

proof fn lemma_conv_empty(us: Seq<(Seq<char>, nat)>, k: int, acc: nat)
    requires
        forall|m: int| 0 <= m < us.len() ==> (#[trigger] us[m]).0.len() > 0,
    ensures
        conv_units(Seq::empty(), us, k, acc) == Some(acc),
    decreases us.len() - k,
{
    if 0 <= k < us.len() {
        assert(find(Seq::<char>::empty(), us[k].0) is None);
        lemma_conv_empty(us, k + 1, acc);
    }
}

proof fn lemma_conv_skips(s: Seq<char>, us: Seq<(Seq<char>, nat)>, k: int, j: int, acc: nat)
    requires
        0 <= k <= j <= us.len(),
        forall|m: int| k <= m < j ==> find(s, (#[trigger] us[m]).0) is None,
    ensures
        conv_units(s, us, k, acc) == conv_units(s, us, j, acc),
    decreases j - k,
{
    if k < j {
        lemma_conv_skips(s, us, k + 1, j, acc);
    }
}

/// A number of decimal digits followed by one unit letter (`y`, `w`, `d`,
/// `h`, `m` or `s`) stands for that many of the unit's seconds.
pub proof fn law_interval_one_unit(ds: Seq<char>, c: char, month_mo: bool)
    requires
        ds.len() > 0,
        all_digits(ds),
        c == 'y' || c == 'w' || c == 'd' || c == 'h' || c == 'm' || c == 's',
    ensures
        conv_units(ds.push(c), units(month_mo), 0, 0) == Some(digits_value(ds) * unit_secs(c, month_mo)),
{
    let s = ds.push(c);
    let us = units(month_mo);
    let j = unit_index(c, month_mo);
    assert forall|k: int| 0 <= k < s.len() - 1 implies s[k] != c && is_digit(#[trigger] s[k]) by {
        assert(s[k] == ds[k]);
    }
    assert forall|m: int| 0 <= m < j implies find(s, (#[trigger] us[m]).0) is None by {
        let pat = us[m].0;
        assert(pat.len() > 0 && !is_digit(pat[0]));
        assert(pat[0] != c || pat.len() > 1);
        assert forall|k: int| 0 <= k && k + pat.len() <= s.len() implies s[k] != pat[0] by {
            if k < s.len() - 1 {
                assert(is_digit(s[k]));
            }
        }
        lemma_find_from_none(s, pat, 0);
    }
    lemma_conv_skips(s, us, 0, j, 0);
    assert(us[j].0 =~= seq![c]);
    lemma_find_last(s, c, 0);
    let rest = s.skip(s.len() as int);
    assert(rest =~= Seq::<char>::empty());
    assert(find(rest, seq![c]) is None);
    assert(s.take(s.len() - 1) =~= ds);
    assert(split_first(s, us[j].0) == (ds, rest));
    assert(unsigned_digits(ds) == ds) by {
        assert(is_digit(ds[0]));
    }
    assert forall|m: int| 0 <= m < us.len() implies (#[trigger] us[m]).0.len() > 0 by {}
    lemma_conv_empty(us, j + 1, 0 + us[j].1 * digits_value(ds));
    assert(us[j].1 == unit_secs(c, month_mo));
}

} // verus!
