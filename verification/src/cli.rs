//! Turning command-line values into job parts.

use crate::cli_structs::DbJobRecreationClap;
use crate::sharedtypes::{DbJobRecreation, DbJobType, DbJobsManager, ScraperParam};
use crate::textparse::{chars_of, chars_to_string};
use vstd::prelude::*;

verus! {

/// The pieces of `s` between the occurrences of `c`, as `str::split` gives
/// them: one more piece than there are occurrences, empty ones included.
pub open spec fn split_pieces(s: Seq<char>, c: char) -> Seq<Seq<char>>
    decreases s.len(),
{
    if s.len() == 0 {
        seq![Seq::empty()]
    } else {
        let p = split_pieces(s.drop_last(), c);
        if s.last() == c {
            p.push(Seq::empty())
        } else {
            p.update(p.len() - 1, p.last().push(s.last()))
        }
    }
}

proof fn lemma_split_pieces_nonempty(s: Seq<char>, c: char)
    ensures
        split_pieces(s, c).len() >= 1,
    decreases s.len(),
{
    if s.len() > 0 {
        lemma_split_pieces_nonempty(s.drop_last(), c);
    }
}

/// The recreation a command-line recreation stands for.
pub open spec fn recreation_of(r: DbJobRecreationClap) -> DbJobRecreation {
    match r {
        DbJobRecreationClap::OnTagId(id) => DbJobRecreation::OnTagId(id.id, id.timestamp),
        DbJobRecreationClap::OnTagExist(tag) => DbJobRecreation::OnTag(
            tag.name,
            tag.namespace,
            tag.timestamp,
        ),
        DbJobRecreationClap::AlwaysTime(t) => DbJobRecreation::AlwaysTime(t.timestamp, t.count),
    }
}

fn recreation_from(r: &DbJobRecreationClap) -> (res: DbJobRecreation)
    ensures
        res == recreation_of(*r),
{
    match r {
        DbJobRecreationClap::OnTagId(id) => DbJobRecreation::OnTagId(id.id, id.timestamp),
        DbJobRecreationClap::OnTagExist(tag) => DbJobRecreation::OnTag(
            tag.name.clone(),
            tag.namespace,
            tag.timestamp,
        ),
        DbJobRecreationClap::AlwaysTime(t) => DbJobRecreation::AlwaysTime(t.timestamp, t.count),
    }
}

/// The job type, `Params` when none is given, and the manager of a job with
/// that type and the given recreation, if any.
pub fn return_jobtypemanager(
    jobtype: Option<DbJobType>,
    recursion: Option<&DbJobRecreationClap>,
) -> (res: (DbJobType, DbJobsManager))
    ensures
        res.0 == match jobtype {
            Some(t) => t,
            None => DbJobType::Params,
        },
        res.1.jobtype == res.0,
        res.1.recreation == match recursion {
            Some(r) => Some(recreation_of(*r)),
            None => None,
        },
{
    let jobtype = match jobtype {
        None => DbJobType::Params,
        Some(out) => out,
    };
    let jobsmanager = match recursion {
        None => DbJobsManager { jobtype, recreation: None },
        Some(r) => DbJobsManager { jobtype, recreation: Some(recreation_from(r)) },
    };
    (jobtype, jobsmanager)
}

/// The job type, `Params` when none is given, and the manager of a job with
/// that type and the given recreation.
pub fn return_jobtypemanager_old(
    jobtype: Option<DbJobType>,
    recursion: &DbJobRecreationClap,
) -> (res: (DbJobType, DbJobsManager))
    ensures
        res.0 == match jobtype {
            Some(t) => t,
            None => DbJobType::Params,
        },
        res.1.jobtype == res.0,
        res.1.recreation == Some(recreation_of(*recursion)),
{
    let jobtype = match jobtype {
        None => DbJobType::Params,
        Some(out) => out,
    };
    let jobsmanager = DbJobsManager { jobtype, recreation: Some(recreation_from(recursion)) };
    (jobtype, jobsmanager)
}

/// The params of a query: each piece between single spaces becomes a
/// `Normal` param, in order, empty pieces included.
pub fn parse_string_to_scraperparam(input: &str) -> (res: Vec<ScraperParam>)
    ensures
        res@.len() == split_pieces(input@, ' ').len(),
        forall|i: int|
            0 <= i < res@.len() ==> ((#[trigger] res@[i]) matches ScraperParam::Normal(s) && s@
                == split_pieces(input@, ' ')[i]),
{
    let chars = chars_of(input);
    let ghost s = input@;
    let mut out: Vec<ScraperParam> = Vec::new();
    let mut cur: Vec<char> = Vec::new();
    let mut i: usize = 0;
    while i < chars.len()
        invariant
            chars@ == s,
            i <= chars.len(),
            out@.len() + 1 == split_pieces(s.take(i as int), ' ').len(),
            forall|k: int|
                0 <= k < out@.len() ==> ((#[trigger] out@[k]) matches ScraperParam::Normal(p) && p@
                    == split_pieces(s.take(i as int), ' ')[k]),
            cur@ == split_pieces(s.take(i as int), ' ').last(),
        decreases chars.len() - i,
    {
        proof {
            lemma_split_pieces_nonempty(s.take(i as int), ' ');
            assert(s.take(i + 1).drop_last() =~= s.take(i as int));
        }
        if chars[i] == ' ' {
            let piece = chars_to_string(&cur);
            out.push(ScraperParam::Normal(piece));
            cur = Vec::new();
        } else {
            cur.push(chars[i]);
        }
        i = i + 1;
    }
    assert(s.take(chars.len() as int) =~= s);
    proof {
        lemma_split_pieces_nonempty(s, ' ');
    }
    let piece = chars_to_string(&cur);
    out.push(ScraperParam::Normal(piece));
    out
}

/// The pieces `ps` put back together with `c` between each two.
pub open spec fn joined_with(ps: Seq<Seq<char>>, c: char) -> Seq<char>
    decreases ps.len(),
{
    if ps.len() == 0 {
        Seq::empty()
    } else if ps.len() == 1 {
        ps[0]
    } else {
        joined_with(ps.drop_last(), c) + seq![c] + ps.last()
    }
}

/// Splitting at a character loses nothing: the pieces, put back together
/// with that character between each two, give back the text.
pub proof fn law_split_join_back(s: Seq<char>, c: char)
    ensures
        joined_with(split_pieces(s, c), c) == s,
    decreases s.len(),
{
    if s.len() > 0 {
        let pre = s.drop_last();
        let p = split_pieces(pre, c);
        law_split_join_back(pre, c);
        lemma_split_pieces_nonempty(pre, c);
        let q = split_pieces(s, c);
        if s.last() == c {
            assert(q.drop_last() =~= p);
            assert(joined_with(q, c) == joined_with(p, c) + seq![c] + Seq::<char>::empty());
            assert(pre + seq![c] + Seq::<char>::empty() =~= s);
        } else {
            if p.len() == 1 {
                assert(joined_with(q, c) == q[0]);
                assert(p[0] == pre);
                assert(pre.push(s.last()) =~= s);
            } else {
                assert(q.drop_last() =~= p.drop_last());
                assert(joined_with(p, c) == joined_with(p.drop_last(), c) + seq![c] + p.last());
                assert(joined_with(q, c) == joined_with(p.drop_last(), c) + seq![c] + p.last().push(s.last()));
                assert(joined_with(p.drop_last(), c) + seq![c] + p.last().push(s.last()) =~= pre.push(s.last()));
                assert(pre.push(s.last()) =~= s);
            }
        }
    }
}

/// How many times `c` occurs in `s`.
pub open spec fn count_of(s: Seq<char>, c: char) -> nat
    decreases s.len(),
{
    if s.len() == 0 {
        0
    } else {
        count_of(s.drop_last(), c) + if s.last() == c {
            1nat
        } else {
            0nat
        }
    }
}

/// Splitting at a character gives one piece more than the character occurs,
/// and no piece holds it.
pub proof fn law_split_piece_count(s: Seq<char>, c: char)
    ensures
        split_pieces(s, c).len() == count_of(s, c) + 1,
        forall|i: int| 0 <= i < split_pieces(s, c).len() ==> !(#[trigger] split_pieces(s, c)[i]).contains(c),
    decreases s.len(),
{
    if s.len() > 0 {
        law_split_piece_count(s.drop_last(), c);
        let p = split_pieces(s.drop_last(), c);
        if s.last() != c {
            let q = p.update(p.len() - 1, p.last().push(s.last()));
            assert forall|i: int| 0 <= i < q.len() implies !(#[trigger] q[i]).contains(c) by {
                if i == p.len() - 1 {
                    assert(!p[i].contains(c));
                    if q[i].contains(c) {
                        let k = choose|k: int| 0 <= k < q[i].len() && q[i][k] == c;
                        if k < p[i].len() {
                            assert(p[i][k] == c);
                        }
                    }
                }
            }
        } else {
            let q = p.push(Seq::empty());
            assert forall|i: int| 0 <= i < q.len() implies !(#[trigger] q[i]).contains(c) by {
                if i < p.len() {
                    assert(q[i] == p[i]);
                }
            }
        }
    }
}


/// A command-line recreation keeps every value it was given: the tag id and
/// time of `OnTagId`, the tag name, namespace and time of `OnTagExist`, and
/// the time and count of `AlwaysTime`.
pub proof fn law_recreation_keeps_fields(r: DbJobRecreationClap)
    ensures
        r matches DbJobRecreationClap::OnTagId(i) ==> (recreation_of(r) matches DbJobRecreation::OnTagId(a, b)
            && a == i.id && b == i.timestamp),
        r matches DbJobRecreationClap::OnTagExist(t) ==> (recreation_of(r) matches DbJobRecreation::OnTag(n, ns, ts)
            && n == t.name && ns == t.namespace && ts == t.timestamp),
        r matches DbJobRecreationClap::AlwaysTime(t) ==> (recreation_of(r) matches DbJobRecreation::AlwaysTime(
            a,
            c,
        ) && a == t.timestamp && c == t.count),
{
}

} // verus!
