//! Searching the files of the in-memory database by their tags. Each search
//! combines the files of some tags; the relations then combine searches by
//! their positions, and the files found by any relation are the answer.

use crate::inmemdbnew::{set_at, set_to_vec, MemDbView, NewinMemDB};
use crate::sharedtypes::{SearchHolder, SearchObj};
use std::collections::HashSet;
use vstd::prelude::*;

verus! {

broadcast use vstd::std_specs::hash::group_hash_axioms;

/// The files related to the tag `t`.
pub open spec fn files_of(v: MemDbView, t: usize) -> Set<usize> {
    set_at(v.rel_tag_file, t)
}

/// The sets of `parts` at the positions `idx`, intersected; none for no
/// positions.
pub open spec fn inter_at(parts: Seq<Set<usize>>, idx: Seq<usize>) -> Set<usize>
    decreases idx.len(),
{
    if idx.len() == 0 {
        Set::empty()
    } else if idx.len() == 1 {
        parts[idx[0] as int]
    } else {
        inter_at(parts, idx.drop_last()).intersect(parts[idx.last() as int])
    }
}

/// The sets of `parts` at the positions `idx`, joined.
pub open spec fn union_at(parts: Seq<Set<usize>>, idx: Seq<usize>) -> Set<usize>
    decreases idx.len(),
{
    if idx.len() == 0 {
        Set::empty()
    } else {
        union_at(parts, idx.drop_last()).union(parts[idx.last() as int])
    }
}

/// The file sets of the tags `ts`, in order.
pub open spec fn tag_files(v: MemDbView, ts: Seq<usize>) -> Seq<Set<usize>> {
    Seq::new(ts.len(), |i: int| files_of(v, ts[i]))
}

/// The positions `0` to `n - 1`.
pub open spec fn positions(n: nat) -> Seq<usize> {
    Seq::new(n, |i: int| i as usize)
}

/// The files one search finds: for `And` the files of all its tags, for
/// `Or` the files of any of them, for `Not` the files of its first tag that
/// none of its other tags has.
pub open spec fn search_files(v: MemDbView, h: SearchHolder) -> Set<usize> {
    match h {
        SearchHolder::And(ts) => inter_at(tag_files(v, ts@), positions(ts@.len())),
        SearchHolder::Or(ts) => union_at(tag_files(v, ts@), positions(ts@.len())),
        SearchHolder::Not(ts) => if ts@.len() == 0 {
            Set::empty()
        } else {
            files_of(v, ts@[0]).difference(
                union_at(tag_files(v, ts@.subrange(1, ts@.len() as int)), positions((ts@.len() - 1) as nat)),
            )
        },
    }
}

/// What one relation contributes: an `And` relation the files that all the
/// searches at its positions found; the others nothing.
pub open spec fn relate_files(parts: Seq<Set<usize>>, r: SearchHolder) -> Set<usize> {
    match r {
        SearchHolder::And(idx) => inter_at(parts, idx@),
        _ => Set::empty(),
    }
}

/// The files the relations `rs` find, joined.
pub open spec fn found(parts: Seq<Set<usize>>, rs: Seq<SearchHolder>) -> Set<usize>
    decreases rs.len(),
{
    if rs.len() == 0 {
        Set::empty()
    } else {
        found(parts, rs.drop_last()).union(relate_files(parts, rs.last()))
    }
}

/// The files a search finds in `v`: `None` when it finds none. Without
/// relations, the files all searches found.
pub open spec fn search_result(v: MemDbView, s: SearchObj) -> Option<Set<usize>> {
    let parts = s.searches@.map_values(|h: SearchHolder| search_files(v, h));
    let fin = match s.search_relate {
        Some(r) => found(parts, r@),
        None => inter_at(parts, positions(parts.len())),
    };
    if fin.is_empty() {
        None
    } else {
        Some(fin)
    }
}

/// Whether an `And` relation names only positions below `n`.
pub open spec fn holder_in_range(h: SearchHolder, n: nat) -> bool {
    match h {
        SearchHolder::And(idx) => forall|j: int| 0 <= j < idx@.len() ==> idx@[j] < n,
        _ => true,
    }
}

/// Whether every relation of `s` names searches that exist.
pub open spec fn relations_in_range(s: SearchObj) -> bool {
    match s.search_relate {
        Some(r) => forall|k: int| 0 <= k < r@.len() ==> holder_in_range(#[trigger] r@[k], s.searches@.len()),
        None => true,
    }
}

fn set_copy(a: &HashSet<usize>) -> (r: HashSet<usize>)
    ensures
        r@ == a@,
{
    let v = set_to_vec(a);
    let mut out: HashSet<usize> = HashSet::new();
    let mut i: usize = 0;
    while i < v.len()
        invariant
            i <= v.len(),
            out@ == v@.take(i as int).to_set(),
        decreases v.len() - i,
    {
        proof {
            assert(v@.take(i + 1) =~= v@.take(i as int).push(v@[i as int]));
            v@.take(i as int).lemma_push_to_set_commute(v@[i as int]);
        }
        out.insert(v[i]);
        i = i + 1;
    }
    assert(v@.take(v.len() as int) =~= v@);
    out
}

/// The elements of `a` that `keep` says to keep, when `keep_in` decides by
/// membership in `b` (`true`) or by absence from it (`false`).
pub(crate) fn set_select(a: &HashSet<usize>, b: &HashSet<usize>, keep_in: bool) -> (r: HashSet<usize>)
    ensures
        keep_in ==> r@ == a@.intersect(b@),
        !keep_in ==> r@ == a@.difference(b@),
{
    let v = set_to_vec(a);
    let mut out: HashSet<usize> = HashSet::new();
    let mut i: usize = 0;
    while i < v.len()
        invariant
            i <= v.len(),
            keep_in ==> out@ == v@.take(i as int).to_set().intersect(b@),
            !keep_in ==> out@ == v@.take(i as int).to_set().difference(b@),
        decreases v.len() - i,
    {
        let x = v[i];
        proof {
            assert(v@.take(i + 1) =~= v@.take(i as int).push(x));
            v@.take(i as int).lemma_push_to_set_commute(x);
        }
        if b.contains(&x) == keep_in {
            out.insert(x);
        }
        proof {
            let t = v@.take(i + 1).to_set();
            assert(t =~= v@.take(i as int).to_set().insert(x));
            if keep_in {
                assert(out@ =~= t.intersect(b@));
            } else {
                assert(out@ =~= t.difference(b@));
            }
        }
        i = i + 1;
    }
    assert(v@.take(v.len() as int) =~= v@);
    out
}

/// The elements of `a` and of `b`.
fn set_join(a: &HashSet<usize>, b: &HashSet<usize>) -> (r: HashSet<usize>)
    ensures
        r@ == a@.union(b@),
{
    let v = set_to_vec(b);
    let mut out = set_copy(a);
    let mut i: usize = 0;
    while i < v.len()
        invariant
            i <= v.len(),
            out@ == a@.union(v@.take(i as int).to_set()),
        decreases v.len() - i,
    {
        proof {
            assert(v@.take(i + 1) =~= v@.take(i as int).push(v@[i as int]));
            v@.take(i as int).lemma_push_to_set_commute(v@[i as int]);
        }
        out.insert(v[i]);
        proof {
            assert(out@ =~= a@.union(v@.take(i + 1).to_set()));
        }
        i = i + 1;
    }
    assert(v@.take(v.len() as int) =~= v@);
    out
}

/// The sets of `parts` at the positions `idx`, intersected.
fn inter_exec(parts: &Vec<HashSet<usize>>, idx: &Vec<usize>) -> (r: HashSet<usize>)
    requires
        forall|j: int| 0 <= j < idx@.len() ==> idx@[j] < parts@.len(),
    ensures
        r@ == inter_at(parts@.map_values(|s: HashSet<usize>| s@), idx@),
{
    let ghost ps = parts@.map_values(|s: HashSet<usize>| s@);
    if idx.len() == 0 {
        return HashSet::new();
    }
    let mut acc = set_copy(&parts[idx[0]]);
    let mut i: usize = 1;
    assert(idx@.take(1).drop_last() =~= Seq::<usize>::empty());
    while i < idx.len()
        invariant
            1 <= i <= idx.len(),
            ps == parts@.map_values(|s: HashSet<usize>| s@),
            forall|j: int| 0 <= j < idx@.len() ==> idx@[j] < parts@.len(),
            acc@ == inter_at(ps, idx@.take(i as int)),
        decreases idx.len() - i,
    {
        assert(idx@.take(i + 1).drop_last() =~= idx@.take(i as int));
        acc = set_select(&acc, &parts[idx[i]], true);
        i = i + 1;
    }
    assert(idx@.take(idx.len() as int) =~= idx@);
    acc
}

/// The sets of `parts` at the positions `idx`, joined.
fn union_exec(parts: &Vec<HashSet<usize>>, idx: &Vec<usize>) -> (r: HashSet<usize>)
    requires
        forall|j: int| 0 <= j < idx@.len() ==> idx@[j] < parts@.len(),
    ensures
        r@ == union_at(parts@.map_values(|s: HashSet<usize>| s@), idx@),
{
    let ghost ps = parts@.map_values(|s: HashSet<usize>| s@);
    let mut acc: HashSet<usize> = HashSet::new();
    let mut i: usize = 0;
    assert(idx@.take(0) =~= Seq::<usize>::empty());
    while i < idx.len()
        invariant
            i <= idx.len(),
            ps == parts@.map_values(|s: HashSet<usize>| s@),
            forall|j: int| 0 <= j < idx@.len() ==> idx@[j] < parts@.len(),
            acc@ == union_at(ps, idx@.take(i as int)),
        decreases idx.len() - i,
    {
        assert(idx@.take(i + 1).drop_last() =~= idx@.take(i as int));
        acc = set_join(&acc, &parts[idx[i]]);
        i = i + 1;
    }
    assert(idx@.take(idx.len() as int) =~= idx@);
    acc
}

/// The positions `0` to `n - 1`.
fn positions_exec(n: usize) -> (r: Vec<usize>)
    ensures
        r@ == positions(n as nat),
{
    let mut r: Vec<usize> = Vec::new();
    let mut i: usize = 0;
    while i < n
        invariant
            i <= n,
            r@ == positions(i as nat),
        decreases n - i,
    {
        r.push(i);
        assert(r@ =~= positions((i + 1) as nat));
        i = i + 1;
    }
    r
}

/// The file sets of the tags `ts`.
fn tag_files_exec(db: &NewinMemDB, ts: &Vec<usize>) -> (r: Vec<HashSet<usize>>)
    ensures
        r@.len() == ts@.len(),
        r@.map_values(|s: HashSet<usize>| s@) == tag_files(db@, ts@),
{
    let mut r: Vec<HashSet<usize>> = Vec::new();
    let mut i: usize = 0;
    while i < ts.len()
        invariant
            i <= ts.len(),
            r@.len() == i,
            forall|j: int| 0 <= j < i ==> (#[trigger] r@[j])@ == files_of(db@, ts@[j]),
        decreases ts.len() - i,
    {
        let s = match db.relationship_get_fileid(&ts[i]) {
            Some(s) => s,
            None => HashSet::new(),
        };
        r.push(s);
        i = i + 1;
    }
    assert(r@.map_values(|s: HashSet<usize>| s@) =~= tag_files(db@, ts@));
    r
}

/// The files one search finds.
fn search_files_exec(db: &NewinMemDB, h: &SearchHolder) -> (r: HashSet<usize>)
    ensures
        r@ == search_files(db@, *h),
{
    match h {
        SearchHolder::And(ts) => {
            let parts = tag_files_exec(db, ts);
            let pos = positions_exec(ts.len());
            inter_exec(&parts, &pos)
        },
        SearchHolder::Or(ts) => {
            let parts = tag_files_exec(db, ts);
            let pos = positions_exec(ts.len());
            union_exec(&parts, &pos)
        },
        SearchHolder::Not(ts) => {
            if ts.len() == 0 {
                return HashSet::new();
            }
            let first = match db.relationship_get_fileid(&ts[0]) {
                Some(s) => s,
                None => HashSet::new(),
            };
            let mut rest: Vec<usize> = Vec::new();
            let mut i: usize = 1;
            while i < ts.len()
                invariant
                    1 <= i <= ts.len(),
                    rest@ == ts@.subrange(1, i as int),
                decreases ts.len() - i,
            {
                rest.push(ts[i]);
                assert(rest@ =~= ts@.subrange(1, i + 1));
                i = i + 1;
            }
            let parts = tag_files_exec(db, &rest);
            let pos = positions_exec(rest.len());
            let others = union_exec(&parts, &pos);
            set_select(&first, &others, false)
        },
    }
}

/// Searches the files of `db`: the files the relations of `search` find, or
/// `None` when they find none.
pub fn search_db_files(db: &NewinMemDB, search: &SearchObj) -> (res: Option<HashSet<usize>>)
    requires
        relations_in_range(*search),
    ensures
        match res {
            Some(s) => search_result(db@, *search) == Some(s@),
            None => search_result(db@, *search) is None,
        },
{
    let mut parts: Vec<HashSet<usize>> = Vec::new();
    let mut i: usize = 0;
    while i < search.searches.len()
        invariant
            i <= search.searches.len(),
            parts@.len() == i,
            forall|j: int|
                0 <= j < i ==> (#[trigger] parts@[j])@ == search_files(db@, search.searches@[j]),
        decreases search.searches.len() - i,
    {
        parts.push(search_files_exec(db, &search.searches[i]));
        i = i + 1;
    }
    let ghost ps = search.searches@.map_values(|h: SearchHolder| search_files(db@, h));
    assert(parts@.map_values(|s: HashSet<usize>| s@) =~= ps);
    let fin = match &search.search_relate {
        None => {
            let pos = positions_exec(parts.len());
            inter_exec(&parts, &pos)
        },
        Some(rs) => {
            let mut acc: HashSet<usize> = HashSet::new();
            let mut k: usize = 0;
            assert(rs@.take(0) =~= Seq::<SearchHolder>::empty());
            while k < rs.len()
                invariant
                    k <= rs.len(),
                    search.search_relate == Some(*rs),
                    relations_in_range(*search),
                    parts@.len() == search.searches@.len(),
                    parts@.map_values(|s: HashSet<usize>| s@) == ps,
                    acc@ == found(ps, rs@.take(k as int)),
                decreases rs.len() - k,
            {
                assert(rs@.take(k + 1).drop_last() =~= rs@.take(k as int));
                assert(rs@.take(k + 1).last() == rs@[k as int]);
                proof {
                    let r = search.search_relate->Some_0;
                    assert(r@ == rs@);
                    assert(holder_in_range(r@[k as int], search.searches@.len()));
                }
                match &rs[k] {
                    SearchHolder::And(idx) => {
                        let part = inter_exec(&parts, idx);
                        acc = set_join(&acc, &part);
                    },
                    _ => {
                        assert(acc@.union(Set::<usize>::empty()) =~= acc@);
                    },
                }
                k = k + 1;
            }
            assert(rs@.take(rs.len() as int) =~= rs@);
            acc
        },
    };
    if fin.is_empty() {
        None
    } else {
        Some(fin)
    }
}

/// The number of tags or positions `h` names.
pub open spec fn holder_len(h: SearchHolder) -> nat {
    match h {
        SearchHolder::And(ts) => ts@.len(),
        SearchHolder::Or(ts) => ts@.len(),
        SearchHolder::Not(ts) => ts@.len(),
    }
}

/// Whether the lists of `s` have lengths a vector can have.
pub open spec fn lens_fit(s: SearchObj) -> bool {
    &&& s.searches@.len() <= usize::MAX
    &&& forall|k: int| 0 <= k < s.searches@.len() ==> holder_len(#[trigger] s.searches@[k]) <= usize::MAX
}

/// Whether the search `h` finds the file `f`: for `And` some tags, all
/// related to `f`; for `Or` one of its tags related to `f`; for `Not` its
/// first tag related to `f` and none of the others.
pub open spec fn holder_finds(v: MemDbView, h: SearchHolder, f: usize) -> bool {
    match h {
        SearchHolder::And(ts) => ts@.len() > 0 && forall|i: int|
            0 <= i < ts@.len() ==> #[trigger] set_at(v.rel_tag_file, ts@[i]).contains(f),
        SearchHolder::Or(ts) => exists|i: int|
            0 <= i < ts@.len() && #[trigger] set_at(v.rel_tag_file, ts@[i]).contains(f),
        SearchHolder::Not(ts) => ts@.len() > 0 && set_at(v.rel_tag_file, ts@[0]).contains(f) && forall|i: int|
            1 <= i < ts@.len() ==> !#[trigger] set_at(v.rel_tag_file, ts@[i]).contains(f),
    }
}

/// Whether the searches at the positions `idx` of `s` all find `f`, and
/// there is at least one.
pub open spec fn all_find(v: MemDbView, s: SearchObj, idx: Seq<usize>, f: usize) -> bool {
    idx.len() > 0 && forall|j: int| 0 <= j < idx.len() ==> holder_finds(v, s.searches@[#[trigger] idx[j] as int], f)
}

/// Whether the search `s` finds `f`: without relations, every one of its
/// searches (at least one) finds it; with relations, some `And` relation's
/// searches all find it.
pub open spec fn search_finds(v: MemDbView, s: SearchObj, f: usize) -> bool {
    match s.search_relate {
        None => all_find(v, s, positions(s.searches@.len()), f),
        Some(rs) => exists|k: int| 0 <= k < rs@.len() && #[trigger] rs@[k] is And
            && all_find(v, s, rs@[k]->And_0@, f),
    }
}

proof fn lemma_inter_at_mem(parts: Seq<Set<usize>>, idx: Seq<usize>, x: usize)
    ensures
        inter_at(parts, idx).contains(x) <==> (idx.len() > 0 && forall|j: int|
            0 <= j < idx.len() ==> parts[#[trigger] idx[j] as int].contains(x)),
    decreases idx.len(),
{
    if idx.len() > 1 {
        let pre = idx.drop_last();
        lemma_inter_at_mem(parts, pre, x);
        if inter_at(parts, idx).contains(x) {
            assert forall|j: int| 0 <= j < idx.len() implies parts[#[trigger] idx[j] as int].contains(x) by {
                if j < idx.len() - 1 {
                    assert(idx[j] == pre[j]);
                }
            }
        }
        if forall|j: int| 0 <= j < idx.len() ==> parts[#[trigger] idx[j] as int].contains(x) {
            assert forall|j: int| 0 <= j < pre.len() implies parts[#[trigger] pre[j] as int].contains(x) by {
                assert(idx[j] == pre[j]);
            }
            assert(parts[idx[idx.len() - 1] as int].contains(x));
        }
    } else if idx.len() == 1 {
        if parts[idx[0] as int].contains(x) {
            assert forall|j: int| 0 <= j < idx.len() implies parts[#[trigger] idx[j] as int].contains(x) by {
                assert(j == 0);
            }
        }
    }
}

proof fn lemma_union_at_mem(parts: Seq<Set<usize>>, idx: Seq<usize>, x: usize)
    ensures
        union_at(parts, idx).contains(x) <==> exists|j: int|
            0 <= j < idx.len() && parts[#[trigger] idx[j] as int].contains(x),
    decreases idx.len(),
{
    if idx.len() > 0 {
        let pre = idx.drop_last();
        lemma_union_at_mem(parts, pre, x);
        if union_at(parts, idx).contains(x) {
            if union_at(parts, pre).contains(x) {
                let j = choose|j: int| 0 <= j < pre.len() && parts[#[trigger] pre[j] as int].contains(x);
                assert(idx[j] == pre[j]);
            } else {
                assert(parts[idx[idx.len() - 1] as int].contains(x));
            }
        }
        if exists|j: int| 0 <= j < idx.len() && parts[#[trigger] idx[j] as int].contains(x) {
            let j = choose|j: int| 0 <= j < idx.len() && parts[#[trigger] idx[j] as int].contains(x);
            if j < idx.len() - 1 {
                assert(idx[j] == pre[j]);
            }
        }
    }
}

proof fn lemma_holder_finds(v: MemDbView, h: SearchHolder, f: usize)
    requires
        holder_len(h) <= usize::MAX,
    ensures
        search_files(v, h).contains(f) == holder_finds(v, h, f),
{
    match h {
        SearchHolder::And(ts) => {
            let p = tag_files(v, ts@);
            let pos = positions(ts@.len());
            lemma_inter_at_mem(p, pos, f);
            if holder_finds(v, h, f) {
                assert forall|j: int| 0 <= j < pos.len() implies p[#[trigger] pos[j] as int].contains(f) by {
                    assert(pos[j] as int == j);
                    assert(set_at(v.rel_tag_file, ts@[j]).contains(f));
                }
            }
            if search_files(v, h).contains(f) {
                assert forall|i: int| 0 <= i < ts@.len() implies #[trigger] set_at(v.rel_tag_file, ts@[i]).contains(f) by {
                    assert(pos[i] as int == i);
                    assert(p[pos[i] as int].contains(f));
                }
            }
        },
        SearchHolder::Or(ts) => {
            let p = tag_files(v, ts@);
            let pos = positions(ts@.len());
            lemma_union_at_mem(p, pos, f);
            if holder_finds(v, h, f) {
                let i = choose|i: int| 0 <= i < ts@.len() && #[trigger] set_at(v.rel_tag_file, ts@[i]).contains(f);
                assert(pos[i] as int == i);
                assert(p[pos[i] as int].contains(f));
            }
            if search_files(v, h).contains(f) {
                let j = choose|j: int| 0 <= j < pos.len() && p[#[trigger] pos[j] as int].contains(f);
                assert(pos[j] as int == j);
                assert(set_at(v.rel_tag_file, ts@[j]).contains(f));
            }
        },
        SearchHolder::Not(ts) => {
            if ts@.len() > 0 {
                let rest = ts@.subrange(1, ts@.len() as int);
                let p = tag_files(v, rest);
                let pos = positions((ts@.len() - 1) as nat);
                lemma_union_at_mem(p, pos, f);
                if union_at(p, pos).contains(f) {
                    let j = choose|j: int| 0 <= j < pos.len() && p[#[trigger] pos[j] as int].contains(f);
                    assert(set_at(v.rel_tag_file, ts@[j + 1]).contains(f));
                }
                if exists|i: int| 1 <= i < ts@.len() && #[trigger] set_at(v.rel_tag_file, ts@[i]).contains(f) {
                    let i = choose|i: int| 1 <= i < ts@.len() && #[trigger] set_at(v.rel_tag_file, ts@[i]).contains(f);
                    assert(p[pos[i - 1] as int].contains(f));
                }
            }
        },
    }
}

proof fn lemma_all_find(v: MemDbView, s: SearchObj, idx: Seq<usize>, f: usize)
    requires
        lens_fit(s),
        forall|j: int| 0 <= j < idx.len() ==> #[trigger] idx[j] < s.searches@.len(),
    ensures
        inter_at(s.searches@.map_values(|h: SearchHolder| search_files(v, h)), idx).contains(f)
            == all_find(v, s, idx, f),
{
    let parts = s.searches@.map_values(|h: SearchHolder| search_files(v, h));
    lemma_inter_at_mem(parts, idx, f);
    assert forall|j: int| 0 <= j < idx.len() implies parts[#[trigger] idx[j] as int].contains(f)
        == holder_finds(v, s.searches@[idx[j] as int], f) by {
        assert(holder_len(s.searches@[idx[j] as int]) <= usize::MAX);
        lemma_holder_finds(v, s.searches@[idx[j] as int], f);
    }
}

proof fn lemma_found_mem(v: MemDbView, s: SearchObj, rs: Seq<SearchHolder>, f: usize)
    requires
        lens_fit(s),
        forall|k: int| 0 <= k < rs.len() ==> holder_in_range(#[trigger] rs[k], s.searches@.len()),
    ensures
        found(s.searches@.map_values(|h: SearchHolder| search_files(v, h)), rs).contains(f)
            == exists|k: int| 0 <= k < rs.len() && #[trigger] rs[k] is And && all_find(v, s, rs[k]->And_0@, f),
    decreases rs.len(),
{
    let parts = s.searches@.map_values(|h: SearchHolder| search_files(v, h));
    if rs.len() > 0 {
        let pre = rs.drop_last();
        assert forall|k: int| 0 <= k < pre.len() implies holder_in_range(#[trigger] pre[k], s.searches@.len()) by {
            assert(pre[k] == rs[k]);
        }
        lemma_found_mem(v, s, pre, f);
        let last = rs.last();
        assert(holder_in_range(rs[rs.len() - 1], s.searches@.len()));
        if last is And {
            let idx = last->And_0@;
            lemma_all_find(v, s, idx, f);
        }
        if exists|k: int| 0 <= k < rs.len() && #[trigger] rs[k] is And && all_find(v, s, rs[k]->And_0@, f) {
            let k = choose|k: int| 0 <= k < rs.len() && #[trigger] rs[k] is And && all_find(v, s, rs[k]->And_0@, f);
            if k < rs.len() - 1 {
                assert(pre[k] == rs[k]);
            }
        }
        if found(parts, pre).contains(f) {
            let k = choose|k: int| 0 <= k < pre.len() && #[trigger] pre[k] is And && all_find(v, s, pre[k]->And_0@, f);
            assert(pre[k] == rs[k]);
        }
    }
}

/// A search answers with the files it finds, and with `None` exactly when
/// it finds no file: a file is in the answer when every one of the
/// searches (without relations) or of the searches that some `And`
/// relation names finds it, and a search finds it by its tags as `And`,
/// `Or` and `Not` say.
pub proof fn law_search_answer(v: MemDbView, s: SearchObj, f: usize)
    requires
        lens_fit(s),
        relations_in_range(s),
    ensures
        (search_result(v, s) matches Some(r) && r.contains(f)) == search_finds(v, s, f),
        search_result(v, s) matches Some(r) ==> exists|g: usize| r.contains(g),
{
    match s.search_relate {
        None => {
            let pos = positions(s.searches@.len());
            lemma_all_find(v, s, pos, f);
        },
        Some(rs) => {
            assert forall|k: int| 0 <= k < rs@.len() implies holder_in_range(#[trigger] rs@[k], s.searches@.len()) by {
            }
            lemma_found_mem(v, s, rs@, f);
        },
    }
    if search_result(v, s) is Some {
        let r = search_result(v, s)->0;
        assert(!r.is_empty());
        let g = choose|g: usize| r.contains(g);
    }
}

} // verus!
