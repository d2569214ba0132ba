//! The decisions of upgrading a stored database from one version to the
//! next: what state each table is in, and how old rows become new ones. The
//! reading and writing of the tables stays with the caller.

use vstd::prelude::*;

verus! {

/// Where a table stands before the version 5 upgrade, from whether its old
/// copy (`X_Old`) and the table (`X`) exist.
#[derive(Debug, PartialEq, Eq, Clone, Copy, Structural)]
pub enum TableStep {
    /// Both exist: the old copy is read as it is.
    KeepBoth,
    /// Only the old copy exists: it was moved already.
    AlreadyMoved,
    /// Only the table exists: it is renamed to its old copy first.
    Rename,
    /// Neither exists: the database cannot be upgraded.
    Missing,
}

/// The step for a table of which the old copy exists when `old_exists` and
/// the table itself when `new_exists`.
pub fn table_state_step(old_exists: bool, new_exists: bool) -> (r: TableStep)
    ensures
        r == (if old_exists && new_exists {
            TableStep::KeepBoth
        } else if old_exists {
            TableStep::AlreadyMoved
        } else if new_exists {
            TableStep::Rename
        } else {
            TableStep::Missing
        }),
{
    match (old_exists, new_exists) {
        (true, true) => TableStep::KeepBoth,
        (false, false) => TableStep::Missing,
        (true, false) => TableStep::AlreadyMoved,
        (false, true) => TableStep::Rename,
    }
}

/// What the version 3 upgrade does with a table, from its number of columns.
#[derive(Debug, PartialEq, Eq, Clone, Copy, Structural)]
pub enum ColumnStep {
    /// The table has its old columns: it is rewritten, after renaming it to
    /// its old copy when `rename`.
    Migrate { rename: bool },
    /// The table has its new columns and no old copy is left: done.
    Done,
    /// Any other state: the database is left inconsistent and cannot be
    /// upgraded.
    Inconsistent,
}

/// The step for a table with `cols` columns, whose old layout has
/// `old_cols` columns and new layout `new_cols` (`old_cols != new_cols`),
/// given whether the table and its old copy exist.
pub fn column_step(cols: usize, old_cols: usize, new_cols: usize, table_exists: bool, old_exists: bool) -> (r:
    ColumnStep)
    requires
        old_cols != new_cols,
    ensures
        r == (if cols == old_cols {
            ColumnStep::Migrate { rename: !old_exists }
        } else if cols == new_cols && table_exists && !old_exists {
            ColumnStep::Done
        } else {
            ColumnStep::Inconsistent
        }),
{
    if cols == old_cols {
        ColumnStep::Migrate { rename: !old_exists }
    } else if cols == new_cols && table_exists && !old_exists {
        ColumnStep::Done
    } else {
        ColumnStep::Inconsistent
    }
}

/// The version 2 job rows (time, repeat time, site, param, commit type) as
/// version 3 rows: each numbered by its position and given the manager.
pub fn jobs_rows_v2_to_v3(rows: &Vec<(usize, usize, String, String, String)>, manager: &String) -> (res: Vec<
    (usize, usize, usize, String, String, String, String),
>)
    ensures
        res@.len() == rows@.len(),
        forall|i: int|
            0 <= i < rows@.len() ==> (#[trigger] res@[i]) == (
                i as usize,
                rows@[i].0,
                rows@[i].1,
                *manager,
                rows@[i].2,
                rows@[i].3,
                rows@[i].4,
            ),
{
    let mut res: Vec<(usize, usize, usize, String, String, String, String)> = Vec::new();
    let mut i: usize = 0;
    while i < rows.len()
        invariant
            i <= rows.len(),
            res@.len() == i,
            forall|j: int|
                0 <= j < i ==> (#[trigger] res@[j]) == (
                    j as usize,
                    rows@[j].0,
                    rows@[j].1,
                    *manager,
                    rows@[j].2,
                    rows@[j].3,
                    rows@[j].4,
                ),
        decreases rows.len() - i,
    {
        let r = &rows[i];
        res.push((i, r.0, r.1, manager.clone(), r.2.clone(), r.3.clone(), r.4.clone()));
        i = i + 1;
    }
    res
}

/// The distinct texts of `s`, in the order they first occur.
pub open spec fn first_seen(s: Seq<Seq<char>>) -> Seq<Seq<char>>
    decreases s.len(),
{
    if s.len() == 0 {
        Seq::empty()
    } else {
        let t = first_seen(s.drop_last());
        if t.contains(s.last()) {
            t
        } else {
            t.push(s.last())
        }
    }
}

/// The numbered extensions hold each extension once, every extension of a
/// file is among them, and each of them is the extension of some file.
pub proof fn law_first_seen_distinct_complete(s: Seq<Seq<char>>)
    ensures
        first_seen(s).no_duplicates(),
        forall|i: int| 0 <= i < s.len() ==> first_seen(s).contains(#[trigger] s[i]),
        forall|k: int| 0 <= k < first_seen(s).len() ==> s.contains(#[trigger] first_seen(s)[k]),
    decreases s.len(),
{
    if s.len() > 0 {
        let p = s.drop_last();
        law_first_seen_distinct_complete(p);
        assert forall|i: int| 0 <= i < s.len() implies first_seen(s).contains(#[trigger] s[i]) by {
            if i < s.len() - 1 {
                assert(p[i] == s[i]);
                assert(first_seen(p).contains(p[i]));
                let k = choose|k: int| 0 <= k < first_seen(p).len() && first_seen(p)[k] == p[i];
                assert(first_seen(s)[k] == s[i]);
            } else {
                if !first_seen(p).contains(s.last()) {
                    assert(first_seen(s)[first_seen(p).len() as int] == s.last());
                }
            }
        }
        assert forall|k: int| 0 <= k < first_seen(s).len() implies s.contains(#[trigger] first_seen(s)[k]) by {
            if k < first_seen(p).len() {
                assert(p.contains(first_seen(p)[k]));
                let i = choose|i: int| 0 <= i < p.len() && p[i] == first_seen(p)[k];
                assert(s[i] == p[i]);
            } else {
                assert(s[s.len() - 1] == s.last());
            }
        }
    }
}

/// The version 5 numbering of extensions: each distinct extension gets the
/// next id in the order it first occurs, and each file is given the id of
/// its extension. Returns the id of each file and the extensions by id.
pub fn v5_extension_ids(exts: &Vec<String>) -> (res: (Vec<usize>, Vec<String>))
    ensures
        res.1@.map_values(|e: String| e@) == first_seen(exts@.map_values(|e: String| e@)),
        res.0@.len() == exts@.len(),
        forall|i: int|
            0 <= i < exts@.len() ==> (#[trigger] res.0@[i]) < res.1@.len() && res.1@[res.0@[i] as int]@
                == exts@[i]@,
{
    let ghost ev = exts@.map_values(|e: String| e@);
    let mut table: Vec<String> = Vec::new();
    let mut ids: Vec<usize> = Vec::new();
    let mut i: usize = 0;
    assert(ev.take(0) =~= Seq::<Seq<char>>::empty());
    while i < exts.len()
        invariant
            i <= exts.len(),
            ev == exts@.map_values(|e: String| e@),
            table@.map_values(|e: String| e@) == first_seen(ev.take(i as int)),
            ids@.len() == i,
            forall|j: int|
                0 <= j < i ==> (#[trigger] ids@[j]) < table@.len() && table@[ids@[j] as int]@ == exts@[j]@,
        decreases exts.len() - i,
    {
        let ghost tv = table@.map_values(|e: String| e@);
        proof {
            assert(ev.take(i + 1).drop_last() =~= ev.take(i as int));
            assert(ev.take(i + 1).last() == exts@[i as int]@);
        }
        let mut k: usize = 0;
        let mut found = false;
        while k < table.len()
            invariant_except_break
                !found,
            invariant
                i < exts.len(),
                k <= table.len(),
                tv == table@.map_values(|e: String| e@),
                forall|m: int| 0 <= m < k ==> tv[m] != exts@[i as int]@,
            ensures
                found ==> k < table.len() && tv[k as int] == exts@[i as int]@,
                !found ==> forall|m: int| 0 <= m < table@.len() ==> tv[m] != exts@[i as int]@,
            decreases table.len() - k,
        {
            if table[k] == exts[i] {
                found = true;
                break;
            }
            k = k + 1;
        }
        if found {
            proof {
                assert(tv[k as int] == exts@[i as int]@);
                assert(tv.contains(exts@[i as int]@));
            }
            ids.push(k);
        } else {
            proof {
                assert(!tv.contains(exts@[i as int]@)) by {
                    if tv.contains(exts@[i as int]@) {
                        let m = choose|m: int| 0 <= m < tv.len() && tv[m] == exts@[i as int]@;
                    }
                }
            }
            ids.push(table.len());
            table.push(exts[i].clone());
            assert(table@.map_values(|e: String| e@) =~= tv.push(exts@[i as int]@));
        }
        i = i + 1;
    }
    assert(ev.take(exts.len() as int) =~= ev);
    (ids, table)
}


/// Tag rows as plain values.
pub open spec fn tag_rows_view(rows: Seq<(usize, String, usize)>) -> Seq<(usize, Seq<char>, usize)> {
    rows.map_values(|r: (usize, String, usize)| (r.0, r.1@, r.2))
}

/// The version 2 tag rows (id, name, _, namespace) as version 3 rows
/// (id, name, namespace), each distinct row once, in the order first seen.
pub fn tags_rows_v2_to_v3(rows: &Vec<(usize, String, usize)>) -> (res: Vec<(usize, String, usize)>)
    ensures
        tag_rows_view(res@).no_duplicates(),
        tag_rows_view(res@).to_set() == tag_rows_view(rows@).to_set(),
{
    let ghost rv = tag_rows_view(rows@);
    let mut res: Vec<(usize, String, usize)> = Vec::new();
    let mut i: usize = 0;
    assert(tag_rows_view(res@) =~= Seq::<(usize, Seq<char>, usize)>::empty());
    while i < rows.len()
        invariant
            i <= rows.len(),
            rv == tag_rows_view(rows@),
            tag_rows_view(res@).no_duplicates(),
            tag_rows_view(res@).to_set() == rv.take(i as int).to_set(),
        decreases rows.len() - i,
    {
        let ghost x = rv[i as int];
        let ghost resv = tag_rows_view(res@);
        let mut k: usize = 0;
        let mut found = false;
        while k < res.len()
            invariant_except_break
                !found,
            invariant
                i < rows.len(),
                x == rv[i as int],
                rv == tag_rows_view(rows@),
                resv == tag_rows_view(res@),
                k <= res.len(),
                forall|m: int| 0 <= m < k ==> resv[m] != x,
            ensures
                found ==> resv.contains(x),
                !found ==> !resv.contains(x),
            decreases res.len() - k,
        {
            if res[k].0 == rows[i].0 && res[k].1 == rows[i].1 && res[k].2 == rows[i].2 {
                assert(resv[k as int] == x);
                found = true;
                break;
            }
            k = k + 1;
        }
        proof {
            assert(rv.take(i + 1) =~= rv.take(i as int).push(x));
            rv.take(i as int).lemma_push_to_set_commute(x);
            if !found {
                assert(!resv.contains(x)) by {
                    if resv.contains(x) {
                        let m = choose|m: int| 0 <= m < resv.len() && resv[m] == x;
                    }
                }
            }
        }
        if !found {
            let r = &rows[i];
            res.push((r.0, r.1.clone(), r.2));
            proof {
                assert(tag_rows_view(res@) =~= resv.push(x));
                resv.lemma_push_to_set_commute(x);
            }
        } else {
            proof {
                assert(resv.to_set().insert(x) =~= resv.to_set());
            }
        }
        i = i + 1;
    }
    assert(rv.take(rows.len() as int) =~= rv);
    res
}

/// The version 2 parent rows as version 3 rows (tag, related tag), each
/// distinct pair once, in the order first seen.
pub fn parents_rows_v2_to_v3(rows: &Vec<(usize, usize)>) -> (res: Vec<(usize, usize)>)
    ensures
        res@.no_duplicates(),
        res@.to_set() == rows@.to_set(),
{
    let mut res: Vec<(usize, usize)> = Vec::new();
    let mut i: usize = 0;
    while i < rows.len()
        invariant
            i <= rows.len(),
            res@.no_duplicates(),
            res@.to_set() == rows@.take(i as int).to_set(),
        decreases rows.len() - i,
    {
        let r = rows[i];
        let mut k: usize = 0;
        let mut found = false;
        while k < res.len()
            invariant_except_break
                !found,
            invariant
                i < rows.len(),
                r == rows@[i as int],
                k <= res.len(),
                res@.len() == res.len(),
                forall|m: int| 0 <= m < k ==> res@[m] != r,
            ensures
                found ==> res@.contains(r),
                !found ==> !res@.contains(r),
            decreases res.len() - k,
        {
            if res[k].0 == r.0 && res[k].1 == r.1 {
                assert(res@[k as int] == r);
                found = true;
                break;
            }
            k = k + 1;
        }
        proof {
            assert(rows@.take(i + 1) =~= rows@.take(i as int).push(r));
            rows@.take(i as int).lemma_push_to_set_commute(r);
            if !found {
                assert(!res@.contains(r)) by {
                    if res@.contains(r) {
                        let m = choose|m: int| 0 <= m < res@.len() && res@[m] == r;
                    }
                }
            }
        }
        if !found {
            let ghost before = res@;
            res.push(r);
            proof {
                before.lemma_push_to_set_commute(r);
            }
        } else {
            proof {
                assert(res@.to_set().insert(r) =~= res@.to_set());
            }
        }
        i = i + 1;
    }
    assert(rows@.take(rows.len() as int) =~= rows@);
    res
}

} // verus!
