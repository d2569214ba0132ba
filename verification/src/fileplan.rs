//! What to do with a file that a scraper hands back by its URL: skip it
//! because a file that its skip rules name is stored already, take the file
//! that the URL's tag already leads to, or download it.

use crate::dbserve::map_at;
use crate::inmemdbnew::{set_at, set_to_vec, tag_key, MemDbView, NewinMemDB};
use crate::sharedtypes::{DbTagNNS, SkipIf, Tag};
use std::collections::HashSet;
use vstd::prelude::*;

verus! {

broadcast use vstd::std_specs::hash::group_hash_axioms;

/// The namespace of tags that hold source URLs.
pub const SOURCE_URL_NAMESPACE: usize = 0;

/// What to do with a file.
#[derive(Debug, PartialEq, Eq)]
pub enum FilePlan {
    /// A skip rule names the stored file with this id: tag it, download nothing.
    Skip(usize),
    /// The URL's tag already leads to the file with this id.
    Existing(usize),
    /// Download the file.
    Download,
}

/// The id of the tag `name` in the namespace called `ns_name`.
pub open spec fn named_tag(v: MemDbView, name: Seq<char>, ns_name: Seq<char>) -> Option<usize> {
    if v.namespace_ids.contains_key(ns_name) && v.tag_ids.contains_key((name, v.namespace_ids[ns_name])) {
        Some(v.tag_ids[(name, v.namespace_ids[ns_name])])
    } else {
        None
    }
}

/// Whether `r` is one of the files of the tag `tid`: `None` exactly when
/// it has none.
pub open spec fn one_file_of(v: MemDbView, tid: usize, r: Option<usize>) -> bool {
    match r {
        Some(f) => set_at(v.rel_tag_file, tid).contains(f),
        None => set_at(v.rel_tag_file, tid).is_empty(),
    }
}

/// How many of the tags of file `f` the namespace `ns` holds.
pub open spec fn tags_in_namespace(v: MemDbView, f: usize, ns: usize) -> nat {
    set_at(v.rel_file_tag, f).intersect(set_at(v.namespace_tags, ns)).len()
}

/// Whether `r` is what the skip rule `s` finds in `v`. A hash finds the file
/// stored under it. A tag finds one of its files. A unique tag finds one of
/// its files unless it has exactly one file and that file has more tags of
/// the filtering namespace than the limit.
pub open spec fn skip_found(v: MemDbView, s: SkipIf, r: Option<usize>) -> bool {
    match s {
        SkipIf::FileHash(h) => r == map_at(v.file_ids, h@),
        SkipIf::FileTagRelationship(t) => match named_tag(v, t.tag@, t.namespace.name@) {
            None => r is None,
            Some(tid) => one_file_of(v, tid, r),
        },
        SkipIf::FileNamespaceNumber((t, filter, limit)) => {
            if !v.namespace_ids.contains_key(filter.name@) {
                r is None
            } else {
                match named_tag(v, t.tag@, t.namespace.name@) {
                    None => r is None,
                    Some(tid) => {
                        let fids = set_at(v.rel_tag_file, tid);
                        let cnt: nat = if fids.len() == 1 {
                            tags_in_namespace(v, fids.choose(), v.namespace_ids[filter.name@])
                        } else {
                            0
                        };
                        if cnt > limit {
                            r is None
                        } else {
                            one_file_of(v, tid, r)
                        }
                    },
                }
            }
        },
    }
}

/// Whether looking the skip rule `s` up fails: a unique tag that exists, in
/// a filtering namespace that exists, but relates to no file.
pub open spec fn skip_fails(v: MemDbView, s: SkipIf) -> bool {
    match s {
        SkipIf::FileNamespaceNumber((t, filter, _)) => v.namespace_ids.contains_key(filter.name@) && match named_tag(
            v,
            t.tag@,
            t.namespace.name@,
        ) {
            Some(tid) => set_at(v.rel_tag_file, tid).is_empty(),
            None => false,
        },
        _ => false,
    }
}

/// Whether no skip rule that is looked up fails: each rule is looked up
/// only while the rules before it find nothing.
pub open spec fn skips_ok(v: MemDbView, skips: Seq<SkipIf>) -> bool {
    forall|j: int|
        0 <= j < skips.len() && (forall|i: int| 0 <= i < j ==> skip_found(v, #[trigger] skips[i], None))
            ==> !skip_fails(v, #[trigger] skips[j])
}

/// Whether `p` is the plan for a file from `url` with the skip rules
/// `skips`: the first rule that finds a file skips it; else the URL's tag
/// decides.
pub open spec fn plan_ok(v: MemDbView, url: Seq<char>, skips: Seq<SkipIf>, p: FilePlan) -> bool {
    match p {
        FilePlan::Skip(f) => exists|k: int|
            0 <= k < skips.len() && (forall|j: int| 0 <= j < k ==> skip_found(v, #[trigger] skips[j], None))
                && skip_found(v, skips[k], Some(f)),
        _ => {
            &&& forall|j: int| 0 <= j < skips.len() ==> skip_found(v, #[trigger] skips[j], None)
            &&& match map_at(v.tag_ids, (url, SOURCE_URL_NAMESPACE)) {
                None => p == FilePlan::Download,
                Some(tid) => match p {
                    FilePlan::Existing(f) => one_file_of(v, tid, Some(f)),
                    _ => one_file_of(v, tid, None),
                },
            }
        },
    }
}

/// The id of the tag `t`, by the name of its namespace.
fn find_named_tag(db: &NewinMemDB, t: &Tag) -> (r: Option<usize>)
    ensures
        r == named_tag(db@, t.tag@, t.namespace.name@),
{
    match db.namespace_get(&t.namespace.name) {
        None => None,
        Some(nid) => {
            let key = DbTagNNS { name: t.tag.clone(), namespace: *nid };
            assert(tag_key(key) == (t.tag@, *nid));
            match db.tags_get_id(&key) {
                Some(i) => Some(*i),
                None => None,
            }
        },
    }
}

/// How many of the tags in `tags` the set `ns_tags` holds.
fn count_in(tags: &HashSet<usize>, ns_tags: &HashSet<usize>) -> (r: usize)
    ensures
        r == tags@.intersect(ns_tags@).len(),
{
    let v = set_to_vec(tags);
    let ghost q = v@;
    let ghost n = ns_tags@;
    let mut cnt: usize = 0;
    let mut i: usize = 0;
    assert(q.take(0).to_set().intersect(n) =~= Set::<usize>::empty());
    while i < v.len()
        invariant
            q == v@,
            n == ns_tags@,
            q.no_duplicates(),
            i <= v.len(),
            cnt == q.take(i as int).to_set().intersect(n).len(),
            cnt <= i,
        decreases v.len() - i,
    {
        let k = v[i];
        proof {
            assert(q.take(i + 1) =~= q.take(i as int).push(k));
            q.take(i as int).lemma_push_to_set_commute(k);
            assert(!q.take(i as int).contains(k)) by {
                if q.take(i as int).contains(k) {
                    let j = choose|j: int| 0 <= j < q.take(i as int).len() && q.take(i as int)[j] == k;
                    assert(q[j] == q[i as int]);
                }
            }
            let s0 = q.take(i as int).to_set().intersect(n);
            assert(!s0.contains(k));
            if n.contains(k) {
                assert(q.take(i + 1).to_set().intersect(n) =~= s0.insert(k));
            } else {
                assert(q.take(i + 1).to_set().intersect(n) =~= s0);
            }
        }
        if ns_tags.contains(&k) {
            cnt = cnt + 1;
        }
        i = i + 1;
    }
    assert(q.take(q.len() as int) =~= q);
    cnt
}

/// Looks a skip rule up in the database: the file it finds, if any.
pub fn skip_lookup(db: &NewinMemDB, s: &SkipIf) -> (r: Option<usize>)
    requires
        db.wf(),
        !skip_fails(db@, *s),
    ensures
        skip_found(db@, *s, r),
{
    match s {
        SkipIf::FileHash(h) => match db.file_get_hash(h) {
            Some(i) => Some(*i),
            None => None,
        },
        SkipIf::FileTagRelationship(t) => match find_named_tag(db, t) {
            None => None,
            Some(tid) => match db.relationship_get_one_fileid(&tid) {
                Some(f) => Some(*f),
                None => None,
            },
        },
        SkipIf::FileNamespaceNumber((t, filter, limit)) => {
            let nidf = match db.namespace_get(&filter.name) {
                None => {
                    return None;
                },
                Some(n) => *n,
            };
            let tid = match find_named_tag(db, t) {
                None => {
                    return None;
                },
                Some(i) => i,
            };
            let mut cnt: usize = 0;
            match db.relationship_get_fileid(&tid) {
                Some(fids) => {
                    if fids.len() == 1 {
                        match db.relationship_get_one_fileid(&tid) {
                            Some(f) => {
                                proof {
                                    db.lemma_wf_view();
                                    let s = db@.rel_tag_file[tid];
                                    assert(s.finite());
                                    assert(s.remove(*f).len() == 0);
                                    s.remove(*f).lemma_len0_is_empty();
                                    assert(s =~= set![*f]) by {
                                        assert forall|x: usize| s.contains(x) implies x == *f by {
                                            if x != *f {
                                                assert(s.remove(*f).contains(x));
                                            }
                                        }
                                    }
                                    assert(s.contains(s.choose()));
                                }
                                let tags = match db.relationship_get_tagid(f) {
                                    Some(ts) => ts,
                                    None => HashSet::new(),
                                };
                                let ns_tags = match db.namespace_get_tagids(&nidf) {
                                    Some(ns) => count_in(&tags, ns),
                                    None => {
                                        proof {
                                            assert(tags@.intersect(Set::<usize>::empty()) =~= Set::<usize>::empty());
                                        }
                                        0
                                    },
                                };
                                cnt = ns_tags;
                            },
                            None => {},
                        }
                    }
                },
                None => {},
            }
            if cnt > *limit {
                None
            } else {
                match db.relationship_get_one_fileid(&tid) {
                    Some(f) => Some(*f),
                    None => None,
                }
            }
        },
    }
}

/// Decides what to do with a file from `url` that has the skip rules `skips`.
pub fn url_file_plan(db: &NewinMemDB, url: &String, skips: &Vec<SkipIf>) -> (p: FilePlan)
    requires
        db.wf(),
        skips_ok(db@, skips@),
    ensures
        plan_ok(db@, url@, skips@, p),
{
    let mut i: usize = 0;
    while i < skips.len()
        invariant
            db.wf(),
            skips_ok(db@, skips@),
            i <= skips.len(),
            forall|j: int| 0 <= j < i ==> skip_found(db@, #[trigger] skips@[j], None),
        decreases skips.len() - i,
    {
        match skip_lookup(db, &skips[i]) {
            Some(f) => {
                proof {
                    assert(skip_found(db@, skips@[i as int], Some(f)));
                }
                return FilePlan::Skip(f);
            },
            None => {},
        }
        i = i + 1;
    }
    let key = DbTagNNS { name: url.clone(), namespace: SOURCE_URL_NAMESPACE };
    assert(tag_key(key) == (url@, SOURCE_URL_NAMESPACE));
    match db.tags_get_id(&key) {
        None => FilePlan::Download,
        Some(tid) => match db.relationship_get_one_fileid(tid) {
            Some(f) => FilePlan::Existing(*f),
            None => FilePlan::Download,
        },
    }
}


/// A file whose URL tag already leads to a stored file is never downloaded.
pub proof fn law_known_url_not_downloaded(v: MemDbView, url: Seq<char>, skips: Seq<SkipIf>, p: FilePlan)
    requires
        plan_ok(v, url, skips, p),
        v.tag_ids.contains_key((url, SOURCE_URL_NAMESPACE)),
        !set_at(v.rel_tag_file, v.tag_ids[(url, SOURCE_URL_NAMESPACE)]).is_empty(),
    ensures
        p != FilePlan::Download,
{
}

} // verus!
