//! Applying what a plugin hands back to the database: files, tags,
//! settings, jobs and relationships, in that order for each output. The
//! extensions and storage folders of files are numbered in two tables
//! beside the database.

use crate::cantor::{cantor, cantor_checked, cantor_fits};
use crate::dbserve::files_loc;
use crate::inmemdbnew::{
    file_added, relationship_added, setting_added, tag_added, tag_key, MemDbView, NewinMemDB,
};
use crate::jobs::{job_put, params_view, same_entry, table_has_same, table_put_owned, with_id};
use crate::memdb_laws::{law_setting_add_keeps_others, law_setting_read_after_write, law_tag_put_then_lookup, law_job_ids_fresh};
use crate::newinmemdb::last_setting;
use crate::sharedtypes::{
    DBPluginOutput, DBPluginOutputEnum, DbFileObjNoId, DbFileStorage, DbJobsObj, DbPluginRelationshipObj,
    DbSettingObj, DbTagNNS, PluginFileObj, TagObject,
};
use vstd::prelude::*;

verus! {

/// The database with the table of extensions and the table of storage
/// folders, each numbered by position.
pub struct PlugState {
    pub db: MemDbView,
    pub exts: Seq<Seq<char>>,
    pub stores: Seq<Seq<char>>,
}

/// `s` taken through `xs` in order by `f`; `None` once a step is `None`.
pub open spec fn fold_opt<S, X>(s: S, xs: Seq<X>, f: spec_fn(S, X) -> Option<S>) -> Option<S>
    decreases xs.len(),
{
    if xs.len() == 0 {
        Some(s)
    } else {
        match fold_opt(s, xs.drop_last(), f) {
            Some(s1) => f(s1, xs.last()),
            None => None,
        }
    }
}

proof fn lemma_fold_prefix<S, X>(s: S, xs: Seq<X>, f: spec_fn(S, X) -> Option<S>, i: int)
    requires
        0 <= i <= xs.len(),
        fold_opt(s, xs, f) is Some,
    ensures
        fold_opt(s, xs.take(i), f) is Some,
    decreases xs.len(),
{
    if i == xs.len() {
        assert(xs.take(i) =~= xs);
    } else {
        lemma_fold_prefix(s, xs.drop_last(), f, i);
        assert(xs.drop_last().take(i) =~= xs.take(i));
    }
}

proof fn lemma_fold_step<S, X>(s: S, xs: Seq<X>, f: spec_fn(S, X) -> Option<S>, i: int)
    requires
        0 <= i < xs.len(),
    ensures
        fold_opt(s, xs.take(i + 1), f) == match fold_opt(s, xs.take(i), f) {
            Some(s1) => f(s1, xs[i]),
            None => None,
        },
{
    assert(xs.take(i + 1).drop_last() =~= xs.take(i));
}

/// The position of `s` in `t`: its first occurrence.
pub open spec fn first_index(t: Seq<Seq<char>>, s: Seq<char>) -> int
    decreases t.len(),
{
    if t.len() == 0 {
        0
    } else if t[0] == s {
        0
    } else {
        1 + first_index(t.subrange(1, t.len() as int), s)
    }
}

/// The table `t` once `s` is put in it, and the number of `s`: a text in
/// the table keeps its number, a new one is added at the end.
pub open spec fn put_text(t: Seq<Seq<char>>, s: Seq<char>) -> (Seq<Seq<char>>, int) {
    if t.contains(s) {
        (t, first_index(t, s))
    } else {
        (t.push(s), t.len() as int)
    }
}

/// A file of the output: one with a hash and an extension and no id gets
/// its extension and storage folder numbered (its own folder, else the
/// folder of stored files) and is stored unless a file with its hash is.
pub open spec fn file_step(st: PlugState, f: PluginFileObj) -> Option<PlugState> {
    if f.id is None && f.hash is Some && f.ext is Some {
        let (exts, eid) = put_text(st.exts, f.ext->0@);
        let loc = match f.location {
            Some(l) => Some(l@),
            None => match files_loc(st.db) {
                Some(l) => Some(l@),
                None => None,
            },
        };
        match loc {
            None => None,
            Some(l) => {
                let (stores, sid) = put_text(st.stores, l);
                let file = DbFileStorage::NoIdExist(
                    DbFileObjNoId { hash: f.hash->0, ext_id: eid as usize, storage_id: sid as usize },
                );
                if st.db.file_ids.contains_key(f.hash->0@) {
                    Some(PlugState { db: st.db, exts, stores })
                } else if st.db.file_max < usize::MAX {
                    Some(PlugState { db: file_added(st.db, file), exts, stores })
                } else {
                    None
                }
            },
        }
    } else {
        Some(st)
    }
}

/// A tag of the output, put in the namespace of its name.
pub open spec fn tag_step(st: PlugState, t: TagObject) -> Option<PlugState> {
    if !st.db.namespace_ids.contains_key(t.namespace.name@) {
        None
    } else {
        let tg = DbTagNNS { name: t.tag, namespace: st.db.namespace_ids[t.namespace.name@] };
        if st.db.tag_ids.contains_key(tag_key(tg)) || st.db.tag_max < usize::MAX {
            Some(PlugState { db: tag_added(st.db, tg, None), ..st })
        } else {
            None
        }
    }
}

/// A setting of the output.
pub open spec fn setting_step(st: PlugState, s: DbSettingObj) -> Option<PlugState> {
    if st.db.setting_ids.contains_key(s.name@) || st.db.settings_max < usize::MAX {
        Some(PlugState { db: setting_added(st.db, s), ..st })
    } else {
        None
    }
}

/// The job an output's job is put as: without its id, and with a repeat
/// time of 0 where it has none.
pub open spec fn output_job(j: DbJobsObj) -> DbJobsObj {
    DbJobsObj {
        id: None,
        reptime: Some(
            match j.reptime {
                Some(r) => r,
                None => 0,
            },
        ),
        ..j
    }
}

/// A job of the output.
pub open spec fn job_step(st: PlugState, j: DbJobsObj) -> Option<PlugState> {
    if st.db.jobs_max < usize::MAX {
        Some(PlugState { db: job_put(st.db, output_job(j)), ..st })
    } else {
        None
    }
}

/// A relationship of the output: its file by hash, its tag by name and
/// namespace name; all must be stored.
pub open spec fn relationship_step(st: PlugState, r: DbPluginRelationshipObj) -> Option<PlugState> {
    if !st.db.file_ids.contains_key(r.file_hash@) || !st.db.namespace_ids.contains_key(r.tag_namespace@) {
        None
    } else {
        let key = (r.tag_name@, st.db.namespace_ids[r.tag_namespace@]);
        if !st.db.tag_ids.contains_key(key) {
            None
        } else {
            let f = st.db.file_ids[r.file_hash@];
            let t = st.db.tag_ids[key];
            if cantor_fits(f, t) {
                Some(PlugState { db: relationship_added(st.db, f, t), ..st })
            } else {
                None
            }
        }
    }
}

pub open spec fn file_stepper() -> spec_fn(PlugState, PluginFileObj) -> Option<PlugState> {
    |s: PlugState, x: PluginFileObj| file_step(s, x)
}

pub open spec fn tag_stepper() -> spec_fn(PlugState, TagObject) -> Option<PlugState> {
    |s: PlugState, x: TagObject| tag_step(s, x)
}

pub open spec fn setting_stepper() -> spec_fn(PlugState, DbSettingObj) -> Option<PlugState> {
    |s: PlugState, x: DbSettingObj| setting_step(s, x)
}

pub open spec fn job_stepper() -> spec_fn(PlugState, DbJobsObj) -> Option<PlugState> {
    |s: PlugState, x: DbJobsObj| job_step(s, x)
}

pub open spec fn relationship_stepper() -> spec_fn(PlugState, DbPluginRelationshipObj) -> Option<PlugState> {
    |s: PlugState, x: DbPluginRelationshipObj| relationship_step(s, x)
}

/// One output: its files, tags, settings, jobs and relationships in turn.
pub open spec fn output_step(st: PlugState, o: DBPluginOutput) -> Option<PlugState> {
    match fold_opt(st, o.file@, file_stepper()) {
        None => None,
        Some(s1) => match fold_opt(s1, o.tag@, tag_stepper()) {
            None => None,
            Some(s2) => match fold_opt(s2, o.setting@, setting_stepper()) {
                None => None,
                Some(s3) => match fold_opt(s3, o.jobs@, job_stepper()) {
                    None => None,
                    Some(s4) => fold_opt(s4, o.relationship@, relationship_stepper()),
                },
            },
        },
    }
}

pub open spec fn output_stepper() -> spec_fn(PlugState, DBPluginOutput) -> Option<PlugState> {
    |s: PlugState, x: DBPluginOutput| output_step(s, x)
}

/// One piece of plugin output: additions are applied, deletions and
/// nothing change nothing.
pub open spec fn enum_step(st: PlugState, e: DBPluginOutputEnum) -> Option<PlugState> {
    match e {
        DBPluginOutputEnum::Add(os) => fold_opt(st, os@, output_stepper()),
        _ => Some(st),
    }
}

pub open spec fn enum_stepper() -> spec_fn(PlugState, DBPluginOutputEnum) -> Option<PlugState> {
    |s: PlugState, x: DBPluginOutputEnum| enum_step(s, x)
}

/// The state once the plugin output `data` is applied in order; `None` when
/// a step cannot be made (a missing namespace, file or tag, no folder for a
/// file, or a full counter).
pub open spec fn plugin_output_applied(st: PlugState, data: Seq<DBPluginOutputEnum>) -> Option<PlugState> {
    fold_opt(st, data, enum_stepper())
}

/// The texts of a table.
pub open spec fn texts(t: Seq<String>) -> Seq<Seq<char>> {
    t.map_values(|s: String| s@)
}

/// The state of a database and its two tables.
pub open spec fn plug_view(db: NewinMemDB, exts: Seq<String>, stores: Seq<String>) -> PlugState {
    PlugState { db: db@, exts: texts(exts), stores: texts(stores) }
}

/// Puts `s` in the table `t` and returns its number.
fn put_text_exec(t: &mut Vec<String>, s: &String) -> (id: usize)
    ensures
        (texts(final(t)@), id as int) == put_text(texts(old(t)@), s@),
{
    let ghost tv = texts(t@);
    let mut k: usize = 0;
    while k < t.len()
        invariant
            k <= t.len(),
            tv == texts(t@),
            t@ == old(t)@,
            forall|m: int| 0 <= m < k ==> tv[m] != s@,
        decreases t.len() - k,
    {
        if t[k] == *s {
            proof {
                assert(tv[k as int] == s@);
                assert(tv.contains(s@));
                lemma_first_index(tv, s@, k as int);
            }
            return k;
        }
        k = k + 1;
    }
    proof {
        assert(!tv.contains(s@)) by {
            if tv.contains(s@) {
                let m = choose|m: int| 0 <= m < tv.len() && tv[m] == s@;
            }
        }
    }
    let id = t.len();
    t.push(s.clone());
    assert(texts(t@) =~= tv.push(s@));
    id
}

proof fn lemma_first_index(t: Seq<Seq<char>>, s: Seq<char>, k: int)
    requires
        0 <= k < t.len(),
        t[k] == s,
        forall|m: int| 0 <= m < k ==> t[m] != s,
    ensures
        first_index(t, s) == k,
    decreases k,
{
    if k > 0 {
        let r = t.subrange(1, t.len() as int);
        assert forall|m: int| 0 <= m < k - 1 implies r[m] != s by {
            assert(r[m] == t[m + 1]);
        }
        lemma_first_index(r, s, k - 1);
    }
}

fn apply_file(db: &mut NewinMemDB, exts: &mut Vec<String>, stores: &mut Vec<String>, f: PluginFileObj)
    requires
        old(db).wf(),
        file_step(plug_view(*old(db), old(exts)@, old(stores)@), f) is Some,
    ensures
        final(db).wf(),
        Some(plug_view(*final(db), final(exts)@, final(stores)@)) == file_step(
            plug_view(*old(db), old(exts)@, old(stores)@),
            f,
        ),
{
    proof {
        db.lemma_wf_view();
    }
    match (f.id, f.hash, f.ext) {
        (None, Some(hash), Some(ext)) => {
            let eid = put_text_exec(exts, &ext);
            let loc = match f.location {
                Some(l) => l,
                None => {
                    let name = "FilesLoc".to_owned();
                    match db.settings_get_name(&name) {
                        Some(s) => match &s.param {
                            Some(l) => l.clone(),
                            None => {
                                return;
                            },
                        },
                        None => {
                            return;
                        },
                    }
                },
            };
            let sid = put_text_exec(stores, &loc);
            if db.file_get_hash(&hash).is_some() {
                return;
            }
            db.file_put(DbFileStorage::NoIdExist(DbFileObjNoId { hash, ext_id: eid, storage_id: sid }));
        },
        _ => {},
    }
}

fn apply_tag(db: &mut NewinMemDB, t: TagObject)
    requires
        old(db).wf(),
        tag_step(PlugState { db: old(db)@, exts: Seq::empty(), stores: Seq::empty() }, t) is Some,
    ensures
        final(db).wf(),
        final(db)@ == tag_added(
            old(db)@,
            DbTagNNS { name: t.tag, namespace: old(db)@.namespace_ids[t.namespace.name@] },
            None,
        ),
{
    let ns = match db.namespace_get(&t.namespace.name) {
        Some(n) => *n,
        None => {
            return;
        },
    };
    let tg = DbTagNNS { name: t.tag, namespace: ns };
    db.tags_put(&tg, None);
}

fn apply_job(db: &mut NewinMemDB, j: DbJobsObj)
    requires
        old(db).wf(),
        old(db)@.jobs_max < usize::MAX,
    ensures
        final(db).wf(),
        final(db)@ == job_put(old(db)@, output_job(j)),
{
    let reptime = match j.reptime {
        Some(r) => r,
        None => 0,
    };
    let _ = table_put_owned(db, DbJobsObj { id: None, reptime: Some(reptime), ..j });
}

fn apply_relationship(db: &mut NewinMemDB, r: DbPluginRelationshipObj)
    requires
        old(db).wf(),
        relationship_step(PlugState { db: old(db)@, exts: Seq::empty(), stores: Seq::empty() }, r) is Some,
    ensures
        final(db).wf(),
        relationship_step(PlugState { db: old(db)@, exts: Seq::empty(), stores: Seq::empty() }, r) == Some(
            PlugState { db: final(db)@, exts: Seq::empty(), stores: Seq::empty() },
        ),
{
    let f = match db.file_get_hash(&r.file_hash) {
        Some(f) => *f,
        None => {
            return;
        },
    };
    let ns = match db.namespace_get(&r.tag_namespace) {
        Some(n) => *n,
        None => {
            return;
        },
    };
    let key = DbTagNNS { name: r.tag_name, namespace: ns };
    let t = match db.tags_get_id(&key) {
        Some(t) => *t,
        None => {
            return;
        },
    };
    match cantor_checked(f, t) {
        Some(_) => db.relationship_add(f, t),
        None => {},
    }
}

/// Applies the files of an output in order.
fn apply_files(db: &mut NewinMemDB, exts: &mut Vec<String>, stores: &mut Vec<String>, xs: Vec<PluginFileObj>)
    requires
        old(db).wf(),
        fold_opt(plug_view(*old(db), old(exts)@, old(stores)@), xs@, file_stepper()) is Some,
    ensures
        final(db).wf(),
        Some(plug_view(*final(db), final(exts)@, final(stores)@)) == fold_opt(
            plug_view(*old(db), old(exts)@, old(stores)@),
            xs@,
            file_stepper(),
        ),
{
    let ghost st0 = plug_view(*db, exts@, stores@);
    let ghost orig = xs@;
    let n = xs.len();
    assert(orig.len() == n);
    let mut rest = xs;
    let mut i: usize = 0;
    proof {
        assert(orig.take(0) =~= Seq::<PluginFileObj>::empty());
        assert(orig.subrange(0, orig.len() as int) =~= orig);
    }
    while rest.len() > 0
        invariant
            db.wf(),
            i <= orig.len(),
            orig.len() <= usize::MAX,
            rest@ == orig.subrange(i as int, orig.len() as int),
            fold_opt(st0, orig, file_stepper()) is Some,
            fold_opt(st0, orig.take(i as int), file_stepper()) == Some(plug_view(*db, exts@, stores@)),
        decreases rest.len(),
    {
        let x = rest.remove(0);
        proof {
            assert(x == orig[i as int]);
            lemma_fold_prefix(st0, orig, file_stepper(), i + 1);
            lemma_fold_step(st0, orig, file_stepper(), i as int);
            assert(rest@ =~= orig.subrange(i + 1, orig.len() as int));
        }
        let ghost before = plug_view(*db, exts@, stores@);
        assert(file_step(before, x) is Some);
        apply_file(db, exts, stores, x);
        i = i + 1;
    }
    proof {
        assert(orig.take(i as int) =~= orig);
    }
}

/// Applies the tags of an output in order.
fn apply_tags(db: &mut NewinMemDB, exts: &mut Vec<String>, stores: &mut Vec<String>, xs: Vec<TagObject>)
    requires
        old(db).wf(),
        fold_opt(plug_view(*old(db), old(exts)@, old(stores)@), xs@, tag_stepper()) is Some,
    ensures
        final(db).wf(),
        Some(plug_view(*final(db), final(exts)@, final(stores)@)) == fold_opt(
            plug_view(*old(db), old(exts)@, old(stores)@),
            xs@,
            tag_stepper(),
        ),
{
    let ghost st0 = plug_view(*db, exts@, stores@);
    let ghost orig = xs@;
    let n = xs.len();
    assert(orig.len() == n);
    let mut rest = xs;
    let mut i: usize = 0;
    proof {
        assert(orig.take(0) =~= Seq::<TagObject>::empty());
        assert(orig.subrange(0, orig.len() as int) =~= orig);
    }
    while rest.len() > 0
        invariant
            db.wf(),
            i <= orig.len(),
            orig.len() <= usize::MAX,
            rest@ == orig.subrange(i as int, orig.len() as int),
            fold_opt(st0, orig, tag_stepper()) is Some,
            fold_opt(st0, orig.take(i as int), tag_stepper()) == Some(plug_view(*db, exts@, stores@)),
        decreases rest.len(),
    {
        let x = rest.remove(0);
        proof {
            assert(x == orig[i as int]);
            lemma_fold_prefix(st0, orig, tag_stepper(), i + 1);
            lemma_fold_step(st0, orig, tag_stepper(), i as int);
            assert(rest@ =~= orig.subrange(i + 1, orig.len() as int));
        }
        let ghost before = plug_view(*db, exts@, stores@);
        assert(tag_step(before, x) is Some);
        proof {
            assert(tag_step(PlugState { db: before.db, exts: Seq::empty(), stores: Seq::empty() }, x) is Some);
        }
        apply_tag(db, x);
        i = i + 1;
    }
    proof {
        assert(orig.take(i as int) =~= orig);
    }
}

/// Applies the settings of an output in order.
fn apply_settings(db: &mut NewinMemDB, exts: &mut Vec<String>, stores: &mut Vec<String>, xs: Vec<DbSettingObj>)
    requires
        old(db).wf(),
        fold_opt(plug_view(*old(db), old(exts)@, old(stores)@), xs@, setting_stepper()) is Some,
    ensures
        final(db).wf(),
        Some(plug_view(*final(db), final(exts)@, final(stores)@)) == fold_opt(
            plug_view(*old(db), old(exts)@, old(stores)@),
            xs@,
            setting_stepper(),
        ),
{
    let ghost st0 = plug_view(*db, exts@, stores@);
    let ghost orig = xs@;
    let n = xs.len();
    assert(orig.len() == n);
    let mut rest = xs;
    let mut i: usize = 0;
    proof {
        assert(orig.take(0) =~= Seq::<DbSettingObj>::empty());
        assert(orig.subrange(0, orig.len() as int) =~= orig);
    }
    while rest.len() > 0
        invariant
            db.wf(),
            i <= orig.len(),
            orig.len() <= usize::MAX,
            rest@ == orig.subrange(i as int, orig.len() as int),
            fold_opt(st0, orig, setting_stepper()) is Some,
            fold_opt(st0, orig.take(i as int), setting_stepper()) == Some(plug_view(*db, exts@, stores@)),
        decreases rest.len(),
    {
        let x = rest.remove(0);
        proof {
            assert(x == orig[i as int]);
            lemma_fold_prefix(st0, orig, setting_stepper(), i + 1);
            lemma_fold_step(st0, orig, setting_stepper(), i as int);
            assert(rest@ =~= orig.subrange(i + 1, orig.len() as int));
        }
        let ghost before = plug_view(*db, exts@, stores@);
        assert(setting_step(before, x) is Some);
        db.settings_add(x.name, x.pretty, x.num, x.param);
        i = i + 1;
    }
    proof {
        assert(orig.take(i as int) =~= orig);
    }
}

/// Applies the jobs of an output in order.
fn apply_jobs(db: &mut NewinMemDB, exts: &mut Vec<String>, stores: &mut Vec<String>, xs: Vec<DbJobsObj>)
    requires
        old(db).wf(),
        fold_opt(plug_view(*old(db), old(exts)@, old(stores)@), xs@, job_stepper()) is Some,
    ensures
        final(db).wf(),
        Some(plug_view(*final(db), final(exts)@, final(stores)@)) == fold_opt(
            plug_view(*old(db), old(exts)@, old(stores)@),
            xs@,
            job_stepper(),
        ),
{
    let ghost st0 = plug_view(*db, exts@, stores@);
    let ghost orig = xs@;
    let n = xs.len();
    assert(orig.len() == n);
    let mut rest = xs;
    let mut i: usize = 0;
    proof {
        assert(orig.take(0) =~= Seq::<DbJobsObj>::empty());
        assert(orig.subrange(0, orig.len() as int) =~= orig);
    }
    while rest.len() > 0
        invariant
            db.wf(),
            i <= orig.len(),
            orig.len() <= usize::MAX,
            rest@ == orig.subrange(i as int, orig.len() as int),
            fold_opt(st0, orig, job_stepper()) is Some,
            fold_opt(st0, orig.take(i as int), job_stepper()) == Some(plug_view(*db, exts@, stores@)),
        decreases rest.len(),
    {
        let x = rest.remove(0);
        proof {
            assert(x == orig[i as int]);
            lemma_fold_prefix(st0, orig, job_stepper(), i + 1);
            lemma_fold_step(st0, orig, job_stepper(), i as int);
            assert(rest@ =~= orig.subrange(i + 1, orig.len() as int));
        }
        let ghost before = plug_view(*db, exts@, stores@);
        assert(job_step(before, x) is Some);
        apply_job(db, x);
        i = i + 1;
    }
    proof {
        assert(orig.take(i as int) =~= orig);
    }
}

/// Applies the relationships of an output in order.
fn apply_relationships(db: &mut NewinMemDB, exts: &mut Vec<String>, stores: &mut Vec<String>, xs: Vec<DbPluginRelationshipObj>)
    requires
        old(db).wf(),
        fold_opt(plug_view(*old(db), old(exts)@, old(stores)@), xs@, relationship_stepper()) is Some,
    ensures
        final(db).wf(),
        Some(plug_view(*final(db), final(exts)@, final(stores)@)) == fold_opt(
            plug_view(*old(db), old(exts)@, old(stores)@),
            xs@,
            relationship_stepper(),
        ),
{
    let ghost st0 = plug_view(*db, exts@, stores@);
    let ghost orig = xs@;
    let n = xs.len();
    assert(orig.len() == n);
    let mut rest = xs;
    let mut i: usize = 0;
    proof {
        assert(orig.take(0) =~= Seq::<DbPluginRelationshipObj>::empty());
        assert(orig.subrange(0, orig.len() as int) =~= orig);
    }
    while rest.len() > 0
        invariant
            db.wf(),
            i <= orig.len(),
            orig.len() <= usize::MAX,
            rest@ == orig.subrange(i as int, orig.len() as int),
            fold_opt(st0, orig, relationship_stepper()) is Some,
            fold_opt(st0, orig.take(i as int), relationship_stepper()) == Some(plug_view(*db, exts@, stores@)),
        decreases rest.len(),
    {
        let x = rest.remove(0);
        proof {
            assert(x == orig[i as int]);
            lemma_fold_prefix(st0, orig, relationship_stepper(), i + 1);
            lemma_fold_step(st0, orig, relationship_stepper(), i as int);
            assert(rest@ =~= orig.subrange(i + 1, orig.len() as int));
        }
        let ghost before = plug_view(*db, exts@, stores@);
        assert(relationship_step(before, x) is Some);
        proof {
            assert(relationship_step(PlugState { db: before.db, exts: Seq::empty(), stores: Seq::empty() }, x) is Some);
        }
        apply_relationship(db, x);
        i = i + 1;
    }
    proof {
        assert(orig.take(i as int) =~= orig);
    }
}

/// Applies outputs in order.
fn apply_outputs(db: &mut NewinMemDB, exts: &mut Vec<String>, stores: &mut Vec<String>, xs: Vec<DBPluginOutput>)
    requires
        old(db).wf(),
        fold_opt(plug_view(*old(db), old(exts)@, old(stores)@), xs@, output_stepper()) is Some,
    ensures
        final(db).wf(),
        Some(plug_view(*final(db), final(exts)@, final(stores)@)) == fold_opt(
            plug_view(*old(db), old(exts)@, old(stores)@),
            xs@,
            output_stepper(),
        ),
{
    let ghost st0 = plug_view(*db, exts@, stores@);
    let ghost orig = xs@;
    let n = xs.len();
    assert(orig.len() == n);
    let mut rest = xs;
    let mut i: usize = 0;
    proof {
        assert(orig.take(0) =~= Seq::<DBPluginOutput>::empty());
        assert(orig.subrange(0, orig.len() as int) =~= orig);
    }
    while rest.len() > 0
        invariant
            db.wf(),
            i <= orig.len(),
            orig.len() <= usize::MAX,
            rest@ == orig.subrange(i as int, orig.len() as int),
            fold_opt(st0, orig, output_stepper()) is Some,
            fold_opt(st0, orig.take(i as int), output_stepper()) == Some(plug_view(*db, exts@, stores@)),
        decreases rest.len(),
    {
        let x = rest.remove(0);
        proof {
            assert(x == orig[i as int]);
            lemma_fold_prefix(st0, orig, output_stepper(), i + 1);
            lemma_fold_step(st0, orig, output_stepper(), i as int);
            assert(rest@ =~= orig.subrange(i + 1, orig.len() as int));
        }
        let ghost before = plug_view(*db, exts@, stores@);
        assert(output_step(before, x) is Some);
        apply_output(db, exts, stores, x);
        i = i + 1;
    }
    proof {
        assert(orig.take(i as int) =~= orig);
    }
}

/// Applies one output: its files, tags, settings, jobs and relationships.
fn apply_output(db: &mut NewinMemDB, exts: &mut Vec<String>, stores: &mut Vec<String>, o: DBPluginOutput)
    requires
        old(db).wf(),
        output_step(plug_view(*old(db), old(exts)@, old(stores)@), o) is Some,
    ensures
        final(db).wf(),
        Some(plug_view(*final(db), final(exts)@, final(stores)@)) == output_step(
            plug_view(*old(db), old(exts)@, old(stores)@),
            o,
        ),
{
    let DBPluginOutput { tag, setting, relationship, jobs, file } = o;
    apply_files(db, exts, stores, file);
    apply_tags(db, exts, stores, tag);
    apply_settings(db, exts, stores, setting);
    apply_jobs(db, exts, stores, jobs);
    apply_relationships(db, exts, stores, relationship);
}

/// Applies pieces of plugin output in order.
fn apply_enums(db: &mut NewinMemDB, exts: &mut Vec<String>, stores: &mut Vec<String>, xs: Vec<DBPluginOutputEnum>)
    requires
        old(db).wf(),
        fold_opt(plug_view(*old(db), old(exts)@, old(stores)@), xs@, enum_stepper()) is Some,
    ensures
        final(db).wf(),
        Some(plug_view(*final(db), final(exts)@, final(stores)@)) == fold_opt(
            plug_view(*old(db), old(exts)@, old(stores)@),
            xs@,
            enum_stepper(),
        ),
{
    let ghost st0 = plug_view(*db, exts@, stores@);
    let ghost orig = xs@;
    let n = xs.len();
    assert(orig.len() == n);
    let mut rest = xs;
    let mut i: usize = 0;
    proof {
        assert(orig.take(0) =~= Seq::<DBPluginOutputEnum>::empty());
        assert(orig.subrange(0, orig.len() as int) =~= orig);
    }
    while rest.len() > 0
        invariant
            db.wf(),
            i <= orig.len(),
            orig.len() <= usize::MAX,
            rest@ == orig.subrange(i as int, orig.len() as int),
            fold_opt(st0, orig, enum_stepper()) is Some,
            fold_opt(st0, orig.take(i as int), enum_stepper()) == Some(plug_view(*db, exts@, stores@)),
        decreases rest.len(),
    {
        let x = rest.remove(0);
        proof {
            assert(x == orig[i as int]);
            lemma_fold_prefix(st0, orig, enum_stepper(), i + 1);
            lemma_fold_step(st0, orig, enum_stepper(), i as int);
            assert(rest@ =~= orig.subrange(i + 1, orig.len() as int));
        }
        let ghost before = plug_view(*db, exts@, stores@);
        assert(enum_step(before, x) is Some);
        match x {
            DBPluginOutputEnum::Add(os) => apply_outputs(db, exts, stores, os),
            _ => {},
        }
        i = i + 1;
    }
    proof {
        assert(orig.take(i as int) =~= orig);
    }
}

/// Applies what a plugin handed back to the database, numbering the
/// extensions and storage folders of new files in `exts` and `stores`.
pub fn apply_plugin_output(
    db: &mut NewinMemDB,
    exts: &mut Vec<String>,
    stores: &mut Vec<String>,
    data: Vec<DBPluginOutputEnum>,
)
    requires
        old(db).wf(),
        plugin_output_applied(plug_view(*old(db), old(exts)@, old(stores)@), data@) is Some,
    ensures
        final(db).wf(),
        Some(plug_view(*final(db), final(exts)@, final(stores)@)) == plugin_output_applied(
            plug_view(*old(db), old(exts)@, old(stores)@),
            data@,
        ),
{
    apply_enums(db, exts, stores, data);
}


/// After the settings `xs` of an output are applied, a name leads to the
/// last of them with that name, whether or not the name was stored before;
/// a name none of them has keeps what it had.
pub proof fn law_output_settings_stored(st: PlugState, xs: Seq<DbSettingObj>, n: Seq<char>)
    requires
        st.db.wf(),
    ensures
        fold_opt(st, xs, setting_stepper()) matches Some(st2) ==> {
            &&& st2.db.wf()
            &&& last_setting(xs, n) matches Some(o) ==> st2.db.setting_ids.contains_key(n)
                && st2.db.settings[st2.db.setting_ids[n]] == o
            &&& last_setting(xs, n) is None ==> (st2.db.setting_ids.contains_key(n)
                == st.db.setting_ids.contains_key(n) && (st.db.setting_ids.contains_key(n)
                ==> st2.db.settings[st2.db.setting_ids[n]] == st.db.settings[st.db.setting_ids[n]]))
        },
    decreases xs.len(),
{
    if xs.len() > 0 {
        let pre = xs.drop_last();
        law_output_settings_stored(st, pre, n);
        match fold_opt(st, pre, setting_stepper()) {
            Some(mid) => {
                let x = xs.last();
                if setting_step(mid, x) is Some {
                    let w = setting_added(mid.db, x);
                    law_setting_read_after_write(mid.db, x);
                    if x.name@ != n {
                        law_setting_add_keeps_others(mid.db, x, n);
                        assert(last_setting(xs, n) == last_setting(pre, n));
                    } else {
                        law_setting_add_keeps_others(mid.db, x, x.name@ + seq!['x']);
                    }
                }
            },
            None => {},
        }
    }
}


/// After the tags `xs` of an output are applied, each of them is stored
/// under its name and the id of its namespace, every tag stored before
/// keeps its id, and the namespaces are as they were.
pub proof fn law_output_tags_stored(st: PlugState, xs: Seq<TagObject>)
    ensures
        fold_opt(st, xs, tag_stepper()) matches Some(st2) ==> {
            &&& st2.db.namespace_ids == st.db.namespace_ids
            &&& forall|key: (Seq<char>, usize)| #[trigger] st.db.tag_ids.contains_key(key)
                ==> st2.db.tag_ids.contains_key(key) && st2.db.tag_ids[key] == st.db.tag_ids[key]
            &&& forall|k: int| 0 <= k < xs.len() ==> st.db.namespace_ids.contains_key(#[trigger] xs[k].namespace.name@)
                && st2.db.tag_ids.contains_key((xs[k].tag@, st.db.namespace_ids[xs[k].namespace.name@]))
        },
    decreases xs.len(),
{
    if xs.len() > 0 {
        let pre = xs.drop_last();
        law_output_tags_stored(st, pre);
        match fold_opt(st, pre, tag_stepper()) {
            Some(mid) => {
                let x = xs.last();
                if tag_step(mid, x) is Some {
                    let st2 = tag_step(mid, x)->0;
                    let tg = DbTagNNS { name: x.tag, namespace: mid.db.namespace_ids[x.namespace.name@] };
                    law_tag_put_then_lookup(mid.db, tg, None);
                    assert forall|key: (Seq<char>, usize)| #[trigger] mid.db.tag_ids.contains_key(key)
                        implies st2.db.tag_ids.contains_key(key) && st2.db.tag_ids[key] == mid.db.tag_ids[key] by {
                        if key != tag_key(tg) {
                        }
                    }
                    assert forall|k: int| 0 <= k < xs.len() implies st.db.namespace_ids.contains_key(#[trigger] xs[k].namespace.name@)
                        && st2.db.tag_ids.contains_key((xs[k].tag@, st.db.namespace_ids[xs[k].namespace.name@])) by {
                        if k < xs.len() - 1 {
                            assert(xs[k] == pre[k]);
                            assert(mid.db.tag_ids.contains_key((pre[k].tag@, st.db.namespace_ids[pre[k].namespace.name@])));
                        }
                    }
                }
            },
            None => {},
        }
    }
}

/// After the relationships `xs` of an output are applied, each of them is
/// stored between the file with its hash and the tag with its name and
/// namespace, and the files, tags and namespaces are as they were.
pub proof fn law_output_relationships_stored(st: PlugState, xs: Seq<DbPluginRelationshipObj>)
    ensures
        fold_opt(st, xs, relationship_stepper()) matches Some(st2) ==> {
            &&& st2.db.namespace_ids == st.db.namespace_ids
            &&& st2.db.tag_ids == st.db.tag_ids
            &&& st2.db.file_ids == st.db.file_ids
            &&& forall|k: int| 0 <= k < xs.len() ==> {
                let r = #[trigger] xs[k];
                let key = (r.tag_name@, st.db.namespace_ids[r.tag_namespace@]);
                &&& st.db.file_ids.contains_key(r.file_hash@)
                &&& st.db.namespace_ids.contains_key(r.tag_namespace@)
                &&& st.db.tag_ids.contains_key(key)
                &&& st2.db.relationships.contains(
                    cantor(st.db.file_ids[r.file_hash@] as int, st.db.tag_ids[key] as int) as usize,
                )
            }
        },
    decreases xs.len(),
{
    if xs.len() > 0 {
        let pre = xs.drop_last();
        law_output_relationships_stored(st, pre);
        match fold_opt(st, pre, relationship_stepper()) {
            Some(mid) => {
                let x = xs.last();
                if relationship_step(mid, x) is Some {
                    let st2 = relationship_step(mid, x)->0;
                    assert forall|k: int| 0 <= k < xs.len() implies {
                        let r = #[trigger] xs[k];
                        let key = (r.tag_name@, st.db.namespace_ids[r.tag_namespace@]);
                        &&& st.db.file_ids.contains_key(r.file_hash@)
                        &&& st.db.namespace_ids.contains_key(r.tag_namespace@)
                        &&& st.db.tag_ids.contains_key(key)
                        &&& st2.db.relationships.contains(
                            cantor(st.db.file_ids[r.file_hash@] as int, st.db.tag_ids[key] as int) as usize,
                        )
                    } by {
                        if k < xs.len() - 1 {
                            assert(xs[k] == pre[k]);
                        }
                    }
                }
            },
            None => {},
        }
    }
}

proof fn lemma_put_text_grows(t: Seq<Seq<char>>, s: Seq<char>)
    ensures
        put_text(t, s).0.contains(s),
        t.is_prefix_of(put_text(t, s).0),
{
    if !t.contains(s) {
        assert(t.push(s)[t.len() as int] == s);
        assert(t.is_prefix_of(t.push(s))) by {
            assert(t.push(s).subrange(0, t.len() as int) =~= t);
        }
    } else {
        assert(t.subrange(0, t.len() as int) =~= t);
    }
}

/// After the files `xs` of an output are applied, each one to be stored (a
/// hash and an extension, no id) is found by its hash and its extension is
/// numbered; a hash stored before keeps its id, and the numbered
/// extensions and folders keep their numbers.
pub proof fn law_output_files_stored(st: PlugState, xs: Seq<PluginFileObj>)
    ensures
        fold_opt(st, xs, file_stepper()) matches Some(st2) ==> {
            &&& st.exts.is_prefix_of(st2.exts)
            &&& st.stores.is_prefix_of(st2.stores)
            &&& forall|h: Seq<char>| #[trigger] st.db.file_ids.contains_key(h)
                ==> st2.db.file_ids.contains_key(h) && st2.db.file_ids[h] == st.db.file_ids[h]
            &&& forall|k: int| 0 <= k < xs.len() && (#[trigger] xs[k]).id is None && xs[k].hash is Some
                && xs[k].ext is Some ==> st2.db.file_ids.contains_key(xs[k].hash->0@)
                && st2.exts.contains(xs[k].ext->0@)
        },
    decreases xs.len(),
{
    if xs.len() > 0 {
        let pre = xs.drop_last();
        law_output_files_stored(st, pre);
        match fold_opt(st, pre, file_stepper()) {
            Some(mid) => {
                let x = xs.last();
                if file_step(mid, x) is Some {
                    let st2 = file_step(mid, x)->0;
                    if x.id is None && x.hash is Some && x.ext is Some {
                        lemma_put_text_grows(mid.exts, x.ext->0@);
                        let loc = match x.location {
                            Some(l) => l@,
                            None => files_loc(mid.db)->0@,
                        };
                        lemma_put_text_grows(mid.stores, loc);
                    } else {
                        assert(st2 == mid);
                    }
                    assert forall|k: int| 0 <= k < xs.len() && (#[trigger] xs[k]).id is None && xs[k].hash is Some
                        && xs[k].ext is Some implies st2.db.file_ids.contains_key(xs[k].hash->0@)
                        && st2.exts.contains(xs[k].ext->0@) by {
                        if k < xs.len() - 1 {
                            assert(xs[k] == pre[k]);
                            let e = xs[k].ext->0@;
                            let m = choose|m: int| 0 <= m < mid.exts.len() && mid.exts[m] == e;
                            assert(st2.exts[m] == e);
                        }
                    }
                }
            },
            None => {},
        }
    }
}

/// Whether the job table of `db` holds a job with the time, site and
/// params of `x` and its repeat time, 0 where it has none.
pub open spec fn holds_output_job(db: MemDbView, x: DbJobsObj) -> bool {
    exists|id: usize| {
        let j = #[trigger] db.jobs[id];
        &&& db.jobs.contains_key(id)
        &&& j.time == x.time
        &&& j.site@ == x.site@
        &&& params_view(j.param@) == params_view(x.param@)
        &&& j.reptime == Some(match x.reptime { Some(r) => r, None => 0usize })
    }
}

/// After the jobs `xs` of an output are applied, the job table holds, for
/// each of them, a job with its time, site and params and its repeat time
/// (0 where it has none), and every job stored before stays under its id.
pub proof fn law_output_jobs_queued(st: PlugState, xs: Seq<DbJobsObj>)
    requires
        st.db.wf(),
    ensures
        fold_opt(st, xs, job_stepper()) matches Some(st2) ==> {
            &&& st2.db.wf()
            &&& forall|id: usize| #[trigger] st.db.jobs.contains_key(id)
                ==> st2.db.jobs.contains_key(id) && st2.db.jobs[id] == st.db.jobs[id]
            &&& forall|k: int| 0 <= k < xs.len() ==> holds_output_job(st2.db, #[trigger] xs[k])
        },
    decreases xs.len(),
{
    if xs.len() > 0 {
        let pre = xs.drop_last();
        law_output_jobs_queued(st, pre);
        match fold_opt(st, pre, job_stepper()) {
            Some(mid) => {
                let x = xs.last();
                if job_step(mid, x) is Some {
                    let st2 = job_step(mid, x)->0;
                    let oj = output_job(x);
                    if !table_has_same(mid.db, oj) {
                        law_job_ids_fresh(mid.db, with_id(oj, mid.db.jobs_max));
                        assert(st2.db.jobs.contains_key(mid.db.jobs_max));
                        assert(st2.db.jobs[mid.db.jobs_max] == with_id(oj, mid.db.jobs_max));
                    } else {
                        let w = choose|w: usize| mid.db.jobs.contains_key(w) && same_entry(#[trigger] mid.db.jobs[w], oj);
                        assert(st2.db.jobs[w] == mid.db.jobs[w]);
                    }
                    assert forall|k: int| 0 <= k < xs.len() implies holds_output_job(st2.db, #[trigger] xs[k]) by {
                        if k < xs.len() - 1 {
                            assert(xs[k] == pre[k]);
                            assert(holds_output_job(mid.db, pre[k]));
                            let id = choose|id: usize| {
                                let j = #[trigger] mid.db.jobs[id];
                                &&& mid.db.jobs.contains_key(id)
                                &&& j.time == pre[k].time
                                &&& j.site@ == pre[k].site@
                                &&& params_view(j.param@) == params_view(pre[k].param@)
                                &&& j.reptime == Some(match pre[k].reptime { Some(r) => r, None => 0usize })
                            };
                            assert(st2.db.jobs.contains_key(id) && st2.db.jobs[id] == mid.db.jobs[id]);
                        } else {
                            if !table_has_same(mid.db, oj) {
                                assert(st2.db.jobs.contains_key(mid.db.jobs_max));
                            } else {
                                let w = choose|w: usize| mid.db.jobs.contains_key(w) && same_entry(#[trigger] mid.db.jobs[w], oj);
                                assert(st2.db.jobs.contains_key(w));
                            }
                        }
                    }
                }
            },
            None => {},
        }
    }
}

proof fn lemma_jobs_keep_settings(st: PlugState, xs: Seq<DbJobsObj>)
    ensures
        fold_opt(st, xs, job_stepper()) matches Some(st2) ==> st2.db.setting_ids == st.db.setting_ids
            && st2.db.settings == st.db.settings,
    decreases xs.len(),
{
    if xs.len() > 0 {
        lemma_jobs_keep_settings(st, xs.drop_last());
    }
}

proof fn lemma_relationships_keep_settings(st: PlugState, xs: Seq<DbPluginRelationshipObj>)
    ensures
        fold_opt(st, xs, relationship_stepper()) matches Some(st2) ==> st2.db.setting_ids == st.db.setting_ids
            && st2.db.settings == st.db.settings,
    decreases xs.len(),
{
    if xs.len() > 0 {
        lemma_relationships_keep_settings(st, xs.drop_last());
    }
}

proof fn lemma_files_keep_wf(st: PlugState, xs: Seq<PluginFileObj>)
    requires
        st.db.wf(),
    ensures
        fold_opt(st, xs, file_stepper()) matches Some(st2) ==> st2.db.wf(),
    decreases xs.len(),
{
    if xs.len() > 0 {
        lemma_files_keep_wf(st, xs.drop_last());
    }
}

proof fn lemma_tags_keep_wf(st: PlugState, xs: Seq<TagObject>)
    requires
        st.db.wf(),
    ensures
        fold_opt(st, xs, tag_stepper()) matches Some(st2) ==> st2.db.wf(),
    decreases xs.len(),
{
    if xs.len() > 0 {
        lemma_tags_keep_wf(st, xs.drop_last());
    }
}

/// Once an output is applied, each setting name it carries leads to the
/// last of its settings with that name, whether or not the name was stored
/// before: its jobs and relationships, applied after, leave settings alone.
pub proof fn law_output_applied_settings(st: PlugState, o: DBPluginOutput, n: Seq<char>)
    requires
        st.db.wf(),
    ensures
        output_step(st, o) matches Some(st2) ==> (last_setting(o.setting@, n) matches Some(x) ==> (
        st2.db.setting_ids.contains_key(n) && st2.db.settings[st2.db.setting_ids[n]] == x)),
{
    if output_step(st, o) is Some {
        let s1 = fold_opt(st, o.file@, file_stepper())->0;
        let s2 = fold_opt(s1, o.tag@, tag_stepper())->0;
        lemma_files_keep_wf(st, o.file@);
        lemma_tags_keep_wf(s1, o.tag@);
        law_output_settings_stored(s2, o.setting@, n);
        let s3 = fold_opt(s2, o.setting@, setting_stepper())->0;
        lemma_jobs_keep_settings(s3, o.jobs@);
        let s4 = fold_opt(s3, o.jobs@, job_stepper())->0;
        lemma_relationships_keep_settings(s4, o.relationship@);
    }
}

/// Applying plugin output that adds one output stores its settings: each
/// setting name it carries then leads to the last of its settings with
/// that name, whether or not the name was stored before.
pub proof fn law_applied_output_settings(st: PlugState, data: Seq<DBPluginOutputEnum>, n: Seq<char>)
    requires
        st.db.wf(),
        data.len() == 1,
        data[0] is Add,
        data[0]->Add_0@.len() == 1,
    ensures
        ({
            let o = data[0]->Add_0@[0];
            plugin_output_applied(st, data) matches Some(st2) ==> (last_setting(o.setting@, n) matches Some(x)
                ==> (st2.db.setting_ids.contains_key(n) && st2.db.settings[st2.db.setting_ids[n]] == x))
        }),
{
    let os = data[0]->Add_0@;
    let o = os[0];
    assert(data.drop_last() =~= Seq::<DBPluginOutputEnum>::empty());
    assert(os.drop_last() =~= Seq::<DBPluginOutput>::empty());
    assert(fold_opt(st, data.drop_last(), enum_stepper()) == Some(st));
    assert(data.last() == data[0]);
    assert(plugin_output_applied(st, data) == (enum_stepper())(st, data[0]));
    assert((enum_stepper())(st, data[0]) == enum_step(st, data[0]));
    assert(enum_step(st, data[0]) == fold_opt(st, os, output_stepper()));
    assert(fold_opt(st, os.drop_last(), output_stepper()) == Some(st));
    assert(os.last() == o);
    assert(fold_opt(st, os, output_stepper()) == (output_stepper())(st, o));
    assert((output_stepper())(st, o) == output_step(st, o));
    law_output_applied_settings(st, o, n);
}

} // verus!
