//! Answering the requests that plugins send to the database from the
//! in-memory database. Requests that need the files on disk, the plugins,
//! logging, the stored tables, or the table of file extensions (which the
//! in-memory database does not hold) are answered `Outside`, for the server
//! to handle.

use crate::cantor::{cantor, cantor_checked, cantor_fits};
use crate::deepeq::{job_view, JobView};
use crate::inmemdbnew::{
    namespace_added, parent_added, relationship_added, relationship_removed, selective_removed,
    set_at, setting_added, tag_added, tag_key, tag_put_id, MemDbView, NewinMemDB,
};
use crate::intcoms::types::{ParentsType, SupportedDBRequests};
use crate::jobs::copy_job;
use crate::memdb_laws::{law_setting_read_after_write, law_tag_put_then_lookup};
use crate::dbsearch::{relations_in_range, search_db_files, search_result, set_select};
use crate::jobs::{table_after_put, table_put};
use crate::sharedtypes::{
    DbFileObj, DbFileObjNoId, DbFileStorage, DbJobsObj, DbNamespaceObj, DbParentsObj, DbSettingObj, DbTagNNS,
};
use std::collections::HashMap;
use std::collections::HashSet;
use vstd::prelude::*;

verus! {

broadcast use vstd::std_specs::hash::group_hash_axioms;

/// The value that the in-memory database hands back for a request.
pub enum DbAnswer {
    /// Done.
    Ack,
    /// Not done: a counter or a pairing would not fit in a `usize`.
    Refused,
    /// The in-memory database does not answer this request.
    Outside,
    /// A yes or no.
    Flag(bool),
    /// An id or a number.
    Count(usize),
    /// An id, if one is stored.
    MaybeId(Option<usize>),
    /// A set of ids.
    Ids(HashSet<usize>),
    /// A set of ids, if one is stored.
    MaybeIds(Option<HashSet<usize>>),
    /// A tag, if one is stored.
    Tag(Option<DbTagNNS>),
    /// A namespace, if one is stored.
    Namespace(Option<DbNamespaceObj>),
    /// A setting, if one is stored.
    Setting(Option<DbSettingObj>),
    /// A job, if one is stored.
    Job(Option<DbJobsObj>),
    /// A file, if one is stored.
    File(Option<DbFileStorage>),
    /// Every file by id.
    Files(HashMap<usize, DbFileStorage>),
    /// A text.
    Text(String),
}

/// An answer as plain values: sets by their elements, a job by its view.
pub enum AnswerView {
    Ack,
    Refused,
    Outside,
    Flag(bool),
    Count(usize),
    MaybeId(Option<usize>),
    Ids(Set<usize>),
    MaybeIds(Option<Set<usize>>),
    Tag(Option<DbTagNNS>),
    Namespace(Option<DbNamespaceObj>),
    Setting(Option<DbSettingObj>),
    Job(Option<JobView>),
    File(Option<DbFileStorage>),
    Files(Map<usize, DbFileStorage>),
    Text(Seq<char>),
}

impl View for DbAnswer {
    type V = AnswerView;

    open spec fn view(&self) -> AnswerView {
        match self {
            DbAnswer::Ack => AnswerView::Ack,
            DbAnswer::Refused => AnswerView::Refused,
            DbAnswer::Outside => AnswerView::Outside,
            DbAnswer::Flag(b) => AnswerView::Flag(*b),
            DbAnswer::Count(n) => AnswerView::Count(*n),
            DbAnswer::MaybeId(o) => AnswerView::MaybeId(*o),
            DbAnswer::Ids(s) => AnswerView::Ids(s@),
            DbAnswer::MaybeIds(o) => AnswerView::MaybeIds(
                match o {
                    Some(s) => Some(s@),
                    None => None,
                },
            ),
            DbAnswer::Tag(t) => AnswerView::Tag(*t),
            DbAnswer::Namespace(n) => AnswerView::Namespace(*n),
            DbAnswer::Setting(s) => AnswerView::Setting(*s),
            DbAnswer::File(f) => AnswerView::File(*f),
            DbAnswer::Files(m) => AnswerView::Files(m@),
            DbAnswer::Text(t) => AnswerView::Text(t@),
            DbAnswer::Job(j) => AnswerView::Job(
                match j {
                    Some(j) => Some(job_view(*j)),
                    None => None,
                },
            ),
        }
    }
}

/// The value at `k`, if `m` has one.
pub open spec fn map_at<K, V>(m: Map<K, V>, k: K) -> Option<V> {
    if m.contains_key(k) {
        Some(m[k])
    } else {
        None
    }
}

/// Whether a tag can be put: it is known, or the tag counter can move on.
pub open spec fn tag_fits(v: MemDbView, t: DbTagNNS) -> bool {
    v.tag_ids.contains_key(tag_key(t)) || v.tag_max < usize::MAX
}

/// The folder of the stored files: the param of the setting `FilesLoc`.
pub open spec fn files_loc(v: MemDbView) -> Option<String> {
    if v.setting_ids.contains_key("FilesLoc"@) {
        v.settings[v.setting_ids["FilesLoc"@]].param
    } else {
        None
    }
}

/// Whether a request can be answered: a search names only searches that
/// exist, and the folder of the stored files is asked for only once it is
/// set.
pub open spec fn request_ok(v: MemDbView, req: SupportedDBRequests) -> bool {
    match req {
        SupportedDBRequests::Search((s, _, _)) => relations_in_range(s),
        SupportedDBRequests::GetDBLocation() => files_loc(v) is Some,
        _ => true,
    }
}

/// Whether the database `v` answers `req` with `a` and becomes `w`.
pub open spec fn request_answered(v: MemDbView, req: SupportedDBRequests, w: MemDbView, a: AnswerView) -> bool {
    match req {
        SupportedDBRequests::GetTagId(id) => w == v && a == AnswerView::Tag(map_at(v.tags, id)),
        SupportedDBRequests::PutTag(name, ns, _, id) => {
            let t = DbTagNNS { name, namespace: ns };
            if tag_fits(v, t) {
                w == tag_added(v, t, id) && a == AnswerView::Count(tag_put_id(v, t, id))
            } else {
                w == v && a == AnswerView::Refused
            }
        },
        SupportedDBRequests::PutTagRelationship(fid, name, ns, _, id) => {
            let t = DbTagNNS { name, namespace: ns };
            if !tag_fits(v, t) {
                w == v && a == AnswerView::Refused
            } else {
                let tid = tag_put_id(v, t, id);
                if cantor_fits(fid, tid) {
                    w == relationship_added(tag_added(v, t, id), fid, tid) && a == AnswerView::Ack
                } else {
                    w == tag_added(v, t, id) && a == AnswerView::Refused
                }
            }
        },
        SupportedDBRequests::GetTagName((name, ns)) => w == v && a == AnswerView::MaybeId(
            map_at(v.tag_ids, (name@, ns)),
        ),
        SupportedDBRequests::RelationshipAdd(file, tag, _) => if cantor_fits(file, tag) {
            w == relationship_added(v, file, tag) && a == AnswerView::Ack
        } else {
            w == v && a == AnswerView::Refused
        },
        SupportedDBRequests::RelationshipRemove(file, tag) => if cantor_fits(file, tag) {
            w == relationship_removed(v, file, tag) && a == AnswerView::Ack
        } else {
            w == v && a == AnswerView::Refused
        },
        SupportedDBRequests::RelationshipGetTagid(file) => w == v && a == AnswerView::MaybeIds(
            map_at(v.rel_file_tag, file),
        ),
        SupportedDBRequests::RelationshipGetFileid(tag) => w == v && a == AnswerView::MaybeIds(
            map_at(v.rel_tag_file, tag),
        ),
        SupportedDBRequests::GetFileHash(hash) => w == v && a == AnswerView::MaybeId(map_at(v.file_ids, hash@)),
        SupportedDBRequests::GetNamespace(name) => w == v && a == AnswerView::MaybeId(
            map_at(v.namespace_ids, name@),
        ),
        SupportedDBRequests::CreateNamespace(name, description, _) => if v.namespace_ids.contains_key(name@) {
            w == v && a == AnswerView::Count(v.namespace_ids[name@])
        } else if v.namespace_max < usize::MAX {
            w == namespace_added(v, DbNamespaceObj { id: v.namespace_max, name, description })
                && a == AnswerView::Count(v.namespace_max)
        } else {
            w == v && a == AnswerView::Refused
        },
        SupportedDBRequests::GetNamespaceTagIDs(id) => w == v && a == AnswerView::Ids(set_at(v.namespace_tags, id)),
        SupportedDBRequests::GetNamespaceString(id) => w == v && a == AnswerView::Namespace(map_at(v.namespaces, id)),
        SupportedDBRequests::SettingsGetName(name) => w == v && a == AnswerView::Setting(
            if v.setting_ids.contains_key(name@) {
                Some(v.settings[v.setting_ids[name@]])
            } else {
                None
            },
        ),
        SupportedDBRequests::SettingsSet(name, pretty, num, param, _) => if v.setting_ids.contains_key(name@)
            || v.settings_max < usize::MAX {
            w == setting_added(v, DbSettingObj { name, pretty, num, param }) && a == AnswerView::Ack
        } else {
            w == v && a == AnswerView::Refused
        },
        SupportedDBRequests::TestUsize() => w == v && a == AnswerView::Count(32),
        SupportedDBRequests::GetFileListId() => w == v && a == AnswerView::Ids(v.files.dom()),
        SupportedDBRequests::GetNamespaceIDsAll => w == v && a == AnswerView::Ids(v.namespaces.dom()),
        SupportedDBRequests::NamespaceContainsId(ns, tag) => w == v && a == AnswerView::Flag(
            set_at(v.namespace_tags, ns).contains(tag),
        ),
        SupportedDBRequests::ParentsGet((side, id)) => w == v && a == AnswerView::MaybeIds(
            match side {
                ParentsType::Tag => map_at(v.parents_tag_rel, id),
                ParentsType::Rel => map_at(v.parents_rel_tag, id),
            },
        ),
        SupportedDBRequests::ParentsDelete(p) => if cantor_fits(p.tag_id, p.relate_tag_id) {
            w == selective_removed(v, p.tag_id, p.relate_tag_id) && a == AnswerView::Ack
        } else {
            w == v && a == AnswerView::Refused
        },
        SupportedDBRequests::ParentsPut(p) => if cantor_fits(p.tag_id, p.relate_tag_id) {
            w == parent_added(v, p) && a == AnswerView::Count(
                cantor(p.tag_id as int, p.relate_tag_id as int) as usize,
            )
        } else {
            w == v && a == AnswerView::Refused
        },
        SupportedDBRequests::FilterNamespaceById((ids, ns)) => w == v && a == AnswerView::Ids(
            ids@.intersect(set_at(v.namespace_tags, ns)),
        ),
        SupportedDBRequests::GetFile(id) => w == v && a == AnswerView::File(map_at(v.files, id)),
        SupportedDBRequests::GetFileListAll() => w == v && a == AnswerView::Files(v.files),
        SupportedDBRequests::GetDBLocation() => w == v && match files_loc(v) {
            Some(loc) => a == AnswerView::Text(loc@),
            None => a == AnswerView::Refused,
        },
        SupportedDBRequests::Search((s, _, _)) => w == v && a == AnswerView::MaybeIds(search_result(v, s)),
        SupportedDBRequests::PutJob(job) => if v.jobs_max < usize::MAX {
            table_after_put(v, w, job) && a == AnswerView::Ack
        } else {
            w == v && a == AnswerView::Refused
        },
        SupportedDBRequests::GetJob(id) => w == v && a == AnswerView::Job(
            match map_at(v.jobs, id) {
                Some(j) => Some(job_view(j)),
                None => None,
            },
        ),
        _ => w == v && a == AnswerView::Outside,
    }
}

fn copy_tag(t: &DbTagNNS) -> (r: DbTagNNS)
    ensures
        r == *t,
{
    DbTagNNS { name: t.name.clone(), namespace: t.namespace }
}

fn copy_text(s: &Option<String>) -> (r: Option<String>)
    ensures
        r == *s,
{
    match s {
        Some(x) => Some(x.clone()),
        None => None,
    }
}

fn copy_namespace(n: &DbNamespaceObj) -> (r: DbNamespaceObj)
    ensures
        r == *n,
{
    DbNamespaceObj { id: n.id, name: n.name.clone(), description: copy_text(&n.description) }
}

fn copy_setting(s: &DbSettingObj) -> (r: DbSettingObj)
    ensures
        r == *s,
{
    DbSettingObj {
        name: s.name.clone(),
        pretty: copy_text(&s.pretty),
        num: s.num,
        param: copy_text(&s.param),
    }
}

fn copy_file(f: &DbFileStorage) -> (r: DbFileStorage)
    ensures
        r == *f,
{
    match f {
        DbFileStorage::Exist(o) => DbFileStorage::Exist(
            DbFileObj { id: o.id, hash: o.hash.clone(), ext_id: o.ext_id, storage_id: o.storage_id },
        ),
        DbFileStorage::NoIdExist(o) => DbFileStorage::NoIdExist(
            DbFileObjNoId { hash: o.hash.clone(), ext_id: o.ext_id, storage_id: o.storage_id },
        ),
        DbFileStorage::NoExist(i) => DbFileStorage::NoExist(*i),
        DbFileStorage::NoExistUnknown => DbFileStorage::NoExistUnknown,
    }
}

/// A set with the elements of `s`.
fn copy_set(s: &HashSet<usize>) -> (r: HashSet<usize>)
    ensures
        r@ == s@,
{
    let mut out: HashSet<usize> = HashSet::new();
    let ghost d = s@;
    for k in it: s.iter()
        invariant
            d == s@,
            it.seq().unref().to_set() == d,
            forall|x: usize| out@.contains(x) ==> d.contains(x),
            forall|j: int| 0 <= j < it.index() ==> out@.contains(*(#[trigger] it.seq()[j])),
        ensures
            forall|x: usize| d.contains(x) ==> out@.contains(x),
    {
        proof {
            assert(it.seq().unref()[it.index()] == *k);
            assert(it.seq().unref().contains(*k));
        }
        out.insert(*k);
    }
    assert(out@ =~= d);
    out
}

/// A set with the elements of `v`.
fn set_of(v: &Vec<usize>) -> (r: HashSet<usize>)
    ensures
        r@ == v@.to_set(),
{
    let mut out: HashSet<usize> = HashSet::new();
    let mut i: usize = 0;
    while i < v.len()
        invariant
            i <= v.len(),
            out@ == v@.take(i as int).to_set(),
        decreases v.len() - i,
    {
        proof {
            assert(v@.take(i as int + 1) =~= v@.take(i as int).push(v@[i as int]));
            v@.take(i as int).lemma_push_to_set_commute(v@[i as int]);
        }
        out.insert(v[i]);
        i = i + 1;
    }
    assert(v@.take(v.len() as int) =~= v@);
    out
}

fn copy_maybe_set(s: Option<&HashSet<usize>>) -> (r: Option<HashSet<usize>>)
    ensures
        match r {
            Some(x) => s matches Some(y) && x@ == y@,
            None => s is None,
        },
{
    match s {
        Some(x) => Some(copy_set(x)),
        None => None,
    }
}

/// Answers a request from the in-memory database, changing it where the
/// request asks for a change. Requests it cannot answer are `Outside`.
pub fn answer_request(db: &mut NewinMemDB, req: SupportedDBRequests) -> (r: DbAnswer)
    requires
        old(db).wf(),
        request_ok(old(db)@, req),
    ensures
        final(db).wf(),
        request_answered(old(db)@, req, final(db)@, r@),
{
    proof {
        db.lemma_wf_view();
    }
    match req {
        SupportedDBRequests::GetTagId(id) => DbAnswer::Tag(
            match db.tags_get_data(&id) {
                Some(t) => Some(copy_tag(t)),
                None => None,
            },
        ),
        SupportedDBRequests::PutTag(name, ns, _, id) => {
            let t = DbTagNNS { name, namespace: ns };
            if db.tags_get_id(&t).is_none() && db.tags_max_return() == usize::MAX {
                return DbAnswer::Refused;
            }
            DbAnswer::Count(db.tags_put(&t, id))
        },
        SupportedDBRequests::PutTagRelationship(fid, name, ns, _, id) => {
            let t = DbTagNNS { name, namespace: ns };
            if db.tags_get_id(&t).is_none() && db.tags_max_return() == usize::MAX {
                return DbAnswer::Refused;
            }
            let tid = db.tags_put(&t, id);
            match cantor_checked(fid, tid) {
                Some(_) => {
                    db.relationship_add(fid, tid);
                    DbAnswer::Ack
                },
                None => DbAnswer::Refused,
            }
        },
        SupportedDBRequests::GetTagName((name, ns)) => {
            let t = DbTagNNS { name, namespace: ns };
            DbAnswer::MaybeId(
                match db.tags_get_id(&t) {
                    Some(i) => Some(*i),
                    None => None,
                },
            )
        },
        SupportedDBRequests::RelationshipAdd(file, tag, _) => match cantor_checked(file, tag) {
            Some(_) => {
                db.relationship_add(file, tag);
                DbAnswer::Ack
            },
            None => DbAnswer::Refused,
        },
        SupportedDBRequests::RelationshipRemove(file, tag) => match cantor_checked(file, tag) {
            Some(_) => {
                db.relationship_remove(&file, &tag);
                DbAnswer::Ack
            },
            None => DbAnswer::Refused,
        },
        SupportedDBRequests::RelationshipGetTagid(file) => DbAnswer::MaybeIds(db.relationship_get_tagid(&file)),
        SupportedDBRequests::RelationshipGetFileid(tag) => DbAnswer::MaybeIds(db.relationship_get_fileid(&tag)),
        SupportedDBRequests::GetFileHash(hash) => DbAnswer::MaybeId(
            match db.file_get_hash(&hash) {
                Some(i) => Some(*i),
                None => None,
            },
        ),
        SupportedDBRequests::GetNamespace(name) => DbAnswer::MaybeId(
            match db.namespace_get(&name) {
                Some(i) => Some(*i),
                None => None,
            },
        ),
        SupportedDBRequests::CreateNamespace(name, description, _) => {
            match db.namespace_get(&name) {
                Some(i) => {
                    return DbAnswer::Count(*i);
                },
                None => {},
            }
            let id = db.namespace_get_max();
            if id == usize::MAX {
                return DbAnswer::Refused;
            }
            db.namespace_put(DbNamespaceObj { id, name, description });
            DbAnswer::Count(id)
        },
        SupportedDBRequests::GetNamespaceTagIDs(id) => DbAnswer::Ids(
            match db.namespace_get_tagids(&id) {
                Some(s) => copy_set(s),
                None => HashSet::new(),
            },
        ),
        SupportedDBRequests::GetNamespaceString(id) => DbAnswer::Namespace(
            match db.namespace_id_get(&id) {
                Some(n) => Some(copy_namespace(n)),
                None => None,
            },
        ),
        SupportedDBRequests::SettingsGetName(name) => DbAnswer::Setting(
            match db.settings_get_name(&name) {
                Some(s) => Some(copy_setting(s)),
                None => None,
            },
        ),
        SupportedDBRequests::SettingsSet(name, pretty, num, param, _) => {
            if db.settings_get_name(&name).is_none() && db.settings_max_return() == usize::MAX {
                return DbAnswer::Refused;
            }
            db.settings_add(name, pretty, num, param);
            DbAnswer::Ack
        },
        SupportedDBRequests::TestUsize() => DbAnswer::Count(32),
        SupportedDBRequests::GetFileListId() => DbAnswer::Ids(db.file_get_list_id()),
        SupportedDBRequests::GetNamespaceIDsAll => {
            let keys = db.namespace_keys();
            DbAnswer::Ids(set_of(&keys))
        },
        SupportedDBRequests::NamespaceContainsId(ns, tag) => DbAnswer::Flag(
            match db.namespace_get_tagids(&ns) {
                Some(s) => s.contains(&tag),
                None => false,
            },
        ),
        SupportedDBRequests::ParentsGet((side, id)) => DbAnswer::MaybeIds(
            match side {
                ParentsType::Tag => copy_maybe_set(db.parents_rel_get(&id)),
                ParentsType::Rel => copy_maybe_set(db.parents_tag_get(&id)),
            },
        ),
        SupportedDBRequests::ParentsDelete(p) => match cantor_checked(p.tag_id, p.relate_tag_id) {
            Some(_) => {
                db.parents_selective_remove(&p);
                DbAnswer::Ack
            },
            None => DbAnswer::Refused,
        },
        SupportedDBRequests::ParentsPut(p) => match cantor_checked(p.tag_id, p.relate_tag_id) {
            Some(_) => DbAnswer::Count(db.parents_put(p)),
            None => DbAnswer::Refused,
        },
        SupportedDBRequests::FilterNamespaceById((ids, ns)) => DbAnswer::Ids(
            match db.namespace_get_tagids(&ns) {
                Some(s) => set_select(&ids, s, true),
                None => {
                    assert(ids@.intersect(Set::<usize>::empty()) =~= Set::<usize>::empty());
                    HashSet::new()
                },
            },
        ),
        SupportedDBRequests::GetFile(id) => DbAnswer::File(
            match db.file_get_id(&id) {
                Some(f) => Some(copy_file(f)),
                None => None,
            },
        ),
        SupportedDBRequests::GetFileListAll() => DbAnswer::Files(db.file_get_list_all().clone()),
        SupportedDBRequests::GetDBLocation() => {
            let name = "FilesLoc".to_owned();
            match db.settings_get_name(&name) {
                Some(s) => match &s.param {
                    Some(loc) => DbAnswer::Text(loc.clone()),
                    None => DbAnswer::Refused,
                },
                None => DbAnswer::Refused,
            }
        },
        SupportedDBRequests::Search((s, _, _)) => DbAnswer::MaybeIds(search_db_files(db, &s)),
        SupportedDBRequests::PutJob(job) => {
            if *db.jobs_get_max() == usize::MAX {
                return DbAnswer::Refused;
            }
            let _ = table_put(db, &job);
            DbAnswer::Ack
        },
        SupportedDBRequests::GetJob(id) => DbAnswer::Job(
            match db.jobs_get_all().get(&id) {
                Some(j) => Some(copy_job(j)),
                None => None,
            },
        ),
        _ => DbAnswer::Outside,
    }
}


/// A tag put by request is then found by its name and namespace, under the
/// id that the put answered.
pub proof fn law_put_tag_then_lookup(
    v: MemDbView,
    name: String,
    ns: usize,
    addtodb: bool,
    id: Option<usize>,
    w: MemDbView,
    a: AnswerView,
    w2: MemDbView,
    a2: AnswerView,
)
    requires
        request_answered(v, SupportedDBRequests::PutTag(name, ns, addtodb, id), w, a),
        request_answered(w, SupportedDBRequests::GetTagName((name, ns)), w2, a2),
    ensures
        a matches AnswerView::Count(tid) ==> a2 == AnswerView::MaybeId(Some(tid)),
        w2 == w,
{
    law_tag_put_then_lookup(v, DbTagNNS { name, namespace: ns }, id);
}

/// A setting set by request is then answered by its name, with the values
/// it was set with.
pub proof fn law_set_setting_then_get(
    v: MemDbView,
    name: String,
    pretty: Option<String>,
    num: Option<usize>,
    param: Option<String>,
    addtodb: bool,
    w: MemDbView,
    a: AnswerView,
    w2: MemDbView,
    a2: AnswerView,
)
    requires
        request_answered(v, SupportedDBRequests::SettingsSet(name, pretty, num, param, addtodb), w, a),
        request_answered(w, SupportedDBRequests::SettingsGetName(name), w2, a2),
    ensures
        a == AnswerView::Ack ==> a2 == AnswerView::Setting(Some(DbSettingObj { name, pretty, num, param })),
{
    law_setting_read_after_write(v, DbSettingObj { name, pretty, num, param });
}

/// After a relationship is added by request, the file's tags hold the tag
/// and the tag's files hold the file.
pub proof fn law_relationship_add_then_get(
    v: MemDbView,
    file: usize,
    tag: usize,
    addtodb: bool,
    w: MemDbView,
    a: AnswerView,
    w2: MemDbView,
    a2: AnswerView,
    w3: MemDbView,
    a3: AnswerView,
)
    requires
        request_answered(v, SupportedDBRequests::RelationshipAdd(file, tag, addtodb), w, a),
        request_answered(w, SupportedDBRequests::RelationshipGetTagid(file), w2, a2),
        request_answered(w2, SupportedDBRequests::RelationshipGetFileid(tag), w3, a3),
    ensures
        a == AnswerView::Ack ==> (a2 matches AnswerView::MaybeIds(Some(tags)) && tags.contains(tag)),
        a == AnswerView::Ack ==> (a3 matches AnswerView::MaybeIds(Some(files)) && files.contains(file)),
{
}

/// Requests that only read leave the database as it was.
pub proof fn law_reads_change_nothing(v: MemDbView, req: SupportedDBRequests, w: MemDbView, a: AnswerView)
    requires
        request_answered(v, req, w, a),
        match req {
            SupportedDBRequests::PutTag(..) | SupportedDBRequests::PutTagRelationship(..)
            | SupportedDBRequests::RelationshipAdd(..) | SupportedDBRequests::RelationshipRemove(..)
            | SupportedDBRequests::CreateNamespace(..) | SupportedDBRequests::SettingsSet(..)
            | SupportedDBRequests::ParentsDelete(..) | SupportedDBRequests::ParentsPut(..)
            | SupportedDBRequests::PutJob(..) => false,
            _ => true,
        },
    ensures
        w == v,
{
}


/// Filtering tags by a namespace answers the given tags that the namespace
/// holds, and so only tags that were given.
pub proof fn law_filter_namespace_subset(
    v: MemDbView,
    ids: HashSet<usize>,
    ns: usize,
    w: MemDbView,
    a: AnswerView,
    t: usize,
)
    requires
        request_answered(v, SupportedDBRequests::FilterNamespaceById((ids, ns)), w, a),
    ensures
        a matches AnswerView::Ids(out) && (out.contains(t) <==> ids@.contains(t) && set_at(
            v.namespace_tags,
            ns,
        ).contains(t)),
        w == v,
{
}

/// A namespace created by request is then found by its name, under the id
/// that the creation answered, whether it was new or known already; a new
/// one is answered by its id with its name and description.
pub proof fn law_create_namespace_then_get(
    v: MemDbView,
    name: String,
    description: Option<String>,
    addtodb: bool,
    w: MemDbView,
    a: AnswerView,
    w2: MemDbView,
    a2: AnswerView,
    w3: MemDbView,
    a3: AnswerView,
)
    requires
        request_answered(v, SupportedDBRequests::CreateNamespace(name, description, addtodb), w, a),
        request_answered(w, SupportedDBRequests::GetNamespace(name), w2, a2),
        a matches AnswerView::Count(nid) && request_answered(w2, SupportedDBRequests::GetNamespaceString(nid), w3, a3),
    ensures
        a matches AnswerView::Count(nid) && a2 == AnswerView::MaybeId(Some(nid)),
        !v.namespace_ids.contains_key(name@) ==> a3 == AnswerView::Namespace(
            Some(DbNamespaceObj { id: a->Count_0, name, description }),
        ),
{
}

/// After a tag is put with a relationship by request, the tag is found by
/// its name and namespace, and the file's tags hold the tag's id.
pub proof fn law_put_tag_relationship_then_get(
    v: MemDbView,
    fid: usize,
    name: String,
    ns: usize,
    addtodb: bool,
    id: Option<usize>,
    w: MemDbView,
    a: AnswerView,
    w2: MemDbView,
    a2: AnswerView,
    w3: MemDbView,
    a3: AnswerView,
)
    requires
        request_answered(v, SupportedDBRequests::PutTagRelationship(fid, name, ns, addtodb, id), w, a),
        request_answered(w, SupportedDBRequests::GetTagName((name, ns)), w2, a2),
        request_answered(w2, SupportedDBRequests::RelationshipGetTagid(fid), w3, a3),
    ensures
        a == AnswerView::Ack ==> (a2 matches AnswerView::MaybeId(Some(tid)) && (a3 matches AnswerView::MaybeIds(
            Some(tags),
        ) && tags.contains(tid))),
{
    law_tag_put_then_lookup(v, DbTagNNS { name, namespace: ns }, id);
}

/// After a relationship is removed by request, neither the file's tags hold
/// the tag nor the tag's files the file.
pub proof fn law_relationship_remove_then_get(
    v: MemDbView,
    file: usize,
    tag: usize,
    w: MemDbView,
    a: AnswerView,
    w2: MemDbView,
    a2: AnswerView,
    w3: MemDbView,
    a3: AnswerView,
)
    requires
        request_answered(v, SupportedDBRequests::RelationshipRemove(file, tag), w, a),
        request_answered(w, SupportedDBRequests::RelationshipGetTagid(file), w2, a2),
        request_answered(w2, SupportedDBRequests::RelationshipGetFileid(tag), w3, a3),
    ensures
        a == AnswerView::Ack ==> !(a2 matches AnswerView::MaybeIds(Some(tags)) && tags.contains(tag)),
        a == AnswerView::Ack ==> !(a3 matches AnswerView::MaybeIds(Some(files)) && files.contains(file)),
{
}

} // verus!
