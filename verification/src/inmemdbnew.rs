//! The in-memory database: tags, settings, parents, jobs, namespaces, files
//! and the relationships between files and tags.

use crate::cantor::cantor;
use crate::cantor::cantor_fits;
use crate::fnvmaps::fnv_map_new;
use crate::cantor::cantor_pair;
use crate::fnvmaps::{fnv_map_insert, fnv_map_remove, fnv_map_get, fnv_map_clear, fnv_map_key_set, fnv_set_new, fnv_set_insert, fnv_set_remove, fnv_set_contains, fnv_set_clear, fnv_set_to_hashset, fnv_set_first};
use crate::sharedtypes;
use crate::sharedtypes::DbFileStorage;
use crate::sharedtypes::DbJobsObj;
use fnv::FnvHashMap;
use fnv::FnvHashSet;
use std::collections::HashMap;
use std::collections::HashSet;
use vstd::hash_map::StringHashMap;
use vstd::prelude::*;

verus! {

broadcast use vstd::std_specs::hash::group_hash_axioms;

/// How a tag relates to another.
pub enum TagRelateConjoin {
    Tag,
    Error,
    Relate,
    Conjoin,
    TagAndRelate,
    NoRelation,
}

/// A set of integers.
pub struct tes {
    test: HashSet<usize>,
}

impl tes {
    /// The set of the integers held.
    pub closed spec fn contents(&self) -> Set<usize> {
        self.test@
    }

    /// An empty set.
    pub fn new() -> (res: tes)
        ensures
            res.contents() == Set::<usize>::empty(),
    {
        tes { test: HashSet::new() }
    }

    /// Adds `i` to the set.
    pub fn inc(&mut self, i: usize)
        ensures
            final(self).contents() == old(self).contents().insert(i),
    {
        self.test.insert(i);
    }
}

/// The value at `k` of a map of sets, or the empty set.
pub open spec fn set_at(m: Map<usize, Set<usize>>, k: usize) -> Set<usize> {
    if m.contains_key(k) {
        m[k]
    } else {
        Set::empty()
    }
}

/// The map of sets that a map of `std` sets holds.
pub open spec fn sets_view(m: Map<usize, HashSet<usize>>) -> Map<usize, Set<usize>> {
    Map::new(|k: usize| m.contains_key(k), |k: usize| m[k]@)
}

/// The map of sets that a map of FNV sets holds.
pub open spec fn fnv_sets_view(m: Map<usize, FnvHashSet<usize>>) -> Map<usize, Set<usize>> {
    Map::new(|k: usize| m.contains_key(k), |k: usize| m[k]@)
}

/// The map from (name, namespace) to id that a map from namespace to a
/// map from name to id holds.
pub open spec fn tag_ids_view(m: Map<usize, StringHashMap<usize>>) -> Map<(Seq<char>, usize), usize> {
    Map::new(
        |k: (Seq<char>, usize)| m.contains_key(k.1) && m[k.1]@.contains_key(k.0),
        |k: (Seq<char>, usize)| m[k.1]@[k.0],
    )
}

/// What a tag is identified by: its name and its namespace.
pub open spec fn tag_key(t: sharedtypes::DbTagNNS) -> (Seq<char>, usize) {
    (t.name@, t.namespace)
}

/// The contents of the in-memory database.
pub struct MemDbView {
    /// Tag by id.
    pub tags: Map<usize, sharedtypes::DbTagNNS>,
    /// Tag id by (name, namespace).
    pub tag_ids: Map<(Seq<char>, usize), usize>,
    /// Setting by id.
    pub settings: Map<usize, sharedtypes::DbSettingObj>,
    /// Setting id by name.
    pub setting_ids: Map<Seq<char>, usize>,
    /// The parent relations, each by the pairing of its tag and related tag.
    pub parents: Set<usize>,
    /// For a tag, the tags it relates to as a parent relation.
    pub parents_tag_rel: Map<usize, Set<usize>>,
    /// For a related tag, the tags that relate to it.
    pub parents_rel_tag: Map<usize, Set<usize>>,
    /// For a parent relation, the tags it is limited to.
    pub parents_cantor_limitto: Map<usize, Set<usize>>,
    /// For a limiting tag, the parent relations limited to it.
    pub parents_limitto_cantor: Map<usize, Set<usize>>,
    /// Job by id.
    pub jobs: Map<usize, DbJobsObj>,
    /// Namespace by id.
    pub namespaces: Map<usize, sharedtypes::DbNamespaceObj>,
    /// Namespace id by name.
    pub namespace_ids: Map<Seq<char>, usize>,
    /// For a namespace, the ids of its tags.
    pub namespace_tags: Map<usize, Set<usize>>,
    /// File by id.
    pub files: Map<usize, DbFileStorage>,
    /// File id by hash.
    pub file_ids: Map<Seq<char>, usize>,
    /// For a file, the tags it relates to.
    pub rel_file_tag: Map<usize, Set<usize>>,
    /// For a tag, the files it relates to.
    pub rel_tag_file: Map<usize, Set<usize>>,
    /// The relationships, each by the pairing of its file and tag.
    pub relationships: Set<usize>,
    pub tag_max: usize,
    pub relationship_max: usize,
    pub settings_max: usize,
    pub parents_max: usize,
    pub jobs_max: usize,
    pub namespace_max: usize,
    pub file_max: usize,
}

impl MemDbView {
    /// Ids of jobs, files and settings are below their counters, so a new one
    /// is fresh; each setting name has a stored setting of its own.
    pub open spec fn wf(self) -> bool {
        &&& forall|id: usize| #[trigger] self.jobs.contains_key(id) ==> id < self.jobs_max
        &&& forall|id: usize| #[trigger] self.files.contains_key(id) ==> id < self.file_max
        &&& forall|id: usize| #[trigger] self.settings.contains_key(id) ==> id < self.settings_max
        &&& forall|n: Seq<char>| #[trigger] self.setting_ids.contains_key(n)
            ==> self.settings.contains_key(self.setting_ids[n])
        &&& forall|n: Seq<char>, m: Seq<char>|
            #[trigger] self.setting_ids.contains_key(n) && #[trigger] self.setting_ids.contains_key(m)
            && n != m ==> self.setting_ids[n] != self.setting_ids[m]
        &&& forall|k: usize| #[trigger] self.rel_tag_file.contains_key(k) ==> self.rel_tag_file[k].finite()
        &&& forall|k: usize| #[trigger] self.rel_file_tag.contains_key(k) ==> self.rel_file_tag[k].finite()
    }
}

/// The in-memory database.
pub struct NewinMemDB {
    _tag_nns_id_data: FnvHashMap<usize, sharedtypes::DbTagNNS>,
    _tag_nns_data_id: HashMap<usize, StringHashMap<usize>>,
    _settings_id_data: HashMap<usize, sharedtypes::DbSettingObj>,
    _settings_name_id: StringHashMap<usize>,
    _parents_dual: HashSet<usize>,
    _parents_tag_rel: HashMap<usize, HashSet<usize>>,
    _parents_rel_tag: HashMap<usize, HashSet<usize>>,
    _parents_cantor_limitto: HashMap<usize, HashSet<usize>>,
    _parents_limitto_cantor: HashMap<usize, HashSet<usize>>,
    _jobs_id_data: HashMap<usize, sharedtypes::DbJobsObj>,
    _namespace_id_data: HashMap<usize, sharedtypes::DbNamespaceObj>,
    _namespace_name_id: StringHashMap<usize>,
    _namespace_id_tag: HashMap<usize, HashSet<usize>>,
    _file_id_data: HashMap<usize, DbFileStorage>,
    _file_name_id: StringHashMap<usize>,
    _relationship_file_tag: FnvHashMap<usize, FnvHashSet<usize>>,
    _relationship_tag_file: FnvHashMap<usize, FnvHashSet<usize>>,
    _relationship_dual: FnvHashSet<usize>,
    _tag_max: usize,
    _relationship_max: usize,
    _settings_max: usize,
    _parents_max: usize,
    _jobs_max: usize,
    _namespace_max: usize,
    _file_max: usize,
}

impl View for NewinMemDB {
    type V = MemDbView;

    closed spec fn view(&self) -> MemDbView {
        MemDbView {
            tags: self._tag_nns_id_data@,
            tag_ids: tag_ids_view(self._tag_nns_data_id@),
            settings: self._settings_id_data@,
            setting_ids: self._settings_name_id@,
            parents: self._parents_dual@,
            parents_tag_rel: sets_view(self._parents_tag_rel@),
            parents_rel_tag: sets_view(self._parents_rel_tag@),
            parents_cantor_limitto: sets_view(self._parents_cantor_limitto@),
            parents_limitto_cantor: sets_view(self._parents_limitto_cantor@),
            jobs: self._jobs_id_data@,
            namespaces: self._namespace_id_data@,
            namespace_ids: self._namespace_name_id@,
            namespace_tags: sets_view(self._namespace_id_tag@),
            files: self._file_id_data@,
            file_ids: self._file_name_id@,
            rel_file_tag: fnv_sets_view(self._relationship_file_tag@),
            rel_tag_file: fnv_sets_view(self._relationship_tag_file@),
            relationships: self._relationship_dual@,
            tag_max: self._tag_max,
            relationship_max: self._relationship_max,
            settings_max: self._settings_max,
            parents_max: self._parents_max,
            jobs_max: self._jobs_max,
            namespace_max: self._namespace_max,
            file_max: self._file_max,
        }
    }
}

/// Adds `x` to the set at `k`, creating the set when there is none.
fn sets_add(m: &mut HashMap<usize, HashSet<usize>>, k: usize, x: usize)
    ensures
        sets_view(final(m)@) == sets_view(old(m)@).insert(k, set_at(sets_view(old(m)@), k).insert(x)),
{
    let mut set = match m.remove(&k) {
        Some(s) => s,
        None => HashSet::new(),
    };
    set.insert(x);
    m.insert(k, set);
    assert(sets_view(m@) =~= sets_view(old(m)@).insert(k, set_at(sets_view(old(m)@), k).insert(x)));
}

/// Removes `x` from the set at `k`, if there is a set at `k`.
fn sets_del(m: &mut HashMap<usize, HashSet<usize>>, k: usize, x: usize)
    ensures
        sets_view(final(m)@) == (if sets_view(old(m)@).contains_key(k) {
            sets_view(old(m)@).insert(k, sets_view(old(m)@)[k].remove(x))
        } else {
            sets_view(old(m)@)
        }),
{
    match m.remove(&k) {
        Some(mut set) => {
            set.remove(&x);
            m.insert(k, set);
            assert(sets_view(m@) =~= sets_view(old(m)@).insert(k, sets_view(old(m)@)[k].remove(x)));
        },
        None => {
            assert(sets_view(m@) =~= sets_view(old(m)@));
        },
    }
}

/// Removes the set at `k`.
fn sets_drop(m: &mut HashMap<usize, HashSet<usize>>, k: usize)
    ensures
        sets_view(final(m)@) == sets_view(old(m)@).remove(k),
{
    m.remove(&k);
    assert(sets_view(m@) =~= sets_view(old(m)@).remove(k));
}

/// Adds `x` to the FNV set at `k`, creating the set when there is none.
fn fnv_sets_add(m: &mut FnvHashMap<usize, FnvHashSet<usize>>, k: usize, x: usize)
    ensures
        fnv_sets_view(final(m)@) == fnv_sets_view(old(m)@).insert(
            k,
            set_at(fnv_sets_view(old(m)@), k).insert(x),
        ),
{
    let mut set = match fnv_map_remove(m, k) {
        Some(s) => s,
        None => fnv_set_new(),
    };
    fnv_set_insert(&mut set, x);
    fnv_map_insert(m, k, set);
    assert(fnv_sets_view(m@) =~= fnv_sets_view(old(m)@).insert(
        k,
        set_at(fnv_sets_view(old(m)@), k).insert(x),
    ));
}

/// Removes `x` from the FNV set at `k`, if there is a set at `k`.
fn fnv_sets_del(m: &mut FnvHashMap<usize, FnvHashSet<usize>>, k: usize, x: usize)
    ensures
        fnv_sets_view(final(m)@) == set_at_removed(fnv_sets_view(old(m)@), k, x),
{
    match fnv_map_remove(m, k) {
        Some(mut set) => {
            fnv_set_remove(&mut set, x);
            fnv_map_insert(m, k, set);
            assert(fnv_sets_view(m@) =~= set_at_removed(fnv_sets_view(old(m)@), k, x));
        },
        None => {
            assert(fnv_sets_view(m@) =~= fnv_sets_view(old(m)@));
        },
    }
}

/// Maps (name, namespace) to an id in a map from namespace to a map from
/// name to id.
fn tag_ids_insert(m: &mut HashMap<usize, StringHashMap<usize>>, name: String, ns: usize, id: usize)
    ensures
        tag_ids_view(final(m)@) == tag_ids_view(old(m)@).insert((name@, ns), id),
{
    let ghost key = (name@, ns);
    let mut inner = match m.remove(&ns) {
        Some(i) => i,
        None => StringHashMap::new(),
    };
    inner.insert(name, id);
    m.insert(ns, inner);
    assert(tag_ids_view(m@) =~= tag_ids_view(old(m)@).insert(key, id));
}

/// Removes (name, namespace) from a map from namespace to a map from name
/// to id.
fn tag_ids_remove(m: &mut HashMap<usize, StringHashMap<usize>>, name: &str, ns: usize)
    ensures
        tag_ids_view(final(m)@) == tag_ids_view(old(m)@).remove((name@, ns)),
{
    match m.remove(&ns) {
        Some(mut inner) => {
            inner.remove(name);
            m.insert(ns, inner);
        },
        None => {},
    }
    assert(tag_ids_view(m@) =~= tag_ids_view(old(m)@).remove((name@, ns)));
}

/// The id a file is stored under when it brings one.
pub open spec fn storage_id(f: DbFileStorage) -> Option<usize> {
    match f {
        DbFileStorage::Exist(o) => Some(o.id),
        DbFileStorage::NoExist(i) => Some(i),
        _ => None,
    }
}

/// The hash of a file, when it is known.
pub open spec fn storage_hash(f: DbFileStorage) -> Option<Seq<char>> {
    match f {
        DbFileStorage::Exist(o) => Some(o.hash@),
        DbFileStorage::NoIdExist(o) => Some(o.hash@),
        _ => None,
    }
}

/// The id under which `file_put` stores a file, given the file counter.
pub open spec fn put_file_id(f: DbFileStorage, max: usize) -> usize {
    match storage_id(f) {
        Some(i) => i,
        None => max,
    }
}

/// The file counter after `file_put` stores a file.
pub open spec fn put_file_max(f: DbFileStorage, max: usize) -> int {
    match storage_id(f) {
        Some(i) => if i >= max { i + 1 } else { max as int },
        None => max + 1,
    }
}

/// The tag counter after `tags_put` adds a new tag, given the id asked for.
pub open spec fn put_tag_max(max: usize, id: Option<usize>) -> int {
    match id {
        Some(i) => if max + 1 < i { i as int } else { max + 1 },
        None => max + 1,
    }
}

/// The id of a set of keys collected from a map.
fn key_set<V>(m: &HashMap<usize, V>) -> (res: HashSet<usize>)
    ensures
        res@ == m@.dom(),
{
    let mut out: HashSet<usize> = HashSet::new();
    let ghost d = m@.dom();
    for k in it: m.keys()
        invariant
            d == m@.dom(),
            it.seq().unref().to_set() == d,
            forall|x: usize| out@.contains(x) ==> d.contains(x),
            forall|j: int| 0 <= j < it.index() ==> out@.contains(*(#[trigger] it.seq()[j])),
        ensures
            forall|x: usize| d.contains(x) ==> out@.contains(x),
    {
        proof {
            assert(it.seq().unref()[it.index()] == *k);
            assert(it.seq().unref().contains(*k));
        }
        out.insert(*k);
    }
    assert(out@ =~= d);
    out
}

/// The elements of a set, each once.
pub(crate) fn set_to_vec(s: &HashSet<usize>) -> (res: Vec<usize>)
    ensures
        res@.to_set() == s@,
        res@.no_duplicates(),
{
    let mut out: Vec<usize> = Vec::new();
    let ghost d = s@;
    for k in it: s.iter()
        invariant
            d == s@,
            it.seq().unref().to_set() == d,
            it.seq().unref().no_duplicates(),
            out@ == it.seq().unref().take(it.index()),
        ensures
            out@ == it.seq().unref(),
    {
        proof {
            assert(it.seq().unref()[it.index()] == *k);
            assert(it.seq().unref().take(it.index() + 1) =~= it.seq().unref().take(it.index()).push(
                *k,
            ));
        }
        out.push(*k);
    }
    assert(out@.to_set() =~= d);
    out
}

/// `v` after `settings_add` of `obj`: a new name gets the setting counter
/// as its id and the counter moves on; a known name keeps its id.
pub open spec fn setting_added(v: MemDbView, obj: sharedtypes::DbSettingObj) -> MemDbView {
    if v.setting_ids.contains_key(obj.name@) {
        MemDbView { settings: v.settings.insert(v.setting_ids[obj.name@], obj), ..v }
    } else {
        MemDbView {
            setting_ids: v.setting_ids.insert(obj.name@, v.settings_max),
            settings: v.settings.insert(v.settings_max, obj),
            settings_max: (v.settings_max + 1) as usize,
            ..v
        }
    }
}

/// `v` after a job is added under the job counter, which moves on.
pub open spec fn job_added(v: MemDbView, job: DbJobsObj) -> MemDbView {
    MemDbView {
        jobs: v.jobs.insert(v.jobs_max, job),
        jobs_max: (v.jobs_max + 1) as usize,
        ..v
    }
}

/// `v` after whether job `id` runs is flipped; unchanged without such a job.
pub open spec fn job_flipped(v: MemDbView, id: usize) -> MemDbView {
    if v.jobs.contains_key(id) {
        MemDbView {
            jobs: v.jobs.insert(id, DbJobsObj { isrunning: !v.jobs[id].isrunning, ..v.jobs[id] }),
            ..v
        }
    } else {
        v
    }
}

/// `v` after `namespace_put` of `obj`: stored under its id and its name; the
/// namespace counter moves on for a new name.
pub open spec fn namespace_added(v: MemDbView, obj: sharedtypes::DbNamespaceObj) -> MemDbView {
    MemDbView {
        namespace_ids: v.namespace_ids.insert(obj.name@, obj.id),
        namespaces: v.namespaces.insert(obj.id, obj),
        namespace_max: if v.namespace_ids.contains_key(obj.name@) {
            v.namespace_max
        } else {
            (v.namespace_max + 1) as usize
        },
        ..v
    }
}

/// `v` after `file_put` of `f`.
pub open spec fn file_added(v: MemDbView, f: DbFileStorage) -> MemDbView {
    let id = put_file_id(f, v.file_max);
    MemDbView {
        files: v.files.insert(id, f),
        file_ids: match storage_hash(f) {
            Some(h) => v.file_ids.insert(h, id),
            None => v.file_ids,
        },
        file_max: put_file_max(f, v.file_max) as usize,
        ..v
    }
}

/// The id `tags_put` returns for `t`: its id if it is stored, else the id
/// asked for, else the tag counter.
pub open spec fn tag_put_id(v: MemDbView, t: sharedtypes::DbTagNNS, id: Option<usize>) -> usize {
    if v.tag_ids.contains_key(tag_key(t)) {
        v.tag_ids[tag_key(t)]
    } else {
        match id {
            Some(i) => i,
            None => v.tag_max,
        }
    }
}

/// `v` after `tags_put` of `t`: unchanged for a stored tag.
pub open spec fn tag_added(v: MemDbView, t: sharedtypes::DbTagNNS, id: Option<usize>) -> MemDbView {
    if v.tag_ids.contains_key(tag_key(t)) {
        v
    } else {
        let res = tag_put_id(v, t, id);
        MemDbView {
            tags: v.tags.insert(res, t),
            tag_ids: v.tag_ids.insert(tag_key(t), res),
            namespace_tags: v.namespace_tags.insert(
                t.namespace,
                set_at(v.namespace_tags, t.namespace).insert(res),
            ),
            tag_max: put_tag_max(v.tag_max, id) as usize,
            ..v
        }
    }
}

/// `v` after a file is related to a tag.
pub open spec fn relationship_added(v: MemDbView, file: usize, tag: usize) -> MemDbView {
    MemDbView {
        relationships: v.relationships.insert(cantor(file as int, tag as int) as usize),
        rel_tag_file: v.rel_tag_file.insert(tag, set_at(v.rel_tag_file, tag).insert(file)),
        rel_file_tag: v.rel_file_tag.insert(file, set_at(v.rel_file_tag, file).insert(tag)),
        ..v
    }
}

/// A map of sets with `x` taken out of the set at `k`, where there is one.
pub open spec fn set_at_removed(m: Map<usize, Set<usize>>, k: usize, x: usize) -> Map<usize, Set<usize>> {
    if m.contains_key(k) {
        m.insert(k, m[k].remove(x))
    } else {
        m
    }
}

/// `v` after `relationship_remove` of `file` and `tag`: the relationship is
/// gone, the tag is out of the file's list and the file out of the tag's.
pub open spec fn relationship_removed(v: MemDbView, file: usize, tag: usize) -> MemDbView {
    MemDbView {
        relationships: v.relationships.remove(cantor(file as int, tag as int) as usize),
        rel_file_tag: set_at_removed(v.rel_file_tag, file, tag),
        rel_tag_file: set_at_removed(v.rel_tag_file, tag, file),
        ..v
    }
}

/// `v` after `parents_put` of `p`: unchanged for a stored relation.
pub open spec fn parent_added(v: MemDbView, p: sharedtypes::DbParentsObj) -> MemDbView {
    let c = cantor(p.tag_id as int, p.relate_tag_id as int) as usize;
    if v.parents.contains(c) {
        v
    } else {
        MemDbView {
            parents: v.parents.insert(c),
            parents_cantor_limitto: match p.limit_to {
                Some(l) => v.parents_cantor_limitto.insert(
                    c,
                    set_at(v.parents_cantor_limitto, c).insert(l),
                ),
                None => v.parents_cantor_limitto,
            },
            parents_limitto_cantor: match p.limit_to {
                Some(l) => v.parents_limitto_cantor.insert(
                    l,
                    set_at(v.parents_limitto_cantor, l).insert(c),
                ),
                None => v.parents_limitto_cantor,
            },
            parents_rel_tag: v.parents_rel_tag.insert(
                p.relate_tag_id,
                set_at(v.parents_rel_tag, p.relate_tag_id).insert(p.tag_id),
            ),
            parents_tag_rel: v.parents_tag_rel.insert(
                p.tag_id,
                set_at(v.parents_tag_rel, p.tag_id).insert(p.relate_tag_id),
            ),
            ..v
        }
    }
}

/// The parent relations of `q`, as (tag, related tag) pairs, that `v` stores.
pub open spec fn present_pairs(v: MemDbView, q: Set<(usize, usize)>) -> Set<(usize, usize)> {
    q.filter(|p: (usize, usize)| v.parents.contains(cantor(p.0 as int, p.1 as int) as usize))
}

/// `v` with the parent relations of `q` removed: their pairings leave the
/// set of parents, and each stored one leaves the two lookup maps.
pub open spec fn without_parents(v: MemDbView, q: Set<(usize, usize)>) -> MemDbView {
    let d = present_pairs(v, q);
    MemDbView {
        parents: v.parents.filter(
            |c: usize|
                !(exists|p: (usize, usize)| q.contains(p) && c as int == cantor(p.0 as int, p.1 as int)),
        ),
        parents_rel_tag: Map::new(
            |k: usize| v.parents_rel_tag.contains_key(k),
            |k: usize| v.parents_rel_tag[k].filter(|t: usize| !d.contains((t, k))),
        ),
        parents_tag_rel: Map::new(
            |k: usize| v.parents_tag_rel.contains_key(k),
            |k: usize| v.parents_tag_rel[k].filter(|r: usize| !d.contains((k, r))),
        ),
        ..v
    }
}

/// `v` after `parents_selective_remove` of the relation of `t` to `r`.
pub open spec fn selective_removed(v: MemDbView, t: usize, r: usize) -> MemDbView {
    let c = cantor(t as int, r as int) as usize;
    if v.parents.contains(c) {
        MemDbView {
            parents: v.parents.remove(c),
            parents_rel_tag: if v.parents_rel_tag.contains_key(r) {
                v.parents_rel_tag.insert(r, v.parents_rel_tag[r].remove(t))
            } else {
                v.parents_rel_tag
            },
            parents_tag_rel: if v.parents_tag_rel.contains_key(t) {
                v.parents_tag_rel.insert(t, v.parents_tag_rel[t].remove(r))
            } else {
                v.parents_tag_rel
            },
            ..v
        }
    } else {
        v
    }
}

/// Removing one more relation, not removed before, is removing it from the
/// state without the earlier ones.
pub proof fn lemma_without_parents_step(v: MemDbView, q: Set<(usize, usize)>, t: usize, r: usize)
    requires
        !q.contains((t, r)),
        cantor_fits(t, r),
    ensures
        without_parents(v, q.insert((t, r))) == selective_removed(without_parents(v, q), t, r),
        without_parents(v, q).parents.contains(cantor(t as int, r as int) as usize) == v.parents.contains(
            cantor(t as int, r as int) as usize,
        ),
{
    let c = cantor(t as int, r as int) as usize;
    let cur = without_parents(v, q);
    let q2 = q.insert((t, r));
    let new = without_parents(v, q2);
    let d = present_pairs(v, q);
    let d2 = present_pairs(v, q2);
    assert(c as int == cantor(t as int, r as int));
    if v.parents.contains(c) {
        assert forall|p: (usize, usize)| q.contains(p) implies c as int != cantor(p.0 as int, p.1 as int) by {
            if c as int == cantor(p.0 as int, p.1 as int) {
                crate::cantor::lemma_cantor_injective(t as int, r as int, p.0 as int, p.1 as int);
            }
        }
        assert(cur.parents.contains(c));
        assert(d2 =~= d.insert((t, r)));
        assert forall|x: usize| new.parents.contains(x) <==> cur.parents.remove(c).contains(x) by {
            if x == c {
                assert(q2.contains((t, r)));
            } else {
                if exists|p: (usize, usize)| q2.contains(p) && x as int == cantor(p.0 as int, p.1 as int) {
                    let p = choose|p: (usize, usize)| q2.contains(p) && x as int == cantor(p.0 as int, p.1 as int);
                    assert(q.contains(p));
                }
                if exists|p: (usize, usize)| q.contains(p) && x as int == cantor(p.0 as int, p.1 as int) {
                    let p = choose|p: (usize, usize)| q.contains(p) && x as int == cantor(p.0 as int, p.1 as int);
                    assert(q2.contains(p));
                }
            }
        }
        assert(new.parents =~= cur.parents.remove(c));
        let exp_rel = if v.parents_rel_tag.contains_key(r) {
            cur.parents_rel_tag.insert(r, cur.parents_rel_tag[r].remove(t))
        } else {
            cur.parents_rel_tag
        };
        assert forall|k: usize| #[trigger] new.parents_rel_tag.contains_key(k) implies new.parents_rel_tag[k]
            =~= exp_rel[k] by {}
        assert(new.parents_rel_tag =~= exp_rel);
        let exp_tag = if v.parents_tag_rel.contains_key(t) {
            cur.parents_tag_rel.insert(t, cur.parents_tag_rel[t].remove(r))
        } else {
            cur.parents_tag_rel
        };
        assert forall|k: usize| #[trigger] new.parents_tag_rel.contains_key(k) implies new.parents_tag_rel[k]
            =~= exp_tag[k] by {}
        assert(new.parents_tag_rel =~= exp_tag);
    } else {
        assert(!cur.parents.contains(c));
        assert(d2 =~= d);
        assert forall|x: usize| new.parents.contains(x) <==> cur.parents.contains(x) by {
            if x == c {
            } else {
                if exists|p: (usize, usize)| q2.contains(p) && x as int == cantor(p.0 as int, p.1 as int) {
                    let p = choose|p: (usize, usize)| q2.contains(p) && x as int == cantor(p.0 as int, p.1 as int);
                    assert(q.contains(p));
                }
                if exists|p: (usize, usize)| q.contains(p) && x as int == cantor(p.0 as int, p.1 as int) {
                    let p = choose|p: (usize, usize)| q.contains(p) && x as int == cantor(p.0 as int, p.1 as int);
                    assert(q2.contains(p));
                }
            }
        }
        assert(new.parents =~= cur.parents);
        assert(new.parents_rel_tag =~= cur.parents_rel_tag);
        assert(new.parents_tag_rel =~= cur.parents_tag_rel);
    }
}

/// Removing no relation changes nothing.
pub proof fn lemma_without_no_parents(v: MemDbView)
    ensures
        without_parents(v, Set::empty()) == v,
{
    let e = Set::<(usize, usize)>::empty();
    assert(present_pairs(v, e) =~= e);
    assert(without_parents(v, e).parents =~= v.parents);
    assert forall|k: usize| #[trigger] v.parents_rel_tag.contains_key(k) implies without_parents(
        v,
        e,
    ).parents_rel_tag[k] =~= v.parents_rel_tag[k] by {}
    assert(without_parents(v, e).parents_rel_tag =~= v.parents_rel_tag);
    assert forall|k: usize| #[trigger] v.parents_tag_rel.contains_key(k) implies without_parents(
        v,
        e,
    ).parents_tag_rel[k] =~= v.parents_tag_rel[k] by {}
    assert(without_parents(v, e).parents_tag_rel =~= v.parents_tag_rel);
}

impl MemDbView {
    /// The view of an empty database.
    pub open spec fn empty() -> MemDbView {
        MemDbView {
            tags: Map::empty(),
            tag_ids: Map::empty(),
            settings: Map::empty(),
            setting_ids: Map::empty(),
            parents: Set::empty(),
            parents_tag_rel: Map::empty(),
            parents_rel_tag: Map::empty(),
            parents_cantor_limitto: Map::empty(),
            parents_limitto_cantor: Map::empty(),
            jobs: Map::empty(),
            namespaces: Map::empty(),
            namespace_ids: Map::empty(),
            namespace_tags: Map::empty(),
            files: Map::empty(),
            file_ids: Map::empty(),
            rel_file_tag: Map::empty(),
            rel_tag_file: Map::empty(),
            relationships: Set::empty(),
            tag_max: 0,
            relationship_max: 0,
            settings_max: 0,
            parents_max: 0,
            jobs_max: 0,
            namespace_max: 0,
            file_max: 0,
        }
    }

    /// The jobs that are running.
    pub open spec fn running_jobs(self) -> Set<DbJobsObj> {
        self.jobs.values().filter(|j: DbJobsObj| j.isrunning)
    }
}

impl NewinMemDB {
    /// Whether the database is well formed.
    pub closed spec fn wf(&self) -> bool {
        &&& forall|id: usize| #[trigger] self._jobs_id_data@.contains_key(id) ==> id < self._jobs_max
        &&& forall|id: usize| #[trigger] self._file_id_data@.contains_key(id) ==> id < self._file_max
        &&& forall|id: usize| #[trigger] self._settings_id_data@.contains_key(id) ==> id < self._settings_max
        &&& forall|n: Seq<char>| #[trigger] self._settings_name_id@.contains_key(n)
            ==> self._settings_id_data@.contains_key(self._settings_name_id@[n])
        &&& forall|n: Seq<char>, m: Seq<char>|
            #[trigger] self._settings_name_id@.contains_key(n) && #[trigger] self._settings_name_id@.contains_key(m)
            && n != m ==> self._settings_name_id@[n] != self._settings_name_id@[m]
        &&& forall|k: usize| #[trigger] fnv_sets_view(self._relationship_tag_file@).contains_key(k)
            ==> fnv_sets_view(self._relationship_tag_file@)[k].finite()
        &&& forall|k: usize| #[trigger] fnv_sets_view(self._relationship_file_tag@).contains_key(k)
            ==> fnv_sets_view(self._relationship_file_tag@)[k].finite()
        &&& forall|t: usize, r: usize| self._parents_tag_rel@.contains_key(t)
            && #[trigger] self._parents_tag_rel@[t]@.contains(r) ==> cantor_fits(t, r)
    }

    /// A well formed database has a well formed view.
    pub proof fn lemma_wf_view(&self)
        requires
            self.wf(),
        ensures
            self@.wf(),
    {
    }

    /// An empty database.
    pub fn new() -> (res: NewinMemDB)
        ensures
            res.wf(),
            res@ == MemDbView::empty(),
    {
        let res = NewinMemDB {
            _tag_nns_id_data: fnv_map_new(),
            _tag_nns_data_id: HashMap::new(),
            _settings_id_data: HashMap::new(),
            _settings_name_id: StringHashMap::new(),
            _parents_dual: HashSet::new(),
            _parents_tag_rel: HashMap::new(),
            _parents_rel_tag: HashMap::new(),
            _parents_cantor_limitto: HashMap::new(),
            _parents_limitto_cantor: HashMap::new(),
            _jobs_id_data: HashMap::new(),
            _namespace_id_data: HashMap::new(),
            _namespace_name_id: StringHashMap::new(),
            _namespace_id_tag: HashMap::new(),
            _file_id_data: HashMap::new(),
            _file_name_id: StringHashMap::new(),
            _relationship_file_tag: fnv_map_new(),
            _relationship_tag_file: fnv_map_new(),
            _relationship_dual: fnv_set_new(),
            _tag_max: 0,
            _relationship_max: 0,
            _settings_max: 0,
            _parents_max: 0,
            _jobs_max: 0,
            _namespace_max: 0,
            _file_max: 0,
        };
        assert(res@.tags =~= Map::empty());
        assert(res@.tag_ids =~= Map::empty());
        assert(res@.parents_tag_rel =~= Map::empty());
        assert(res@.parents_rel_tag =~= Map::empty());
        assert(res@.parents_cantor_limitto =~= Map::empty());
        assert(res@.parents_limitto_cantor =~= Map::empty());
        assert(res@.namespace_tags =~= Map::empty());
        assert(res@.rel_file_tag =~= Map::empty());
        assert(res@.rel_tag_file =~= Map::empty());
        res
    }

    /// Adds a setting, or replaces the one of the same name, which keeps its id.
    pub fn settings_add(
        &mut self,
        name: String,
        pretty: Option<String>,
        num: Option<usize>,
        param: Option<String>,
    )
        requires
            old(self).wf(),
            old(self)@.setting_ids.contains_key(name@) || old(self)@.settings_max < usize::MAX,
        ensures
            final(self).wf(),
            final(self)@ == setting_added(
                old(self)@,
                sharedtypes::DbSettingObj { name, pretty, num, param },
            ),
    {
        let found = match self._settings_name_id.get(name.as_str()) {
            None => None,
            Some(id) => Some(*id),
        };
        match found {
            None => {
                let id = self._settings_max;
                self._settings_name_id.insert(name.clone(), id);
                self._settings_id_data.insert(id, sharedtypes::DbSettingObj { name, pretty, num, param });
                self._settings_max = id + 1;
            },
            Some(setting_id) => {
                self._settings_id_data.insert(
                    setting_id,
                    sharedtypes::DbSettingObj { name, pretty, num, param },
                );
            },
        }
    }

    /// Returns the setting of the given name.
    pub fn settings_get_name(&self, name: &String) -> (res: Option<&sharedtypes::DbSettingObj>)
        requires
            self.wf(),
        ensures
            match res {
                Some(s) => self@.setting_ids.contains_key(name@)
                    && *s == self@.settings[self@.setting_ids[name@]],
                None => !self@.setting_ids.contains_key(name@),
            },
    {
        match self._settings_name_id.get(name.as_str()) {
            None => None,
            Some(id) => self._settings_id_data.get(id),
        }
    }

    /// Adds a job under the next id.
    pub fn jobref_new(&mut self, job: DbJobsObj)
        requires
            old(self).wf(),
            old(self)@.jobs_max < usize::MAX,
        ensures
            final(self).wf(),
            final(self)@ == job_added(old(self)@, job),
    {
        let id = self._jobs_max;
        self._jobs_id_data.insert(id, job);
        self._jobs_max = id + 1;
    }

    /// Removes a job. Its id is not handed out again.
    pub fn jobref_remove(&mut self, id: &usize)
        requires
            old(self).wf(),
        ensures
            final(self).wf(),
            final(self)@ == (MemDbView { jobs: old(self)@.jobs.remove(*id), ..old(self)@ }),
    {
        let _ = self._jobs_id_data.remove(id);
    }

    /// Flips whether a job is running and returns the new value, or `None`
    /// when there is no such job.
    pub fn jobref_flip_isrunning(&mut self, id: &usize) -> (res: Option<bool>)
        requires
            old(self).wf(),
        ensures
            final(self).wf(),
            final(self)@ == job_flipped(old(self)@, *id),
            old(self)@.jobs.contains_key(*id) ==> res == Some(!old(self)@.jobs[*id].isrunning),
            !old(self)@.jobs.contains_key(*id) ==> res is None,
    {
        match self._jobs_id_data.remove(id) {
            Some(mut job) => {
                let now = !job.isrunning;
                job.isrunning = now;
                self._jobs_id_data.insert(*id, job);
                assert(self._jobs_id_data@ =~= old(self)._jobs_id_data@.insert(*id, job));
                Some(now)
            },
            None => {
                assert(self._jobs_id_data@ =~= old(self)._jobs_id_data@);
                None
            },
        }
    }

    /// Returns the jobs that are running.
    pub fn jobref_get_isrunning(&self) -> (res: Vec<&DbJobsObj>)
        requires
            self.wf(),
        ensures
            forall|j: DbJobsObj| self@.running_jobs().contains(j) <==> exists|i: int|
                0 <= i < res.len() && *res[i] == j,
    {
        let mut out: Vec<&DbJobsObj> = Vec::new();
        let ghost m = self._jobs_id_data@;
        for each in it: self._jobs_id_data.values()
            invariant
                m == self._jobs_id_data@,
                it.seq().unref().to_set() == m.values(),
                forall|i: int| 0 <= i < out.len() ==> (#[trigger] out[i]).isrunning
                    && m.values().contains(*out[i]),
                forall|k: int| 0 <= k < it.index() && (#[trigger] it.seq()[k]).isrunning
                    ==> exists|i: int| 0 <= i < out.len() && *out[i] == *it.seq()[k],
            ensures
                forall|j: DbJobsObj| m.values().contains(j) && j.isrunning ==> exists|i: int|
                    0 <= i < out.len() && *out[i] == j,
        {
            let ghost k = it.index();
            proof {
                assert(0 <= k < it.seq().len());
                assert(it.seq()[k] == each);
                assert(it.seq().unref()[k] == *each);
                assert(it.seq().unref().contains(*each));
            }
            if each.isrunning {
                let ghost before = out@;
                out.push(each);
                proof {
                    assert(*out[out.len() - 1] == *it.seq()[k]);
                    assert forall|k2: int| 0 <= k2 < k && (#[trigger] it.seq()[k2]).isrunning implies exists|i: int|
                        0 <= i < out.len() && *out[i] == *it.seq()[k2] by {
                        let i = choose|i: int| 0 <= i < before.len() && *before[i] == *it.seq()[k2];
                        assert(out@[i] == before[i]);
                    }
                }
            }
        }
        out
    }

    /// Adds a job under the next id.
    pub fn jobs_add(&mut self, job: DbJobsObj)
        requires
            old(self).wf(),
            old(self)@.jobs_max < usize::MAX,
        ensures
            final(self).wf(),
            final(self)@ == job_added(old(self)@, job),
    {
        self.jobref_new(job);
    }

    /// Returns the next job id.
    pub fn jobs_get_max(&self) -> (res: &usize)
        ensures
            *res == self@.jobs_max,
    {
        &self._jobs_max
    }

    /// Returns all jobs by id.
    pub fn jobs_get_all(&self) -> (res: &HashMap<usize, DbJobsObj>)
        ensures
            res@ == self@.jobs,
    {
        &self._jobs_id_data
    }
}

impl NewinMemDB {
    /// Returns the id of the namespace of the given name.
    pub fn namespace_get(&self, inp: &String) -> (res: Option<&usize>)
        ensures
            match res {
                Some(id) => self@.namespace_ids.contains_key(inp@) && *id == self@.namespace_ids[inp@],
                None => !self@.namespace_ids.contains_key(inp@),
            },
    {
        self._namespace_name_id.get(inp.as_str())
    }

    /// Returns the namespace of the given id.
    pub fn namespace_id_get(&self, id: &usize) -> (res: Option<&sharedtypes::DbNamespaceObj>)
        ensures
            match res {
                Some(ns) => self@.namespaces.contains_key(*id) && *ns == self@.namespaces[*id],
                None => !self@.namespaces.contains_key(*id),
            },
    {
        self._namespace_id_data.get(id)
    }

    /// Returns the ids of the namespaces, each once.
    pub fn namespace_keys(&self) -> (res: Vec<usize>)
        ensures
            res@.to_set() == self@.namespaces.dom(),
            res@.no_duplicates(),
    {
        let mut temp: Vec<usize> = Vec::new();
        let ghost d = self._namespace_id_data@.dom();
        for k in it: self._namespace_id_data.keys()
            invariant
                d == self._namespace_id_data@.dom(),
                it.seq().unref().to_set() == d,
                it.seq().unref().no_duplicates(),
                temp@ == it.seq().unref().take(it.index()),
            ensures
                temp@ == it.seq().unref(),
        {
            proof {
                assert(it.seq().unref()[it.index()] == *k);
                assert(it.seq().unref().take(it.index() + 1) =~= it.seq().unref().take(
                    it.index(),
                ).push(*k));
            }
            temp.push(*k);
        }
        assert(temp@.to_set() =~= d);
        temp
    }

    /// Returns the ids of the tags of a namespace.
    pub fn namespace_get_tagids(&self, id: &usize) -> (res: Option<&HashSet<usize>>)
        ensures
            match res {
                Some(s) => self@.namespace_tags.contains_key(*id) && s@ == self@.namespace_tags[*id],
                None => !self@.namespace_tags.contains_key(*id),
            },
    {
        self._namespace_id_tag.get(id)
    }

    /// Stores a namespace under its id and name, and returns the namespace
    /// counter as it was. The counter moves on only for a new name.
    pub fn namespace_put(&mut self, namespace_obj: sharedtypes::DbNamespaceObj) -> (res: usize)
        requires
            old(self).wf(),
            old(self)@.namespace_ids.contains_key(namespace_obj.name@)
                || old(self)@.namespace_max < usize::MAX,
        ensures
            final(self).wf(),
            res == old(self)@.namespace_max,
            final(self)@ == namespace_added(old(self)@, namespace_obj),
    {
        let existed = self._namespace_name_id.contains_key(namespace_obj.name.as_str());
        self._namespace_name_id.insert(namespace_obj.name.clone(), namespace_obj.id);
        self._namespace_id_data.insert(namespace_obj.id, namespace_obj);
        if !existed {
            let temp = self._namespace_max;
            self._namespace_max = temp + 1;
            temp
        } else {
            self._namespace_max
        }
    }

    /// Deletes a namespace, its name and its list of tags.
    pub fn namespace_delete(&mut self, namepsace_id: &usize)
        requires
            old(self).wf(),
        ensures
            final(self).wf(),
            old(self)@.namespaces.contains_key(*namepsace_id) ==> final(self)@ == (MemDbView {
                namespaces: old(self)@.namespaces.remove(*namepsace_id),
                namespace_ids: old(self)@.namespace_ids.remove(
                    old(self)@.namespaces[*namepsace_id].name@,
                ),
                namespace_tags: old(self)@.namespace_tags.remove(*namepsace_id),
                ..old(self)@
            }),
            !old(self)@.namespaces.contains_key(*namepsace_id) ==> final(self)@ == old(self)@,
    {
        let namespace_data = self._namespace_id_data.remove(namepsace_id);
        match namespace_data {
            None => {
                assert(self._namespace_id_data@ =~= old(self)._namespace_id_data@);
            },
            Some(namespace_obj) => {
                self._namespace_name_id.remove(namespace_obj.name.as_str());
                sets_drop(&mut self._namespace_id_tag, *namepsace_id);
            },
        }
    }

    /// Returns the namespace counter.
    pub fn namespace_get_max(&self) -> (res: usize)
        ensures
            res == self@.namespace_max,
    {
        self._namespace_max
    }

    /// Returns the id of a tag.
    pub fn tags_get_id(&self, tagobj: &sharedtypes::DbTagNNS) -> (res: Option<&usize>)
        ensures
            match res {
                Some(id) => self@.tag_ids.contains_key(tag_key(*tagobj))
                    && *id == self@.tag_ids[tag_key(*tagobj)],
                None => !self@.tag_ids.contains_key(tag_key(*tagobj)),
            },
    {
        match self._tag_nns_data_id.get(&tagobj.namespace) {
            None => None,
            Some(inner) => inner.get(tagobj.name.as_str()),
        }
    }

    /// Returns the tag of an id.
    pub fn tags_get_data(&self, id: &usize) -> (res: Option<&sharedtypes::DbTagNNS>)
        ensures
            match res {
                Some(t) => self@.tags.contains_key(*id) && *t == self@.tags[*id],
                None => !self@.tags.contains_key(*id),
            },
    {
        fnv_map_get(&self._tag_nns_id_data, *id)
    }

    /// Clears the tags and resets the tag counter.
    pub fn tags_clear(&mut self)
        requires
            old(self).wf(),
        ensures
            final(self).wf(),
            final(self)@ == (MemDbView {
                tags: Map::empty(),
                tag_ids: Map::empty(),
                tag_max: 0,
                ..old(self)@
            }),
    {
        self._tag_max = 0;
        fnv_map_clear(&mut self._tag_nns_id_data);
        self._tag_nns_data_id.clear();
        assert(self@.tags =~= Map::empty());
        assert(self@.tag_ids =~= Map::empty());
    }

    /// Clears the parents and resets the parent counter. The links between
    /// parents and the tags they are limited to stay.
    pub fn parents_clear(&mut self)
        requires
            old(self).wf(),
        ensures
            final(self).wf(),
            final(self)@ == (MemDbView {
                parents: Set::empty(),
                parents_tag_rel: Map::empty(),
                parents_rel_tag: Map::empty(),
                parents_max: 0,
                ..old(self)@
            }),
    {
        self._parents_max = 0;
        self._parents_dual.clear();
        self._parents_rel_tag.clear();
        self._parents_tag_rel.clear();
        assert(self@.parents_tag_rel =~= Map::empty());
        assert(self@.parents_rel_tag =~= Map::empty());
    }

    /// Clears the relationships and resets the relationship counter.
    pub fn relationships_clear(&mut self)
        requires
            old(self).wf(),
        ensures
            final(self).wf(),
            final(self)@ == (MemDbView {
                rel_file_tag: Map::empty(),
                rel_tag_file: Map::empty(),
                relationships: Set::empty(),
                relationship_max: 0,
                ..old(self)@
            }),
    {
        self._relationship_max = 0;
        fnv_map_clear(&mut self._relationship_file_tag);
        fnv_map_clear(&mut self._relationship_tag_file);
        fnv_set_clear(&mut self._relationship_dual);
        assert(self@.rel_file_tag =~= Map::empty());
        assert(self@.rel_tag_file =~= Map::empty());
    }

    /// Returns the ids of the tags.
    pub fn tags_get_list_id(&self) -> (res: HashSet<usize>)
        ensures
            res@ == self@.tags.dom(),
    {
        fnv_map_key_set(&self._tag_nns_id_data)
    }

    /// Removes a tag: its id, its (name, namespace) entry and its place in
    /// the tag list of its namespace. Returns `None` when there is no such tag.
    pub fn tag_remove(&mut self, id: &usize) -> (res: Option<()>)
        requires
            old(self).wf(),
        ensures
            final(self).wf(),
            old(self)@.tags.contains_key(*id) ==> {
                let t = old(self)@.tags[*id];
                let v = old(self)@;
                &&& res is Some
                &&& final(self)@ == (MemDbView {
                    tags: v.tags.remove(*id),
                    tag_ids: v.tag_ids.remove(tag_key(t)),
                    namespace_tags: if v.namespace_tags.contains_key(t.namespace) {
                        v.namespace_tags.insert(t.namespace, v.namespace_tags[t.namespace].remove(*id))
                    } else {
                        v.namespace_tags
                    },
                    ..v
                })
            },
            !old(self)@.tags.contains_key(*id) ==> res is None && final(self)@ == old(self)@,
    {
        let rmove = fnv_map_remove(&mut self._tag_nns_id_data, *id);
        match rmove {
            None => {
                assert(self._tag_nns_id_data@ =~= old(self)._tag_nns_id_data@);
                None
            },
            Some(tag_data) => {
                tag_ids_remove(&mut self._tag_nns_data_id, tag_data.name.as_str(), tag_data.namespace);
                sets_del(&mut self._namespace_id_tag, tag_data.namespace, *id);
                Some(())
            },
        }
    }

    /// Returns the tag counter.
    /// Returns the setting counter.
    pub(crate) fn settings_max_return(&self) -> (res: usize)
        ensures
            res == self@.settings_max,
    {
        self._settings_max
    }

    pub fn tags_max_return(&self) -> (res: usize)
        ensures
            res == self@.tag_max,
    {
        self._tag_max
    }

    /// Resets the tag counter to 0.
    pub fn tags_max_reset(&mut self)
        requires
            old(self).wf(),
        ensures
            final(self).wf(),
            final(self)@ == (MemDbView { tag_max: 0, ..old(self)@ }),
    {
        self._tag_max = 0;
    }

    /// Stores a file under the id it brings, or under the file counter when
    /// it brings none, and under its hash when it has one. Returns the id.
    /// The counter moves past the id.
    pub fn file_put(&mut self, file: DbFileStorage) -> (res: usize)
        requires
            old(self).wf(),
            put_file_max(file, old(self)@.file_max) <= usize::MAX,
        ensures
            final(self).wf(),
            res == put_file_id(file, old(self)@.file_max),
            final(self)@ == file_added(old(self)@, file),
    {
        let (given_id, hash): (Option<usize>, Option<String>) = match &file {
            DbFileStorage::Exist(o) => (Some(o.id), Some(o.hash.clone())),
            DbFileStorage::NoIdExist(o) => (None, Some(o.hash.clone())),
            DbFileStorage::NoExist(i) => (Some(*i), None),
            DbFileStorage::NoExistUnknown => (None, None),
        };
        let id = match given_id {
            None => self._file_max,
            Some(rid) => rid,
        };
        match given_id {
            None => {
                self._file_max = self._file_max + 1;
            },
            Some(file_id) => {
                if file_id >= self._file_max {
                    self._file_max = file_id + 1;
                }
            },
        }
        match hash {
            Some(h) => {
                self._file_name_id.insert(h, id);
            },
            None => {},
        }
        self._file_id_data.insert(id, file);
        assert forall|i: usize| #[trigger] self._file_id_data@.contains_key(i) implies i
            < self._file_max by {
            if i != id {
                assert(old(self)._file_id_data@.contains_key(i));
            }
        }
        id
    }

    /// Returns the file of an id.
    pub fn file_get_id(&self, id: &usize) -> (res: Option<&DbFileStorage>)
        ensures
            match res {
                Some(f) => self@.files.contains_key(*id) && *f == self@.files[*id],
                None => !self@.files.contains_key(*id),
            },
    {
        self._file_id_data.get(id)
    }

    /// Returns the id of the file of a hash.
    pub fn file_get_hash(&self, hash: &String) -> (res: Option<&usize>)
        ensures
            match res {
                Some(id) => self@.file_ids.contains_key(hash@) && *id == self@.file_ids[hash@],
                None => !self@.file_ids.contains_key(hash@),
            },
    {
        self._file_name_id.get(hash.as_str())
    }

    /// Returns the ids of the files.
    pub fn file_get_list_id(&self) -> (res: HashSet<usize>)
        ensures
            res@ == self@.files.dom(),
    {
        key_set(&self._file_id_data)
    }

    /// Returns all files by id.
    pub fn file_get_list_all(&self) -> (res: &HashMap<usize, DbFileStorage>)
        ensures
            res@ == self@.files,
    {
        &self._file_id_data
    }

    /// Adds a tag unless it is there already, and returns its id. A new tag
    /// takes the id asked for, or the tag counter; it joins the tag list of
    /// its namespace, and the counter moves on by one, or up to the id asked
    /// for when that is larger.
    pub fn tags_put(&mut self, tag_info: &sharedtypes::DbTagNNS, id: Option<usize>) -> (res: usize)
        requires
            old(self).wf(),
            old(self)@.tag_ids.contains_key(tag_key(*tag_info)) || old(self)@.tag_max < usize::MAX,
        ensures
            final(self).wf(),
            res == tag_put_id(old(self)@, *tag_info, id),
            final(self)@ == tag_added(old(self)@, *tag_info, id),
    {
        let temp = self.tags_get_id(tag_info);
        match temp {
            None => {
                let working_id = match id {
                    None => self._tag_max,
                    Some(tid) => tid,
                };
                sets_add(&mut self._namespace_id_tag, tag_info.namespace, working_id);
                self.insert_tag_nns(
                    sharedtypes::DbTagObjCompatability {
                        id: working_id,
                        name: tag_info.name.clone(),
                        namespace: tag_info.namespace,
                    },
                );
                self._tag_max = self._tag_max + 1;
                match id {
                    None => {},
                    Some(id) => {
                        if self._tag_max < id {
                            self._tag_max = id;
                        }
                    },
                }
                working_id
            },
            Some(id) => *id,
        }
    }

    /// Stores a tag under its id and its (name, namespace).
    fn insert_tag_nns(&mut self, tag_info: sharedtypes::DbTagObjCompatability)
        requires
            old(self).wf(),
        ensures
            final(self).wf(),
            final(self)@ == (MemDbView {
                tags: old(self)@.tags.insert(
                    tag_info.id,
                    sharedtypes::DbTagNNS { name: tag_info.name, namespace: tag_info.namespace },
                ),
                tag_ids: old(self)@.tag_ids.insert((tag_info.name@, tag_info.namespace), tag_info.id),
                ..old(self)@
            }),
    {
        fnv_map_insert(
            &mut self._tag_nns_id_data,
            tag_info.id,
            sharedtypes::DbTagNNS { name: tag_info.name.clone(), namespace: tag_info.namespace },
        );
        tag_ids_insert(&mut self._tag_nns_data_id, tag_info.name, tag_info.namespace, tag_info.id);
    }
}

impl NewinMemDB {
    /// Returns the ids of the files a tag relates to.
    pub fn relationship_get_fileid(&self, tag: &usize) -> (res: Option<HashSet<usize>>)
        ensures
            match res {
                Some(s) => self@.rel_tag_file.contains_key(*tag) && s@ == self@.rel_tag_file[*tag],
                None => !self@.rel_tag_file.contains_key(*tag),
            },
    {
        match fnv_map_get(&self._relationship_tag_file, *tag) {
            None => None,
            Some(relref) => Some(fnv_set_to_hashset(relref)),
        }
    }

    /// Returns the ids of the tags a file relates to.
    pub fn relationship_get_tagid(&self, file: &usize) -> (res: Option<HashSet<usize>>)
        ensures
            match res {
                Some(s) => self@.rel_file_tag.contains_key(*file) && s@ == self@.rel_file_tag[*file],
                None => !self@.rel_file_tag.contains_key(*file),
            },
    {
        match fnv_map_get(&self._relationship_file_tag, *file) {
            None => None,
            Some(relref) => Some(fnv_set_to_hashset(relref)),
        }
    }

    /// Returns one of the files a tag relates to, if it relates to any.
    pub fn relationship_get_one_fileid(&self, tag: &usize) -> (res: Option<&usize>)
        ensures
            res is None <==> set_at(self@.rel_tag_file, *tag).is_empty(),
            res matches Some(f) ==> self@.rel_tag_file[*tag].contains(*f),
    {
        match fnv_map_get(&self._relationship_tag_file, *tag) {
            None => None,
            Some(relref) => fnv_set_first(relref),
        }
    }

    /// Removes the relationship of a file and a tag: the tag leaves the
    /// file's list and the file the tag's list.
    pub fn relationship_remove(&mut self, file_id: &usize, tag_id: &usize)
        requires
            old(self).wf(),
            cantor_fits(*file_id, *tag_id),
        ensures
            final(self).wf(),
            final(self)@ == relationship_removed(old(self)@, *file_id, *tag_id),
    {
        let c = cantor_pair(*file_id, *tag_id);
        fnv_set_remove(&mut self._relationship_dual, c);
        fnv_sets_del(&mut self._relationship_file_tag, *file_id, *tag_id);
        fnv_sets_del(&mut self._relationship_tag_file, *tag_id, *file_id);
    }

    /// Whether a file relates to a tag.
    pub fn relationship_get(&self, file: &usize, tag: &usize) -> (res: bool)
        requires
            cantor_fits(*file, *tag),
        ensures
            res == self@.relationships.contains(cantor(*file as int, *tag as int) as usize),
    {
        fnv_set_contains(&self._relationship_dual, cantor_pair(*file, *tag))
    }

    /// Relates a file to a tag.
    pub fn relationship_add(&mut self, file: usize, tag: usize)
        requires
            old(self).wf(),
            cantor_fits(file, tag),
        ensures
            final(self).wf(),
            final(self)@ == relationship_added(old(self)@, file, tag),
    {
        let c = cantor_pair(file, tag);
        fnv_set_insert(&mut self._relationship_dual, c);
        fnv_sets_add(&mut self._relationship_tag_file, tag, file);
        fnv_sets_add(&mut self._relationship_file_tag, file, tag);
    }

    /// Returns the pairing of a parent relation if it is stored.
    pub fn parents_get(&self, parent: &sharedtypes::DbParentsObj) -> (res: Option<&usize>)
        requires
            cantor_fits(parent.tag_id, parent.relate_tag_id),
        ensures
            ({
                let c = cantor(parent.tag_id as int, parent.relate_tag_id as int);
                match res {
                    Some(id) => self@.parents.contains(c as usize) && *id == c,
                    None => !self@.parents.contains(c as usize),
                }
            }),
    {
        let c = cantor_pair(parent.tag_id, parent.relate_tag_id);
        self._parents_dual.get(&c)
    }

    /// Looks up a parent relation by its pairing and works out its two tags;
    /// nothing is changed, and the relation stays stored.
    pub fn parents_delete(&self, parent_id: &usize) {
        match self._parents_dual.get(parent_id) {
            None => {},
            Some(pid) => {
                let (_tag_id, _relate_tag_id) = crate::cantor::cantor_unpair(*pid);
            },
        }
    }

    /// Returns the tags a tag relates to as a parent relation.
    pub fn parents_rel_get(&self, relate_tag_id: &usize) -> (res: Option<&HashSet<usize>>)
        ensures
            match res {
                Some(s) => self@.parents_tag_rel.contains_key(*relate_tag_id)
                    && s@ == self@.parents_tag_rel[*relate_tag_id],
                None => !self@.parents_tag_rel.contains_key(*relate_tag_id),
            },
    {
        self._parents_tag_rel.get(relate_tag_id)
    }

    /// Returns the tags that relate to a tag as a parent relation.
    pub fn parents_tag_get(&self, tag_id: &usize) -> (res: Option<&HashSet<usize>>)
        ensures
            match res {
                Some(s) => self@.parents_rel_tag.contains_key(*tag_id)
                    && s@ == self@.parents_rel_tag[*tag_id],
                None => !self@.parents_rel_tag.contains_key(*tag_id),
            },
    {
        self._parents_rel_tag.get(tag_id)
    }

    /// Stores a parent relation unless it is stored already, and returns its
    /// pairing, which is its id. A new relation with a limiting tag records
    /// the link between the two.
    pub fn parents_put(&mut self, parent: sharedtypes::DbParentsObj) -> (res: usize)
        requires
            old(self).wf(),
            cantor_fits(parent.tag_id, parent.relate_tag_id),
        ensures
            final(self).wf(),
            res == cantor(parent.tag_id as int, parent.relate_tag_id as int),
            final(self)@ == parent_added(old(self)@, parent),
    {
        match self.parents_get(&parent) {
            None => {},
            Some(id) => {
                return *id;
            },
        }
        let c = cantor_pair(parent.tag_id, parent.relate_tag_id);
        self._parents_dual.insert(c);
        match parent.limit_to {
            Some(limitto) => {
                sets_add(&mut self._parents_cantor_limitto, c, limitto);
                sets_add(&mut self._parents_limitto_cantor, limitto, c);
            },
            None => {},
        }
        sets_add(&mut self._parents_rel_tag, parent.relate_tag_id, parent.tag_id);
        sets_add(&mut self._parents_tag_rel, parent.tag_id, parent.relate_tag_id);
        proof {
            assert forall|t: usize, r: usize| self._parents_tag_rel@.contains_key(t)
                && #[trigger] self._parents_tag_rel@[t]@.contains(r) implies cantor_fits(t, r) by {
                assert(self@.parents_tag_rel.contains_key(t));
                assert(self@.parents_tag_rel[t] == self._parents_tag_rel@[t]@);
                if t != parent.tag_id || r != parent.relate_tag_id {
                    assert(set_at(old(self)@.parents_tag_rel, t).contains(r));
                    assert(old(self)@.parents_tag_rel.contains_key(t));
                    assert(old(self)._parents_tag_rel@[t]@.contains(r));
                }
            }
        }
        match self.parents_get(&parent) {
            None => {
                let par = self._parents_max;
                par
            },
            Some(id) => *id,
        }
    }

    /// Removes a parent relation. When it is stored, the tag leaves the set
    /// of tags relating to the related tag and the related tag leaves the
    /// set of tags the tag relates to.
    pub fn parents_selective_remove(&mut self, parentobj: &sharedtypes::DbParentsObj)
        requires
            old(self).wf(),
            cantor_fits(parentobj.tag_id, parentobj.relate_tag_id),
        ensures
            final(self).wf(),
            final(self)@ == selective_removed(old(self)@, parentobj.tag_id, parentobj.relate_tag_id),
    {
        let c = cantor_pair(parentobj.tag_id, parentobj.relate_tag_id);
        if !self._parents_dual.remove(&c) {
            assert(self._parents_dual@ =~= old(self)._parents_dual@);
            return ;
        }
        sets_del(&mut self._parents_rel_tag, parentobj.relate_tag_id, parentobj.tag_id);
        sets_del(&mut self._parents_tag_rel, parentobj.tag_id, parentobj.relate_tag_id);
        proof {
            assert forall|t: usize, r: usize| self._parents_tag_rel@.contains_key(t)
                && #[trigger] self._parents_tag_rel@[t]@.contains(r) implies cantor_fits(t, r) by {
                assert(self@.parents_tag_rel.contains_key(t));
                assert(self@.parents_tag_rel[t] == self._parents_tag_rel@[t]@);
                assert(old(self)@.parents_tag_rel.contains_key(t));
                assert(old(self)._parents_tag_rel@[t]@.contains(r));
            }
        }
    }
}

impl NewinMemDB {
    /// Removes each parent relation of a list, one after the other.
    fn parents_remove_pairs(&mut self, pairs: &Vec<(usize, usize)>)
        requires
            old(self).wf(),
            pairs@.no_duplicates(),
            forall|i: int| 0 <= i < pairs.len() ==> cantor_fits(#[trigger] pairs[i].0, pairs[i].1),
        ensures
            final(self).wf(),
            final(self)@ == without_parents(old(self)@, pairs@.to_set()),
    {
        let ghost v = self@;
        proof {
            lemma_without_no_parents(v);
            assert(pairs@.take(0).to_set() =~= Set::<(usize, usize)>::empty());
        }
        let mut i: usize = 0;
        while i < pairs.len()
            invariant
                self.wf(),
                0 <= i <= pairs.len(),
                pairs@.no_duplicates(),
                forall|j: int| 0 <= j < pairs.len() ==> cantor_fits(#[trigger] pairs[j].0, pairs[j].1),
                self@ == without_parents(v, pairs@.take(i as int).to_set()),
            decreases pairs.len() - i,
        {
            let (t, r) = pairs[i];
            let ghost q = pairs@.take(i as int).to_set();
            proof {
                assert(!q.contains((t, r))) by {
                    if q.contains((t, r)) {
                        let j = choose|j: int| 0 <= j < i && pairs@.take(i as int)[j] == (t, r);
                        assert(pairs@[j] == pairs@[i as int]);
                    }
                }
                assert(cantor_fits(pairs[i as int].0, pairs[i as int].1));
                lemma_without_parents_step(v, q, t, r);
                assert(pairs@.take(i + 1).to_set() =~= q.insert((t, r))) by {
                    assert(pairs@.take(i + 1) =~= pairs@.take(i as int).push((t, r)));
                    pairs@.take(i as int).lemma_push_to_set_commute((t, r));
                }
            }
            self.parents_selective_remove(
                &sharedtypes::DbParentsObj { tag_id: t, relate_tag_id: r, limit_to: None },
            );
            i = i + 1;
        }
        assert(pairs@.take(pairs.len() as int) =~= pairs@);
    }

    /// Removes, for each tag `x` that the given tag relates to as a parent
    /// relation, the relation of `x` to the given tag. Returns those tags.
    pub fn parents_reltagid_remove(&mut self, relate_tag_id: &usize) -> (res: HashSet<usize>)
        requires
            old(self).wf(),
            forall|x: usize| #[trigger] set_at(old(self)@.parents_tag_rel, *relate_tag_id).contains(x)
                ==> cantor_fits(x, *relate_tag_id),
        ensures
            final(self).wf(),
            res@ == set_at(old(self)@.parents_tag_rel, *relate_tag_id),
            final(self)@ == without_parents(
                old(self)@,
                set_at(old(self)@.parents_tag_rel, *relate_tag_id).map(|x: usize| (x, *relate_tag_id)),
            ),
    {
        let r0 = *relate_tag_id;
        let mut out: HashSet<usize> = HashSet::new();
        let tags: Vec<usize> = match self.parents_rel_get(relate_tag_id) {
            None => Vec::new(),
            Some(tag_id_set) => set_to_vec(tag_id_set),
        };
        let ghost s = set_at(old(self)@.parents_tag_rel, r0);
        assert(tags@.to_set() =~= s);
        let mut pairs: Vec<(usize, usize)> = Vec::new();
        let mut i: usize = 0;
        while i < tags.len()
            invariant
                0 <= i <= tags.len(),
                tags@.to_set() == s,
                tags@.no_duplicates(),
                pairs@ == tags@.take(i as int).map_values(|x: usize| (x, r0)),
                out@ == tags@.take(i as int).to_set(),
            decreases tags.len() - i,
        {
            out.insert(tags[i]);
            pairs.push((tags[i], r0));
            proof {
                assert(tags@.take(i + 1) =~= tags@.take(i as int).push(tags@[i as int]));
                assert(pairs@ =~= tags@.take(i + 1).map_values(|x: usize| (x, r0)));
                tags@.take(i as int).lemma_push_to_set_commute(tags@[i as int]);
                assert(out@ =~= tags@.take(i + 1).to_set());
            }
            i = i + 1;
        }
        proof {
            assert(tags@.take(tags.len() as int) =~= tags@);
            assert(pairs@.no_duplicates()) by {
                assert forall|a: int, b: int| 0 <= a < pairs.len() && 0 <= b < pairs.len() && a != b
                    implies pairs@[a] != pairs@[b] by {
                    assert(tags@[a] != tags@[b]);
                }
            }
            assert forall|j: int| 0 <= j < pairs.len() implies cantor_fits(#[trigger] pairs[j].0, pairs[j].1) by {
                assert(tags@.to_set().contains(tags@[j]));
            }
            assert(pairs@.to_set() =~= s.map(|x: usize| (x, r0))) by {
                assert forall|p: (usize, usize)| s.map(|x: usize| (x, r0)).contains(p) implies pairs@.to_set().contains(p) by {
                    let x = choose|x: usize| s.contains(x) && (x, r0) == p;
                    assert(tags@.to_set().contains(x));
                    let j = choose|j: int| 0 <= j < tags.len() && tags@[j] == x;
                    assert(pairs@[j] == p);
                }
                assert forall|p: (usize, usize)| pairs@.to_set().contains(p) implies s.map(|x: usize| (x, r0)).contains(p) by {
                    let j = choose|j: int| 0 <= j < pairs.len() && pairs@[j] == p;
                    assert(tags@.to_set().contains(tags@[j]));
                    assert(s.contains(tags@[j]));
                }
            }
        }
        self.parents_remove_pairs(&pairs);
        out
    }

    /// Removes, for each tag `y` that relates to the given tag as a parent
    /// relation, the relation of the given tag to `y`. Returns those tags.
    pub fn parents_tagid_remove(&mut self, tag_id: &usize) -> (res: HashSet<usize>)
        requires
            old(self).wf(),
            forall|y: usize| #[trigger] set_at(old(self)@.parents_rel_tag, *tag_id).contains(y)
                ==> cantor_fits(*tag_id, y),
        ensures
            final(self).wf(),
            res@ == set_at(old(self)@.parents_rel_tag, *tag_id),
            final(self)@ == without_parents(
                old(self)@,
                set_at(old(self)@.parents_rel_tag, *tag_id).map(|y: usize| (*tag_id, y)),
            ),
    {
        let t0 = *tag_id;
        let mut out: HashSet<usize> = HashSet::new();
        let rels: Vec<usize> = match self.parents_tag_get(tag_id) {
            None => Vec::new(),
            Some(set) => set_to_vec(set),
        };
        let ghost s = set_at(old(self)@.parents_rel_tag, t0);
        assert(rels@.to_set() =~= s);
        let mut pairs: Vec<(usize, usize)> = Vec::new();
        let mut i: usize = 0;
        while i < rels.len()
            invariant
                0 <= i <= rels.len(),
                rels@.to_set() == s,
                rels@.no_duplicates(),
                pairs@ == rels@.take(i as int).map_values(|y: usize| (t0, y)),
                out@ == rels@.take(i as int).to_set(),
            decreases rels.len() - i,
        {
            out.insert(rels[i]);
            pairs.push((t0, rels[i]));
            proof {
                assert(rels@.take(i + 1) =~= rels@.take(i as int).push(rels@[i as int]));
                assert(pairs@ =~= rels@.take(i + 1).map_values(|y: usize| (t0, y)));
                rels@.take(i as int).lemma_push_to_set_commute(rels@[i as int]);
                assert(out@ =~= rels@.take(i + 1).to_set());
            }
            i = i + 1;
        }
        proof {
            assert(rels@.take(rels.len() as int) =~= rels@);
            assert(pairs@.no_duplicates()) by {
                assert forall|a: int, b: int| 0 <= a < pairs.len() && 0 <= b < pairs.len() && a != b
                    implies pairs@[a] != pairs@[b] by {
                    assert(rels@[a] != rels@[b]);
                }
            }
            assert forall|j: int| 0 <= j < pairs.len() implies cantor_fits(#[trigger] pairs[j].0, pairs[j].1) by {
                assert(rels@.to_set().contains(rels@[j]));
            }
            assert(pairs@.to_set() =~= s.map(|y: usize| (t0, y))) by {
                assert forall|p: (usize, usize)| s.map(|y: usize| (t0, y)).contains(p) implies pairs@.to_set().contains(p) by {
                    let y = choose|y: usize| s.contains(y) && (t0, y) == p;
                    assert(rels@.to_set().contains(y));
                    let j = choose|j: int| 0 <= j < rels.len() && rels@[j] == y;
                    assert(pairs@[j] == p);
                }
                assert forall|p: (usize, usize)| pairs@.to_set().contains(p) implies s.map(|y: usize| (t0, y)).contains(p) by {
                    let j = choose|j: int| 0 <= j < pairs.len() && pairs@[j] == p;
                    assert(rels@.to_set().contains(rels@[j]));
                    assert(s.contains(rels@[j]));
                }
            }
        }
        self.parents_remove_pairs(&pairs);
        out
    }
}

/// `v` after the parent relations of `tag_id` to each tag of `rels` are
/// dropped along with the lookup entries of `tag_id` and of those tags.
pub open spec fn parents_dropped(v: MemDbView, tag_id: usize, rels: Set<usize>) -> MemDbView {
    MemDbView {
        parents_tag_rel: v.parents_tag_rel.remove(tag_id),
        parents_rel_tag: v.parents_rel_tag.remove_keys(rels),
        parents: v.parents.difference(rels.map(|r: usize| cantor(tag_id as int, r as int) as usize)),
        ..v
    }
}

impl NewinMemDB {
    /// Removes the parent relations of a tag to each tag it relates to, the
    /// lookup entry of the tag, and the lookup entries of each of those tags.
    /// Returns the removed (tag, related tag) pairs, each once.
    pub fn parents_remove(&mut self, tag_id: &usize) -> (res: Vec<(usize, usize)>)
        requires
            old(self).wf(),
        ensures
            final(self).wf(),
            forall|i: int| 0 <= i < res.len() ==> (#[trigger] res[i]).0 == *tag_id,
            res@.map_values(|p: (usize, usize)| p.1).to_set() == set_at(old(self)@.parents_tag_rel, *tag_id),
            res@.map_values(|p: (usize, usize)| p.1).no_duplicates(),
            set_at(old(self)@.parents_tag_rel, *tag_id).is_empty() ==> final(self)@ == old(self)@,
            !set_at(old(self)@.parents_tag_rel, *tag_id).is_empty() ==> final(self)@ == parents_dropped(
                old(self)@,
                *tag_id,
                set_at(old(self)@.parents_tag_rel, *tag_id),
            ),
    {
        let t = *tag_id;
        let mut ret: Vec<(usize, usize)> = Vec::new();
        let rels: Vec<usize> = match self.parents_rel_get(tag_id) {
            None => {
                assert(ret@.map_values(|p: (usize, usize)| p.1) =~= Seq::<usize>::empty());
                return ret;
            },
            Some(rel_hs) => set_to_vec(rel_hs),
        };
        let ghost v = self@;
        let ghost s = set_at(v.parents_tag_rel, t);
        assert(rels@.to_set() =~= s);
        proof {
            assert forall|j: int| 0 <= j < rels.len() implies cantor_fits(t, #[trigger] rels[j]) by {
                assert(rels@.to_set().contains(rels@[j]));
                assert(self._parents_tag_rel@[t]@.contains(rels@[j]));
            }
        }
        proof {
            if s.is_empty() {
                if rels@.len() > 0 {
                    assert(rels@.to_set().contains(rels@[0]));
                }
            }
        }
        let mut i: usize = 0;
        while i < rels.len()
            invariant
                self.wf(),
                0 <= i <= rels.len(),
                s.is_empty() ==> rels.len() == 0,
                rels@.to_set() == s,
                rels@.no_duplicates(),
                forall|j: int| 0 <= j < rels.len() ==> cantor_fits(t, #[trigger] rels[j]),
                i == 0 ==> self@ == v,
                i > 0 ==> self@ == parents_dropped(v, t, rels@.take(i as int).to_set()),
                ret@ == rels@.take(i as int).map_values(|r: usize| (t, r)),
            decreases rels.len() - i,
        {
            let rel = rels[i];
            let ghost p = rels@.take(i as int).to_set();
            let ghost before = self@;
            sets_drop(&mut self._parents_rel_tag, rel);
            sets_drop(&mut self._parents_tag_rel, t);
            let c = cantor_pair(t, rel);
            self._parents_dual.remove(&c);
            ret.push((t, rel));
            proof {
                assert(rels@.take(i + 1) =~= rels@.take(i as int).push(rel));
                rels@.take(i as int).lemma_push_to_set_commute(rel);
                let p2 = p.insert(rel);
                assert(rels@.take(i + 1).to_set() == p2);
                let f = |r: usize| cantor(t as int, r as int) as usize;
                assert(f(rel) == c);
                assert forall|x: usize| p2.map(f).contains(x) <==> #[trigger] p.map(f).insert(c).contains(x) by {
                    if p2.map(f).contains(x) {
                        let y = choose|y: usize| p2.contains(y) && f(y) == x;
                        if y != rel {
                            assert(p.contains(y));
                        }
                    }
                    if p.map(f).contains(x) {
                        let y = choose|y: usize| p.contains(y) && f(y) == x;
                        assert(p2.contains(y));
                    }
                    if x == c {
                        assert(p2.contains(rel));
                    }
                }
                assert(p2.map(f) =~= p.map(f).insert(c));
                if i == 0 {
                    assert(p =~= Set::<usize>::empty());
                    assert(p.map(f) =~= Set::<usize>::empty());
                    assert(v.parents_rel_tag.remove_keys(p) =~= v.parents_rel_tag);
                }
                assert(self@.parents_rel_tag =~= v.parents_rel_tag.remove_keys(p2));
                assert(self@.parents_tag_rel =~= v.parents_tag_rel.remove(t));
                assert(self@.parents =~= v.parents.difference(p2.map(f)));
                assert(ret@ =~= rels@.take(i + 1).map_values(|r: usize| (t, r)));
                assert forall|a: usize, b: usize| self._parents_tag_rel@.contains_key(a)
                    && #[trigger] self._parents_tag_rel@[a]@.contains(b) implies cantor_fits(a, b) by {
                    assert(self@.parents_tag_rel.contains_key(a));
                    assert(before.parents_tag_rel.contains_key(a));
                    assert(self@.parents_tag_rel[a] == self._parents_tag_rel@[a]@);
                }
            }
            i = i + 1;
        }
        proof {
            assert(rels@.take(rels.len() as int) =~= rels@);
            let m = ret@.map_values(|p: (usize, usize)| p.1);
            assert(m =~= rels@);
        }
        ret
    }
}

} // verus!
