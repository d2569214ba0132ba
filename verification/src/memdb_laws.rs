//! What the operations of the in-memory database promise of one another.

use crate::cantor::cantor;
use crate::cantor::cantor_fits;
use crate::inmemdbnew::{
    file_added, job_added, job_flipped, lemma_without_no_parents, lemma_without_parents_step,
    namespace_added, parent_added, put_file_id, relationship_added, relationship_removed,
    selective_removed, set_at,
    setting_added, storage_hash, tag_added, tag_key, tag_put_id, without_parents, MemDbView,
};
use crate::sharedtypes::{DbFileStorage, DbJobsObj, DbNamespaceObj, DbParentsObj, DbSettingObj, DbTagNNS};
use vstd::prelude::*;

verus! {

/// A setting that was added is found under its name, with the values it
/// was added with; a name that was known keeps its id.
pub proof fn law_setting_read_after_write(v: MemDbView, obj: DbSettingObj)
    ensures
        setting_added(v, obj).setting_ids.contains_key(obj.name@),
        setting_added(v, obj).settings[setting_added(v, obj).setting_ids[obj.name@]] == obj,
        v.setting_ids.contains_key(obj.name@) ==> setting_added(v, obj).setting_ids == v.setting_ids,
{
    if v.setting_ids.contains_key(obj.name@) {
        assert(setting_added(v, obj).setting_ids =~= v.setting_ids);
    }
}

/// Adding a setting leaves every other name's setting as it was, keeps the
/// database well formed, and adds a setting only for a name not known.
pub proof fn law_setting_add_keeps_others(v: MemDbView, obj: DbSettingObj, other: Seq<char>)
    requires
        v.wf(),
        v.setting_ids.contains_key(obj.name@) || v.settings_max < usize::MAX,
        other != obj.name@,
    ensures
        ({
            let w = setting_added(v, obj);
            &&& w.wf()
            &&& w.setting_ids.contains_key(other) == v.setting_ids.contains_key(other)
            &&& v.setting_ids.contains_key(other) ==> w.setting_ids[other] == v.setting_ids[other]
                && w.settings[w.setting_ids[other]] == v.settings[v.setting_ids[other]]
            &&& w.settings_max == if v.setting_ids.contains_key(obj.name@) {
                v.settings_max as int
            } else {
                v.settings_max + 1
            }
        }),
{
    let w = setting_added(v, obj);
    if v.setting_ids.contains_key(obj.name@) {
        assert(w.setting_ids =~= v.setting_ids);
    }
}

/// After a tag is put, its (name, namespace) leads to the id that was
/// returned, and a new tag is found under that id.
pub proof fn law_tag_put_then_lookup(v: MemDbView, t: DbTagNNS, id: Option<usize>)
    ensures
        tag_added(v, t, id).tag_ids.contains_key(tag_key(t)),
        tag_added(v, t, id).tag_ids[tag_key(t)] == tag_put_id(v, t, id),
        !v.tag_ids.contains_key(tag_key(t)) ==> tag_added(v, t, id).tags[tag_put_id(v, t, id)] == t,
{
}

/// Putting a tag a second time returns the same id and changes nothing,
/// whatever id is asked for.
pub proof fn law_tag_put_idempotent(v: MemDbView, t: DbTagNNS, id1: Option<usize>, id2: Option<usize>)
    ensures
        tag_put_id(tag_added(v, t, id1), t, id2) == tag_put_id(v, t, id1),
        tag_added(tag_added(v, t, id1), t, id2) == tag_added(v, t, id1),
{
}

/// A new job takes an id no stored job has, leaves the stored jobs as they
/// were, and keeps the database well formed.
pub proof fn law_job_ids_fresh(v: MemDbView, job: DbJobsObj)
    requires
        v.wf(),
        v.jobs_max < usize::MAX,
    ensures
        !v.jobs.contains_key(v.jobs_max),
        job_added(v, job).jobs[v.jobs_max] == job,
        forall|id: usize| #[trigger] v.jobs.contains_key(id) ==> job_added(v, job).jobs[id] == v.jobs[id],
        job_added(v, job).wf(),
{
}

/// The id of a removed job is not handed out again.
pub proof fn law_removed_job_id_not_reused(v: MemDbView, id: usize, job: DbJobsObj)
    requires
        v.wf(),
        v.jobs.contains_key(id),
        v.jobs_max < usize::MAX,
    ensures
        ({
            let w = MemDbView { jobs: v.jobs.remove(id), ..v };
            &&& !job_added(w, job).jobs.contains_key(id)
            &&& job_added(w, job).jobs_max != id
        }),
{
}

/// Flipping whether a job runs twice restores the database.
pub proof fn law_flip_twice(v: MemDbView, id: usize)
    ensures
        job_flipped(job_flipped(v, id), id) == v,
{
    if v.jobs.contains_key(id) {
        let j = v.jobs[id];
        assert(DbJobsObj { isrunning: !!j.isrunning, ..j } == j);
        assert(job_flipped(job_flipped(v, id), id).jobs =~= v.jobs);
    }
}

/// After a parent relation is put, it is stored, and each of its two tags
/// lists the other.
pub proof fn law_parent_put_then_get(v: MemDbView, p: DbParentsObj)
    requires
        cantor_fits(p.tag_id, p.relate_tag_id),
        v.parents.contains(cantor(p.tag_id as int, p.relate_tag_id as int) as usize) ==> {
            &&& set_at(v.parents_tag_rel, p.tag_id).contains(p.relate_tag_id)
            &&& set_at(v.parents_rel_tag, p.relate_tag_id).contains(p.tag_id)
        },
    ensures
        parent_added(v, p).parents.contains(cantor(p.tag_id as int, p.relate_tag_id as int) as usize),
        set_at(parent_added(v, p).parents_tag_rel, p.tag_id).contains(p.relate_tag_id),
        set_at(parent_added(v, p).parents_rel_tag, p.relate_tag_id).contains(p.tag_id),
{
}

/// Removing a parent relation that was just put, when it was new, leaves
/// the set of stored relations as it was before.
pub proof fn law_parent_put_then_remove(v: MemDbView, p: DbParentsObj)
    requires
        cantor_fits(p.tag_id, p.relate_tag_id),
        !v.parents.contains(cantor(p.tag_id as int, p.relate_tag_id as int) as usize),
    ensures
        selective_removed(parent_added(v, p), p.tag_id, p.relate_tag_id).parents == v.parents,
{
    let c = cantor(p.tag_id as int, p.relate_tag_id as int) as usize;
    assert(parent_added(v, p).parents.remove(c) =~= v.parents);
}

/// Removing one parent relation is removing the set of just that relation.
pub proof fn law_selective_remove_is_without(v: MemDbView, t: usize, r: usize)
    requires
        cantor_fits(t, r),
    ensures
        selective_removed(v, t, r) == without_parents(v, set![(t, r)]),
{
    lemma_without_no_parents(v);
    lemma_without_parents_step(v, Set::empty(), t, r);
    assert(Set::<(usize, usize)>::empty().insert((t, r)) =~= set![(t, r)]);
}

/// After a file is related to a tag, the relationship is stored, the file
/// lists the tag and the tag lists the file.
pub proof fn law_relationship_add_then_get(v: MemDbView, file: usize, tag: usize)
    requires
        cantor_fits(file, tag),
    ensures
        relationship_added(v, file, tag).relationships.contains(cantor(file as int, tag as int) as usize),
        relationship_added(v, file, tag).rel_tag_file[tag].contains(file),
        relationship_added(v, file, tag).rel_file_tag[file].contains(tag),
{
}

/// A namespace that was put is found by its name and by its id.
pub proof fn law_namespace_put_then_get(v: MemDbView, obj: DbNamespaceObj)
    ensures
        namespace_added(v, obj).namespace_ids[obj.name@] == obj.id,
        namespace_added(v, obj).namespaces[obj.id] == obj,
{
}

/// A file that was put is found under the id `file_put` returns, and by
/// its hash when it has one.
pub proof fn law_file_put_then_get(v: MemDbView, f: DbFileStorage)
    ensures
        file_added(v, f).files[put_file_id(f, v.file_max)] == f,
        storage_hash(f) matches Some(h) ==> file_added(v, f).file_ids[h] == put_file_id(f, v.file_max),
{
}

/// After a relationship is removed it is not stored, the tag is no longer
/// among the file's tags nor the file among the tag's files, and every other
/// relationship, and every other entry of both lists, stays.
pub proof fn law_relationship_remove_then_absent(
    v: MemDbView,
    file: usize,
    tag: usize,
    other: usize,
    other_tag: usize,
    other_file: usize,
)
    requires
        cantor_fits(file, tag),
        other != cantor(file as int, tag as int),
        other_tag != tag,
        other_file != file,
    ensures
        ({
            let w = relationship_removed(v, file, tag);
            &&& !w.relationships.contains(cantor(file as int, tag as int) as usize)
            &&& !set_at(w.rel_file_tag, file).contains(tag)
            &&& !set_at(w.rel_tag_file, tag).contains(file)
            &&& w.relationships.contains(other) == v.relationships.contains(other)
            &&& set_at(w.rel_file_tag, file).contains(other_tag) == set_at(v.rel_file_tag, file).contains(other_tag)
            &&& set_at(w.rel_tag_file, tag).contains(other_file) == set_at(v.rel_tag_file, tag).contains(other_file)
        }),
{
}

} // verus!
