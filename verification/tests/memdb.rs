use rusthydrus::cantor::{cantor_pair, cantor_unpair};
use rusthydrus::inmemdbnew::{tes, NewinMemDB};
use rusthydrus::sharedtypes::{
    DbFileObj, DbFileObjNoId, DbFileStorage, DbNamespaceObj, DbParentsObj, DbTagNNS,
};

fn tag(name: &str, ns: usize) -> DbTagNNS {
    DbTagNNS { name: name.to_string(), namespace: ns }
}

#[test]
fn cantor_values() {
    assert_eq!(cantor_pair(0, 0), 0);
    assert_eq!(cantor_pair(1, 2), 8);
    assert_eq!(cantor_pair(2, 1), 7);
    assert_eq!(cantor_pair(3, 4), 32);
}

#[test]
fn tes_collects() {
    let mut t = tes::new();
    t.inc(3);
    t.inc(3);
    t.inc(4);
}

#[test]
fn settings_read_after_write() {
    let mut db = NewinMemDB::new();
    db.settings_add("a".to_string(), Some("pretty".to_string()), Some(3), None);
    let s = db.settings_get_name(&"a".to_string()).unwrap();
    assert_eq!(s.num, Some(3));
    db.settings_add("a".to_string(), None, Some(4), None);
    assert_eq!(db.settings_get_name(&"a".to_string()).unwrap().num, Some(4));
    assert!(db.settings_get_name(&"b".to_string()).is_none());
}

#[test]
fn tags_put_is_idempotent() {
    let mut db = NewinMemDB::new();
    let a = db.tags_put(&tag("x", 1), None);
    let b = db.tags_put(&tag("x", 1), None);
    let c = db.tags_put(&tag("y", 1), None);
    assert_eq!(a, 0);
    assert_eq!(b, 0);
    assert_eq!(c, 1);
    assert_eq!(db.tags_max_return(), 2);
    assert_eq!(db.tags_get_data(&1).unwrap().name, "y");
    let d = db.tags_put(&tag("z", 2), Some(10));
    assert_eq!(d, 10);
    assert_eq!(db.tags_max_return(), 10);
}

#[test]
fn tag_remove_gone() {
    let mut db = NewinMemDB::new();
    let id = db.tags_put(&tag("x", 1), None);
    assert!(db.tag_remove(&id).is_some());
    assert!(db.tags_get_id(&tag("x", 1)).is_none());
    assert!(db.tag_remove(&id).is_none());
}

#[test]
fn namespaces() {
    let mut db = NewinMemDB::new();
    let id = db.namespace_put(DbNamespaceObj { id: 0, name: "ns".to_string(), description: None });
    assert_eq!(id, 0);
    assert_eq!(*db.namespace_get(&"ns".to_string()).unwrap(), 0);
    assert_eq!(db.namespace_get_max(), 1);
    db.tags_put(&tag("t", 0), None);
    assert!(db.namespace_get_tagids(&0).unwrap().contains(&0));
}

#[test]
fn files_by_id_and_hash() {
    let mut db = NewinMemDB::new();
    let id = db.file_put(DbFileStorage::NoIdExist(DbFileObjNoId {
        hash: "h1".to_string(),
        ext_id: 0,
        storage_id: 0,
    }));
    assert_eq!(id, 0);
    assert_eq!(*db.file_get_hash(&"h1".to_string()).unwrap(), 0);
    let id2 = db.file_put(DbFileStorage::Exist(DbFileObj {
        id: 7,
        hash: "h2".to_string(),
        ext_id: 1,
        storage_id: 0,
    }));
    assert_eq!(id2, 7);
    assert!(db.file_get_id(&7).is_some());
    assert_eq!(db.file_get_list_id().len(), 2);
}

#[test]
fn relationships_both_ways() {
    let mut db = NewinMemDB::new();
    db.relationship_add(1, 2);
    db.relationship_add(1, 3);
    assert!(db.relationship_get(&1, &2));
    assert!(db.relationship_get_tagid(&1).unwrap().contains(&3));
    assert!(db.relationship_get_fileid(&2).unwrap().contains(&1));
    db.relationship_remove(&1, &2);
    assert!(!db.relationship_get(&1, &2));
    assert!(db.relationship_get(&1, &3));
    let tags_of_file: Vec<usize> = db.relationship_get_tagid(&1).unwrap().into_iter().collect();
    assert_eq!(tags_of_file, vec![3]);
    let files_of_tag: Vec<usize> = db.relationship_get_fileid(&3).unwrap().into_iter().collect();
    assert_eq!(files_of_tag, vec![1]);
    assert!(db.relationship_get_fileid(&2).unwrap().is_empty());
}

#[test]
fn settings_other_names_kept() {
    let mut db = NewinMemDB::new();
    db.settings_add("a".to_string(), None, Some(1), None);
    db.settings_add("b".to_string(), None, Some(2), None);
    db.settings_add("a".to_string(), None, Some(3), None);
    assert_eq!(db.settings_get_name(&"a".to_string()).unwrap().num, Some(3));
    assert_eq!(db.settings_get_name(&"b".to_string()).unwrap().num, Some(2));
}

#[test]
fn parents_put_returns_pairing() {
    let mut db = NewinMemDB::new();
    let id = db.parents_put(DbParentsObj { tag_id: 1, relate_tag_id: 2, limit_to: None });
    assert_eq!(id, cantor_pair(1, 2));
    let again = db.parents_put(DbParentsObj { tag_id: 1, relate_tag_id: 2, limit_to: Some(4) });
    assert_eq!(again, id);
}

#[test]
fn parents_tag_and_rel_removal() {
    let mut db = NewinMemDB::new();
    db.parents_put(DbParentsObj { tag_id: 5, relate_tag_id: 1, limit_to: None });
    db.parents_put(DbParentsObj { tag_id: 1, relate_tag_id: 5, limit_to: None });
    let removed = db.parents_reltagid_remove(&5);
    assert_eq!(removed.len(), 1);
    assert!(removed.contains(&1));
    assert!(db.parents_get(&DbParentsObj { tag_id: 1, relate_tag_id: 5, limit_to: None }).is_none());
    assert!(db.parents_get(&DbParentsObj { tag_id: 5, relate_tag_id: 1, limit_to: None }).is_some());
    db.parents_put(DbParentsObj { tag_id: 3, relate_tag_id: 6, limit_to: None });
    db.parents_put(DbParentsObj { tag_id: 6, relate_tag_id: 3, limit_to: None });
    let removed = db.parents_tagid_remove(&3);
    assert!(removed.contains(&6));
    assert!(db.parents_get(&DbParentsObj { tag_id: 3, relate_tag_id: 6, limit_to: None }).is_none());
    assert!(db.parents_get(&DbParentsObj { tag_id: 6, relate_tag_id: 3, limit_to: None }).is_some());
}

#[test]
fn jobs_flip_twice_restores() {
    let mut db = NewinMemDB::new();
    db.jobs_add(rusthydrus::sharedtypes::return_default_jobsobj());
    assert_eq!(db.jobref_flip_isrunning(&0), Some(true));
    assert_eq!(db.jobref_get_isrunning().len(), 1);
    assert_eq!(db.jobref_flip_isrunning(&0), Some(false));
    assert_eq!(db.jobref_flip_isrunning(&9), None);
    db.jobref_remove(&0);
    assert!(db.jobs_get_all().is_empty());
    assert_eq!(*db.jobs_get_max(), 1);
}

#[test]
fn cantor_unpair_inverts_pair() {
    assert_eq!(cantor_unpair(0), (0, 0));
    assert_eq!(cantor_unpair(8), (1, 2));
    assert_eq!(cantor_unpair(7), (2, 1));
    for n in 0..30usize {
        for m in 0..30usize {
            assert_eq!(cantor_unpair(cantor_pair(n, m)), (n, m));
        }
    }
    assert_eq!(cantor_unpair(cantor_pair(3_000_000_000, 5)), (3_000_000_000, 5));
}

#[test]
fn parents_delete_keeps_relation() {
    let mut db = NewinMemDB::new();
    let id = db.parents_put(DbParentsObj { tag_id: 1, relate_tag_id: 2, limit_to: None });
    db.parents_delete(&id);
    assert!(db.parents_get(&DbParentsObj { tag_id: 1, relate_tag_id: 2, limit_to: None }).is_some());
}
