use rusthydrus::fileplan::{skip_lookup, url_file_plan, FilePlan};
use rusthydrus::inmemdbnew::NewinMemDB;
use rusthydrus::sharedtypes::{
    DbFileObjNoId, DbFileStorage, DbNamespaceObj, DbTagNNS, GenericNamespaceObj, SkipIf, Tag,
};

fn ns(name: &str) -> GenericNamespaceObj {
    GenericNamespaceObj { name: name.to_string(), description: None }
}

fn tag(name: &str, namespace: &str) -> Tag {
    Tag { tag: name.to_string(), namespace: ns(namespace) }
}

/// Namespaces: 0 "source", 1 "artist", 2 "title". File 0 (hash "h0") has the
/// tags "u" (source, the URL), "me" (artist), "t1" and "t2" (title).
fn sample() -> NewinMemDB {
    let mut db = NewinMemDB::new();
    for (i, n) in ["source", "artist", "title"].iter().enumerate() {
        db.namespace_put(DbNamespaceObj { id: i, name: n.to_string(), description: None });
    }
    let f = db.file_put(DbFileStorage::NoIdExist(DbFileObjNoId { hash: "h0".to_string(), ext_id: 0, storage_id: 0 }));
    for (name, n) in [("u", 0), ("me", 1), ("t1", 2), ("t2", 2)] {
        let t = db.tags_put(&DbTagNNS { name: name.to_string(), namespace: n }, None);
        db.relationship_add(f, t);
    }
    db
}

#[test]
fn skip_by_hash() {
    let db = sample();
    assert_eq!(skip_lookup(&db, &SkipIf::FileHash("h0".to_string())), Some(0));
    assert_eq!(skip_lookup(&db, &SkipIf::FileHash("zz".to_string())), None);
}

#[test]
fn skip_by_tag() {
    let db = sample();
    assert_eq!(skip_lookup(&db, &SkipIf::FileTagRelationship(tag("me", "artist"))), Some(0));
    assert_eq!(skip_lookup(&db, &SkipIf::FileTagRelationship(tag("me", "title"))), None);
    assert_eq!(skip_lookup(&db, &SkipIf::FileTagRelationship(tag("me", "nowhere"))), None);
}

#[test]
fn skip_by_namespace_count() {
    let db = sample();
    // The file of "me" has two title tags.
    assert_eq!(skip_lookup(&db, &SkipIf::FileNamespaceNumber((tag("me", "artist"), ns("title"), 2))), Some(0));
    assert_eq!(skip_lookup(&db, &SkipIf::FileNamespaceNumber((tag("me", "artist"), ns("title"), 1))), None);
    assert_eq!(skip_lookup(&db, &SkipIf::FileNamespaceNumber((tag("me", "artist"), ns("missing"), 5))), None);
}

#[test]
fn plan_prefers_skip_rules_then_url() {
    let db = sample();
    let skips = vec![SkipIf::FileHash("zz".to_string()), SkipIf::FileTagRelationship(tag("t1", "title"))];
    assert_eq!(url_file_plan(&db, &"other".to_string(), &skips), FilePlan::Skip(0));
    assert_eq!(url_file_plan(&db, &"u".to_string(), &vec![]), FilePlan::Existing(0));
    assert_eq!(url_file_plan(&db, &"new".to_string(), &vec![]), FilePlan::Download);
}
