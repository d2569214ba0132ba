use rusthydrus::inmemdbnew::NewinMemDB;
use rusthydrus::sharedtypes::{DbParentsObj, DbTagNNS};

fn setup_default_db() -> NewinMemDB {
    let mut db = NewinMemDB::new();
    let parents = [
        DbParentsObj { tag_id: 1, relate_tag_id: 2, limit_to: Some(3) },
        DbParentsObj { tag_id: 2, relate_tag_id: 3, limit_to: Some(4) },
        DbParentsObj { tag_id: 3, relate_tag_id: 4, limit_to: Some(5) },
    ];
    for parent in parents {
        db.parents_put(parent);
    }
    db
}

#[test]
fn sql_parents_add() {
    let db = setup_default_db();
    let p = DbParentsObj { tag_id: 1, relate_tag_id: 2, limit_to: Some(3) };
    assert!(db.parents_get(&p).is_some());
    assert!(db.parents_rel_get(&1).unwrap().contains(&2));
    assert!(db.parents_tag_get(&4).unwrap().contains(&3));
}

#[test]
fn sql_parents_del_tag_id() {
    let mut db = setup_default_db();
    let removed = db.parents_remove(&2);
    assert_eq!(removed, vec![(2, 3)]);
    let p = DbParentsObj { tag_id: 2, relate_tag_id: 3, limit_to: Some(4) };
    assert!(db.parents_get(&p).is_none());
    let other = DbParentsObj { tag_id: 1, relate_tag_id: 2, limit_to: Some(3) };
    assert!(db.parents_get(&other).is_some());
}

#[test]
fn sql_parents_del_relate_tag_id() {
    let mut db = setup_default_db();
    db.parents_selective_remove(&DbParentsObj { tag_id: 3, relate_tag_id: 4, limit_to: Some(5) });
    assert!(db.parents_get(&DbParentsObj { tag_id: 3, relate_tag_id: 4, limit_to: None }).is_none());
    assert!(db.parents_tag_get(&4).map_or(true, |s| !s.contains(&3)));
    assert!(db.parents_get(&DbParentsObj { tag_id: 2, relate_tag_id: 3, limit_to: None }).is_some());
}

#[test]
fn sql_parents_del_limit_to() {
    let mut db = setup_default_db();
    db.parents_selective_remove(&DbParentsObj { tag_id: 1, relate_tag_id: 2, limit_to: Some(3) });
    assert!(db.parents_get(&DbParentsObj { tag_id: 1, relate_tag_id: 2, limit_to: Some(3) }).is_none());
    assert!(db.parents_get(&DbParentsObj { tag_id: 3, relate_tag_id: 4, limit_to: Some(5) }).is_some());
}

#[test]
fn memdb_tag_retrieve() {
    let mut db = NewinMemDB::new();
    let tag = DbTagNNS { name: "te".to_string(), namespace: 0 };
    db.tags_put(&tag, None);
    assert!(db.tags_get_id(&tag).is_some());
}
