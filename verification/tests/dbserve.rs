use rusthydrus::dbserve::{answer_request, DbAnswer};
use rusthydrus::inmemdbnew::NewinMemDB;
use rusthydrus::intcoms::types::{ParentsType, SupportedDBRequests};
use rusthydrus::sharedtypes::{DbParentsObj, DbTagNNS};

fn count(a: DbAnswer) -> usize {
    match a {
        DbAnswer::Count(n) => n,
        _ => panic!("expected a count"),
    }
}

fn maybe_id(a: DbAnswer) -> Option<usize> {
    match a {
        DbAnswer::MaybeId(o) => o,
        _ => panic!("expected an id"),
    }
}

fn sorted_ids(a: DbAnswer) -> Option<Vec<usize>> {
    let s = match a {
        DbAnswer::MaybeIds(o) => o,
        DbAnswer::Ids(s) => Some(s),
        _ => panic!("expected ids"),
    };
    s.map(|s| {
        let mut v: Vec<usize> = s.into_iter().collect();
        v.sort();
        v
    })
}

#[test]
fn serve_put_tag_then_lookup() {
    let mut db = NewinMemDB::new();
    let id = count(answer_request(&mut db, SupportedDBRequests::PutTag("cat".to_string(), 2, false, None)));
    assert_eq!(id, 0);
    let again = count(answer_request(&mut db, SupportedDBRequests::PutTag("cat".to_string(), 2, true, None)));
    assert_eq!(again, 0);
    assert_eq!(maybe_id(answer_request(&mut db, SupportedDBRequests::GetTagName(("cat".to_string(), 2)))), Some(0));
    assert_eq!(maybe_id(answer_request(&mut db, SupportedDBRequests::GetTagName(("cat".to_string(), 3)))), None);
    match answer_request(&mut db, SupportedDBRequests::GetTagId(0)) {
        DbAnswer::Tag(Some(t)) => assert_eq!(t, DbTagNNS { name: "cat".to_string(), namespace: 2 }),
        _ => panic!("expected the tag"),
    }
}

#[test]
fn serve_tag_relationship() {
    let mut db = NewinMemDB::new();
    assert!(matches!(
        answer_request(&mut db, SupportedDBRequests::PutTagRelationship(5, "dog".to_string(), 0, false, None)),
        DbAnswer::Ack
    ));
    assert_eq!(sorted_ids(answer_request(&mut db, SupportedDBRequests::RelationshipGetTagid(5))), Some(vec![0]));
    assert_eq!(sorted_ids(answer_request(&mut db, SupportedDBRequests::RelationshipGetFileid(0))), Some(vec![5]));
    assert!(matches!(answer_request(&mut db, SupportedDBRequests::RelationshipRemove(5, 0)), DbAnswer::Ack));
    assert_eq!(sorted_ids(answer_request(&mut db, SupportedDBRequests::RelationshipGetTagid(5))), Some(vec![]));
    assert_eq!(sorted_ids(answer_request(&mut db, SupportedDBRequests::RelationshipGetTagid(9))), None);
}

#[test]
fn serve_pairing_too_large_is_refused() {
    let mut db = NewinMemDB::new();
    assert!(matches!(
        answer_request(&mut db, SupportedDBRequests::RelationshipAdd(usize::MAX, 1, false)),
        DbAnswer::Refused
    ));
    assert!(db.relationship_get_tagid(&usize::MAX).is_none());
}

#[test]
fn serve_namespaces() {
    let mut db = NewinMemDB::new();
    let a = count(answer_request(&mut db, SupportedDBRequests::CreateNamespace("source".to_string(), None, false)));
    let b = count(answer_request(&mut db, SupportedDBRequests::CreateNamespace("title".to_string(), Some("t".to_string()), false)));
    let a2 = count(answer_request(&mut db, SupportedDBRequests::CreateNamespace("source".to_string(), None, false)));
    assert_eq!((a, b, a2), (0, 1, 0));
    assert_eq!(maybe_id(answer_request(&mut db, SupportedDBRequests::GetNamespace("title".to_string()))), Some(1));
    assert_eq!(sorted_ids(answer_request(&mut db, SupportedDBRequests::GetNamespaceIDsAll)), Some(vec![0, 1]));
    match answer_request(&mut db, SupportedDBRequests::GetNamespaceString(1)) {
        DbAnswer::Namespace(Some(n)) => {
            assert_eq!(n.name, "title".to_string());
            assert_eq!(n.description, Some("t".to_string()));
        },
        _ => panic!("expected the namespace"),
    }
    answer_request(&mut db, SupportedDBRequests::PutTag("x".to_string(), 1, false, None));
    assert!(matches!(answer_request(&mut db, SupportedDBRequests::NamespaceContainsId(1, 0)), DbAnswer::Flag(true)));
    assert!(matches!(answer_request(&mut db, SupportedDBRequests::NamespaceContainsId(0, 0)), DbAnswer::Flag(false)));
    assert_eq!(sorted_ids(answer_request(&mut db, SupportedDBRequests::GetNamespaceTagIDs(1))), Some(vec![0]));
}

#[test]
fn serve_settings() {
    let mut db = NewinMemDB::new();
    assert!(matches!(
        answer_request(&mut db, SupportedDBRequests::SettingsSet("k".to_string(), None, Some(4), None, true)),
        DbAnswer::Ack
    ));
    match answer_request(&mut db, SupportedDBRequests::SettingsGetName("k".to_string())) {
        DbAnswer::Setting(Some(s)) => assert_eq!(s.num, Some(4)),
        _ => panic!("expected the setting"),
    }
    assert!(matches!(
        answer_request(&mut db, SupportedDBRequests::SettingsGetName("z".to_string())),
        DbAnswer::Setting(None)
    ));
}

#[test]
fn serve_parents() {
    let mut db = NewinMemDB::new();
    let p = DbParentsObj { tag_id: 1, relate_tag_id: 2, limit_to: None };
    assert_eq!(count(answer_request(&mut db, SupportedDBRequests::ParentsPut(p.clone()))), 8);
    assert_eq!(sorted_ids(answer_request(&mut db, SupportedDBRequests::ParentsGet((ParentsType::Tag, 1)))), Some(vec![2]));
    assert_eq!(sorted_ids(answer_request(&mut db, SupportedDBRequests::ParentsGet((ParentsType::Rel, 2)))), Some(vec![1]));
    assert!(matches!(answer_request(&mut db, SupportedDBRequests::ParentsDelete(p)), DbAnswer::Ack));
}

#[test]
fn serve_other_requests() {
    let mut db = NewinMemDB::new();
    assert_eq!(count(answer_request(&mut db, SupportedDBRequests::TestUsize())), 32);
    assert!(matches!(answer_request(&mut db, SupportedDBRequests::GetJob(0)), DbAnswer::Job(None)));
    assert_eq!(sorted_ids(answer_request(&mut db, SupportedDBRequests::GetFileListId())), Some(vec![]));
    assert!(matches!(answer_request(&mut db, SupportedDBRequests::TransactionFlush()), DbAnswer::Outside));
    assert!(matches!(answer_request(&mut db, SupportedDBRequests::Logging("x".to_string())), DbAnswer::Outside));
}

use rusthydrus::dbsearch::search_db_files;
use rusthydrus::sharedtypes::{DbFileObjNoId, DbFileStorage, DbNamespaceObj, SearchHolder, SearchObj};
use std::collections::HashSet;
use rusthydrus::sharedtypes::{DbJobType, DbJobsManager, DbJobsObj, JobCacheType, DEFAULT_CACHETIME, DEFAULT_PRIORITY};
use std::collections::BTreeMap;

/// Files 0, 1, 2; tag 10 on files 0 and 1, tag 11 on files 1 and 2.
fn search_db() -> NewinMemDB {
    let mut db = NewinMemDB::new();
    for h in ["a", "b", "c"] {
        db.file_put(DbFileStorage::NoIdExist(DbFileObjNoId { hash: h.to_string(), ext_id: 0, storage_id: 0 }));
    }
    for (f, t) in [(0, 10), (1, 10), (1, 11), (2, 11)] {
        db.relationship_add(f, t);
    }
    db
}

fn sorted(s: Option<HashSet<usize>>) -> Option<Vec<usize>> {
    s.map(|s| {
        let mut v: Vec<usize> = s.into_iter().collect();
        v.sort();
        v
    })
}

#[test]
fn search_and_or_not() {
    let db = search_db();
    let and = SearchObj { search_relate: None, searches: vec![SearchHolder::And(vec![10, 11])] };
    assert_eq!(sorted(search_db_files(&db, &and)), Some(vec![1]));
    let or = SearchObj { search_relate: None, searches: vec![SearchHolder::Or(vec![10, 11])] };
    assert_eq!(sorted(search_db_files(&db, &or)), Some(vec![0, 1, 2]));
    let not = SearchObj { search_relate: None, searches: vec![SearchHolder::Not(vec![10, 11])] };
    assert_eq!(sorted(search_db_files(&db, &not)), Some(vec![0]));
    let none = SearchObj { search_relate: None, searches: vec![SearchHolder::And(vec![99])] };
    assert_eq!(search_db_files(&db, &none), None);
}

#[test]
fn search_relations_combine_searches() {
    let db = search_db();
    let s = SearchObj {
        search_relate: Some(vec![SearchHolder::And(vec![0, 1]), SearchHolder::Or(vec![0])]),
        searches: vec![SearchHolder::Or(vec![10]), SearchHolder::Or(vec![11])],
    };
    assert_eq!(sorted(search_db_files(&db, &s)), Some(vec![1]));
    let all = SearchObj { search_relate: None, searches: vec![SearchHolder::Or(vec![10]), SearchHolder::Or(vec![11])] };
    assert_eq!(sorted(search_db_files(&db, &all)), Some(vec![1]));
}

#[test]
fn serve_files_filter_location_and_jobs() {
    let mut db = search_db();
    db.namespace_put(DbNamespaceObj { id: 0, name: "n".to_string(), description: None });
    let t = db.tags_put(&DbTagNNS { name: "x".to_string(), namespace: 0 }, None);
    let ids: HashSet<usize> = [t, 77].into_iter().collect();
    assert_eq!(sorted_ids(answer_request(&mut db, SupportedDBRequests::FilterNamespaceById((ids, 0)))), Some(vec![t]));
    match answer_request(&mut db, SupportedDBRequests::GetFile(1)) {
        DbAnswer::File(Some(DbFileStorage::NoIdExist(f))) => assert_eq!(f.hash, "b".to_string()),
        _ => panic!("expected the file"),
    }
    match answer_request(&mut db, SupportedDBRequests::GetFileListAll()) {
        DbAnswer::Files(m) => assert_eq!(m.len(), 3),
        _ => panic!("expected the files"),
    }
    answer_request(&mut db, SupportedDBRequests::SettingsSet("FilesLoc".to_string(), None, None, Some("/f".to_string()), false));
    match answer_request(&mut db, SupportedDBRequests::GetDBLocation()) {
        DbAnswer::Text(t) => assert_eq!(t, "/f".to_string()),
        _ => panic!("expected the location"),
    }
    let search = SearchObj { search_relate: None, searches: vec![SearchHolder::And(vec![10])] };
    assert_eq!(sorted_ids(answer_request(&mut db, SupportedDBRequests::Search((search, None, None)))), Some(vec![0, 1]));
}

#[test]
fn serve_put_job_once() {
    let mut db = NewinMemDB::new();
    let job = DbJobsObj {
        id: None,
        time: 1,
        reptime: Some(2),
        priority: DEFAULT_PRIORITY,
        cachetime: DEFAULT_CACHETIME,
        cachechecktype: JobCacheType::TimeReptimeParam,
        site: "s".to_string(),
        param: vec![],
        jobmanager: DbJobsManager { jobtype: DbJobType::Scraper, recreation: None },
        isrunning: false,
        system_data: BTreeMap::new(),
        user_data: BTreeMap::new(),
    };
    assert!(matches!(answer_request(&mut db, SupportedDBRequests::PutJob(job.clone())), DbAnswer::Ack));
    assert!(matches!(answer_request(&mut db, SupportedDBRequests::PutJob(job)), DbAnswer::Ack));
    assert_eq!(db.jobs_get_all().len(), 1);
    match answer_request(&mut db, SupportedDBRequests::GetJob(0)) {
        DbAnswer::Job(Some(j)) => assert_eq!(j.id, Some(0)),
        _ => panic!("expected the job"),
    }
}
