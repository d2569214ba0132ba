use rusthydrus::newinmemdb::newinmemdb;
use rusthydrus::sharedtypes::DbSettingObj;

#[test]
fn old_db_files_and_settings() {
    let mut db = newinmemdb::new();
    let id = db.file_put(Some(3), Some("h".to_string()), None, None);
    assert_eq!(id, 0);
    db.settings_add("k".to_string(), "p".to_string(), 1, "q".to_string());
    let got = db.settings_get_name(&"k".to_string());
    assert_eq!(
        got,
        Some(DbSettingObj {
            name: "k".to_string(),
            pretty: Some("p".to_string()),
            num: Some(1),
            param: Some("q".to_string()),
        })
    );
}

#[test]
fn old_db_settings_leave_jobs() {
    let mut db = newinmemdb::new();
    db.settings_add("k".to_string(), "p".to_string(), 1, "q".to_string());
    assert_eq!(db.jobs_max(), 0);
}

#[test]
fn old_db_setting_readded_gives_latest() {
    let mut db = newinmemdb::new();
    db.settings_add("k".to_string(), "p".to_string(), 1, "q".to_string());
    db.settings_add("k".to_string(), "p2".to_string(), 2, "q2".to_string());
    db.settings_add("other".to_string(), "o".to_string(), 3, "r".to_string());
    let got = db.settings_get_name(&"k".to_string()).unwrap();
    assert_eq!(got.num, Some(2));
    assert_eq!(got.pretty, Some("p2".to_string()));
}

#[test]
fn old_db_unknown_setting_is_none() {
    let db = newinmemdb::new();
    assert_eq!(db.settings_get_name(&"missing".to_string()), None);
}

#[test]
fn old_db_jobs_are_numbered_from_zero() {
    let mut db = newinmemdb::new();
    for i in 0..3usize {
        db.jobref_new("site".to_string(), format!("p{}", i), 10, 20);
    }
    assert_eq!(db.jobs_max(), 3);
    let mut db2 = newinmemdb::new();
    for i in 0..3usize {
        db2.jobref_new("site".to_string(), format!("p{}", i), 10, 20);
    }
    let j = db2.jobs_get(&2).unwrap();
    assert_eq!(j.site, "site".to_string());
    assert_eq!(j.reptime, Some(20));
    let mut db3 = newinmemdb::new();
    db3.jobref_new("site".to_string(), "x".to_string(), 10, 20);
    assert!(db3.jobs_get(&1).is_none());
}
