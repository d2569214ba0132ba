use std::collections::BTreeMap;

use rusthydrus::inmemdbnew::NewinMemDB;
use rusthydrus::pluginout::apply_plugin_output;
use rusthydrus::sharedtypes::{
    DBPluginOutput, DBPluginOutputEnum, DbFileStorage, DbJobType, DbJobsManager, DbJobsObj, DbNamespaceObj,
    DbPluginRelationshipObj, DbSettingObj, DbTagNNS, GenericNamespaceObj, JobCacheType, PluginFileObj, TagObject,
    TagType, DEFAULT_CACHETIME, DEFAULT_PRIORITY,
};

fn output() -> DBPluginOutput {
    DBPluginOutput {
        tag: vec![TagObject {
            namespace: GenericNamespaceObj { name: "artist".to_string(), description: None },
            tag: "me".to_string(),
            tag_type: TagType::Normal,
            relates_to: None,
        }],
        setting: vec![DbSettingObj { name: "k".to_string(), pretty: None, num: Some(3), param: None }],
        relationship: vec![DbPluginRelationshipObj {
            file_hash: "h".to_string(),
            tag_name: "me".to_string(),
            tag_namespace: "artist".to_string(),
        }],
        jobs: vec![DbJobsObj {
            id: Some(9),
            time: 1,
            reptime: None,
            priority: DEFAULT_PRIORITY,
            cachetime: DEFAULT_CACHETIME,
            cachechecktype: JobCacheType::TimeReptimeParam,
            site: "s".to_string(),
            param: vec![],
            jobmanager: DbJobsManager { jobtype: DbJobType::Scraper, recreation: None },
            isrunning: false,
            system_data: BTreeMap::new(),
            user_data: BTreeMap::new(),
        }],
        file: vec![
            PluginFileObj { id: None, hash: Some("h".to_string()), ext: Some("png".to_string()), location: Some("/a".to_string()) },
            PluginFileObj { id: None, hash: Some("g".to_string()), ext: Some("jpg".to_string()), location: None },
            PluginFileObj { id: None, hash: Some("k".to_string()), ext: Some("png".to_string()), location: Some("/a".to_string()) },
        ],
    }
}

#[test]
fn plugin_output_is_applied_in_order() {
    let mut db = NewinMemDB::new();
    db.namespace_put(DbNamespaceObj { id: 0, name: "artist".to_string(), description: None });
    db.settings_add("FilesLoc".to_string(), None, None, Some("/files".to_string()));
    let mut exts: Vec<String> = vec![];
    let mut stores: Vec<String> = vec![];
    apply_plugin_output(&mut db, &mut exts, &mut stores, vec![DBPluginOutputEnum::NoOutput, DBPluginOutputEnum::Add(vec![output()])]);
    assert_eq!(exts, vec!["png".to_string(), "jpg".to_string()]);
    assert_eq!(stores, vec!["/a".to_string(), "/files".to_string()]);
    let fid = *db.file_get_hash(&"g".to_string()).unwrap();
    match db.file_get_id(&fid).unwrap() {
        DbFileStorage::NoIdExist(f) => assert_eq!((f.ext_id, f.storage_id), (1, 1)),
        _ => panic!("expected the file"),
    }
    let tid = *db.tags_get_id(&DbTagNNS { name: "me".to_string(), namespace: 0 }).unwrap();
    let hid = *db.file_get_hash(&"h".to_string()).unwrap();
    assert!(db.relationship_get(&hid, &tid));
    assert_eq!(db.settings_get_name(&"k".to_string()).unwrap().num, Some(3));
    let job = db.jobs_get_all().get(&0).unwrap();
    assert_eq!(job.id, Some(0));
    assert_eq!(job.reptime, Some(0));
}
