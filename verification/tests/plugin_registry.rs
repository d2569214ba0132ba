use std::time::Duration;

use rusthydrus::inmemdbnew::NewinMemDB;
use rusthydrus::pluginreg::PluginRegistry;
use rusthydrus::sharedtypes::{
    self, CallbackCustomData, CallbackInfo, DbNamespaceObj, GlobalCallbacks, GlobalPluginScraper,
    PluginInfo2, ScraperInfo, ScraperOrPlugin, SearchType, DEFAULT_PRIORITY,
};

fn scraper(name: &str, sites: Vec<&str>) -> GlobalPluginScraper {
    let mut s = sharedtypes::return_default_globalpluginparser();
    s.name = name.to_string();
    s.storage_type = Some(ScraperOrPlugin::Scraper(ScraperInfo {
        ratelimit: (1, Duration::from_secs(1)),
        sites: sites.into_iter().map(|x| x.to_string()).collect(),
        priority: DEFAULT_PRIORITY,
        num_threads: None,
        modifiers: vec![],
    }));
    s
}

fn plugin(name: &str, callbacks: Vec<GlobalCallbacks>) -> GlobalPluginScraper {
    let mut p = sharedtypes::return_default_globalpluginparser();
    p.name = name.to_string();
    p.storage_type = Some(ScraperOrPlugin::Plugin(PluginInfo2 { com_channel: false, redirect: None }));
    p.callbacks = callbacks;
    p
}

fn db() -> NewinMemDB {
    let mut db = NewinMemDB::new();
    db.namespace_put(DbNamespaceObj { id: 0, name: "source".to_string(), description: None });
    db
}

#[test]
fn registry_records_sites_and_tag_rules() {
    let db = db();
    let mut reg = PluginRegistry::new();
    let s = scraper("s", vec!["a.com", "b.com"]);
    let tag_cb = GlobalCallbacks::Tag((Some(SearchType::Regex("[0-9]+".to_string())), vec!["source".to_string()], vec![]));
    let p = plugin("p", vec![GlobalCallbacks::Download, tag_cb]);
    let mut skipped = sharedtypes::return_default_globalpluginparser();
    skipped.name = "nothing".to_string();
    reg.plugins_register(&db, vec![s.clone(), p, skipped]);
    assert_eq!(reg.sites_get(&s), vec!["a.com".to_string(), "b.com".to_string()]);
    assert!(reg.sites_get(&scraper("other", vec![])).is_empty());
    let out = reg.tag_rules().targets(&"12".to_string(), 0);
    assert_eq!(out.len(), 1);
    assert_eq!(out[0].0, "p".to_string());
    assert_eq!(out[0].1, "12".to_string());
}

#[test]
fn registry_replaces_sites_of_same_scraper() {
    let db = db();
    let mut reg = PluginRegistry::new();
    let s = scraper("s", vec!["a.com"]);
    reg.plugins_register(&db, vec![s.clone()]);
    let mut again = s.clone();
    if let Some(ScraperOrPlugin::Scraper(info)) = &mut again.storage_type {
        info.sites = vec!["c.com".to_string()];
    }
    reg.plugins_register(&db, vec![again.clone()]);
    assert_eq!(reg.sites_get(&again), vec!["c.com".to_string()]);
    assert_eq!(reg.sites_get(&s), vec!["a.com".to_string()]);
}

#[test]
fn registry_bad_pattern_adds_no_rule() {
    let db = db();
    let mut reg = PluginRegistry::new();
    let cb = GlobalCallbacks::Tag((Some(SearchType::Regex("(".to_string())), vec![], vec![]));
    let custom = GlobalCallbacks::Callback(CallbackInfo {
        func: "f".to_string(),
        vers: 1,
        data_name: vec![],
        data: vec![CallbackCustomData::String],
    });
    reg.plugins_register(&db, vec![plugin("p", vec![cb, custom])]);
    assert!(reg.tag_rules().targets(&"((".to_string(), 0).is_empty());
}
