use std::collections::BTreeMap;
use std::time::Duration;

use rusthydrus::inmemdbnew::NewinMemDB;
use rusthydrus::jobs::Jobs;
use rusthydrus::sharedtypes::{
    self, DbJobRecreation, DbJobType, DbJobsManager, DbJobsObj, GlobalPluginScraper, JobCacheType,
    ScraperInfo, ScraperOrPlugin, ScraperParam, DEFAULT_CACHETIME, DEFAULT_PRIORITY,
};

fn create_default() -> Jobs {
    Jobs::new(NewinMemDB::new())
}

fn return_dbjobsobj() -> DbJobsObj {
    DbJobsObj {
        id: Some(0),
        time: 0,
        reptime: Some(1),
        priority: DEFAULT_PRIORITY,
        cachetime: DEFAULT_CACHETIME,
        cachechecktype: JobCacheType::TimeReptimeParam,
        site: "test".to_string(),
        param: vec![],
        jobmanager: DbJobsManager { jobtype: DbJobType::Scraper, recreation: None },
        isrunning: false,
        system_data: BTreeMap::new(),
        user_data: BTreeMap::new(),
    }
}

fn scraper_named(name: &str) -> GlobalPluginScraper {
    let mut scraper = sharedtypes::return_default_globalpluginparser();
    scraper.name = name.to_string();
    scraper.storage_type = Some(ScraperOrPlugin::Scraper(ScraperInfo {
        ratelimit: (1, Duration::from_secs(1)),
        sites: vec!["Nah".to_string()],
        priority: DEFAULT_PRIORITY,
        num_threads: None,
        modifiers: vec![],
    }));
    scraper
}

#[test]
fn insert_duplicate_job() {
    let mut job = create_default();
    let scraper = scraper_named("");
    let dbjobsobj = return_dbjobsobj();
    job.jobs_add(scraper.clone(), dbjobsobj.clone());
    job.jobs_add(scraper.clone(), dbjobsobj);
    assert_eq!(job.queued_count(&scraper).unwrap(), 1);
    assert_eq!(job.seen_count(&scraper).unwrap(), 1);
    assert_eq!(job.jobs_get(&scraper).len(), 1);
}

#[test]
fn jobs_remove_job() {
    let mut job = create_default();
    let scraper = scraper_named("");
    let dbjobsobj = return_dbjobsobj();
    job.jobs_add(scraper.clone(), dbjobsobj.clone());
    assert_eq!(job.queued_count(&scraper).unwrap(), 1);
    assert_eq!(job.seen_count(&scraper).unwrap(), 1);
    job.jobs_remove_dbjob(&scraper, &dbjobsobj, &0);
    assert_eq!(job.db().jobs_get_all().keys().len(), 0);
    assert_eq!(job.queued_count(&scraper).unwrap(), 0);
}

#[test]
fn plugin_job_is_dropped() {
    let mut job = create_default();
    let plugin = sharedtypes::return_default_globalpluginparser();
    job.jobs_add(plugin.clone(), return_dbjobsobj());
    assert_eq!(job.queued_count(&plugin), None);
    assert_eq!(job.seen_count(&plugin), None);
}

#[test]
fn job_without_id_gets_table_id() {
    let mut job = create_default();
    let scraper = scraper_named("a");
    let mut obj = return_dbjobsobj();
    obj.id = None;
    job.jobs_add(scraper.clone(), obj);
    let queued = job.jobs_get(&scraper);
    assert_eq!(queued.len(), 1);
    assert_eq!(queued[0].id, Some(0));
    assert_eq!(job.db().jobs_get_all().len(), 1);
    assert_eq!(*job.db().jobs_get_max(), 1);
}

#[test]
fn job_not_due_is_dropped() {
    let mut job = create_default();
    let scraper = scraper_named("a");
    let mut obj = return_dbjobsobj();
    obj.time = 1000;
    obj.reptime = Some(50);
    job.jobs_add_at_time(scraper.clone(), obj, 1049);
    assert_eq!(job.queued_count(&scraper), None);
}

#[test]
fn param_cache_blocks_same_params() {
    let mut job = create_default();
    let scraper = scraper_named("a");
    let mut first = return_dbjobsobj();
    first.param = vec![ScraperParam::Normal("x".to_string())];
    job.jobs_add_at_time(scraper.clone(), first, 10);
    let mut second = return_dbjobsobj();
    second.id = Some(7);
    second.time = 3;
    second.param = vec![ScraperParam::Normal("x".to_string())];
    second.cachechecktype = JobCacheType::Param;
    job.jobs_add_at_time(scraper.clone(), second.clone(), 10);
    assert_eq!(job.queued_count(&scraper), Some(1));
    second.cachechecktype = JobCacheType::TimeReptimeParam;
    job.jobs_add_at_time(scraper.clone(), second, 10);
    assert_eq!(job.queued_count(&scraper), Some(2));
}

#[test]
fn decrement_count_removes_exhausted_job() {
    let mut job = create_default();
    let scraper = scraper_named("a");
    let mut obj = return_dbjobsobj();
    obj.jobmanager.recreation = Some(DbJobRecreation::AlwaysTime(10, Some(0)));
    job.jobs_add_at_time(scraper.clone(), obj.clone(), 10);
    assert_eq!(job.queued_count(&scraper), Some(1));
    job.jobs_decrement_count(&obj, &scraper, &0);
    assert_eq!(job.queued_count(&scraper), Some(0));
}

#[test]
fn decrement_count_keeps_job_with_runs_left() {
    let mut job = create_default();
    let scraper = scraper_named("a");
    let mut obj = return_dbjobsobj();
    obj.jobmanager.recreation = Some(DbJobRecreation::AlwaysTime(10, Some(2)));
    job.jobs_add_at_time(scraper.clone(), obj.clone(), 10);
    job.jobs_decrement_count(&obj, &scraper, &0);
    assert_eq!(job.queued_count(&scraper), Some(1));
}

#[test]
fn clear_cache_forgets_seen_jobs() {
    let mut job = create_default();
    let scraper = scraper_named("a");
    let obj = return_dbjobsobj();
    job.jobs_add_at_time(scraper.clone(), obj.clone(), 10);
    job.clear_previously_seen_cache(&scraper);
    assert_eq!(job.queued_count(&scraper), None);
    assert_eq!(job.seen_count(&scraper), None);
    job.jobs_add_at_time(scraper.clone(), obj, 10);
    assert_eq!(job.queued_count(&scraper), Some(1));
}

#[test]
fn run_new_lists_scrapers_and_counts() {
    let mut job = create_default();
    assert!(job.jobs_run_new().is_empty());
    let a = scraper_named("a");
    let b = scraper_named("b");
    job.jobs_add_at_time(a.clone(), return_dbjobsobj(), 10);
    let mut other = return_dbjobsobj();
    other.id = Some(3);
    other.site = "other".to_string();
    job.jobs_add_at_time(a.clone(), other, 10);
    job.jobs_add_at_time(b.clone(), return_dbjobsobj(), 10);
    assert_eq!(job.jobs_run_new(), vec![("a".to_string(), 2), ("b".to_string(), 1)]);
    let names: Vec<String> = job.job_scrapers_get().iter().map(|s| s.name.clone()).collect();
    assert_eq!(names, vec!["a".to_string(), "b".to_string()]);
    job.jobs_remove_job(&a, &return_dbjobsobj());
    assert_eq!(job.queued_count(&a), Some(1));
}

#[test]
fn scrapers_of_one_name_are_kept_apart() {
    let mut job = create_default();
    let first = scraper_named("a");
    let mut second = scraper_named("a");
    second.version = 2;
    job.jobs_add_at_time(first.clone(), return_dbjobsobj(), 10);
    assert_eq!(job.queued_count(&first), Some(1));
    assert_eq!(job.queued_count(&second), None);
    assert!(job.jobs_get(&second).is_empty());
    job.clear_previously_seen_cache(&second);
    assert_eq!(job.queued_count(&first), Some(1));
    let mut other = return_dbjobsobj();
    other.id = Some(5);
    job.jobs_add_at_time(second.clone(), other, 10);
    assert_eq!(job.job_scrapers_get().len(), 2);
    assert_eq!(job.queued_count(&second), Some(1));
}

#[test]
fn jobs_sharing_an_id_are_both_queued() {
    let mut job = create_default();
    let scraper = scraper_named("a");
    let one = return_dbjobsobj();
    let mut two = return_dbjobsobj();
    two.param = vec![ScraperParam::Normal("other".to_string())];
    job.jobs_add_at_time(scraper.clone(), one.clone(), 10);
    job.jobs_add_at_time(scraper.clone(), two.clone(), 10);
    assert_eq!(job.queued_count(&scraper), Some(2));
    job.jobs_remove_job(&scraper, &two);
    let left = job.jobs_get(&scraper);
    assert_eq!(left.len(), 1);
    assert_eq!(*left[0], one);
}

#[test]
fn decrement_count_lowers_the_count() {
    let mut job = create_default();
    let scraper = scraper_named("a");
    let mut obj = return_dbjobsobj();
    obj.jobmanager.recreation = Some(DbJobRecreation::AlwaysTime(10, Some(2)));
    job.jobs_add_at_time(scraper.clone(), obj.clone(), 10);
    job.jobs_decrement_count(&obj, &scraper, &0);
    let queued = job.jobs_get(&scraper);
    assert_eq!(queued.len(), 1);
    assert_eq!(
        queued[0].jobmanager.recreation,
        Some(DbJobRecreation::AlwaysTime(10, Some(1)))
    );
}

#[test]
fn load_offers_match_sites() {
    let mut db = NewinMemDB::new();
    for site in ["s1", "s2", "s1"] {
        let mut j = return_dbjobsobj();
        j.id = None;
        j.site = site.to_string();
        db.jobs_add(j);
    }
    let job = Jobs::new(db);
    let a = scraper_named("a");
    let b = scraper_named("b");
    let plugin = sharedtypes::return_default_globalpluginparser();
    let pairs = vec![
        (a.clone(), "s1".to_string()),
        (plugin, "s1".to_string()),
        (b.clone(), "s2".to_string()),
    ];
    let offers = job.jobs_load_offers(&pairs);
    let got: Vec<(String, String)> = offers.iter().map(|(s, j)| (s.name.clone(), j.site.clone())).collect();
    assert_eq!(
        got,
        vec![
            ("a".to_string(), "s1".to_string()),
            ("a".to_string(), "s1".to_string()),
            ("b".to_string(), "s2".to_string()),
        ]
    );
    assert_eq!(offers[0].0, a);
    assert_eq!(offers[2].0, b);
}
