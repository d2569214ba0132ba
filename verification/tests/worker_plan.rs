use std::collections::BTreeMap;

use rusthydrus::sharedtypes::{
    DbJobRecreation, DbJobType, DbJobsManager, DbJobsObj, JobCacheType, ScraperParam, DEFAULT_CACHETIME,
    DEFAULT_PRIORITY,
};
use rusthydrus::worker::{job_plan, JobPlan, JobWork};

fn job(jobtype: DbJobType, recreation: Option<DbJobRecreation>) -> DbJobsObj {
    DbJobsObj {
        id: Some(0),
        time: 0,
        reptime: Some(1),
        priority: DEFAULT_PRIORITY,
        cachetime: DEFAULT_CACHETIME,
        cachechecktype: JobCacheType::TimeReptimeParam,
        site: "s".to_string(),
        param: vec![ScraperParam::Normal("a".to_string()), ScraperParam::Url("u".to_string())],
        jobmanager: DbJobsManager { jobtype, recreation },
        isrunning: false,
        system_data: BTreeMap::new(),
        user_data: BTreeMap::new(),
    }
}

#[test]
fn plan_scraper_job_scrapes_each_param() {
    let j = job(DbJobType::Scraper, None);
    assert_eq!(
        job_plan(&j),
        JobPlan { keep_in_table: false, reschedule: None, work: JobWork::Each(j.param.clone()) }
    );
}

#[test]
fn plan_timer_job_is_kept_and_rescheduled() {
    let j = job(DbJobType::Params, Some(DbJobRecreation::AlwaysTime(60, Some(2))));
    assert_eq!(job_plan(&j), JobPlan { keep_in_table: true, reschedule: Some(60), work: JobWork::UrlDump });
    let k = job(DbJobType::FileUrl, Some(DbJobRecreation::OnTagId(1, None)));
    assert_eq!(job_plan(&k), JobPlan { keep_in_table: true, reschedule: None, work: JobWork::Nothing });
    let p = job(DbJobType::Plugin, None);
    assert_eq!(job_plan(&p).work, JobWork::Skip);
}

use rusthydrus::sharedtypes::Flags;
use rusthydrus::worker::{url_plan, ReturnKind, UrlAction, UrlNext, UrlPlan};

#[test]
fn url_plan_empty_stops() {
    assert_eq!(url_plan(&vec![]), UrlPlan { actions: vec![], next: UrlNext::StopUrls, redo: false });
}

#[test]
fn url_plan_data_then_next_url() {
    let outs = vec![ReturnKind::Data(vec![]), ReturnKind::Timeout(3), ReturnKind::Data(vec![Flags::Redo])];
    assert_eq!(
        url_plan(&outs),
        UrlPlan {
            actions: vec![UrlAction::Process(0), UrlAction::Sleep(3), UrlAction::Process(2)],
            next: UrlNext::NextUrl,
            redo: true,
        }
    );
}

#[test]
fn url_plan_nothing_stop_timeout() {
    assert_eq!(url_plan(&vec![ReturnKind::Nothing]).next, UrlNext::StopUrls);
    assert_eq!(url_plan(&vec![ReturnKind::Nothing, ReturnKind::Data(vec![])]).next, UrlNext::NextUrl);
    assert_eq!(url_plan(&vec![ReturnKind::Data(vec![]), ReturnKind::Stop]).next, UrlNext::StopUrls);
    assert_eq!(
        url_plan(&vec![ReturnKind::Timeout(5)]),
        UrlPlan { actions: vec![UrlAction::Sleep(5)], next: UrlNext::Retry, redo: false }
    );
    assert_eq!(url_plan(&vec![ReturnKind::Emergency]).next, UrlNext::Emergency);
}
