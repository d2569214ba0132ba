use rusthydrus::cli::{parse_string_to_scraperparam, return_jobtypemanager, return_jobtypemanager_old};
use rusthydrus::cli_structs::{DbJobRecreationClap, IdTimestamp, TagClap, Timestamp};
use rusthydrus::sharedtypes::{DbJobRecreation, DbJobType, ScraperParam};

#[test]
fn query_split_on_single_spaces() {
    let params = parse_string_to_scraperparam("a b  c");
    assert_eq!(
        params,
        vec![
            ScraperParam::Normal("a".to_string()),
            ScraperParam::Normal("b".to_string()),
            ScraperParam::Normal("".to_string()),
            ScraperParam::Normal("c".to_string()),
        ]
    );
    assert_eq!(parse_string_to_scraperparam(""), vec![ScraperParam::Normal("".to_string())]);
}

#[test]
fn jobtype_defaults_to_params() {
    let (t, m) = return_jobtypemanager(None, None);
    assert_eq!(t, DbJobType::Params);
    assert_eq!(m.jobtype, DbJobType::Params);
    assert!(m.recreation.is_none());
}

#[test]
fn recreation_carried_over() {
    let r = DbJobRecreationClap::AlwaysTime(Timestamp { timestamp: 60, count: Some(3) });
    let (t, m) = return_jobtypemanager(Some(DbJobType::Scraper), Some(&r));
    assert_eq!(t, DbJobType::Scraper);
    assert_eq!(m.recreation, Some(DbJobRecreation::AlwaysTime(60, Some(3))));
    let tag = DbJobRecreationClap::OnTagExist(TagClap { name: "x".to_string(), namespace: 2, timestamp: None });
    let (_, m) = return_jobtypemanager_old(None, &tag);
    assert_eq!(m.recreation, Some(DbJobRecreation::OnTag("x".to_string(), 2, None)));
    let id = DbJobRecreationClap::OnTagId(IdTimestamp { id: 9, timestamp: Some(1) });
    let (_, m) = return_jobtypemanager_old(Some(DbJobType::Plugin), &id);
    assert_eq!(m.jobtype, DbJobType::Plugin);
    assert_eq!(m.recreation, Some(DbJobRecreation::OnTagId(9, Some(1))));
}
