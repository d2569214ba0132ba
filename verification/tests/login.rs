use rusthydrus::inmemdbnew::NewinMemDB;
use rusthydrus::login::login_params;
use rusthydrus::sharedtypes::{LoginNeed, LoginType, ScraperParam};

fn api(name: &str, ns: Option<&str>, body: Option<&str>) -> LoginType {
    LoginType::ApiNamespaced(name.to_string(), ns.map(|s| s.to_string()), body.map(|s| s.to_string()))
}

#[test]
fn api_login_is_stored_and_added() {
    let mut db = NewinMemDB::new();
    let logins = vec![("k".to_string(), api("n", Some("ns"), Some("b")), LoginNeed::Optional, None, true)];
    let start = vec![ScraperParam::Normal("x".to_string())];
    let out = login_params(&mut db, &logins, start.clone()).unwrap();
    assert_eq!(out, vec![start[0].clone(), ScraperParam::Login(api("n", Some("ns"), Some("b")))]);
    let stored = db.settings_get_name(&"API_NAMESPACED_NAMESPACE_k_n".to_string()).unwrap();
    assert_eq!(stored.param, Some("ns".to_string()));
    // Without the flag the stored values are read back.
    let again = vec![("k".to_string(), api("n", None, None), LoginNeed::Optional, None, false)];
    let out2 = login_params(&mut db, &again, vec![]).unwrap();
    assert_eq!(out2, vec![ScraperParam::Login(api("n", Some("ns"), Some("b")))]);
}

#[test]
fn required_login_stops_or_is_stuck() {
    let mut db = NewinMemDB::new();
    let missing = vec![("k".to_string(), api("n", None, None), LoginNeed::Required, None, true)];
    assert!(login_params(&mut db, &missing, vec![]).is_none());
    let given = vec![
        ("k".to_string(), api("n", Some("a"), Some("b")), LoginNeed::Required, None, true),
        ("k".to_string(), api("m", Some("c"), Some("d")), LoginNeed::Optional, None, true),
    ];
    assert_eq!(login_params(&mut db, &given, vec![]).unwrap(), vec![]);
    let cookie = vec![("k".to_string(), LoginType::Cookie("c".to_string(), None), LoginNeed::Optional, None, false)];
    assert!(login_params(&mut db, &cookie, vec![]).is_none());
}
