use rusthydrus::intcoms::client;
use rusthydrus::intcoms::types::{SupportedDBRequests, SupportedRequests};

#[test]
fn log_request() {
    let r = client::log("hello".to_string());
    assert!(matches!(r, SupportedRequests::Database(SupportedDBRequests::Logging(ref s)) if s == "hello"));
}

#[test]
fn setting_request() {
    let r = client::setting_add("n".to_string(), None, Some(2), None, true);
    assert!(matches!(
        r,
        SupportedRequests::Database(SupportedDBRequests::SettingsSet(ref n, None, Some(2), None, true)) if n == "n"
    ));
}

#[test]
fn file_request() {
    let r = client::get_file(4);
    assert!(matches!(r, SupportedRequests::Database(SupportedDBRequests::GetFileLocation(4))));
}
