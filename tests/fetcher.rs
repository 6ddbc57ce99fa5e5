use lemmy_ui_core::errors::{LemmyAppError, LemmyAppErrorType};
use lemmy_ui_core::fetcher::{FetchStep, ResourceFetcher};

#[test]
fn online_goes_to_network() {
    let f = ResourceFetcher::new(true);
    assert!(matches!(f.begin(&"r".to_string()), FetchStep::Network));
}

#[test]
fn offline_answers_from_cache() {
    let mut f = ResourceFetcher::new(true);
    let r = f.complete("R".to_string(), Ok("payload".to_string()));
    assert_eq!(r.unwrap(), "payload");
    f.set_online(false);
    match f.begin(&"R".to_string()) {
        FetchStep::Cached(p) => assert_eq!(p, "payload"),
        other => panic!("unexpected {:?}", other),
    }
    match f.begin(&"R2".to_string()) {
        FetchStep::Offline(e) => assert_eq!(e.error_type, LemmyAppErrorType::OfflineError),
        other => panic!("unexpected {:?}", other),
    }
}

#[test]
fn later_response_replaces_earlier() {
    let mut f = ResourceFetcher::new(true);
    f.complete("R".to_string(), Ok("one".to_string())).unwrap();
    f.complete("S".to_string(), Ok("s".to_string())).unwrap();
    f.complete("R".to_string(), Ok("two".to_string())).unwrap();
    assert_eq!(f.cache.len(), 2);
    assert_eq!(f.lookup(&"R".to_string()), Some("two".to_string()));
    assert_eq!(f.lookup(&"S".to_string()), Some("s".to_string()));
}

#[test]
fn failure_is_not_cached() {
    let mut f = ResourceFetcher::new(true);
    let e = LemmyAppError::new(LemmyAppErrorType::NetworkError);
    let r = f.complete("R".to_string(), Err(e));
    assert_eq!(r.unwrap_err().error_type, LemmyAppErrorType::NetworkError);
    f.set_online(false);
    assert!(matches!(f.begin(&"R".to_string()), FetchStep::Offline(_)));
}
