use lemmy_ui_core::errors::{validate_login, validate_report, LemmyAppError, LemmyAppErrorType};

#[test]
fn login_validation() {
    assert_eq!(validate_login("", "pw"), Some(LemmyAppErrorType::EmptyUsername));
    assert_eq!(validate_login("", ""), Some(LemmyAppErrorType::EmptyUsername));
    assert_eq!(validate_login("me", ""), Some(LemmyAppErrorType::EmptyPassword));
    assert_eq!(validate_login("me", "pw"), None);
}

#[test]
fn report_validation() {
    assert_eq!(validate_report(""), Some(LemmyAppErrorType::MissingReason));
    assert_eq!(validate_report("spam"), None);
}

#[test]
fn error_from_kind() {
    let e = LemmyAppError::new(LemmyAppErrorType::OfflineError);
    assert_eq!(e.error_type, LemmyAppErrorType::OfflineError);
    assert!(e.content.is_empty());
}
