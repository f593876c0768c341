use gitlab_trackrd::api::NotAuthReason;
use gitlab_trackrd::error::{DormancyReason, Error};

#[test]
fn from_connect_error_classifies_transient_as_unreachable() {
    let r = DormancyReason::from_connect_error(
        "gitlab.example.com",
        &Error::Transient("connection refused".into()),
    );
    assert_eq!(r.reason(), NotAuthReason::unreachable);
    assert_eq!(
        r.detail().as_deref(),
        Some("gitlab.example.com: connection refused")
    );
}

#[test]
fn from_connect_error_classifies_gitlab_as_token_rejected() {
    let r = DormancyReason::from_connect_error(
        "gitlab.example.com",
        &Error::Gitlab("401 Unauthorized".into()),
    );
    assert_eq!(r.reason(), NotAuthReason::token_rejected);
    assert_eq!(
        r.detail().as_deref(),
        Some("gitlab.example.com: GitLab error: 401 Unauthorized")
    );
}

#[test]
fn codes_and_details_for_reasons_without_a_host() {
    assert_eq!(
        DormancyReason::NoCredentials.reason(),
        NotAuthReason::no_credentials
    );
    assert_eq!(DormancyReason::NoCredentials.detail(), None);
    assert_eq!(
        DormancyReason::LoggedOut.reason(),
        NotAuthReason::logged_out
    );
    assert_eq!(DormancyReason::LoggedOut.detail(), None);
    let k = DormancyReason::KeychainError("boom".into());
    assert_eq!(k.reason(), NotAuthReason::keychain_error);
    assert_eq!(k.detail().as_deref(), Some("boom"));
}

#[test]
fn only_unreachable_is_auto_retryable() {
    let host = "gitlab.example.com".to_string();
    assert!(
        DormancyReason::Unreachable {
            host: host.clone(),
            detail: "connection refused".into(),
        }
        .is_auto_retryable()
    );
    assert!(
        !DormancyReason::TokenRejected {
            host,
            detail: "401".into(),
        }
        .is_auto_retryable()
    );
    assert!(!DormancyReason::NoCredentials.is_auto_retryable());
    assert!(!DormancyReason::KeychainError("boom".into()).is_auto_retryable());
    assert!(!DormancyReason::LoggedOut.is_auto_retryable());
}

#[test]
fn each_error_is_reported_with_its_prefix() {
    let s = || "x".to_string();
    assert_eq!(Error::Gitlab(s()).message(), "GitLab error: x");
    assert_eq!(Error::Transient(s()).message(), "network error: x");
    assert_eq!(Error::Secrets(s()).message(), "secret store: x");
    assert_eq!(Error::Storage(s()).message(), "x");
    assert_eq!(Error::Db(s()).message(), "db: x");
    assert_eq!(Error::Json(s()).message(), "JSON error: x");
    assert_eq!(Error::Io(s()).message(), "I/O error: x");
    assert_eq!(Error::Varlink(s()).message(), "Varlink error: x");
}
