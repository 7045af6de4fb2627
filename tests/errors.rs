use wtg_cli::errors::{classify_api_error, on_api_failure, ApiFailure, FailureAction, Notice, WtgError};

#[test]
fn classifies_api_errors() {
    assert_eq!(classify_api_error(Some(429), "slow down"), ApiFailure::RateLimit);
    assert_eq!(
        classify_api_error(Some(403), "Resource protected by organization SAML enforcement"),
        ApiFailure::Saml
    );
    assert_eq!(classify_api_error(Some(403), "API rate limit exceeded"), ApiFailure::RateLimit);
    assert_eq!(classify_api_error(Some(403), "Forbidden"), ApiFailure::Forbidden);
    assert_eq!(classify_api_error(Some(401), "Bad credentials"), ApiFailure::BadCredentials);
    assert_eq!(classify_api_error(Some(500), "oops"), ApiFailure::Other);
    assert_eq!(classify_api_error(None, "io"), ApiFailure::Other);
}

#[test]
fn rate_limit_is_reported_and_not_retried() {
    let (action, notice) = on_api_failure(false, true, ApiFailure::RateLimit, "429".into());
    assert_eq!(action, FailureAction::Fail(WtgError::GhRateLimit));
    assert_eq!(notice, Some(Notice::GhRateLimitHit));
}

#[test]
fn fallback_policy() {
    assert_eq!(on_api_failure(false, true, ApiFailure::Saml, String::new()).0, FailureAction::RetryOnBackup);
    assert_eq!(
        on_api_failure(false, true, ApiFailure::BadCredentials, String::new()).0,
        FailureAction::RetryOnBackup
    );
    assert_eq!(
        on_api_failure(true, true, ApiFailure::Saml, String::new()).0,
        FailureAction::Fail(WtgError::GhSaml)
    );
    assert_eq!(
        on_api_failure(false, false, ApiFailure::Saml, String::new()).0,
        FailureAction::Fail(WtgError::GhSaml)
    );
    assert_eq!(
        on_api_failure(false, true, ApiFailure::Timeout, String::new()),
        (FailureAction::Fail(WtgError::Timeout), None)
    );
    assert_eq!(
        on_api_failure(false, true, ApiFailure::Other, "boom".into()).0,
        FailureAction::Fail(WtgError::GitHub("boom".into()))
    );
}

#[test]
fn exit_codes() {
    assert_eq!(WtgError::NotFound("x".into()).exit_code(), 1);
    assert_eq!(WtgError::Cli { message: "bad".into(), code: 2 }.exit_code(), 2);
}
