//! The errors a caller can branch on, the classification of GitHub API
//! failures, and the policy of falling back from the main API client to the
//! backup one.

use vstd::prelude::*;
use vstd::string::*;

use crate::input::{ascii_lower_is, lower_matches, InputError};

verus! {

/// Failure of a whole run.
#[derive(Debug, Clone, PartialEq, Eq)]
pub enum WtgError {
    NotInGitRepo,
    NotFound(String),
    Unsupported(String),
    GitHubClientFailed,
    GhConnectionLost,
    GhNoClient,
    GhRateLimit,
    GhSaml,
    GhBadCredentials,
    GhForbidden,
    GitHub(String),
    Timeout,
    Io(String),
    Git(String),
    Input(InputError),
    Cli { message: String, code: i32 },
}

/// A probe may go on to the next possibility after these; any other error
/// ends the run.
pub open spec fn is_soft(e: WtgError) -> bool {
    e is NotFound || e is Unsupported
}

pub fn soft(e: &WtgError) -> (r: bool)
    ensures
        r == is_soft(*e),
{
    match e {
        WtgError::NotFound(_) | WtgError::Unsupported(_) => true,
        _ => false,
    }
}

impl WtgError {
    pub open spec fn code(self) -> i32 {
        match self {
            WtgError::Cli { code, .. } => code,
            _ => 1,
        }
    }

    /// Process exit code: the argument parser's for command-line errors, 1 otherwise.
    pub fn exit_code(&self) -> (r: i32)
        ensures
            r == self.code(),
    {
        match self {
            WtgError::Cli { code, .. } => *code,
            _ => 1,
        }
    }
}

/// What a failed GitHub API call amounts to.
#[derive(Debug, Clone, Copy, PartialEq, Eq, Structural)]
pub enum ApiFailure {
    RateLimit,
    Saml,
    BadCredentials,
    Forbidden,
    Timeout,
    Other,
}

/// Whether the ASCII lower-casing of `s` contains `t` (`t` without capitals).
pub open spec fn lower_contains(s: Seq<char>, t: Seq<char>) -> bool {
    exists|i: int|
        0 <= i && i + t.len() <= s.len() && #[trigger] ascii_lower_is(s.subrange(i, i + t.len()), t)
}

fn contains_lower(s: &str, t: &str) -> (r: bool)
    ensures
        r == lower_contains(s@, t@),
{
    let n = s.unicode_len();
    let m = t.unicode_len();
    if m > n {
        return false;
    }
    let last = n - m;
    let mut i: usize = 0;
    loop
        invariant
            0 <= i <= last,
            last == n - m,
            n == s@.len(),
            m == t@.len(),
            forall|k: int|
                0 <= k < i ==> !#[trigger] ascii_lower_is(s@.subrange(k, k + m), t@),
        decreases last - i,
    {
        if lower_matches(s.substring_char(i, i + m), t) {
            return true;
        }
        if i == last {
            assert forall|k: int|
                0 <= k && k + t@.len() <= s@.len() implies !#[trigger] ascii_lower_is(
                s@.subrange(k, k + t@.len()),
                t@,
            ) by {
                assert(k <= i);
            }
            return false;
        }
        i = i + 1;
    }
}

/// Classification of an API error response by status and message: 429 or a
/// 403 about the rate limit is the rate limit, a 403 about SAML is an SSO
/// refusal, 401 is bad credentials.
pub open spec fn classify_spec(status: Option<u16>, message: Seq<char>) -> ApiFailure {
    match status {
        Some(429) => ApiFailure::RateLimit,
        Some(403) => if lower_contains(message, "saml"@) {
            ApiFailure::Saml
        } else if lower_contains(message, "rate limit"@) {
            ApiFailure::RateLimit
        } else {
            ApiFailure::Forbidden
        },
        Some(401) => ApiFailure::BadCredentials,
        _ => ApiFailure::Other,
    }
}

pub fn classify_api_error(status: Option<u16>, message: &str) -> (r: ApiFailure)
    ensures
        r == classify_spec(status, message@),
{
    match status {
        Some(429) => ApiFailure::RateLimit,
        Some(403) => {
            if contains_lower(message, "saml") {
                ApiFailure::Saml
            } else if contains_lower(message, "rate limit") {
                ApiFailure::RateLimit
            } else {
                ApiFailure::Forbidden
            }
        },
        Some(401) => ApiFailure::BadCredentials,
        _ => ApiFailure::Other,
    }
}

/// Non-fatal diagnostics.
#[derive(Debug, Clone, PartialEq, Eq)]
pub enum Notice {
    CacheUpdateFailed,
    ShallowRepoDetected,
    GhRateLimitHit,
    CrossProjectFallbackToApi,
    CloningRepo,
    CloneSucceeded,
    CloneFallbackToBare,
    ApiOnly,
    NoRemotes,
    UnreachableGitHub,
    MixedRemotes,
    UnsupportedHost(String),
}

/// What to do after a failed call.
#[derive(Debug, Clone, PartialEq, Eq)]
pub enum FailureAction {
    /// Call again with the backup client.
    RetryOnBackup,
    /// Give up with this error.
    Fail(WtgError),
}

pub open spec fn failure_error(f: ApiFailure, message: String) -> WtgError {
    match f {
        ApiFailure::RateLimit => WtgError::GhRateLimit,
        ApiFailure::Saml => WtgError::GhSaml,
        ApiFailure::BadCredentials => WtgError::GhBadCredentials,
        ApiFailure::Forbidden => WtgError::GhForbidden,
        ApiFailure::Timeout => WtgError::Timeout,
        ApiFailure::Other => WtgError::GitHub(message),
    }
}

/// The fallback policy: an SSO refusal or bad credentials on the main
/// (authenticated) client are retried on the backup; everything else, and
/// any failure of the backup, ends the call.
pub open spec fn retries(on_backup: bool, main_authenticated: bool, f: ApiFailure) -> bool {
    !on_backup && main_authenticated && (f == ApiFailure::Saml || f == ApiFailure::BadCredentials)
}

/// Decides after a failed call; the second result is the notice to emit (a
/// rate limit is reported once, and never retried).
pub fn on_api_failure(
    on_backup: bool,
    main_authenticated: bool,
    failure: ApiFailure,
    message: String,
) -> (r: (FailureAction, Option<Notice>))
    ensures
        retries(on_backup, main_authenticated, failure) ==> r.0 == FailureAction::RetryOnBackup,
        !retries(on_backup, main_authenticated, failure) ==> r.0 == FailureAction::Fail(
            failure_error(failure, message),
        ),
        r.1 == (if failure == ApiFailure::RateLimit {
            Some(Notice::GhRateLimitHit)
        } else {
            None
        }),
{
    let retry = !on_backup && main_authenticated && (failure == ApiFailure::Saml || failure
        == ApiFailure::BadCredentials);
    let notice = if failure == ApiFailure::RateLimit {
        Some(Notice::GhRateLimitHit)
    } else {
        None
    };
    if retry {
        return (FailureAction::RetryOnBackup, notice);
    }
    let e = match failure {
        ApiFailure::RateLimit => WtgError::GhRateLimit,
        ApiFailure::Saml => WtgError::GhSaml,
        ApiFailure::BadCredentials => WtgError::GhBadCredentials,
        ApiFailure::Forbidden => WtgError::GhForbidden,
        ApiFailure::Timeout => WtgError::Timeout,
        ApiFailure::Other => WtgError::GitHub(message),
    };
    (FailureAction::Fail(e), notice)
}

} // verus!
