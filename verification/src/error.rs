//! Daemon-wide errors and the reasons for having no session.

use vstd::prelude::*;
use vstd::string::*;

use crate::api::NotAuthReason;
use crate::text::joined;

verus! {

#[derive(Debug)]
pub enum Error {
    Gitlab(String),
    /// Network error that is safe to retry.
    Transient(String),
    Secrets(String),
    /// An error of the storage engine, in its own words.
    Storage(String),
    Db(String),
    Json(String),
    Io(String),
    Varlink(String),
}

/// The message that an error is reported with.
pub open spec fn error_text(e: Error) -> Seq<char> {
    match e {
        Error::Gitlab(s) => "GitLab error: "@ + s@,
        Error::Transient(s) => "network error: "@ + s@,
        Error::Secrets(s) => "secret store: "@ + s@,
        Error::Storage(s) => s@,
        Error::Db(s) => "db: "@ + s@,
        Error::Json(s) => "JSON error: "@ + s@,
        Error::Io(s) => "I/O error: "@ + s@,
        Error::Varlink(s) => "Varlink error: "@ + s@,
    }
}

impl Error {
    /// The message that the error is reported with.
    pub fn message(&self) -> (r: String)
        ensures
            r@ == error_text(*self),
    {
        match self {
            Error::Gitlab(s) => joined("GitLab error: ", s.as_str()),
            Error::Transient(s) => joined("network error: ", s.as_str()),
            Error::Secrets(s) => joined("secret store: ", s.as_str()),
            Error::Storage(s) => s.clone(),
            Error::Db(s) => joined("db: ", s.as_str()),
            Error::Json(s) => joined("JSON error: ", s.as_str()),
            Error::Io(s) => joined("I/O error: ", s.as_str()),
            Error::Varlink(s) => joined("Varlink error: ", s.as_str()),
        }
    }
}

/// Why the daemon has no live GitLab session.
#[derive(Debug)]
pub enum DormancyReason {
    /// No credentials are stored in the keychain.
    NoCredentials,
    /// Reading the keychain failed.
    KeychainError(String),
    /// Credentials exist but GitLab was unreachable.
    Unreachable { host: String, detail: String },
    /// Credentials exist but GitLab rejected the token.
    TokenRejected { host: String, detail: String },
    /// The user logged out.
    LoggedOut,
}

impl Clone for DormancyReason {
    fn clone(&self) -> (r: Self)
        ensures
            r == *self,
    {
        match self {
            DormancyReason::NoCredentials => DormancyReason::NoCredentials,
            DormancyReason::KeychainError(d) => DormancyReason::KeychainError(d.clone()),
            DormancyReason::Unreachable { host, detail } => DormancyReason::Unreachable {
                host: host.clone(),
                detail: detail.clone(),
            },
            DormancyReason::TokenRejected { host, detail } => DormancyReason::TokenRejected {
                host: host.clone(),
                detail: detail.clone(),
            },
            DormancyReason::LoggedOut => DormancyReason::LoggedOut,
        }
    }
}

/// The wire enum for a dormancy reason.
pub open spec fn reason_code(d: DormancyReason) -> NotAuthReason {
    match d {
        DormancyReason::NoCredentials => NotAuthReason::no_credentials,
        DormancyReason::KeychainError(_) => NotAuthReason::keychain_error,
        DormancyReason::Unreachable { .. } => NotAuthReason::unreachable,
        DormancyReason::TokenRejected { .. } => NotAuthReason::token_rejected,
        DormancyReason::LoggedOut => NotAuthReason::logged_out,
    }
}

/// The free-text detail of a dormancy reason, for those that carry one.
pub open spec fn reason_detail(d: DormancyReason) -> Option<Seq<char>> {
    match d {
        DormancyReason::NoCredentials => None,
        DormancyReason::KeychainError(s) => Some(s@),
        DormancyReason::Unreachable { host, detail } => Some(host@ + ": "@ + detail@),
        DormancyReason::TokenRejected { host, detail } => Some(host@ + ": "@ + detail@),
        DormancyReason::LoggedOut => None,
    }
}

/// The characters of an optional string.
pub open spec fn opt_text(s: Option<String>) -> Option<Seq<char>> {
    match s {
        Some(t) => Some(t@),
        None => None,
    }
}

/// Whether `d` is how a connect to `host` that failed with `e` is classified.
pub open spec fn is_connect_failure(d: DormancyReason, host: Seq<char>, e: Error) -> bool {
    match e {
        Error::Transient(s) => {
            d matches DormancyReason::Unreachable { host: h, detail } && h@ == host && detail@ == s@
        },
        _ => {
            d matches DormancyReason::TokenRejected { host: h, detail } && h@ == host && detail@
                == error_text(e)
        },
    }
}

impl DormancyReason {
    /// The wire enum sent to the client, which owns the wording.
    pub fn reason(&self) -> (r: NotAuthReason)
        ensures
            r == reason_code(*self),
    {
        match self {
            DormancyReason::NoCredentials => NotAuthReason::no_credentials,
            DormancyReason::KeychainError(_) => NotAuthReason::keychain_error,
            DormancyReason::Unreachable { .. } => NotAuthReason::unreachable,
            DormancyReason::TokenRejected { .. } => NotAuthReason::token_rejected,
            DormancyReason::LoggedOut => NotAuthReason::logged_out,
        }
    }

    /// Free-text detail (host and underlying error), for the codes that carry one.
    pub fn detail(&self) -> (r: Option<String>)
        ensures
            opt_text(r) == reason_detail(*self),
    {
        match self {
            DormancyReason::NoCredentials => None,
            DormancyReason::LoggedOut => None,
            DormancyReason::KeychainError(d) => Some(d.clone()),
            DormancyReason::Unreachable { host, detail } => {
                let mut s = joined(host.as_str(), ": ");
                s.append(detail.as_str());
                Some(s)
            },
            DormancyReason::TokenRejected { host, detail } => {
                let mut s = joined(host.as_str(), ": ");
                s.append(detail.as_str());
                Some(s)
            },
        }
    }

    /// Classifies a failed connect: a network error means that GitLab was
    /// unreachable, anything else that the token was rejected.
    pub fn from_connect_error(host: &str, e: &Error) -> (r: Self)
        ensures
            is_connect_failure(r, host@, *e),
    {
        match e {
            Error::Transient(d) => DormancyReason::Unreachable {
                host: host.to_owned(),
                detail: d.clone(),
            },
            other => DormancyReason::TokenRejected {
                host: host.to_owned(),
                detail: other.message(),
            },
        }
    }

    /// Whether the daemon should keep retrying the connection on its own: the
    /// credentials are known to be good only where GitLab was unreachable.
    pub fn is_auto_retryable(&self) -> (r: bool)
        ensures
            r == (*self is Unreachable),
    {
        match self {
            DormancyReason::Unreachable { .. } => true,
            _ => false,
        }
    }
}

/// A failed connect is retried without the user exactly when it failed on the
/// network.
pub proof fn law_only_network_failures_retry(host: Seq<char>, e: Error, d: DormancyReason)
    requires
        is_connect_failure(d, host, e),
    ensures
        d is Unreachable <==> e is Transient,
        reason_code(d) == NotAuthReason::unreachable <==> e is Transient,
{
}

/// Every message ends in the cause, in its own words, and says in front of it what
/// sort of error it is; the storage engine speaks for itself.
pub proof fn law_messages_keep_the_cause(cause: String)
    ensures
        error_text(Error::Gitlab(cause)) == "GitLab error: "@ + cause@,
        error_text(Error::Transient(cause)) == "network error: "@ + cause@,
        error_text(Error::Secrets(cause)) == "secret store: "@ + cause@,
        error_text(Error::Storage(cause)) == cause@,
        error_text(Error::Db(cause)) == "db: "@ + cause@,
        error_text(Error::Json(cause)) == "JSON error: "@ + cause@,
        error_text(Error::Io(cause)) == "I/O error: "@ + cause@,
        error_text(Error::Varlink(cause)) == "Varlink error: "@ + cause@,
{
}

/// The reason that a caller is told tells every reason for having no session from
/// every other, and where GitLab was tried the detail names the host and the
/// cause.
pub proof fn law_reasons_are_told_apart(d: DormancyReason)
    ensures
        d is NoCredentials <==> reason_code(d) == NotAuthReason::no_credentials,
        d is KeychainError <==> reason_code(d) == NotAuthReason::keychain_error,
        d is Unreachable <==> reason_code(d) == NotAuthReason::unreachable,
        d is TokenRejected <==> reason_code(d) == NotAuthReason::token_rejected,
        d is LoggedOut <==> reason_code(d) == NotAuthReason::logged_out,
        d matches DormancyReason::Unreachable { host, detail } ==> reason_detail(d) == Some(
            host@ + ": "@ + detail@,
        ),
        d matches DormancyReason::TokenRejected { host, detail } ==> reason_detail(d) == Some(
            host@ + ": "@ + detail@,
        ),
        d matches DormancyReason::KeychainError(cause) ==> reason_detail(d) == Some(cause@),
        d is NoCredentials || d is LoggedOut ==> reason_detail(d) is None,
{
}

/// A failed connect is remembered with the host that was tried and with the cause.
pub proof fn law_connect_failures_name_host_and_cause(
    d: DormancyReason,
    host: Seq<char>,
    e: Error,
)
    requires
        is_connect_failure(d, host, e),
    ensures
        e matches Error::Transient(cause) ==> reason_detail(d) == Some(host + ": "@ + cause@),
        !(e is Transient) ==> d is TokenRejected && reason_detail(d) == Some(
            host + ": "@ + error_text(e),
        ),
{
}

} // verus!
