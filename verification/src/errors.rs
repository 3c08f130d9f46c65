//! Typed errors for module boundaries, so callers can match on actionable
//! variants (rate limiting, authentication failures) instead of inspecting
//! message strings. HTTP statuses are carried as their numeric code.

use std::path::PathBuf;
use vstd::prelude::*;

use crate::text::concat_str;

verus! {

/// Errors of the `reqwest` HTTP client, carried through unchanged.
#[verifier::external_type_specification]
#[verifier::external_body]
pub struct ExReqwestError(reqwest::Error);

/// How an HTTP status is displayed: its code and canonical reason phrase.
pub uninterp spec fn http_status_text(code: u16) -> Seq<char>;

/// An HTTP status code that `StatusCode::from_u16` accepts: 100 to 999.
pub open spec fn valid_status(code: u16) -> bool {
    100 <= code && code <= 999
}

/// `reqwest::StatusCode::from_u16` followed by the status's `Display`. The
/// code is a valid status, which `from_u16` accepts.
#[verifier::external_body]
pub(crate) fn status_text(code: u16) -> (t: String)
    requires
        valid_status(code),
    ensures
        t@ == http_status_text(code),
{
    match reqwest::StatusCode::from_u16(code) {
        Ok(status) => status.to_string(),
        Err(_) => String::new(),
    }
}

/// `Display` of a `reqwest::Error`. Its text names the failed request and
/// the underlying cause, which depend on the machine, so nothing is stated.
#[verifier::external_body]
fn transport_error_text(e: &reqwest::Error) -> String {
    e.to_string()
}

/// `Display` of a `std::io::Error`. Operating-system messages depend on the
/// machine, so nothing is stated.
#[verifier::external_body]
fn io_error_text(e: &std::io::Error) -> String {
    e.to_string()
}

/// How a path is shown by `Debug`: quoted, with escapes.
pub uninterp spec fn path_debug_text(path: PathBuf) -> Seq<char>;

/// `Debug` of a `PathBuf`.
#[verifier::external_body]
fn path_debug(path: &PathBuf) -> (t: String)
    ensures
        t@ == path_debug_text(*path),
{
    format!("{:?}", path)
}

/// An HTTP status that asks the client to back off: 429 Too Many Requests,
/// or a server error (500 to 599).
pub open spec fn status_is_retryable(status: u16) -> bool {
    status == 429 || (500 <= status && status <= 599)
}

/// Errors raised when talking to the GitHub API.
#[derive(Debug)]
pub enum GitHubError {
    /// GitHub returned 403 with a "rate limit" message.
    RateLimited { reset_at: Option<u64> },
    /// GitHub returned 403 without a rate-limit hint.
    Forbidden,
    /// A non-success HTTP status not handled above.
    Status { status: u16 },
    /// A transport-level error of the HTTP client.
    Transport(reqwest::Error),
    /// The response body did not have the expected JSON shape.
    Decode(String),
    /// Download failures and other text-only errors.
    Other(String),
}

/// The message of a rate-limited GitHub request.
pub open spec fn rate_limited_message() -> Seq<char> {
    "GitHub API rate limit exceeded. Set GITHUB_TOKEN to increase limit"@
}

/// The message of a forbidden GitHub request.
pub open spec fn forbidden_message() -> Seq<char> {
    "GitHub API access forbidden. Please check your access or set GITHUB_TOKEN"@
}

impl GitHubError {
    /// Every status the error carries is a valid HTTP status.
    pub open spec fn statuses_valid(&self) -> bool {
        match self {
            GitHubError::Status { status } => valid_status(*status),
            _ => true,
        }
    }

    /// Whether the caller should back off and retry later rather than fail:
    /// rate limiting, 429, and server errors.
    pub fn is_retryable(&self) -> (b: bool)
        ensures
            b == match self {
                GitHubError::RateLimited { .. } => true,
                GitHubError::Status { status } => status_is_retryable(*status),
                _ => false,
            },
    {
        match self {
            GitHubError::RateLimited { .. } => true,
            GitHubError::Status { status } => *status == 429 || (500 <= *status && *status <= 599),
            _ => false,
        }
    }

    /// The error's message.
    pub fn message(&self) -> (m: String)
        requires
            self.statuses_valid(),
        ensures
            match self {
                GitHubError::RateLimited { .. } => m@ == rate_limited_message(),
                GitHubError::Forbidden => m@ == forbidden_message(),
                GitHubError::Status { status } => m@ == "GitHub API error: HTTP "@ + http_status_text(
                    *status,
                ),
                GitHubError::Transport(_) => exists|t: Seq<char>|
                    m@ == "GitHub HTTP transport error: "@ + t,
                GitHubError::Decode(d) => m@ == "Failed to decode GitHub response: "@ + d@,
                GitHubError::Other(o) => m@ == o@,
            },
    {
        match self {
            GitHubError::RateLimited { .. } => {
                "GitHub API rate limit exceeded. Set GITHUB_TOKEN to increase limit".to_string()
            },
            GitHubError::Forbidden => {
                "GitHub API access forbidden. Please check your access or set GITHUB_TOKEN".to_string()
            },
            GitHubError::Status { status } => {
                let text = status_text(*status);
                concat_str("GitHub API error: HTTP ", text.as_str())
            },
            GitHubError::Transport(e) => {
                let text = transport_error_text(e);
                concat_str("GitHub HTTP transport error: ", text.as_str())
            },
            GitHubError::Decode(d) => concat_str("Failed to decode GitHub response: ", d.as_str()),
            GitHubError::Other(o) => o.clone(),
        }
    }
}

impl From<reqwest::Error> for GitHubError {
    fn from(e: reqwest::Error) -> (r: Self) {
        GitHubError::Transport(e)
    }
}

impl vstd::std_specs::convert::FromSpecImpl<reqwest::Error> for GitHubError {
    open spec fn obeys_from_spec() -> bool {
        true
    }

    open spec fn from_spec(v: reqwest::Error) -> Self {
        GitHubError::Transport(v)
    }
}

/// Errors raised when talking to a WebDAV collection.
#[derive(Debug)]
pub enum WebDavError {
    AuthFailed { status: u16 },
    Status { status: u16 },
    Transport(reqwest::Error),
    UrlParse(String),
    BadRequest(String),
    Other(String),
}

impl WebDavError {
    /// Every status the error carries is a valid HTTP status.
    pub open spec fn statuses_valid(&self) -> bool {
        match self {
            WebDavError::AuthFailed { status } => valid_status(*status),
            WebDavError::Status { status } => valid_status(*status),
            _ => true,
        }
    }

    /// Classifies a failed status: 401 and 403 are authentication failures.
    pub fn from_status(status: u16) -> (e: Self)
        ensures
            (status == 401 || status == 403) ==> e == (WebDavError::AuthFailed { status }),
            !(status == 401 || status == 403) ==> e == (WebDavError::Status { status }),
    {
        if status == 401 || status == 403 {
            WebDavError::AuthFailed { status }
        } else {
            WebDavError::Status { status }
        }
    }

    /// The error's message.
    pub fn message(&self) -> (m: String)
        requires
            self.statuses_valid(),
        ensures
            match self {
                WebDavError::AuthFailed { status } => m@ == "WebDAV authentication failed (HTTP "@
                    + http_status_text(*status) + ")"@,
                WebDavError::Status { status } => m@ == "WebDAV request failed: HTTP "@
                    + http_status_text(*status),
                WebDavError::Transport(_) => exists|t: Seq<char>|
                    m@ == "WebDAV HTTP transport error: "@ + t,
                WebDavError::UrlParse(u) => m@ == "Failed to parse WebDAV URL: "@ + u@,
                WebDavError::BadRequest(b) => m@ == "Invalid WebDAV PROPFIND request: "@ + b@,
                WebDavError::Other(o) => m@ == o@,
            },
    {
        match self {
            WebDavError::AuthFailed { status } => {
                let text = status_text(*status);
                let head = concat_str("WebDAV authentication failed (HTTP ", text.as_str());
                concat_str(head.as_str(), ")")
            },
            WebDavError::Status { status } => {
                let text = status_text(*status);
                concat_str("WebDAV request failed: HTTP ", text.as_str())
            },
            WebDavError::Transport(e) => {
                let text = transport_error_text(e);
                concat_str("WebDAV HTTP transport error: ", text.as_str())
            },
            WebDavError::UrlParse(u) => concat_str("Failed to parse WebDAV URL: ", u.as_str()),
            WebDavError::BadRequest(b) => concat_str("Invalid WebDAV PROPFIND request: ", b.as_str()),
            WebDavError::Other(o) => o.clone(),
        }
    }
}

impl From<reqwest::Error> for WebDavError {
    fn from(e: reqwest::Error) -> (r: Self) {
        WebDavError::Transport(e)
    }
}

impl vstd::std_specs::convert::FromSpecImpl<reqwest::Error> for WebDavError {
    open spec fn obeys_from_spec() -> bool {
        true
    }

    open spec fn from_spec(v: reqwest::Error) -> Self {
        WebDavError::Transport(v)
    }
}

/// Errors raised by the on-disk cache.
#[derive(Debug)]
pub enum CacheError {
    Io { path: PathBuf, source: std::io::Error },
    BareIo(std::io::Error),
}

impl CacheError {
    /// The error's message; the I/O error's own text follows the prefix.
    pub fn message(&self) -> (m: String)
        ensures
            match self {
                CacheError::Io { path, .. } => exists|t: Seq<char>|
                    m@ == "Cache I/O error at "@ + path_debug_text(*path) + ": "@ + t,
                CacheError::BareIo(_) => exists|t: Seq<char>| m@ == "Cache I/O error: "@ + t,
            },
    {
        match self {
            CacheError::Io { path, source } => {
                let shown = path_debug(path);
                let head = concat_str("Cache I/O error at ", shown.as_str());
                let head = concat_str(head.as_str(), ": ");
                let text = io_error_text(source);
                concat_str(head.as_str(), text.as_str())
            },
            CacheError::BareIo(source) => {
                let text = io_error_text(source);
                concat_str("Cache I/O error: ", text.as_str())
            },
        }
    }
}

impl From<std::io::Error> for CacheError {
    fn from(e: std::io::Error) -> (r: Self) {
        CacheError::BareIo(e)
    }
}

impl vstd::std_specs::convert::FromSpecImpl<std::io::Error> for CacheError {
    open spec fn obeys_from_spec() -> bool {
        true
    }

    open spec fn from_spec(v: std::io::Error) -> Self {
        CacheError::BareIo(v)
    }
}

} // verus!
