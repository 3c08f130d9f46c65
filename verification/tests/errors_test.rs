use musictui2::errors::{CacheError, GitHubError, WebDavError};
use std::path::PathBuf;

#[test]
fn rate_limited_is_retryable() {
    let err = GitHubError::RateLimited { reset_at: None };
    assert!(err.is_retryable());
    assert!(err.message().contains("rate limit"));
}

#[test]
fn server_errors_are_retryable_but_not_forbidden() {
    assert!(GitHubError::Status { status: 500 }.is_retryable());
    assert!(GitHubError::Status { status: 429 }.is_retryable());
    assert!(!GitHubError::Status { status: 404 }.is_retryable());
    assert!(!GitHubError::Forbidden.is_retryable());
}

#[test]
fn forbidden_message_does_not_leak_token() {
    let err = GitHubError::Forbidden;
    let text = err.message();
    assert!(text.contains("GITHUB_TOKEN"));
    assert!(!text.contains("ghp_"));
    assert!(!text.contains("github_pat_"));
}

#[test]
fn webdav_from_status_classifies_auth_vs_other() {
    assert!(matches!(WebDavError::from_status(401), WebDavError::AuthFailed { .. }));
    assert!(matches!(WebDavError::from_status(403), WebDavError::AuthFailed { .. }));
    assert!(matches!(WebDavError::from_status(500), WebDavError::Status { .. }));
}

#[test]
fn cache_error_carries_path_context() {
    let path = PathBuf::from("/tmp/musictui2/abc");
    let err = CacheError::Io {
        path: path.clone(),
        source: std::io::Error::new(std::io::ErrorKind::NotFound, "missing"),
    };
    let msg = err.message();
    assert!(msg.contains("musictui2"));
    assert!(msg.contains("missing"));
}

#[test]
fn error_messages() {
    assert_eq!(
        GitHubError::Status { status: 404 }.message(),
        "GitHub API error: HTTP 404 Not Found"
    );
    assert_eq!(
        GitHubError::Decode("bad json".to_string()).message(),
        "Failed to decode GitHub response: bad json"
    );
    assert_eq!(GitHubError::Other("boom".to_string()).message(), "boom");
    assert_eq!(
        WebDavError::from_status(401).message(),
        "WebDAV authentication failed (HTTP 401 Unauthorized)"
    );
    assert_eq!(
        WebDavError::from_status(500).message(),
        "WebDAV request failed: HTTP 500 Internal Server Error"
    );
    assert_eq!(
        WebDavError::UrlParse("x".to_string()).message(),
        "Failed to parse WebDAV URL: x"
    );
    assert_eq!(
        WebDavError::BadRequest("y".to_string()).message(),
        "Invalid WebDAV PROPFIND request: y"
    );
    let bare = CacheError::from(std::io::Error::new(std::io::ErrorKind::Other, "disk"));
    assert_eq!(bare.message(), "Cache I/O error: disk");
    let located = CacheError::Io {
        path: PathBuf::from("/c/f"),
        source: std::io::Error::new(std::io::ErrorKind::Other, "denied"),
    };
    assert_eq!(located.message(), "Cache I/O error at \"/c/f\": denied");
}
