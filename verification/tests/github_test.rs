use musictui2::errors::GitHubError;
use musictui2::github::{
    after_failed_attempt, contents_url, forbidden_error, percent_encode_segment, raw_download_url,
    repository_web_url, retry_delay_millis, should_retry_status, status_error_message,
    tree_to_tracks, tree_to_tracks_at, AttemptFailure, ContentsScan, RepoFile, RetryStep,
    TreeEntry,
};
use musictui2::models::Timestamp;

fn entry(path: &str, kind: &str, size: Option<u64>) -> TreeEntry {
    TreeEntry {
        path: path.to_string(),
        kind: kind.to_string(),
        size,
    }
}

#[test]
fn keeps_only_audio_blobs_and_skips_directories() {
    let entries = vec![
        entry("README.md", "blob", Some(10)),
        entry("songs", "tree", None),
        entry("songs/track-1.mp3", "blob", Some(123)),
        entry("songs/track-2.flac", "blob", Some(456)),
        entry("docs/not-audio.txt", "blob", Some(7)),
    ];
    let tracks = tree_to_tracks(&entries, "alice", "music", "main", 42).expect("the clock reads after the epoch");
    assert_eq!(tracks.len(), 2);
    assert_eq!(tracks[0].name, "track-1.mp3");
    assert_eq!(tracks[0].format, "mp3");
    assert_eq!(tracks[0].size, 123);
    assert_eq!(tracks[0].repository_id, 42);
    assert_eq!(tracks[1].name, "track-2.flac");
    assert_eq!(tracks[1].format, "flac");
}

#[test]
fn builds_raw_content_url_with_branch_ref() {
    let entries = vec![entry("nested/dir/Song.MP3", "blob", Some(1))];
    let tracks = tree_to_tracks(&entries, "alice", "music", "main", 1).expect("the clock reads after the epoch");
    assert_eq!(tracks.len(), 1);
    assert_eq!(
        tracks[0].url,
        "https://raw.githubusercontent.com/alice/music/main/nested/dir/Song.MP3"
    );
}

#[test]
fn percent_encodes_spaces_and_unicode_in_paths() {
    let url = raw_download_url("alice", "music", "main", "夜曲 (cover).mp3");
    assert!(url.starts_with("https://raw.githubusercontent.com/alice/music/main/"));
    assert!(url.contains("%20"));
    assert!(!url.contains(' '));
    assert!(!url.contains('夜'));
}

#[test]
fn ignores_unknown_extensions_and_extensionless_blobs() {
    let entries = vec![
        entry("LICENSE", "blob", Some(10)),
        entry("songs/notes.txt", "blob", Some(10)),
        entry("songs/.gitkeep", "blob", Some(0)),
    ];
    let tracks = tree_to_tracks(&entries, "a", "b", "main", 1).expect("the clock reads after the epoch");
    assert!(tracks.is_empty());
}

#[test]
fn case_insensitive_extension_matching() {
    let entries = vec![
        entry("a.MP3", "blob", Some(1)),
        entry("b.Flac", "blob", Some(1)),
        entry("c.WAV", "blob", Some(1)),
    ];
    let tracks = tree_to_tracks(&entries, "a", "b", "main", 1).expect("the clock reads after the epoch");
    assert_eq!(tracks.len(), 3);
    assert_eq!(tracks[0].format, "mp3");
    assert_eq!(tracks[1].format, "flac");
    assert_eq!(tracks[2].format, "wav");
}

#[test]
fn percent_encoding_writes_utf8_bytes_in_upper_case_hex() {
    assert_eq!(percent_encode_segment("a b"), "a%20b");
    assert_eq!(percent_encode_segment("夜"), "%E5%A4%9C");
    assert_eq!(percent_encode_segment("A-z_0.9~"), "A-z_0.9~");
    assert_eq!(percent_encode_segment("(x)"), "(x)");
    assert_eq!(percent_encode_segment("[x]"), "%5Bx%5D");
    assert_eq!(percent_encode_segment("é"), "%C3%A9");
}

#[test]
fn raw_url_keeps_slashes_between_encoded_segments() {
    assert_eq!(
        raw_download_url("o", "r", "v1", "a dir/b c.mp3"),
        "https://raw.githubusercontent.com/o/r/v1/a%20dir/b%20c.mp3"
    );
}

#[test]
fn tracks_discovered_at_a_given_time_carry_it() {
    let now = Timestamp { seconds: 100, nanoseconds: 5 };
    let tracks = tree_to_tracks_at(&[entry("x/y.ogg", "blob", None)], "o", "r", "main", 9, now);
    assert_eq!(tracks.len(), 1);
    assert_eq!(tracks[0].discovered_at, now);
    assert_eq!(tracks[0].size, 0);
    assert_eq!(tracks[0].path, "x/y.ogg");
    assert!(!tracks[0].downloaded && !tracks[0].favorite && !tracks[0].blacklisted);
}

#[test]
fn trailing_slash_paths_have_no_file_name() {
    let tracks = tree_to_tracks(&[entry("songs/", "blob", Some(1))], "o", "r", "main", 1).expect("the clock reads after the epoch");
    assert!(tracks.is_empty());
}

#[test]
fn retryable_statuses() {
    assert!(should_retry_status(408));
    assert!(should_retry_status(429));
    assert!(should_retry_status(500));
    assert!(should_retry_status(503));
    assert!(!should_retry_status(404));
    assert!(!should_retry_status(403));
    assert!(!should_retry_status(600));
}

#[test]
fn retry_delay_doubles_from_a_quarter_second() {
    assert_eq!(retry_delay_millis(1), 250);
    assert_eq!(retry_delay_millis(2), 500);
    assert_eq!(retry_delay_millis(3), 1000);
    assert_eq!(retry_delay_millis(10), 128000);
}

#[test]
fn retries_stop_at_the_last_attempt() {
    assert_eq!(after_failed_attempt(1, AttemptFailure::Transport), RetryStep::RetryAfter(250));
    assert_eq!(after_failed_attempt(2, AttemptFailure::Body), RetryStep::RetryAfter(500));
    assert_eq!(after_failed_attempt(3, AttemptFailure::Transport), RetryStep::GiveUp);
    assert_eq!(after_failed_attempt(1, AttemptFailure::Status(503)), RetryStep::RetryAfter(250));
    assert_eq!(after_failed_attempt(3, AttemptFailure::Status(503)), RetryStep::GiveUp);
    assert_eq!(after_failed_attempt(1, AttemptFailure::Status(404)), RetryStep::GiveUp);
}

#[test]
fn forbidden_reply_is_classified_by_its_body() {
    assert!(matches!(
        forbidden_error("API rate limit exceeded for 1.2.3.4"),
        GitHubError::RateLimited { reset_at: None }
    ));
    assert!(matches!(forbidden_error("Resource not accessible"), GitHubError::Forbidden));
}

#[test]
fn status_failures_name_the_status() {
    assert_eq!(
        status_error_message("GitHub API error", 404),
        "GitHub API error: 404 Not Found"
    );
}

#[test]
fn repository_urls() {
    assert_eq!(repository_web_url("alice", "music"), "https://github.com/alice/music");
    assert_eq!(
        contents_url("alice", "music", ""),
        "https://api.github.com/repos/alice/music/contents"
    );
    assert_eq!(
        contents_url("alice", "music", "a/b"),
        "https://api.github.com/repos/alice/music/contents/a/b"
    );
}

#[test]
fn contents_walk_descends_into_directories_and_keeps_audio_files() {
    let mut scan = ContentsScan::new();
    assert_eq!(scan.next_path().as_deref(), Some(""));
    assert!(scan.next_path().is_none());
    let files = vec![
        RepoFile {
            name: "albums".to_string(),
            path: "albums".to_string(),
            kind: "dir".to_string(),
            download_url: None,
            size: None,
        },
        RepoFile {
            name: "a.mp3".to_string(),
            path: "a.mp3".to_string(),
            kind: "file".to_string(),
            download_url: Some("https://raw/a.mp3".to_string()),
            size: Some(3),
        },
        RepoFile {
            name: "b.mp3".to_string(),
            path: "b.mp3".to_string(),
            kind: "file".to_string(),
            download_url: None,
            size: Some(3),
        },
        RepoFile {
            name: "c.txt".to_string(),
            path: "c.txt".to_string(),
            kind: "file".to_string(),
            download_url: Some("https://raw/c.txt".to_string()),
            size: Some(3),
        },
    ];
    scan.absorb_contents(&files, Timestamp { seconds: 1, nanoseconds: 0 });
    assert_eq!(scan.pending, vec!["albums".to_string()]);
    assert_eq!(scan.tracks.len(), 1);
    assert_eq!(scan.tracks[0].url, "https://raw/a.mp3");
    assert_eq!(scan.tracks[0].repository_id, 0);
    assert_eq!(scan.next_path().as_deref(), Some("albums"));
}

#[test]
fn raw_urls_keep_parentheses() {
    assert_eq!(
        raw_download_url("alice", "music", "main", "夜曲 (cover).mp3"),
        "https://raw.githubusercontent.com/alice/music/main/%E5%A4%9C%E6%9B%B2%20(cover).mp3"
    );
}
