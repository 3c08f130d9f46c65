use musictui2::models::{
    audio_format_of_name, is_audio_format, PlaybackState, Repository, RepositorySource, Timestamp,
    Track,
};
use std::io::Write;
use std::path::PathBuf;

fn epoch() -> Timestamp {
    Timestamp { seconds: 0, nanoseconds: 0 }
}

fn track(id: i64, name: &str, downloaded: bool, local_path: Option<PathBuf>) -> Track {
    Track {
        id,
        repository_id: 1,
        name: name.to_string(),
        path: "/path/to/track.mp3".to_string(),
        url: "https://github.com/test-owner/test-repo/raw/main/track.mp3".to_string(),
        duration: Some(std::time::Duration::from_secs(180)),
        format: "mp3".to_string(),
        size: 1024 * 1024,
        downloaded,
        local_path,
        discovered_at: epoch(),
        favorite: false,
        blacklisted: false,
    }
}

fn playable_now(track: &Track) -> bool {
    let exists = track.local_path.as_ref().is_some_and(|p| p.exists());
    track.is_playable(exists)
}

#[test]
fn test_library_compiles() {}

#[test]
fn test_repository_creation() {
    let repo = Repository {
        id: 1,
        name: "test-repo".to_string(),
        owner: "test-owner".to_string(),
        url: "https://github.com/test-owner/test-repo".to_string(),
        source_type: RepositorySource::GitHub,
        cache_enabled: true,
        username: None,
        password: None,
        added_at: epoch(),
        last_scanned: None,
        track_count: 0,
        tree_etag: None,
    };

    assert_eq!(repo.id, 1);
    assert_eq!(repo.name, "test-repo");
    assert_eq!(repo.owner, "test-owner");
    assert_eq!(repo.track_count, 0);
}

#[test]
fn test_track_creation() {
    let track = track(1, "test-track.mp3", false, None);

    assert_eq!(track.id, 1);
    assert_eq!(track.name, "test-track.mp3");
    assert_eq!(track.downloaded, false);
    assert!(track.local_path.is_none());
}

#[test]
fn test_playback_states() {
    assert!(matches!(PlaybackState::Playing, PlaybackState::Playing));
    assert!(matches!(PlaybackState::Paused, PlaybackState::Paused));
    assert!(matches!(PlaybackState::Stopped, PlaybackState::Stopped));
}

#[test]
fn test_track_is_playable() {
    let mut temp_file = tempfile::NamedTempFile::new().unwrap();
    temp_file.write_all(b"test audio content").unwrap();
    let temp_path = temp_file.path().to_path_buf();

    let track1 = track(1, "test-track.mp3", false, None);
    assert!(!playable_now(&track1));

    let track2 = track(2, "test-track-existing.mp3", true, Some(temp_path.clone()));
    assert!(playable_now(&track2));

    let track3 = track(
        3,
        "test-track-nonexistent.mp3",
        true,
        Some(PathBuf::from("/non/existent/file.mp3")),
    );
    assert!(!playable_now(&track3));

    let track4 = track(4, "test-track-no-path.mp3", true, None);
    assert!(!playable_now(&track4));

    drop(temp_file);
}

#[test]
fn test_track_playable_status() {
    let mut temp_file = tempfile::NamedTempFile::new().unwrap();
    temp_file.write_all(b"test audio content").unwrap();
    let temp_path = temp_file.path().to_path_buf();

    let mut track = Track {
        id: 1,
        repository_id: 1,
        path: "/test/track.mp3".to_string(),
        name: "test-track".to_string(),
        format: "mp3".to_string(),
        size: 1024,
        duration: Some(std::time::Duration::from_secs(180)),
        url: "https://example.com/track.mp3".to_string(),
        local_path: None,
        downloaded: false,
        discovered_at: epoch(),
        favorite: false,
        blacklisted: false,
    };

    assert!(!playable_now(&track));
    track.downloaded = true;
    assert!(!playable_now(&track));
    track.local_path = Some(temp_path.clone());
    assert!(playable_now(&track));
    track.local_path = None;
    assert!(!playable_now(&track));

    drop(temp_file);
}

#[test]
fn repository_source_round_trips_through_str() {
    for source in [RepositorySource::GitHub, RepositorySource::WebDav] {
        let parsed: RepositorySource = source.as_str().parse().unwrap();
        assert_eq!(parsed, source);
    }
    assert_eq!(RepositorySource::GitHub.as_str(), "github");
    assert_eq!(RepositorySource::WebDav.as_str(), "webdav");
}

#[test]
fn repository_source_rejects_unknown_value() {
    assert_eq!(
        "ftp".parse::<RepositorySource>().unwrap_err(),
        "Unknown repository source type: ftp"
    );
}

#[test]
fn audio_formats_are_recognised_case_insensitively() {
    for ext in ["mp3", "flac", "wav", "ogg", "m4a", "aac", "wma"] {
        assert!(is_audio_format(ext));
    }
    assert!(!is_audio_format("MP3"));
    assert!(!is_audio_format("txt"));
    assert_eq!(audio_format_of_name("Song.MP3").as_deref(), Some("mp3"));
    assert_eq!(audio_format_of_name("notes.txt"), None);
    assert_eq!(audio_format_of_name(".gitkeep"), None);
    assert_eq!(audio_format_of_name("LICENSE"), None);
}

#[test]
fn duplicate_keeps_every_field() {
    let original = track(7, "x.mp3", true, Some(PathBuf::from("/tmp/x.mp3")));
    let copy = original.duplicate();
    assert_eq!(copy.id, 7);
    assert_eq!(copy.name, "x.mp3");
    assert_eq!(copy.local_path, Some(PathBuf::from("/tmp/x.mp3")));
    assert_eq!(copy.duration, original.duration);
    assert!(copy.downloaded);
}

#[test]
fn with_local_file_marks_the_copy_on_disk() {
    let t = track(3, "y.mp3", false, None).with_local_file(PathBuf::from("/c/y"), true);
    assert_eq!(t.local_path, Some(PathBuf::from("/c/y")));
    assert!(t.downloaded);
    assert_eq!(t.name, "y.mp3");
}
