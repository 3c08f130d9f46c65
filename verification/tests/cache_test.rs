use musictui2::cache::{
    cache_file_name, checked_seek_position, readable_len, age_order_of, CacheManager, EntryProbe,
    StreamSource, StreamingCacheState, WaitStep, DEFAULT_MAX_CACHE_SIZE,
};
use std::path::PathBuf;

fn manager() -> CacheManager {
    CacheManager::from_dir(PathBuf::from("/cache"))
}

const COMPLETE: EntryProbe = EntryProbe { file_exists: true, marker_exists: false };
const PARTIAL: EntryProbe = EntryProbe { file_exists: true, marker_exists: true };
const ABSENT: EntryProbe = EntryProbe { file_exists: false, marker_exists: false };

#[test]
fn entries_are_named_by_the_sha256_of_their_key() {
    assert_eq!(
        cache_file_name(""),
        "e3b0c44298fc1c149afbf4c8996fb92427ae41e4649b934ca495991b7852b855"
    );
    assert_eq!(
        cache_file_name("abc"),
        "ba7816bf8f01cfea414140de5dae2223b00361a396177a9cb410ff61f20015ad"
    );
}

#[test]
fn entry_names_are_hex_and_never_markers() {
    let cache = manager();
    let a = cache_file_name("https://x/a.mp3");
    let b = cache_file_name("https://x/b.mp3");
    assert_ne!(a, b);
    assert_eq!(a.len(), 64);
    assert!(a.chars().all(|c| c.is_ascii_digit() || ('a'..='f').contains(&c)));
    assert_ne!(
        cache.path_for_key("https://x/a.mp3"),
        cache.incomplete_marker_path_for_key("https://x/b.mp3")
    );
    assert_eq!(
        cache.incomplete_marker_path_for_key("https://x/a.mp3"),
        PathBuf::from("/cache").join(format!("{a}.part"))
    );
}

#[test]
fn entry_and_marker_paths_live_in_the_cache_directory() {
    let cache = manager();
    let name = cache_file_name("https://x/song.mp3");
    assert_eq!(cache.path_for_key("https://x/song.mp3"), PathBuf::from("/cache").join(&name));
    assert_eq!(
        cache.incomplete_marker_path_for_key("https://x/song.mp3"),
        PathBuf::from("/cache").join(format!("{name}.part"))
    );
    assert_eq!(cache.get_cache_dir(), &PathBuf::from("/cache"));
    assert_eq!(cache.get_cache_dir_path(), &PathBuf::from("/cache"));
}

#[test]
fn only_complete_entries_are_served() {
    let cache = manager();
    assert_eq!(cache.get("k", COMPLETE), Some(cache.path_for_key("k")));
    assert_eq!(cache.get("k", PARTIAL), None);
    assert_eq!(cache.get("k", ABSENT), None);
    assert!(cache.entry_exists(COMPLETE));
    assert!(!cache.entry_exists(PARTIAL));
    assert!(!cache.entry_exists(ABSENT));
}

#[test]
fn removal_deletes_what_exists() {
    let cache = manager();
    assert_eq!(
        cache.remove("k", PARTIAL),
        vec![cache.path_for_key("k"), cache.incomplete_marker_path_for_key("k")]
    );
    assert!(cache.remove("k", ABSENT).is_empty());
}

#[test]
fn max_size_defaults_to_one_gibibyte_and_can_change() {
    let mut cache = manager();
    assert_eq!(cache.get_max_size(), DEFAULT_MAX_CACHE_SIZE);
    assert_eq!(DEFAULT_MAX_CACHE_SIZE, 1024 * 1024 * 1024);
    cache.set_max_size(1024);
    assert_eq!(cache.get_max_size(), 1024);
}

#[test]
fn cache_info_sums_the_files() {
    let cache = manager();
    let info = cache.get_cache_info(&[10, 20, 30]);
    assert_eq!(info.total_size, 60);
    assert_eq!(info.file_count, 3);
    assert_eq!(info.max_size, DEFAULT_MAX_CACHE_SIZE);
}

#[test]
fn age_order_is_a_stable_sort_newest_first() {
    assert_eq!(age_order_of(&[30, 10, 20, 10]), vec![0, 2, 1, 3]);
    assert!(age_order_of(&[]).is_empty());
}

#[test]
fn cleanup_keeps_the_newest_files_within_the_limit() {
    let mut cache = manager();
    cache.set_max_size(1024);
    let sizes = vec![200u64; 10];
    let modified: Vec<u64> = (0..10).collect();
    let plan = cache.cleanup(&sizes, &modified);
    assert_eq!(plan.evicted, vec![4, 3, 2, 1, 0]);
    assert_eq!(plan.removed_size, 1000);
    let total: u64 = sizes.iter().sum();
    assert!(total - plan.removed_size <= cache.get_max_size());
}

#[test]
fn cleanup_evicts_the_least_recently_modified_files() {
    let mut cache = manager();
    cache.set_max_size(100);
    // Visited newest first: 40, 50, 10 fill the limit exactly; 90 is evicted.
    let plan = cache.cleanup(&[90, 10, 50, 40], &[1, 2, 3, 4]);
    assert_eq!(plan.evicted, vec![0]);
    assert_eq!(plan.removed_size, 90);
    // 40 and 51 stay; the older 10 no longer fits, so it and 90 go.
    let plan = cache.cleanup(&[90, 10, 51, 40], &[1, 2, 3, 4]);
    assert_eq!(plan.evicted, vec![1, 0]);
    assert_eq!(plan.removed_size, 100);
    // A large new file is kept over older small ones.
    let plan = cache.cleanup(&[10, 10, 95], &[1, 2, 3]);
    assert_eq!(plan.evicted, vec![1, 0]);
    assert_eq!(plan.removed_size, 20);
}

#[test]
fn streaming_progress_transitions() {
    let mut state = StreamingCacheState::new();
    assert_eq!(state.downloaded_bytes(), 0);
    assert!(!state.is_complete());
    assert_eq!(state.wait_for_bytes(10), WaitStep::Pending);
    state.mark_progress(10);
    assert_eq!(state.wait_for_bytes(10), WaitStep::Done(()));
    assert_eq!(state.wait_for_readable_position(4), WaitStep::Done(Some(10)));
    assert_eq!(state.wait_for_readable_position(10), WaitStep::Pending);
    assert_eq!(state.wait_until_complete(), WaitStep::Pending);
    state.mark_complete(12);
    assert!(state.is_complete());
    assert_eq!(state.wait_until_complete(), WaitStep::Done(12));
    assert_eq!(state.wait_for_readable_position(12), WaitStep::Done(None));
    assert_eq!(state.wait_for_bytes(1000), WaitStep::Done(()));
    state.mark_error("Playback cancelled".to_string());
    assert_eq!(
        state.wait_for_bytes(1),
        WaitStep::Failed("Playback cancelled".to_string())
    );
    state.reset();
    assert_eq!(state.downloaded_bytes(), 0);
    assert!(!state.is_complete());
    assert!(state.error.is_none());
}

#[test]
fn seeks_stay_within_u64() {
    assert_eq!(checked_seek_position(10, 5).unwrap(), 15);
    assert_eq!(checked_seek_position(10, -10).unwrap(), 0);
    assert!(checked_seek_position(10, -11).is_err());
    assert!(checked_seek_position(u64::MAX, 1).is_err());
    assert_eq!(checked_seek_position(u64::MAX, i64::MIN).unwrap(), u64::MAX - (1u64 << 63));
}

#[test]
fn reads_take_what_is_on_disk_up_to_the_buffer() {
    assert_eq!(readable_len(100, 40, 1000), 60);
    assert_eq!(readable_len(100, 40, 8), 8);
}

#[test]
fn stream_source_prefers_complete_cache_entries() {
    let cache = manager();
    assert!(matches!(
        cache.stream_source("k", true, COMPLETE),
        StreamSource::Cached(p) if p == cache.path_for_key("k")
    ));
    assert!(matches!(
        cache.stream_source("k", true, PARTIAL),
        StreamSource::IntoCache { .. }
    ));
    assert!(matches!(
        cache.stream_source("k", false, COMPLETE),
        StreamSource::IntoTemporaryFile
    ));
}
