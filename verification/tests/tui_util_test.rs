use musictui2::models::{Timestamp, Track};
use musictui2::tui::util::{
    cache_icon, display_width, favorite_icon, pinyin_search_text, filtered_track_indices, marquee_view, next_track_index, previous_track_index,
    sequential_autoplay_index, should_handle_key_event, shuffle_autoplay_index,
    track_list_filter_for_tab, track_matches_search, track_page_step_for_area, KeyEventKind, Rect,
    TrackListFilter, MARQUEE_GAP, TAB_COUNT, TAB_REPOSITORIES,
};

fn test_track(id: i64, name: &str, path: &str) -> Track {
    Track {
        id,
        repository_id: 1,
        path: path.to_string(),
        name: name.to_string(),
        format: "mp3".to_string(),
        size: 1024,
        duration: None,
        url: format!("https://example.com/{name}"),
        local_path: None,
        downloaded: false,
        discovered_at: Timestamp { seconds: 0, nanoseconds: 0 },
        favorite: false,
        blacklisted: false,
    }
}

#[test]
fn tab_count_matches_track_list_tabs_plus_repositories() {
    assert_eq!(TAB_COUNT, 4);
    assert!(track_list_filter_for_tab(TAB_REPOSITORIES).is_none());
    for tab in 1..TAB_COUNT {
        assert!(
            track_list_filter_for_tab(tab).is_some(),
            "tab {tab} should map to a track list filter"
        );
    }
    assert!(track_list_filter_for_tab(TAB_COUNT).is_none());
}

#[test]
fn track_page_step_matches_visible_table_rows() {
    assert_eq!(
        track_page_step_for_area(Rect { x: 0, y: 0, width: 80, height: 20 }),
        17
    );
    assert_eq!(
        track_page_step_for_area(Rect { x: 0, y: 0, width: 80, height: 2 }),
        1
    );
}

#[test]
fn key_event_filter_ignores_windows_key_release_events() {
    assert!(should_handle_key_event(KeyEventKind::Press));
    assert!(should_handle_key_event(KeyEventKind::Repeat));
    assert!(!should_handle_key_event(KeyEventKind::Release));
}

#[test]
fn next_track_index_pages_and_clamps() {
    assert_eq!(next_track_index(None, 10, 5), Some(0));
    assert_eq!(next_track_index(Some(2), 10, 5), Some(7));
    assert_eq!(next_track_index(Some(8), 10, 5), Some(9));
    assert_eq!(next_track_index(Some(2), 10, 0), Some(3));
    assert_eq!(next_track_index(Some(0), 0, 5), None);
}

#[test]
fn previous_track_index_pages_and_clamps() {
    assert_eq!(previous_track_index(None, 10, 5), Some(0));
    assert_eq!(previous_track_index(Some(7), 10, 5), Some(2));
    assert_eq!(previous_track_index(Some(2), 10, 5), Some(0));
    assert_eq!(previous_track_index(Some(2), 10, 0), Some(1));
    assert_eq!(previous_track_index(Some(0), 0, 5), None);
}

#[test]
fn sequential_autoplay_stops_at_end() {
    assert_eq!(sequential_autoplay_index(Some(0), 3), Some(1));
    assert_eq!(sequential_autoplay_index(Some(2), 3), None);
    assert_eq!(sequential_autoplay_index(None, 3), None);
}

#[test]
fn shuffle_autoplay_avoids_current_track_when_possible() {
    let mut seed = 1;
    for current in 0..5 {
        assert_ne!(
            shuffle_autoplay_index(Some(current), 5, &mut seed),
            Some(current)
        );
    }
    assert_eq!(shuffle_autoplay_index(Some(0), 1, &mut seed), Some(0));
    assert_eq!(shuffle_autoplay_index(Some(0), 0, &mut seed), None);
}

#[test]
fn track_search_matches_text_pinyin_and_initials() {
    let track = test_track(1, "告白气球.mp3", "albums/周杰伦/告白气球.mp3");

    assert!(track_matches_search(&track, "告白"));
    assert!(track_matches_search(&track, "gaobai"));
    assert!(track_matches_search(&track, "gbqq"));
    assert!(track_matches_search(&track, "zhoujielun"));
    assert!(track_matches_search(&track, "zjl"));
    assert!(!track_matches_search(&track, "晴天"));
}

#[test]
fn filtered_track_indices_preserve_original_track_indices() {
    let tracks = vec![
        test_track(1, "晴天.mp3", "albums/周杰伦/晴天.mp3"),
        test_track(2, "告白气球.mp3", "albums/周杰伦/告白气球.mp3"),
        test_track(3, "Blue.mp3", "albums/English/Blue.mp3"),
    ];

    assert_eq!(
        filtered_track_indices(&tracks, "zjl", TrackListFilter::Tracks),
        vec![0, 1]
    );
    assert_eq!(
        filtered_track_indices(&tracks, "gbqq", TrackListFilter::Tracks),
        vec![1]
    );
    assert_eq!(
        filtered_track_indices(&tracks, "blue", TrackListFilter::Tracks),
        vec![2]
    );
}

#[test]
fn filtered_track_indices_respect_track_list_filter() {
    let mut favorite = test_track(1, "Favorite.mp3", "favorite.mp3");
    favorite.favorite = true;
    let mut blacklisted = test_track(2, "Blocked.mp3", "blocked.mp3");
    blacklisted.favorite = true;
    blacklisted.blacklisted = true;
    let normal = test_track(3, "Normal.mp3", "normal.mp3");
    let tracks = vec![favorite, blacklisted, normal];

    assert_eq!(
        filtered_track_indices(&tracks, "", TrackListFilter::Tracks),
        vec![0, 2]
    );
    assert_eq!(
        filtered_track_indices(&tracks, "", TrackListFilter::Favorites),
        vec![0]
    );
    assert_eq!(
        filtered_track_indices(&tracks, "", TrackListFilter::Blacklist),
        vec![1]
    );
}

#[test]
fn marquee_returns_text_unchanged_when_fits() {
    assert_eq!(marquee_view("hello", 0, 10), "hello");
    assert_eq!(marquee_view("hello", 5, 10), "hello");
}

#[test]
fn marquee_scrolls_long_text_and_wraps() {
    let text = "AbCdEfGhIj";
    let first = marquee_view(text, 0, 5);
    assert_eq!(display_width(&first), 5);
    assert_eq!(first, "AbCdE");

    let second = marquee_view(text, 1, 5);
    assert_eq!(display_width(&second), 5);
    assert_eq!(second, "bCdEf");

    let wrap = marquee_view(text, text.chars().count() + MARQUEE_GAP.len(), 5);
    assert_eq!(wrap, "AbCdE");
}

#[test]
fn marquee_handles_wide_chars_without_splitting() {
    let view = marquee_view("中文歌曲名称展示", 0, 5);
    assert!(display_width(&view) <= 5);
}

#[test]
fn marquee_returns_empty_when_no_budget() {
    assert_eq!(marquee_view("anything", 0, 0), "");
}

#[test]
fn marquee_is_periodic_in_the_text_and_gap() {
    let text = "AbCdEfGhIj";
    let period = text.chars().count() + MARQUEE_GAP.len();
    for offset in 0..period {
        assert_eq!(marquee_view(text, offset, 4), marquee_view(text, offset + period, 4));
    }
}

#[test]
fn selection_moves_stay_in_range() {
    for len in 1..6usize {
        for current in 0..len {
            for step in 0..8usize {
                let next = next_track_index(Some(current), len, step).unwrap();
                let previous = previous_track_index(Some(current), len, step).unwrap();
                assert!(next < len && next >= current);
                assert!(previous <= current);
            }
        }
    }
}

#[test]
fn shuffle_never_repeats_the_current_row() {
    let mut seed = 42;
    for round in 0..50usize {
        let current = round % 7;
        let picked = shuffle_autoplay_index(Some(current), 7, &mut seed).unwrap();
        assert!(picked < 7);
        assert_ne!(picked, current);
    }
}

#[test]
fn every_track_tab_covers_a_list() {
    assert_eq!(track_list_filter_for_tab(1), Some(TrackListFilter::Tracks));
    assert_eq!(track_list_filter_for_tab(2), Some(TrackListFilter::Favorites));
    assert_eq!(track_list_filter_for_tab(3), Some(TrackListFilter::Blacklist));
}

#[test]
fn pinyin_text_spells_readings_and_keeps_other_alphanumerics() {
    assert_eq!(
        pinyin_search_text("周杰伦 Song-1"),
        ("zhoujielunsong1".to_string(), "zjlsong1".to_string())
    );
    assert_eq!(pinyin_search_text(" -_"), (String::new(), String::new()));
}

#[test]
fn icons_mark_favorites_and_cache_state() {
    let mut track = test_track(1, "a.mp3", "a.mp3");
    assert_eq!(favorite_icon(&track), "");
    assert_eq!(cache_icon(&track, false, false), "");
    assert_eq!(cache_icon(&track, false, true), "↓");
    track.favorite = true;
    track.downloaded = true;
    track.local_path = Some(std::path::PathBuf::from("/cache/a"));
    assert_eq!(favorite_icon(&track), "♥");
    assert_eq!(cache_icon(&track, true, true), "✓");
    assert_eq!(cache_icon(&track, false, false), "");
}
