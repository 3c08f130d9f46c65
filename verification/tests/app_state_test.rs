use musictui2::models::{Repository, RepositorySource, Timestamp, Track};
use musictui2::tui::app::{
    pending_status, App, BlacklistEffects, Command, DecoderEvent, DownloadEvent, Key, KeyInput,
    LoadedTrack, PendingAction, PendingStage, PlayerView, QueueAction,
};
use musictui2::tui::draw::{
    footer_text, header_text, help_popup_area, help_text, track_row_cells, track_table_rows,
    track_table_title,
};
use musictui2::tui::util::{Rect, TrackListFilter};
use musictui2::tui::PlaybackMode;
use std::path::PathBuf;

fn ts() -> Timestamp {
    Timestamp { seconds: 0, nanoseconds: 0 }
}

fn track(id: i64, repository_id: i64, name: &str) -> Track {
    Track {
        id,
        repository_id,
        path: format!("albums/{name}"),
        name: name.to_string(),
        format: "mp3".to_string(),
        size: 4 * 1024 * 1024,
        duration: None,
        url: format!("https://x/{name}"),
        local_path: None,
        downloaded: false,
        discovered_at: ts(),
        favorite: false,
        blacklisted: false,
    }
}

fn repository(id: i64, name: &str) -> Repository {
    Repository {
        id,
        owner: "alice".to_string(),
        name: name.to_string(),
        url: format!("https://github.com/alice/{name}"),
        source_type: RepositorySource::GitHub,
        cache_enabled: true,
        username: None,
        password: None,
        added_at: ts(),
        last_scanned: None,
        track_count: 0,
        tree_etag: None,
    }
}

fn key(code: Key) -> KeyInput {
    KeyInput { code, control: false, alt: false }
}

fn idle() -> PlayerView {
    PlayerView { is_playing: false, is_paused: false, current_track: None }
}

fn loaded_app() -> App {
    let mut app = App::new(PlaybackMode::Sequential, 1);
    app.load_data(
        vec![repository(1, "music"), repository(2, "other")],
        vec![
            track(10, 1, "a.mp3"),
            track(11, 1, "b.mp3"),
            track(12, 2, "c.mp3"),
        ],
    );
    app
}

#[test]
fn a_fresh_app_is_ready_on_the_repositories_tab() {
    let app = App::new(PlaybackMode::Shuffle, 7);
    assert_eq!(app.selected_tab, 0);
    assert_eq!(app.status_message, "Ready");
    assert_eq!(app.playback_mode, PlaybackMode::Shuffle);
    assert!(app.tracks.is_empty());
}

#[test]
fn tabs_cycle_forward_and_back() {
    let mut app = loaded_app();
    app.handle_key_event(key(Key::Tab), idle());
    assert_eq!(app.selected_tab, 1);
    assert_eq!(app.visible_track_indices, vec![0, 1, 2]);
    assert_eq!(app.current_track_index, Some(0));
    app.handle_key_event(key(Key::Char('p')), idle());
    app.handle_key_event(key(Key::BackTab), idle());
    assert_eq!(app.selected_tab, 3);
    assert!(app.visible_track_indices.is_empty());
    assert_eq!(app.current_track_index, None);
}

#[test]
fn moving_the_selection_and_queueing() {
    let mut app = loaded_app();
    app.select_tab(1);
    app.handle_key_event(key(Key::Down), idle());
    assert_eq!(app.current_track_index, Some(1));
    let command = app.handle_key_event(key(Key::Enter), idle());
    assert_eq!(command, Command::Queue(1));
    assert_eq!(app.queue_track(1, false), QueueAction::Stream { cancel_pending: false });
    app.streaming_started(1);
    assert_eq!(app.status_message, "Buffering b.mp3");
    let pending = app.pending_playback.as_ref().unwrap();
    assert_eq!(pending.track_index, 1);
    assert_eq!(pending.stage, PendingStage::Preparing);
}

#[test]
fn searching_filters_the_rows() {
    let mut app = loaded_app();
    app.select_tab(1);
    app.handle_key_event(key(Key::Char('/')), idle());
    assert!(app.is_searching_tracks);
    assert_eq!(app.status_message, "Search tracks");
    app.handle_key_event(key(Key::Char('c')), idle());
    assert_eq!(app.visible_track_indices, vec![2]);
    assert_eq!(app.status_message, "Search tracks: c (1 matches)");
    app.handle_key_event(key(Key::Backspace), idle());
    assert_eq!(app.visible_track_indices, vec![0, 1, 2]);
    app.handle_key_event(key(Key::Char('b')), idle());
    app.handle_key_event(key(Key::Enter), idle());
    assert!(!app.is_searching_tracks);
    assert_eq!(app.track_search_query, "b");
    app.handle_key_event(key(Key::Esc), idle());
    assert_eq!(app.status_message, "Search cleared");
    assert!(app.track_search_query.is_empty());
}

#[test]
fn help_swallows_other_keys() {
    let mut app = loaded_app();
    app.handle_key_event(key(Key::Char('?')), idle());
    assert!(app.show_help);
    app.handle_key_event(key(Key::Tab), idle());
    assert_eq!(app.selected_tab, 0);
    app.handle_key_event(key(Key::Esc), idle());
    assert!(!app.show_help);
    app.handle_key_event(key(Key::Char('q')), idle());
    assert!(app.should_quit);
}

#[test]
fn favorites_and_blacklist() {
    let mut app = loaded_app();
    app.select_tab(1);
    let command = app.handle_key_event(key(Key::Char('f')), idle());
    assert_eq!(command, Command::SaveFavorite { index: 0, track_id: 10, favorite: true });
    app.favorite_saved(0, true);
    assert!(app.tracks[0].favorite);
    assert_eq!(app.status_message, "Favorited a.mp3");
    app.select_tab(2);
    assert_eq!(app.visible_track_indices, vec![0]);
    let command = app.handle_key_event(key(Key::Char('x')), idle());
    assert_eq!(command, Command::SaveBlacklisted { index: 0, track_id: 10, blacklisted: true });
    let player = PlayerView {
        is_playing: true,
        is_paused: false,
        current_track: Some(LoadedTrack { id: 10, repository_id: 1 }),
    };
    let effects = app.blacklist_saved(0, true, player);
    assert_eq!(effects, BlacklistEffects { stop_player: true, cancel_pending: false });
    assert!(app.tracks[0].blacklisted && !app.tracks[0].favorite);
    assert!(app.visible_track_indices.is_empty());
    assert_eq!(app.status_message, "Blacklisted a.mp3");
    assert_eq!(app.queue_track(0, true), QueueAction::Blocked);
    assert_eq!(app.status_message, "Restore a.mp3 before playing");
}

#[test]
fn playback_mode_key_toggles_and_reports() {
    let mut app = loaded_app();
    app.select_tab(1);
    assert_eq!(
        app.handle_key_event(key(Key::Char('m')), idle()),
        Command::SaveMode(PlaybackMode::Shuffle)
    );
    app.mode_saved(None);
    assert_eq!(app.status_message, "Playback mode: Shuffle");
    app.mode_saved(Some("disk full".to_string()));
    assert_eq!(app.status_message, "Playback mode: Shuffle (save failed: disk full)");
}

#[test]
fn space_pauses_resumes_or_plays() {
    let mut app = loaded_app();
    let playing = PlayerView { is_playing: true, is_paused: false, current_track: None };
    assert_eq!(app.handle_key_event(key(Key::Char(' ')), playing), Command::Pause);
    assert_eq!(app.status_message, "Paused");
    let paused = PlayerView { is_playing: false, is_paused: true, current_track: None };
    assert_eq!(app.handle_key_event(key(Key::Char(' ')), paused), Command::Resume);
    assert_eq!(app.status_message, "Playing");
    app.select_tab(3);
    assert_eq!(app.handle_key_event(key(Key::Char(' ')), idle()), Command::Nothing);
    assert_eq!(app.status_message, "Restore a blacklisted track before playing");
}

#[test]
fn autoplay_walks_forward_and_stops_at_the_end() {
    let mut app = loaded_app();
    app.select_tab(1);
    let on = |id| PlayerView { is_playing: true, is_paused: false, current_track: Some(LoadedTrack { id, repository_id: 1 }) };
    assert_eq!(app.track_finished(on(10), "a.mp3"), Command::Queue(1));
    assert_eq!(app.track_finished(on(12), "c.mp3"), Command::Nothing);
    assert_eq!(app.status_message, "c.mp3 finished");
    assert_eq!(app.play_next_track(on(12)), Command::Queue(0));
    assert_eq!(app.play_previous_track(on(11)), Command::Queue(0));
}

#[test]
fn deleting_a_repository_takes_two_presses() {
    let mut app = loaded_app();
    app.handle_key_event(key(Key::Down), idle());
    assert_eq!(app.current_repository_index, Some(0));
    assert_eq!(app.handle_key_event(key(Key::Char('d')), idle()), Command::Nothing);
    assert_eq!(app.status_message, "Press d again to delete alice/music and its tracks/cache");
    let command = app.handle_key_event(key(Key::Char('d')), idle());
    assert_eq!(
        command,
        Command::DeleteRepository { index: 0, repository_id: 1, cancel_pending: false, stop_player: false }
    );
    app.repository_deleted(0, 2);
    assert_eq!(app.repositories.len(), 1);
    assert_eq!(app.tracks.len(), 1);
    assert_eq!(app.tracks[0].id, 12);
    assert_eq!(app.status_message, "Deleted alice/music with 2 tracks/cache entries");
    assert_eq!(app.pending_repository_delete, None);
}

#[test]
fn pending_downloads_report_progress_and_finish() {
    let mut app = loaded_app();
    app.select_tab(1);
    app.streaming_started(2);
    assert_eq!(app.preparing_tick(DecoderEvent::Waiting, 1024 * 1024), PendingAction::Nothing);
    assert_eq!(app.status_message, "Buffering c.mp3 | Caching 25%");
    assert_eq!(app.preparing_tick(DecoderEvent::Ready, 0), PendingAction::LoadDecoder);
    app.decoder_loaded(2 * 1024 * 1024);
    assert_eq!(app.status_message, "Playing c.mp3 | Caching 50%");
    assert_eq!(app.current_track_index, Some(2));
    let action = app.caching_tick(DownloadEvent::Done(PathBuf::from("/cache/c")), 0, true);
    assert_eq!(action, PendingAction::Nothing);
    assert_eq!(app.status_message, "Playing c.mp3 | Cached");
    assert!(app.tracks[2].downloaded);
    assert_eq!(app.tracks[2].local_path, Some(PathBuf::from("/cache/c")));
    assert!(app.pending_playback.is_none());
}

#[test]
fn failed_decoders_abandon_the_download() {
    let mut app = loaded_app();
    app.streaming_started(0);
    let action = app.preparing_tick(DecoderEvent::Failed("bad header".to_string()), 0);
    assert_eq!(
        action,
        PendingAction::Abandon { error: "bad header".to_string(), abort_download: true }
    );
    assert_eq!(app.status_message, "Playback failed: bad header");
    assert!(app.pending_playback.is_none());
}

#[test]
fn pending_status_falls_back_to_megabytes() {
    assert_eq!(pending_status("Buffering", "x", 3 * 1024 * 1024, 0), "Buffering x | Caching 3MB");
    assert_eq!(pending_status("Playing", "x", 500, 100), "Playing x | Caching 100%");
}

#[test]
fn errors_and_playing_lines() {
    let mut app = loaded_app();
    app.show_error("no network");
    assert_eq!(app.status_message, "Error: no network");
    app.show_playing("b.mp3");
    assert_eq!(app.status_message, "Playing b.mp3");
}

#[test]
fn screen_text() {
    let tracks = vec![track(1, 1, "a.mp3"), track(2, 1, "b.mp3")];
    assert_eq!(
        header_text(2, TrackListFilter::Tracks, "", 2, &tracks),
        "Repositories: 2 | Tracks: 2 | Favorites: 0 | Blacklist: 0"
    );
    assert_eq!(
        header_text(2, TrackListFilter::Tracks, "b", 1, &tracks),
        "Repositories: 2 | Tracks: 1/2 | Favorites: 0 | Blacklist: 0"
    );
    assert_eq!(track_table_title(TrackListFilter::Favorites, "", false, 0, &tracks), "Favorites");
    assert_eq!(
        track_table_title(TrackListFilter::Tracks, "b", true, 1, &tracks),
        "Tracks | Search: b_ (1/2)"
    );
    let cells = track_row_cells(&tracks[0], false, true);
    assert_eq!(cells, vec!["", "a.mp3", "mp3", "4MB", "Caching"]);
    assert_eq!(track_row_cells(&tracks[1], false, false)[4], "-");
    assert!(help_text().starts_with("?: Close shortcuts"));
    assert_eq!(
        help_popup_area(Rect { x: 0, y: 0, width: 100, height: 40 }),
        Rect { x: 12, y: 11, width: 76, height: 18 }
    );
    assert_eq!(
        help_popup_area(Rect { x: 0, y: 0, width: 10, height: 2 }),
        Rect { x: 0, y: 0, width: 10, height: 2 }
    );
    assert_eq!(
        footer_text("Ready", 0, 80, "▶", "Sequential", 50, "", false),
        "Ready  ▶ │ Sequential │ 50% │ ?"
    );
    assert_eq!(
        footer_text("", 0, 80, "⏹", "Shuffle", 0, "q", true),
        "⏹ │ Shuffle │ 0% │ ? │ /q_"
    );
}

#[test]
fn table_rows_follow_the_visible_indices() {
    let mut favorite = track(2, 1, "b.mp3");
    favorite.favorite = true;
    favorite.downloaded = true;
    favorite.local_path = Some(PathBuf::from("/cache/b"));
    let tracks = vec![track(1, 1, "a.mp3"), favorite, track(3, 1, "c.mp3")];
    let rows = track_table_rows(&tracks, &[2, 7, 1], &[false, true, true], Some(1), Some(2));
    assert_eq!(rows.len(), 2);
    assert_eq!(rows[0].track_index, 2);
    assert_eq!(rows[0].cells, vec!["", "c.mp3", "mp3", "4MB", "Caching"]);
    assert!(!rows[0].highlighted);
    assert_eq!(rows[1].track_index, 1);
    assert_eq!(rows[1].cells, vec!["*", "b.mp3", "mp3", "4MB", "Cached"]);
    assert!(rows[1].highlighted);
    assert!(track_table_rows(&tracks, &[], &[], None, None).is_empty());
}
