use musictui2::cli::{
    check_favorite_allowed, github_repository, inline_password_after_store, keep_blacklisted,
    keep_favorites, keep_listed, parse_repository_url, track_status_text, repository_lookup, webdav_password_for,
    webdav_repository, RepositoryLookup,
};
use musictui2::credentials::{store_webdav_password, InMemoryStore};
use musictui2::models::{RepositorySource, Timestamp, Track};

fn now() -> Timestamp {
    Timestamp { seconds: 3, nanoseconds: 0 }
}

fn track(id: i64, favorite: bool, blacklisted: bool) -> Track {
    Track {
        id,
        repository_id: 1,
        path: format!("t{id}.mp3"),
        name: format!("t{id}.mp3"),
        format: "mp3".to_string(),
        size: 1,
        duration: None,
        url: format!("https://x/t{id}.mp3"),
        local_path: None,
        downloaded: false,
        discovered_at: now(),
        favorite,
        blacklisted,
    }
}

#[test]
fn repository_identifiers_parse_from_urls_and_pairs() {
    let expected = ("alice".to_string(), "music".to_string());
    assert_eq!(parse_repository_url("alice/music").unwrap(), expected);
    assert_eq!(parse_repository_url("https://github.com/alice/music/").unwrap(), expected);
    assert_eq!(parse_repository_url("  http://github.com/alice/music  ").unwrap(), expected);
    assert_eq!(parse_repository_url("github.com/alice/music/tree/main").unwrap(), expected);
    assert_eq!(
        parse_repository_url("alice").unwrap_err(),
        "Invalid repository URL format. Expected owner/repo or GitHub URL"
    );
    assert!(parse_repository_url("alice/").is_err());
    assert!(parse_repository_url("/music").is_err());
    assert!(parse_repository_url("").is_err());
}

#[test]
fn identifiers_that_read_as_integers_are_ids() {
    assert_eq!(repository_lookup("42"), RepositoryLookup::ById(42));
    assert_eq!(repository_lookup("-7"), RepositoryLookup::ById(-7));
    assert_eq!(repository_lookup("+7"), RepositoryLookup::ById(7));
    assert_eq!(
        repository_lookup("-9223372036854775808"),
        RepositoryLookup::ById(i64::MIN)
    );
    assert_eq!(repository_lookup("9223372036854775808"), RepositoryLookup::ByWebDavName);
    assert_eq!(repository_lookup("home-nas"), RepositoryLookup::ByWebDavName);
    assert_eq!(repository_lookup("-"), RepositoryLookup::ByWebDavName);
    assert_eq!(repository_lookup("+-1"), RepositoryLookup::ByWebDavName);
}

#[test]
fn added_repositories() {
    let repo = github_repository("alice", "music", now());
    assert_eq!(repo.url, "https://github.com/alice/music");
    assert_eq!(repo.source_type, RepositorySource::GitHub);
    assert!(repo.cache_enabled);
    let nas = webdav_repository("nas", " https://nas/music ", Some("u".to_string()), None, false, now());
    assert_eq!(nas.owner, "webdav");
    assert_eq!(nas.url, "https://nas/music/");
    assert_eq!(nas.source_type, RepositorySource::WebDav);
    assert!(!nas.cache_enabled);
}

#[test]
fn webdav_passwords_go_to_the_store_when_it_accepts_them() {
    let mut store = InMemoryStore::new();
    assert_eq!(inline_password_after_store("nas", None, &mut store), None);
    assert_eq!(inline_password_after_store("nas", Some("pw"), &mut store), None);
    let repo = webdav_repository("nas", "https://nas/", None, None, true, now());
    assert_eq!(webdav_password_for(&repo, &store).as_deref(), Some("pw"));
}

#[test]
fn inline_webdav_password_is_the_fallback() {
    let store = InMemoryStore::new();
    let repo = webdav_repository("nas", "https://nas/", None, Some("legacy".to_string()), true, now());
    assert_eq!(webdav_password_for(&repo, &store).as_deref(), Some("legacy"));
    let mut store = InMemoryStore::new();
    store_webdav_password("nas", "stored", &mut store).unwrap();
    assert_eq!(webdav_password_for(&repo, &store).as_deref(), Some("stored"));
}

#[test]
fn blacklisted_tracks_cannot_be_favorited() {
    assert_eq!(
        check_favorite_allowed(&track(1, false, true), true).unwrap_err(),
        "Blacklisted tracks cannot be favorited. Unblock the track first."
    );
    assert!(check_favorite_allowed(&track(1, false, true), false).is_ok());
    assert!(check_favorite_allowed(&track(1, false, false), true).is_ok());
}

#[test]
fn favorite_and_blacklist_filters() {
    let tracks = vec![track(1, true, false), track(2, true, true), track(3, false, false), track(4, false, true)];
    let ids: Vec<i64> = keep_favorites(tracks).iter().map(|t| t.id).collect();
    assert_eq!(ids, vec![1]);
    let tracks = vec![track(1, true, false), track(2, true, true), track(3, false, false), track(4, false, true)];
    let ids: Vec<i64> = keep_blacklisted(tracks).iter().map(|t| t.id).collect();
    assert_eq!(ids, vec![2, 4]);
}

#[test]
fn default_listing_hides_blacklisted_tracks() {
    let tracks = vec![track(1, true, false), track(2, false, true), track(3, false, false)];
    let ids: Vec<i64> = keep_listed(tracks).iter().map(|t| t.id).collect();
    assert_eq!(ids, vec![1, 3]);
}

#[test]
fn track_status_lists_download_state_and_marks() {
    assert_eq!(track_status_text(&track(1, false, false)), "Not downloaded");
    let mut t = track(2, true, true);
    t.downloaded = true;
    assert_eq!(track_status_text(&t), "Downloaded, Favorite, Blacklisted");
}

#[test]
fn owner_and_name_read_back_from_both_forms() {
    for (owner, name) in [("a", "b"), ("some-org", "Song Book"), ("https:", "x"), ("github.co", "m")] {
        let expected = (owner.to_string(), name.to_string());
        assert_eq!(parse_repository_url(&format!("{owner}/{name}")).unwrap(), expected);
        assert_eq!(
            parse_repository_url(&format!("https://github.com/{owner}/{name}")).unwrap(),
            expected
        );
    }
    assert!(parse_repository_url("github.com/music").is_err());
}
