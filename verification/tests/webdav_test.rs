use musictui2::errors::WebDavError;
use musictui2::models::Timestamp;
use musictui2::webdav::{
    classify_entry, extract_xml_text, file_name_from_url, normalize_collection_url,
    parse_propfind_response, percent_decode, resolve_webdav_url, same_collection_url,
    webdav_track_path, EntryAction, WebDavEntry, WebDavScan,
};

const LISTING: &str = r#"<?xml version="1.0" encoding="utf-8"?>
<d:multistatus xmlns:d="DAV:">
  <d:response>
    <d:href>/music/</d:href>
    <d:propstat><d:prop><d:resourcetype><d:collection/></d:resourcetype></d:prop></d:propstat>
  </d:response>
  <d:response>
    <d:href>/music/Album%20One/</d:href>
    <d:propstat><d:prop><d:resourcetype><d:collection/></d:resourcetype></d:prop></d:propstat>
  </d:response>
  <d:response>
    <d:href>/music/song.mp3</d:href>
    <d:propstat><d:prop><d:getcontentlength>2048</d:getcontentlength><d:resourcetype/></d:prop></d:propstat>
  </d:response>
  <d:response>
    <d:propstat><d:prop><d:getcontentlength>1</d:getcontentlength></d:prop></d:propstat>
  </d:response>
</d:multistatus>"#;

fn now() -> Timestamp {
    Timestamp { seconds: 10, nanoseconds: 0 }
}

#[test]
fn propfind_listing_yields_one_entry_per_response_with_an_href() {
    let entries = parse_propfind_response(LISTING);
    assert_eq!(entries.len(), 3);
    assert!(entries[0].is_collection);
    assert!(entries[1].is_collection);
    assert!(!entries[2].is_collection);
    assert_eq!(entries[0].href, "/music/");
    assert_eq!(entries[1].href, "/music/Album%20One/");
    assert_eq!(entries[2].href, "/music/song.mp3");
    assert_eq!(entries[2].size, 2048);
    assert_eq!(entries[0].size, 0);
}

#[test]
fn propfind_length_is_zero_where_it_does_not_parse() {
    let xml = "<d:response><d:href>/a.mp3</d:href><d:getcontentlength>77xx</d:getcontentlength></d:response>";
    let entries = parse_propfind_response(xml);
    assert_eq!(entries.len(), 1);
    assert_eq!(entries[0].href, "/a.mp3");
    assert_eq!(entries[0].size, 0);
    let other = "<D:response><D:href>/b.flac</D:href><D:getcontentlength>5</D:getcontentlength></D:response>";
    assert!(parse_propfind_response(other).is_empty());
}

#[test]
fn element_text_lies_between_the_opening_and_closing_tags() {
    assert_eq!(
        extract_xml_text("<d:href>/a/b/</d:href>", "href").as_deref(),
        Some("/a/b/")
    );
    assert_eq!(
        extract_xml_text("<d:getcontentlength> 42 </d:getcontentlength>", "getcontentlength").as_deref(),
        Some("42")
    );
    assert_eq!(
        extract_xml_text("<lp1:href>/é/ü</lp1:href>", "href").as_deref(),
        Some("/é/ü")
    );
    assert_eq!(extract_xml_text("<d:size>1</d:size>", "href"), None);
    assert_eq!(extract_xml_text("<d:href>unclosed", "href"), None);
    assert_eq!(extract_xml_text("<d:href>no open tag:href>", "href"), None);
}

#[test]
fn collection_urls_are_trimmed_and_end_in_a_slash() {
    assert_eq!(normalize_collection_url(" https://nas/music "), "https://nas/music/");
    assert_eq!(normalize_collection_url("https://nas/music/"), "https://nas/music/");
    assert!(same_collection_url("https://nas/music", "https://nas/music/"));
    assert!(!same_collection_url("https://nas/music", "https://nas/other/"));
}

#[test]
fn only_encoded_spaces_are_decoded() {
    assert_eq!(percent_decode("My%20Song%2Bmix"), "My Song%2Bmix");
    assert_eq!(percent_decode("%20%20"), "  ");
    assert_eq!(percent_decode("plain"), "plain");
}

#[test]
fn hrefs_resolve_against_the_base_url() {
    assert_eq!(
        resolve_webdav_url("https://nas/music/", "/music/song.mp3").unwrap(),
        "https://nas/music/song.mp3"
    );
    assert_eq!(
        resolve_webdav_url("https://nas/music/", "sub/").unwrap(),
        "https://nas/music/sub/"
    );
    assert!(matches!(
        resolve_webdav_url("not a url", "x"),
        Err(WebDavError::UrlParse(_))
    ));
}

#[test]
fn file_names_come_from_the_last_path_segment() {
    assert_eq!(
        file_name_from_url("https://nas/music/My%20Song.mp3").as_deref(),
        Some("My Song.mp3")
    );
    assert_eq!(file_name_from_url("https://nas/music/").as_deref(), Some("music"));
    assert_eq!(file_name_from_url("nonsense"), None);
}

#[test]
fn track_paths_are_relative_to_the_root() {
    assert_eq!(
        webdav_track_path("https://nas/music/", "https://nas/music/Album%20One/a.mp3"),
        "Album One/a.mp3"
    );
    assert_eq!(
        webdav_track_path("https://nas/music/", "https://other/x/b.mp3"),
        "b.mp3"
    );
}

#[test]
fn entries_are_classified_against_the_listed_collection() {
    let root = "https://nas/music/";
    let this = WebDavEntry { href: "/music/".to_string(), is_collection: true, size: 0 };
    assert!(matches!(
        classify_entry(root, root, &this, 1, now()).unwrap(),
        EntryAction::Skip
    ));
    let sub = WebDavEntry { href: "/music/sub".to_string(), is_collection: true, size: 0 };
    match classify_entry(root, root, &sub, 1, now()).unwrap() {
        EntryAction::Descend(url) => assert_eq!(url, "https://nas/music/sub/"),
        _ => panic!("expected a sub-collection"),
    }
    let song = WebDavEntry { href: "/music/a%20b.FLAC".to_string(), is_collection: false, size: 9 };
    match classify_entry(root, root, &song, 4, now()).unwrap() {
        EntryAction::AddTrack(t) => {
            assert_eq!(t.name, "a b.FLAC");
            assert_eq!(t.format, "flac");
            assert_eq!(t.path, "a b.FLAC");
            assert_eq!(t.size, 9);
            assert_eq!(t.repository_id, 4);
            assert_eq!(t.url, "https://nas/music/a%20b.FLAC");
        }
        _ => panic!("expected a track"),
    }
    let text = WebDavEntry { href: "/music/notes.txt".to_string(), is_collection: false, size: 9 };
    assert!(matches!(
        classify_entry(root, root, &text, 4, now()).unwrap(),
        EntryAction::Skip
    ));
}

#[test]
fn a_scan_walks_sub_collections_and_collects_tracks() {
    let root = "https://nas/music/";
    let mut scan = WebDavScan::new(root);
    let first = scan.next_collection().unwrap();
    assert_eq!(first, root);
    let entries = vec![
        WebDavEntry { href: "/music/".to_string(), is_collection: true, size: 0 },
        WebDavEntry { href: "/music/Album%20One/".to_string(), is_collection: true, size: 0 },
        WebDavEntry { href: "/music/song.mp3".to_string(), is_collection: false, size: 2048 },
    ];
    scan.absorb_listing(root, 3, &first, &entries, now()).unwrap();
    assert_eq!(scan.pending, vec!["https://nas/music/Album%20One/".to_string()]);
    assert_eq!(scan.tracks.len(), 1);
    assert_eq!(scan.tracks[0].name, "song.mp3");
    assert_eq!(scan.tracks[0].size, 2048);
    assert_eq!(scan.next_collection().as_deref(), Some("https://nas/music/Album%20One/"));
    assert!(scan.next_collection().is_none());
}

#[test]
fn a_scan_fails_on_an_unresolvable_root() {
    let mut scan = WebDavScan::new("no scheme");
    let entries = vec![WebDavEntry { href: "/x.mp3".to_string(), is_collection: false, size: 1 }];
    assert!(scan.absorb_listing("no scheme", 1, "no scheme", &entries, now()).is_err());
}

#[test]
fn normalizing_a_collection_url_twice_changes_nothing() {
    for url in ["  https://nas/music ", "https://nas/music/", "", "\t/", "https://nas/a b"] {
        let once = normalize_collection_url(url);
        assert_eq!(normalize_collection_url(&once), once);
        assert!(same_collection_url(url, &once));
    }
    assert_eq!(normalize_collection_url(""), "/");
    assert_eq!(normalize_collection_url("\u{a0}https://nas/x\u{2003}"), "https://nas/x/");
}

#[test]
fn a_parsed_listing_drives_the_scan() {
    let root = "https://nas/music/";
    let mut scan = WebDavScan::new(root);
    let first = scan.next_collection().unwrap();
    let entries = parse_propfind_response(LISTING);
    scan.absorb_listing(root, 3, &first, &entries, now()).unwrap();
    assert_eq!(scan.pending, vec!["https://nas/music/Album%20One/".to_string()]);
    assert_eq!(scan.tracks.len(), 1);
    assert_eq!(scan.tracks[0].name, "song.mp3");
    assert_eq!(scan.tracks[0].format, "mp3");
    assert_eq!(scan.tracks[0].size, 2048);
}
