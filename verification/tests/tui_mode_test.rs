use musictui2::tui::PlaybackMode;

#[test]
fn playback_mode_round_trips_through_str() {
    for mode in [PlaybackMode::Sequential, PlaybackMode::Shuffle] {
        let parsed: PlaybackMode = mode.as_str().parse().expect("parse known label");
        assert_eq!(parsed, mode);
    }
}

#[test]
fn playback_mode_rejects_unknown_value() {
    assert!("random".parse::<PlaybackMode>().is_err());
    assert!("".parse::<PlaybackMode>().is_err());
}

#[test]
fn playback_mode_toggle_alternates() {
    assert_eq!(PlaybackMode::Sequential.next(), PlaybackMode::Shuffle);
    assert_eq!(PlaybackMode::Shuffle.next(), PlaybackMode::Sequential);
}

#[test]
fn playback_mode_error_names_the_value() {
    assert_eq!(
        PlaybackMode::parse("random").unwrap_err(),
        "unknown playback mode: random"
    );
}

#[test]
fn playback_mode_labels() {
    assert_eq!(PlaybackMode::Sequential.label(), "Sequential");
    assert_eq!(PlaybackMode::Shuffle.label(), "Shuffle");
}
