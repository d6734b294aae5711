//! Which session and which window are the player's.
use audio_tray::music::session::{
    classify, classify_with_override, is_browser_process, pick, window_is_player, Match,
};

#[test]
fn pwa_and_desktop_ids_are_certain() {
    assert_eq!(
        classify("MSEdge.music.youtube.com_/.edgeprofile.Default"),
        Match::Certain
    );
    assert_eq!(classify("Chrome.music.youtube.com__.Default"), Match::Certain);
    assert_eq!(classify("com.github.th-ch.youtube-music"), Match::Certain);
}

#[test]
fn bare_browser_is_only_a_maybe() {
    assert_eq!(classify("Chrome"), Match::Browser);
    assert_eq!(classify("MSEdge"), Match::Browser);
}

#[test]
fn another_site_in_the_same_browser_is_not_a_match() {
    // Why a browser's id is compared whole and not by its beginning.
    assert_eq!(classify("MSEdge.open.spotify.com_/.Default"), Match::No);
}

#[test]
fn unrelated_players_are_rejected() {
    assert_eq!(classify("Spotify.exe"), Match::No);
    assert_eq!(classify("Microsoft.ZuneMusic_8wekyb3d8bbwe!Microsoft.ZuneMusic"), Match::No);
}

#[test]
fn a_pinned_id_wins_and_excludes_everything_else() {
    let pinned = Some("Weird.Custom.Build");
    assert_eq!(classify_with_override("Weird.Custom.Build", pinned), Match::Certain);
    // Even a normally certain id loses to an explicit pin.
    assert_eq!(classify_with_override("music.youtube.com", pinned), Match::No);
}

/// The id of the session that is picked, by way of its place in the slice as given.
fn picked(sessions: &[(&'static str, bool)]) -> Option<&'static str> {
    pick(sessions, |s| s.0, |s| s.1).map(|index| sessions[index].0)
}

#[test]
fn playing_certain_session_beats_paused_one() {
    let sessions = [("MSEdge.music.youtube.com_/.A", false), ("Chrome.music.youtube.com_/.B", true)];
    assert_eq!(picked(&sessions), Some("Chrome.music.youtube.com_/.B"));
}

#[test]
fn paused_certain_session_still_shows() {
    let sessions = [("MSEdge.music.youtube.com_/.A", false)];
    assert!(picked(&sessions).is_some());
}

#[test]
fn a_bare_browser_session_is_never_followed() {
    let only_browser = [("MSEdge", true)];
    assert_eq!(picked(&only_browser), None);

    let with_certain = [("MSEdge", true), ("MSEdge.music.youtube.com_/.A", false)];
    assert_eq!(picked(&with_certain), Some("MSEdge.music.youtube.com_/.A"));
}

#[test]
fn a_pinned_browser_id_is_how_a_plain_tab_is_followed() {
    assert_eq!(classify_with_override("MSEdge", Some("MSEdge")), Match::Certain);
}

#[test]
fn a_browser_window_is_not_the_player() {
    assert!(window_is_player(
        Some("music.youtube.com-5929F88E_vezhnr0wkvrcy!App"),
        Some("msedge.exe")
    ));
    assert!(!window_is_player(
        Some("MSEdge.UserData.Profile1"),
        Some("msedge.exe")
    ));
}

#[test]
fn a_window_with_no_identity_falls_back_to_the_title() {
    assert!(window_is_player(None, Some("youtube-music.exe")));
}

#[test]
fn a_browser_with_no_window_identity_is_still_not_the_player() {
    assert!(!window_is_player(None, Some("msedge.exe")));
    assert!(!window_is_player(None, Some("Chrome.exe")));
    // Neither field readable: nothing says browser, so the title stands.
    assert!(window_is_player(None, None));
}

#[test]
fn the_index_addresses_the_original_slice() {
    let sessions = [
        ("Spotify.exe", true),
        ("MSEdge.open.spotify.com_/.Default", true),
        ("Chrome.music.youtube.com_/.B", true),
    ];
    assert_eq!(pick(&sessions, |s| s.0, |s| s.1), Some(2));
}

#[test]
fn every_browser_is_known_by_its_bare_id_and_its_process() {
    for name in ["chrome", "msedge", "firefox", "brave", "opera", "vivaldi"] {
        assert_eq!(classify(name), Match::Browser);
        assert_eq!(classify(&name.to_uppercase()), Match::Browser);
        assert!(is_browser_process(&format!("{name}.exe")));
        assert!(!is_browser_process(name));
    }
    assert!(!is_browser_process("youtube-music.exe"));
}

#[test]
fn ids_are_compared_without_regard_to_case() {
    assert_eq!(classify("MUSIC.YouTube.COM"), Match::Certain);
    assert_eq!(classify("YTMDesktop"), Match::Certain);
    assert_eq!(classify("YouTube Music"), Match::Certain);
    assert_eq!(classify_with_override("weird.custom.BUILD", Some("Weird.Custom.Build")), Match::Certain);
    assert_eq!(classify_with_override("MSEdge", None), Match::Browser);
}

#[test]
fn no_sessions_means_none_is_followed() {
    assert_eq!(picked(&[]), None);
}
