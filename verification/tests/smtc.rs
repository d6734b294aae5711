//! Sessions as values, and where in a track one is.
use audio_tray::music::smtc::{
    cover_is_readable, find, now_ticks, ticks_from_unix_nanos, Brief, Fraction, MediaKind,
    PlaybackStatus, Properties, Snapshot, Timeline, MAX_COVER, UNIX_EPOCH_IN_TICKS,
};

const SECOND: i64 = 10_000_000;

fn share(f: Fraction) -> f64 {
    f.position as f64 / f.span as f64
}

/// A track of 275 seconds with a position that was published a while ago.
fn reading(position_s: i64, published_ago_s: i64, now: i64) -> Timeline {
    Timeline {
        start: 0,
        end: 275 * SECOND,
        position: position_s * SECOND,
        last_updated: now - published_ago_s * SECOND,
    }
}

#[test]
fn a_stale_position_is_carried_forward_while_playing() {
    let now = 134_304_952_968_951_060;
    let timeline = reading(100, 10, now);
    let stale = share(timeline.fraction_at(now, false).unwrap());
    let live = share(timeline.fraction_at(now, true).unwrap());
    assert!((stale - 100.0 / 275.0).abs() < 1e-6, "{stale}");
    assert!((live - 110.0 / 275.0).abs() < 1e-6, "{live}");
}

#[test]
fn a_paused_position_is_taken_as_published() {
    let now = 134_304_952_968_951_060;
    let timeline = reading(158, 30, now);
    assert_eq!(
        timeline.fraction_at(now, false),
        timeline.fraction_at(now + 60 * SECOND, false)
    );
}

#[test]
fn interpolation_stops_at_the_end_of_the_track() {
    let now = 134_304_952_968_951_060;
    let timeline = reading(270, 600, now);
    assert_eq!(timeline.fraction_at(now, true).map(share), Some(1.0));
}

#[test]
fn no_timeline_means_no_bar() {
    let empty = Timeline::default();
    assert_eq!(empty.fraction_at(now_ticks(), true), None);
    assert!(!empty.is_published());
}

#[test]
fn now_is_in_the_same_epoch_as_the_timestamps() {
    // A moment of 2026; "now" must be within a few years of it rather than in 1601 or 1970.
    let measured = 134_304_952_968_951_060;
    let now = now_ticks();
    let years = (now - measured).abs() as f64 / (SECOND as f64 * 86_400.0 * 365.0);
    assert!(years < 5.0, "now_ticks is {years} years from a real reading");
}

#[test]
fn a_moment_is_counted_in_ticks_from_1601() {
    assert_eq!(ticks_from_unix_nanos(0), UNIX_EPOCH_IN_TICKS);
    assert_eq!(ticks_from_unix_nanos(199), UNIX_EPOCH_IN_TICKS + 1);
    assert_eq!(ticks_from_unix_nanos(1_000_000_000), UNIX_EPOCH_IN_TICKS + SECOND);
    assert_eq!(ticks_from_unix_nanos(u128::MAX), i64::MAX);
}

#[test]
fn the_present_is_after_1970() {
    assert!(now_ticks() > UNIX_EPOCH_IN_TICKS);
}

#[test]
fn lengths_and_positions_count_from_the_start() {
    let t = Timeline { start: 5 * SECOND, end: 65 * SECOND, position: 15 * SECOND, last_updated: 0 };
    assert_eq!(t.duration_ticks(), Some(60 * SECOND));
    assert_eq!(t.position_ticks(), 10 * SECOND);
    assert_eq!(
        t.fraction_at(i64::MAX, true),
        Some(Fraction { position: 10 * SECOND, span: 60 * SECOND })
    );
    assert_eq!(Timeline::default().duration_ticks(), None);
    let before = Timeline { start: 10, end: 20, position: 3, last_updated: 0 };
    assert_eq!(before.position_ticks(), 0);
    assert_eq!(before.fraction_at(0, false), Some(Fraction { position: 0, span: 10 }));
    assert!(before.is_published());
}

#[test]
fn a_session_has_a_track_unless_its_title_is_blank() {
    let mut s = Snapshot::default();
    assert!(!s.has_track());
    s.title = " \t\u{3000}\n".to_string();
    assert!(!s.has_track());
    s.title = " Song ".to_string();
    assert!(s.has_track());
}

#[test]
fn a_snapshot_is_put_together_from_its_halves() {
    let brief = Brief {
        app_id: "app".to_string(),
        status: PlaybackStatus::Playing,
        kind: MediaKind::Music,
    };
    let with = Snapshot::assemble(
        brief.clone(),
        Some(Properties {
            title: "t".to_string(),
            artist: "a".to_string(),
            album: "l".to_string(),
            cover: Some(vec![1, 2]),
        }),
    );
    assert_eq!((with.app_id.as_str(), with.title.as_str()), ("app", "t"));
    assert_eq!((with.artist.as_str(), with.album.as_str()), ("a", "l"));
    assert_eq!(with.cover, Some(vec![1, 2]));
    assert!(with.status.is_playing());
    let without = Snapshot::assemble(brief, None);
    assert_eq!(without.app_id, "app");
    assert!(!without.has_track());
    assert_eq!(without.cover, None);
}

#[test]
fn covers_are_read_up_to_a_size() {
    assert!(!cover_is_readable(0));
    assert!(cover_is_readable(1));
    assert!(cover_is_readable(MAX_COVER));
    assert!(!cover_is_readable(MAX_COVER + 1));
    assert_eq!(MAX_COVER, 8 * 1024 * 1024);
}

#[test]
fn the_first_session_of_an_app_is_found() {
    let briefs: Vec<Brief> = ["a", "b", "a"]
        .iter()
        .map(|id| Brief { app_id: id.to_string(), ..Brief::default() })
        .collect();
    assert_eq!(find(&briefs, "a"), Some(0));
    assert_eq!(find(&briefs, "b"), Some(1));
    assert_eq!(find(&briefs, "A"), None);
}

#[test]
fn the_systems_numbers_are_read() {
    let statuses: Vec<PlaybackStatus> = (0..7).map(PlaybackStatus::from_winrt).collect();
    assert_eq!(
        statuses,
        vec![
            PlaybackStatus::Unknown,
            PlaybackStatus::Unknown,
            PlaybackStatus::Unknown,
            PlaybackStatus::Stopped,
            PlaybackStatus::Playing,
            PlaybackStatus::Paused,
            PlaybackStatus::Unknown,
        ]
    );
    let kinds: Vec<MediaKind> = (-1..5).map(MediaKind::from_winrt).collect();
    assert_eq!(
        kinds,
        vec![
            MediaKind::Unknown,
            MediaKind::Unknown,
            MediaKind::Music,
            MediaKind::Video,
            MediaKind::Image,
            MediaKind::Unknown,
        ]
    );
}
