//! Following the player: the feed, what is published of it, its progress bar and its buttons.
use audio_tray::music::feed::{State, Ytm};
use audio_tray::music::player::{
    activate_player, describe_window, is_player_window, is_surveyed, launch_accepted, packaged,
    process_name, remember_player, remembered_player, titled_window_is_player,
    titled_window_is_surveyed, Raise, Route, Rung, WindowInfo,
};
use audio_tray::music::progress::{bar_state, step_of, Bar, Posting, Progress};
use audio_tray::music::publish::{fingerprint, sanitise, CoverStep, Publisher};
use audio_tray::music::report::report_sessions;
use audio_tray::music::smtc::{Brief, Command, Fraction, MediaKind, PlaybackStatus, Reading, Snapshot, Timeline};
use audio_tray::music::thumbbar::{
    buttons, command_of, tooltip, Install, ThumbBar, Toolbar, PAUSE, PLAY, TIP_LEN,
};
use audio_tray::music::{raises_player, serve, show, Music, Sent, Serve, Wake};

const PWA: &str = "music.youtube.com-5929F88E_vezhnr0wkvrcy!App";

fn brief(app_id: &str, playing: bool) -> Brief {
    Brief {
        app_id: app_id.to_string(),
        status: if playing { PlaybackStatus::Playing } else { PlaybackStatus::Paused },
        kind: MediaKind::Music,
    }
}

fn track(title: &str, cover: Option<Vec<u8>>) -> Snapshot {
    Snapshot {
        app_id: PWA.to_string(),
        title: title.to_string(),
        artist: "Someone".to_string(),
        album: "Something".to_string(),
        status: PlaybackStatus::Playing,
        kind: MediaKind::Music,
        cover,
    }
}

fn reading(title: &str) -> Reading {
    Reading {
        snapshot: track(title, None),
        timeline: Some(Timeline { start: 0, end: 100, position: 40, last_updated: 7 }),
    }
}

#[test]
fn an_unpinned_feed_follows_the_player_and_nothing_else() {
    let feed = Ytm::new(None);
    let briefs = [brief("MSEdge", true), brief(PWA, false), brief("Chrome.music.youtube.com_/.B", true)];
    assert_eq!(feed.choose_session(&briefs), Some(2));
    assert_eq!(feed.choose_session(&briefs[..2]), Some(1));
    assert_eq!(feed.choose_session(&briefs[..1]), None);
}

#[test]
fn a_pinned_feed_follows_that_session_or_none() {
    let feed = Ytm::new(Some("msedge".to_string()));
    let briefs = [brief(PWA, true), brief("MSEdge", false)];
    assert_eq!(feed.choose_session(&briefs), Some(1));
    assert_eq!(feed.choose_session(&briefs[..1]), None);
}

#[test]
fn a_command_goes_to_the_session_that_was_read() {
    let mut feed = Ytm::new(None);
    assert_eq!(feed.send(Command::Next), None);
    let (state, timeline) = feed.read(Some(reading("Song")));
    assert_eq!(state.snapshot().map(|s| s.title.as_str()), Some("Song"));
    assert!(state.is_playing());
    assert_eq!(timeline.map(|t| t.position), Some(40));
    assert_eq!(feed.send(Command::Next), Some((PWA, Command::Next)));
    assert_eq!(feed.current_app_id(), Some(PWA));
    let (state, timeline) = feed.read(None);
    assert_eq!((state, timeline), (State::Absent, None));
    assert_eq!(feed.current_app_id(), None);
}

#[test]
fn a_track_change_shows_nothing_but_keeps_the_buttons_live() {
    let mut feed = Ytm::new(None);
    let (state, timeline) = feed.read(Some(reading("  ")));
    assert_eq!(state, State::default());
    assert!(!state.is_playing());
    assert!(timeline.is_some());
    assert_eq!(feed.send(Command::TogglePlayPause), Some((PWA, Command::TogglePlayPause)));
}

#[test]
fn a_poll_takes_everything_over_at_once() {
    let mut music = Music::new(None);
    let poll = music.poll(Some(reading("Song")));
    assert!(poll.playing);
    assert_eq!(poll.app_id.as_deref(), Some(PWA));
    assert!(matches!(poll.state, State::Track(_)));
    let gone = music.poll(None);
    assert!(!gone.playing && gone.app_id.is_none() && gone.timeline.is_none());
}

#[test]
fn what_was_put_up_is_taken_back() {
    let mut music = Music::new(Some("x".to_string()));
    let state = State::Track(track("Song", Some(vec![1])));
    assert!(matches!(music.publisher.stage_cover(&state), CoverStep::Write { .. }));
    music.publisher.cover_staged(&state, Some("C:\\cover.png".to_string()));
    music.toolbar.update(false, Some(5));
    music.toolbar.list_ready();
    music.toolbar.applied(true);
    assert!(music.progress.update(Some(3), true).is_some());
    music.taskbar_restarted();
    assert_eq!((music.toolbar.bar, music.toolbar.window), (None, Some(5)));
    assert_eq!(music.progress.last, None);
    music.toolbar.list_ready();
    let back = music.shut_down();
    assert_eq!(back.cover.as_deref(), Some("C:\\cover.png"));
    assert_eq!(back.bar, Some(ThumbBar::new()));
    assert!(music.shut_down().cover.is_none());
}

#[test]
fn the_music_thread_knows_what_it_woke_up_for() {
    assert_eq!(serve(Wake::Command), Serve::Command);
    assert_eq!(serve(Wake::Timeout), Serve::Poll);
    assert_eq!(serve(Wake::ShutDown), Serve::Stop);
    assert_eq!(serve(Wake::Disconnected), Serve::Stop);
    assert!(raises_player(Sent::Refused));
    assert!(!raises_player(Sent::Accepted));
    assert!(!raises_player(Sent::Failed));
    assert_eq!(show(" \t"), "<empty>");
    assert_eq!(show(" a "), " a ");
}

#[test]
fn one_poll_follows_every_command() {
    let mut music = Music::new(None);
    let after = music.after_command(Sent::Refused);
    assert!(after.raise);
    assert_eq!(after.app_id, None);
    assert_eq!(after.next, Serve::Poll);
    music.poll(Some(reading("Song")));
    for sent in [Sent::Accepted, Sent::Refused, Sent::Failed] {
        let after = music.after_command(sent);
        assert_eq!(after.raise, sent == Sent::Refused);
        assert_eq!(after.app_id.as_deref(), music.feed.current_app_id());
        assert!(after.app_id.is_some());
        assert_eq!(after.next, Serve::Poll);
    }
}

#[test]
fn a_position_comes_to_the_nearest_step_of_the_bar() {
    let step = |position, span| step_of(Fraction { position, span });
    assert_eq!(step(0, 275), 0);
    assert_eq!(step(275, 275), 200);
    assert_eq!(step(110, 275), 80);
    assert_eq!(step(1, 400), 1);
    assert_eq!(step(99, 40_000), 0);
    assert_eq!(step(100, 40_000), 1);
    assert_eq!(step(i64::MAX, i64::MAX), 200);
    assert_eq!(step(i64::MAX / 2, i64::MAX), 100);
}

#[test]
fn a_state_without_a_track_names_no_cover() {
    let mut publisher = Publisher::new();
    let shown = State::Track(track("Song", Some(vec![1, 2, 3])));
    assert!(matches!(publisher.stage_cover(&shown), CoverStep::Write { .. }));
    publisher.cover_staged(&shown, Some("C:/cover.png".to_string()));
    let body = publisher.publish(&shown).unwrap();
    assert!(body.ends_with("cover=C:/cover.png\n"));
    publisher.published(body);
    assert!(matches!(publisher.stage_cover(&State::Absent), CoverStep::Drop { .. }));
    publisher.cover_staged(&State::Absent, None);
    let body = publisher.publish(&State::Absent).unwrap();
    assert_eq!(body, "title=\nartist=\nstatus=stopped\ncover=\n");
    publisher.published(body);
    assert!(matches!(publisher.stage_cover(&State::Absent), CoverStep::Keep));
    assert_eq!(publisher.publish(&State::Absent), None);
}

#[test]
fn a_text_is_published_as_one_line() {
    assert_eq!(sanitise(" a\r\nb\n"), "a  b");
    assert_eq!(sanitise("\u{3000}x\u{3000}"), "x");
    assert_eq!(fingerprint(&[1, 2, 255]), (3, 258));
    assert_eq!(fingerprint(&[]), (0, 0));
}

#[test]
fn a_state_is_written_once() {
    let mut publisher = Publisher::new();
    let state = State::Track(track("Tit\nle", None));
    let body = publisher.publish(&state).unwrap();
    assert_eq!(body, "title=Tit le\nartist=Someone\nstatus=playing\ncover=\n");
    assert!(publisher.publish(&state).is_some());
    publisher.published(body);
    assert_eq!(publisher.publish(&state), None);
    assert_eq!(
        publisher.publish(&State::Absent).as_deref(),
        Some("title=\nartist=\nstatus=stopped\ncover=\n")
    );
    let mut paused = track("T", None);
    paused.status = PlaybackStatus::Paused;
    assert_eq!(
        publisher.publish(&State::Track(paused)).as_deref(),
        Some("title=T\nartist=Someone\nstatus=paused\ncover=\n")
    );
}

#[test]
fn a_cover_is_written_under_a_new_name_only_when_its_content_changes() {
    let mut publisher = Publisher::new();
    let first = State::Track(track("A", Some(vec![1, 2])));
    match publisher.stage_cover(&first) {
        CoverStep::Write { name, previous } => {
            assert_eq!(name, "audio-tray-cover-1.png");
            assert_eq!(previous, None);
        }
        other => panic!("{other:?}"),
    }
    publisher.cover_staged(&first, Some("/tmp/1".to_string()));
    let same_art = State::Track(track("B", Some(vec![1, 2])));
    assert!(matches!(publisher.stage_cover(&same_art), CoverStep::Keep));
    assert!(publisher.publish(&same_art).unwrap().ends_with("cover=/tmp/1\n"));
    let other_art = State::Track(track("B", Some(vec![9])));
    match publisher.stage_cover(&other_art) {
        CoverStep::Write { name, previous } => {
            assert_eq!(name, "audio-tray-cover-2.png");
            assert_eq!(previous.as_deref(), Some("/tmp/1"));
        }
        other => panic!("{other:?}"),
    }
    // The write failed: at the next poll it is tried again, under yet another name.
    match publisher.stage_cover(&other_art) {
        CoverStep::Write { name, previous } => {
            assert_eq!(name, "audio-tray-cover-3.png");
            assert_eq!(previous, None);
        }
        other => panic!("{other:?}"),
    }
    publisher.cover_staged(&other_art, Some("/tmp/3".to_string()));
    match publisher.stage_cover(&State::Absent) {
        CoverStep::Drop { previous } => assert_eq!(previous.as_deref(), Some("/tmp/3")),
        other => panic!("{other:?}"),
    }
    publisher.cover_staged(&State::Absent, None);
    assert!(matches!(publisher.stage_cover(&State::Absent), CoverStep::Keep));
    assert_eq!(publisher.clear(), None);
}

#[test]
fn a_value_of_the_bar_is_handed_on_once() {
    let mut progress = Progress::new();
    assert_eq!(progress.update(None, false), None);
    assert_eq!(
        progress.update(Some(80), true),
        Some(Posting { step: Some(80), playing: true, announce: true })
    );
    assert_eq!(progress.update(Some(80), true), None);
    assert_eq!(
        progress.update(Some(81), true),
        Some(Posting { step: Some(81), playing: true, announce: false })
    );
    assert_eq!(
        progress.update(Some(81), false),
        Some(Posting { step: Some(81), playing: false, announce: true })
    );
    progress.taskbar_restarted();
    assert!(progress.update(Some(81), false).is_some());
    assert_eq!(
        progress.update(None, false),
        Some(Posting { step: None, playing: false, announce: false })
    );
    assert_eq!(bar_state(false, true), Bar::Cleared);
    assert_eq!(bar_state(true, true), Bar::Running);
    assert_eq!(bar_state(true, false), Bar::Paused);
}

#[test]
fn the_buttons_offer_what_is_not_being_done() {
    let playing = buttons(true, true);
    let tips: Vec<&str> = playing.iter().map(|b| b.tip).collect();
    assert_eq!(tips, vec!["Previous", "Pause", "Next"]);
    assert_eq!(playing.iter().map(|b| b.id).collect::<Vec<_>>(), vec![10, 11, 12]);
    assert_eq!(playing[1].glyph, PAUSE);
    let grey = buttons(false, false);
    assert_eq!((grey[1].glyph, grey[1].tip), (PLAY, "Play"));
    assert!(grey.iter().all(|b| !b.enabled));
}

#[test]
fn a_click_on_a_button_is_a_command() {
    let commands: Vec<Option<Command>> = buttons(true, true).iter().map(|b| command_of(b.id as usize)).collect();
    assert_eq!(
        commands,
        vec![Some(Command::Previous), Some(Command::TogglePlayPause), Some(Command::Next)]
    );
    assert_eq!(command_of(1), None);
    assert_eq!(command_of(13), None);
}

#[test]
fn a_tooltip_is_cut_to_its_buffer() {
    let short = tooltip("Play");
    assert_eq!(&short[..5], &[80, 108, 97, 121, 0]);
    assert_eq!(short.len(), TIP_LEN);
    let long = tooltip(&"x".repeat(500));
    assert_eq!(long[TIP_LEN - 2], 120);
    assert_eq!(long[TIP_LEN - 1], 0);
}

#[test]
fn buttons_are_added_once_and_then_updated() {
    let mut bar = ThumbBar::new();
    assert_eq!(bar.apply(true), Some(Install::Add));
    assert!(!bar.greys_on_drop());
    bar.applied(true);
    assert_eq!(bar.apply(true), None);
    assert_eq!(bar.apply(false), Some(Install::Update));
    assert!(bar.greys_on_drop());
    bar.forget_registration();
    assert_eq!(bar.apply(true), Some(Install::Add));
    assert!(!bar.greys_on_drop());
}

#[test]
fn the_buttons_follow_the_players_window() {
    let mut toolbar = Toolbar::new();
    let none = toolbar.update(false, None);
    assert_eq!((none.window, none.needs_list, none.let_go), (None, false, None));
    assert_eq!(toolbar.apply(true), None);
    let found = toolbar.update(true, Some(7));
    assert_eq!((found.window, found.needs_list), (Some(7), true));
    toolbar.list_ready();
    assert_eq!(toolbar.apply(true), Some(Install::Add));
    toolbar.applied(true);
    let kept = toolbar.update(true, Some(9));
    assert_eq!((kept.window, kept.needs_list, kept.let_go), (Some(7), false, None));
    assert_eq!(toolbar.apply(true), None);
    let moved = toolbar.update(false, Some(9));
    assert_eq!((moved.window, moved.needs_list), (Some(9), true));
    assert_eq!(moved.let_go, Some(ThumbBar { added: true, showing_pause: Some(true) }));
    toolbar.list_ready();
    toolbar.applied(false);
    toolbar.taskbar_restarted();
    assert_eq!(toolbar.bar, None);
    toolbar.list_ready();
    assert_eq!(toolbar.clear(), Some(ThumbBar::new()));
}

#[test]
fn a_packaged_player_is_remembered() {
    assert!(packaged(PWA));
    assert!(!packaged("MSEdge"));
    assert!(remember_player(PWA, &None));
    assert!(!remember_player(PWA, &Some(PWA.to_string())));
    assert!(remember_player(PWA, &Some("Other!App".to_string())));
    assert!(!remember_player("MSEdge", &None));
    assert_eq!(remembered_player(" Fam!App\r\n").as_deref(), Some("Fam!App"));
    assert_eq!(remembered_player(" \n"), None);
}

#[test]
fn the_player_is_raised_or_started_or_opened() {
    assert!(matches!(activate_player(true, Some(PWA), None), Route::Raise));
    match activate_player(false, Some(PWA), Some("Old!App".to_string())) {
        Route::Start(id) => assert_eq!(id, PWA),
        other => panic!("{other:?}"),
    }
    match activate_player(false, Some("MSEdge"), Some("Old!App".to_string())) {
        Route::Start(id) => assert_eq!(id, "Old!App"),
        other => panic!("{other:?}"),
    }
    assert!(matches!(activate_player(false, Some("MSEdge"), None), Route::OpenUrl));
    assert!(matches!(activate_player(false, None, None), Route::OpenUrl));
    assert!(!launch_accepted(32));
    assert!(launch_accepted(33));
}

#[test]
fn the_players_window_is_known_by_title_and_identity() {
    assert!(is_player_window("Song - YouTube MUSIC", Some(PWA), Some("msedge.exe")));
    assert!(is_player_window("YouTube Music", None, Some("youtube-music.exe")));
    assert!(!is_player_window("YouTube Music", None, Some("msedge.exe")));
    assert!(!is_player_window("YouTube", Some(PWA), None));
    assert!(!titled_window_is_player("YouTube Music", Some(PWA), None));
    assert!(titled_window_is_player("youtube music", Some(PWA), None));
    assert!(is_surveyed("a youtube video"));
    assert!(is_surveyed("YouTube"));
    assert!(!is_surveyed("You Tube"));
    assert!(titled_window_is_surveyed("a youtube video"));
    assert!(!titled_window_is_surveyed("YouTube"));
}

#[test]
fn a_window_is_described_on_one_line() {
    let w = WindowInfo {
        handle: 0x1A2B,
        pid: 42,
        visible: true,
        iconic: false,
        cloaked: 2,
        left: -8,
        top: 0,
        right: 100,
        bottom: 50,
        ex_style: 0x100,
        class: "Chrome_WidgetWin_1".to_string(),
        title: "YouTube Music".to_string(),
    };
    assert_eq!(
        describe_window(&w),
        "hwnd 0x1a2b pid 42 vis true icon false cloak 2 rect -8,0 108x50 ex 0x100 class Chrome_WidgetWin_1 : YouTube Music"
    );
}

#[test]
fn a_window_is_brought_forward_rung_by_rung() {
    assert_eq!(Rung::Show.next(true, true), Rung::Done(Raise::AlreadyThere));
    assert_eq!(Rung::Show.next(false, true), Rung::Ask);
    assert_eq!(Rung::Ask.next(true, false), Rung::Done(Raise::Foreground));
    assert_eq!(Rung::Ask.next(false, true), Rung::Attach);
    assert_eq!(Rung::Ask.next(false, false), Rung::Switch);
    assert_eq!(Rung::Attach.next(true, true), Rung::Done(Raise::Attached));
    assert_eq!(Rung::Attach.next(false, true), Rung::Switch);
    assert_eq!(Rung::Switch.next(true, true), Rung::Done(Raise::Switched));
    assert_eq!(Rung::Switch.next(false, true), Rung::Done(Raise::Refused));
}

#[test]
fn a_process_is_named_by_its_file() {
    assert_eq!(process_name(r"C:\Program Files\Edge\msedge.exe"), "msedge.exe");
    assert_eq!(process_name("msedge.exe"), "msedge.exe");
    assert_eq!(process_name(r"C:\"), "");
    assert_eq!(process_name(""), "");
}

#[test]
fn the_sessions_on_the_machine_are_reported() {
    assert_eq!(
        report_sessions(&[], &State::Absent),
        vec![
            "no SMTC sessions at all — nothing on this machine is playing media.",
            "start YouTube Music, play a track, and run this again.",
        ]
    );
    let mut tab = Snapshot { app_id: "MSEdge".to_string(), ..Snapshot::default() };
    tab.cover = Some(vec![0; 12]);
    let song = track("Song", None);
    let lines = report_sessions(&[tab, song.clone()], &State::Track(song.clone()));
    assert_eq!(
        lines,
        vec![
            "2 SMTC session(s):",
            "",
            "  app id   : MSEdge",
            "  verdict  : Browser",
            "  title    : <empty>",
            "  artist   : <empty>",
            "  status   : Unknown",
            "  kind     : Unknown",
            "  cover    : 12 bytes",
            "",
            "  app id   : music.youtube.com-5929F88E_vezhnr0wkvrcy!App",
            "  verdict  : Certain",
            "  title    : Song",
            "  artist   : Someone",
            "  status   : Playing",
            "  kind     : Music",
            "  cover    : <none published>",
            "",
            "--- what the strip would follow ---",
            "  Song — Someone",
        ]
    );
    assert_eq!(
        report_sessions(&[song], &State::Absent).last().map(String::as_str),
        Some("  nothing")
    );
}
