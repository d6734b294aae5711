//! What a click on the tray does, and what the tray shows.
use audio_tray::audio::{describe, Device, DeviceId, Flow};
use audio_tray::config::Config;
use audio_tray::flyout::{Outcome, Trigger};
use audio_tray::icons::IconId;
use audio_tray::music::smtc::Command;
use audio_tray::taskbar::{Action, StripIcons, TRAY_MARKER};
use audio_tray::tray::{
    cycle, follow_up, icon_tint, is_tray_class, route, tooltip_for, wheel_step, ClickGuard, Current,
    Endpoint, FollowUp, Message, Registration, Scroll, Step, Work, INITIAL_TOOLTIP,
    PERCENT_PER_NOTCH, SETTLE_MS, WHEEL_DELTA,
};

fn device(id: &str) -> Device {
    describe(id.to_string(), Some(format!("Device {id}")), Some(1), None)
}

fn id(s: &str) -> Option<DeviceId> {
    Some(DeviceId(s.to_string()))
}

fn go(to: usize, set_default: bool, unmute_left: bool) -> Step {
    Step::Go { to, set_default, unmute_left }
}

#[test]
fn a_tooltip_carries_the_marker() {
    assert_eq!(tooltip_for("Speakers"), "Speakers — Audio Tray");
    assert!(tooltip_for("").contains(TRAY_MARKER));
    assert_eq!(INITIAL_TOOLTIP, "Audio output");
}

#[test]
fn a_click_goes_through_the_devices_then_mutes_then_wraps() {
    let devices = [device("a"), device("b"), device("c")];
    assert_eq!(cycle(&devices, &id("a"), false), go(1, true, false));
    assert_eq!(cycle(&devices, &id("b"), false), go(2, true, false));
    assert_eq!(cycle(&devices, &id("c"), false), Step::Mute);
    assert_eq!(cycle(&devices, &id("c"), true), go(0, true, true));
}

#[test]
fn a_mute_from_elsewhere_is_picked_up_where_it_left_off() {
    let devices = [device("a"), device("b"), device("c")];
    assert_eq!(cycle(&devices, &id("a"), true), go(1, true, true));
}

#[test]
fn one_device_is_muted_and_unmuted() {
    let devices = [device("a")];
    assert_eq!(cycle(&devices, &id("a"), false), Step::Mute);
    assert_eq!(cycle(&devices, &id("a"), true), go(0, false, false));
}

#[test]
fn an_unknown_default_starts_at_the_top() {
    let devices = [device("a"), device("b")];
    assert_eq!(cycle(&devices, &id("zz"), false), go(0, true, false));
    assert_eq!(cycle(&devices, &id("zz"), true), go(0, true, true));
    assert_eq!(cycle(&devices, &None, true), go(0, true, false));
    assert_eq!(cycle(&[], &id("a"), false), Step::Nothing);
}

#[test]
fn a_round_of_clicks_leaves_nothing_muted() {
    let devices = [device("a"), device("b"), device("c")];
    let mut default = 0;
    let mut muted = [false; 3];
    let mut stops = vec![];
    for _ in 0..8 {
        match cycle(&devices, &Some(devices[default].id.copied()), muted[default]) {
            Step::Nothing => unreachable!(),
            Step::Mute => muted[default] = true,
            Step::Go { to, set_default, unmute_left } => {
                assert_eq!(set_default, to != default);
                if unmute_left {
                    muted[default] = false;
                }
                muted[to] = false;
                default = to;
            }
        }
        stops.push((default, muted));
    }
    let none = [false; 3];
    let last = [false, false, true];
    assert_eq!(
        stops,
        vec![(1, none), (2, none), (2, last), (0, none), (1, none), (2, none), (2, last), (0, none)]
    );
}

#[test]
fn the_click_that_closed_the_flyout_does_not_count() {
    let mut guard = ClickGuard::new(1_000);
    assert!(guard.accepts(1_000));
    guard.settle(2_000);
    assert!(!guard.accepts(2_000 + SETTLE_MS - 1));
    assert!(guard.accepts(2_000 + SETTLE_MS));
    assert_eq!(guard.strip_gesture(1, 2_100), None);
    assert_eq!(guard.strip_gesture(1, 2_350), Some(Action::CycleOutput));
    assert_eq!(guard.strip_gesture(9, 2_350), None);
    assert!(!guard.opens_panel(Trigger::RightClick, false, 2_100));
    guard.settle(u64::MAX);
    assert!(guard.accepts(u64::MAX));
    assert_eq!(SETTLE_MS, 350);
}

#[test]
fn the_left_click_opens_the_flyout_only_without_a_strip() {
    let guard = ClickGuard::new(0);
    assert!(guard.opens_panel(Trigger::RightClick, true, 0));
    assert!(guard.opens_panel(Trigger::RightClick, false, 0));
    assert!(guard.opens_panel(Trigger::LeftClick, false, 0));
    assert!(!guard.opens_panel(Trigger::LeftClick, true, 0));
}

#[test]
fn every_message_has_its_answer() {
    let guard = ClickGuard::new(100);
    let at = |m, now| route(m, &guard, now);
    assert_eq!(at(Message::AudioRefresh, 0), Work::Refresh);
    assert_eq!(at(Message::MicChanged, 0), Work::Refresh);
    assert_eq!(at(Message::VolumeStep { up: false }, 0), Work::Step { up: false });
    assert_eq!(at(Message::Gesture { code: 1 }, 100), Work::Cycle(Flow::Output));
    assert_eq!(at(Message::Gesture { code: 2 }, 100), Work::Cycle(Flow::Input));
    assert_eq!(at(Message::Gesture { code: 3 }, 100), Work::OpenPanel);
    assert_eq!(at(Message::Gesture { code: 3 }, 99), Work::Ignore);
    assert_eq!(at(Message::Gesture { code: 0 }, 100), Work::Ignore);
    assert_eq!(at(Message::Gesture { code: 10 }, 100), Work::Transport(Command::Previous));
    assert_eq!(at(Message::Gesture { code: 11 }, 100), Work::Transport(Command::TogglePlayPause));
    assert_eq!(at(Message::Gesture { code: 12 }, 100), Work::Transport(Command::Next));
    assert_eq!(at(Message::Gesture { code: 11 }, 99), Work::Ignore);
    assert_eq!(at(Message::Gesture { code: 13 }, 100), Work::Ignore);
    assert_eq!(
        at(Message::Scrolled { flow: 1, delta: -30 }, 0),
        Work::Turn { flow: Flow::Input, delta: -30 }
    );
    assert_eq!(at(Message::Restarted, 0), Work::Reinject);
    assert_eq!(at(Message::Other, 0), Work::Dispatch);
}

#[test]
fn the_flyouts_outcome_is_followed_up() {
    let quiet = Outcome {
        quit: false,
        config_changed: false,
        output_changed: false,
        restart: false,
        restart_explorer: false,
    };
    let nothing = FollowUp {
        save_config: false,
        refresh: false,
        restart: false,
        restart_explorer: false,
        quit: false,
    };
    assert_eq!(follow_up(&quiet), nothing);
    assert_eq!(
        follow_up(&Outcome { output_changed: true, ..quiet }),
        FollowUp { refresh: true, ..nothing }
    );
    assert_eq!(
        follow_up(&Outcome { config_changed: true, quit: true, ..quiet }),
        FollowUp { save_config: true, refresh: true, quit: true, ..nothing }
    );
    assert!(follow_up(&Outcome { restart: true, ..quiet }).restart);
    assert!(follow_up(&Outcome { restart_explorer: true, ..quiet }).restart_explorer);
}

#[test]
fn an_endpoint_is_shown_by_its_device_or_by_a_stand_in() {
    let mut config = Config::default();
    config.set_icon("a".into(), IconId::RoundEarbuds);
    let devices = [device("a"), device("b")];
    let a = Endpoint::read(&id("a"), Some(true), &devices, &config);
    assert_eq!((a.name.as_str(), a.icon, a.muted), ("Device a", IconId::RoundEarbuds, true));
    let b = Endpoint::read(&id("b"), None, &devices, &config);
    assert_eq!((b.name.as_str(), b.icon, b.muted), ("Device b", IconId::Speakers, false));
    let gone = Endpoint::read(&id("c"), Some(true), &devices, &config);
    assert_eq!((gone.name.as_str(), gone.icon, gone.muted), ("Audio output", IconId::Unknown, true));
    let none = Endpoint::read(&None, Some(true), &devices, &config);
    assert_eq!((none.name.as_str(), none.icon, none.muted), ("Audio output", IconId::Unknown, false));
    let current = Current { output: a, input: b };
    assert_eq!(
        current.strip_icons(),
        StripIcons {
            output: '\u{F0002}',
            input: '\u{E767}',
            output_muted: true,
            input_muted: false
        }
    );
}

#[test]
fn the_icon_stands_out_from_its_taskbar() {
    assert_eq!(icon_tint(true), [0x20, 0x20, 0x20]);
    assert_eq!(icon_tint(false), [0xff, 0xff, 0xff]);
}

#[test]
fn the_icon_is_registered_ever_more_patiently() {
    let mut registration = Registration::new();
    let told: Vec<(u64, bool)> = (0..24).map(|_| registration.failed()).collect();
    let gaps: Vec<u64> = told.iter().map(|t| t.0).collect();
    assert_eq!(&gaps[..6], &[500, 1_000, 2_000, 4_000, 5_000, 5_000]);
    let nags: Vec<usize> = (0..24).filter(|i| told[*i].1).map(|i| i + 1).collect();
    assert_eq!(nags, vec![1, 12, 24]);
    assert_eq!(registration.attempt, 25);
}

#[test]
fn the_wheel_steps_by_its_sign() {
    assert_eq!(wheel_step(120 << 16), Some(true));
    assert_eq!(wheel_step(0xFF88_0000), Some(false));
    assert_eq!(wheel_step(0x0000_FFFF), None);
    assert_eq!(wheel_step(0x8000_0000), Some(false));
    assert_eq!(wheel_step(0x7FFF_0000), Some(true));
}

#[test]
fn the_taskbar_is_known_by_its_class() {
    for class in [
        "Shell_TrayWnd",
        "Shell_SecondaryTrayWnd",
        "NotifyIconOverflowWindow",
        "TopLevelWindowForOverflowXamlIsland",
        "Xaml_WindowedPopupClass",
    ] {
        assert!(is_tray_class(class));
    }
    assert!(!is_tray_class("shell_traywnd"));
    assert!(!is_tray_class("Notepad"));
}

#[test]
fn small_turns_add_up_per_button() {
    let mut scroll = Scroll::new();
    assert!(scroll.turn(Flow::Output, 30));
    assert!(scroll.turn(Flow::Output, 90));
    assert!(scroll.turn(Flow::Input, -15));
    assert_eq!(scroll.take(Flow::Output), WHEEL_DELTA);
    assert_eq!(scroll.take(Flow::Output), 0);
    assert_eq!(scroll.take(Flow::Input), -15);
    scroll.output = i64::MAX;
    assert!(!scroll.turn(Flow::Output, 1));
    assert_eq!(scroll.output, i64::MAX);
    assert_eq!(PERCENT_PER_NOTCH, 2);
}
