//! The strip in the taskbar, and the readout beside it.
use audio_tray::audio::Flow;
use audio_tray::flyout::theme;
use audio_tray::flyout::window::Area;
use audio_tray::icons::IconId;
use audio_tray::osd::{glyph, place, Frame, Readout, FADE_NANOS, HOLD_NANOS, MUTED_GLYPH};
use audio_tray::music::smtc::Command;
use audio_tray::taskbar::{
    flow_code, flow_from_code, init_data, pack, retry_gap, strip_glyph, strip_is_up, Action,
    ShellError, ShellEvent, ShellRestart, Startup, Strip, StripIcons, ENABLE_GAP_MS,
    GLYPH_ROUND_EARBUDS, GLYPH_WIRELESS_EARBUDS,
};

#[test]
fn the_strip_shows_a_speaker_and_a_microphone_unless_told() {
    let icons = StripIcons::default();
    assert_eq!((icons.output, icons.input), ('\u{E767}', '\u{E720}'));
    assert!(!icons.output_muted && !icons.input_muted);
}

#[test]
fn earbuds_have_stand_ins_on_the_strip() {
    assert_eq!(strip_glyph(IconId::WirelessEarbuds), GLYPH_WIRELESS_EARBUDS);
    assert_eq!(strip_glyph(IconId::RoundEarbuds), GLYPH_ROUND_EARBUDS);
    assert_eq!(strip_glyph(IconId::Headphones), '\u{E7F6}');
}

#[test]
fn the_component_is_handed_its_settings_as_pairs() {
    let icons = StripIcons {
        output: GLYPH_WIRELESS_EARBUDS,
        input: '\u{E720}',
        output_muted: true,
        input_muted: false,
    };
    assert_eq!(
        init_data(icons, [0x60, 0xCD, 0x0F], 4321),
        "tooltip=Audio Tray;out=F0001;in=E720;outmuted=1;inmuted=0;accent=60CD0F;alpha=80;hidevolume=1;pid=4321"
    );
}

#[test]
fn a_buttons_state_is_packed_into_a_number() {
    assert_eq!(pack('\u{E767}', false), 0xE767);
    assert_eq!(pack('\u{E767}', true), 0x0100_E767);
    assert_eq!(pack('\u{10FFFF}', true), 0x0110_FFFF);
}

#[test]
fn actions_and_directions_read_back_from_the_wire() {
    for action in [Action::CycleOutput, Action::CycleInput, Action::OpenPanel] {
        assert_eq!(Action::from_code(action.code()), Some(action));
    }
    assert_eq!(Action::CycleOutput.code(), 1);
    assert_eq!(Action::CycleInput.flow(), Some(Flow::Input));
    assert_eq!(Action::OpenPanel.flow(), None);
    assert_eq!(Action::from_code(0), None);
    assert_eq!(Action::from_code(4), None);
    let transport = [
        (10, Action::Previous, Command::Previous),
        (11, Action::PlayPause, Command::TogglePlayPause),
        (12, Action::Next, Command::Next),
    ];
    for (code, action, command) in transport {
        assert_eq!(Action::from_code(code), Some(action));
        assert_eq!(action.code(), code);
        assert_eq!(action.command(), Some(command));
        assert_eq!(action.flow(), None);
    }
    assert_eq!(Action::CycleOutput.command(), None);
    assert_eq!(Action::OpenPanel.command(), None);
    assert_eq!(Action::from_code(9), None);
    assert_eq!(Action::from_code(13), None);
    assert_eq!(flow_from_code(flow_code(Flow::Input)), Flow::Input);
    assert_eq!(flow_from_code(flow_code(Flow::Output)), Flow::Output);
    assert_eq!(flow_from_code(7), Flow::Output);
}

#[test]
fn a_strip_is_up_from_a_successful_injection_until_it_is_gone() {
    let mut strip = Strip::new();
    assert!(!strip_is_up(&strip));
    strip.injecting();
    assert!(!strip_is_up(&strip));
    strip.injected(7, 1_000);
    assert!(strip_is_up(&strip));
    strip.injecting();
    assert!(!strip_is_up(&strip));
    strip.injected(7, 2_000);
    strip.gone();
    assert!(!strip_is_up(&strip));
}

#[test]
fn a_second_injection_into_the_same_shell_is_a_duplicate_for_ten_seconds() {
    let mut strip = Strip::new();
    assert!(strip.at_restart(Some(7), 0));
    strip.injected(7, 1_000);
    assert!(strip.just_injected(7, 10_999));
    assert!(!strip.just_injected(7, 11_000));
    assert!(!strip.just_injected(8, 1_001));
    assert!(!strip.at_restart(Some(7), 5_000));
    assert!(strip.at_restart(Some(8), 5_000));
    assert!(strip.at_restart(None, 5_000));
}

#[test]
fn the_shell_is_restarted_for_the_strip_once() {
    let mut strip = Strip::new();
    assert_eq!(strip.at_startup(false), Startup::Inject);
    assert_eq!(strip.at_startup(true), Startup::Heal);
    assert_eq!(strip.at_startup(true), Startup::Inject);
    assert!(!strip.heal());
    let mut other = Strip::new();
    assert!(other.heal());
    assert!(!other.heal());
}

#[test]
fn the_strip_is_told_what_it_does_not_draw_yet() {
    let mut strip = Strip::new();
    let icons = StripIcons::default();
    assert_eq!(strip.to_post(icons), Some(icons));
    strip.posted(icons, false);
    assert_eq!(strip.to_post(icons), Some(icons));
    strip.posted(icons, true);
    assert_eq!(strip.to_post(icons), None);
    let muted = StripIcons { output_muted: true, ..icons };
    assert_eq!(strip.to_post(muted), Some(muted));
    strip.invalidate();
    assert_eq!(strip.to_post(icons), Some(icons));
}

#[test]
fn a_preview_changes_one_button() {
    let mut strip = Strip::new();
    assert_eq!(strip.preview(Flow::Output, Some(IconId::Hdmi), false), None);
    strip.posted(StripIcons::default(), true);
    let shown = StripIcons::default();
    assert_eq!(
        strip.preview(Flow::Output, Some(IconId::Hdmi), true),
        Some(StripIcons { output: '\u{E7F4}', output_muted: true, ..shown })
    );
    assert_eq!(
        strip.preview(Flow::Input, None, true),
        Some(StripIcons { input_muted: true, ..shown })
    );
}

#[test]
fn an_injection_is_tried_three_times() {
    assert_eq!(retry_gap(1), Some(ENABLE_GAP_MS));
    assert_eq!(retry_gap(2), Some(750));
    assert_eq!(retry_gap(3), None);
}

#[test]
fn a_shell_that_goes_when_asked_is_launched_anew() {
    let mut at = ShellRestart::Ask;
    let events = [
        ShellEvent::Asked(true),
        ShellEvent::Exited(true),
        ShellEvent::Placed,
        ShellEvent::Returned(false),
        ShellEvent::Launched(true),
    ];
    let mut waits = vec![];
    for event in events {
        waits.push(at.wait_ms());
        at = at.next(event);
    }
    assert_eq!(at, ShellRestart::Done);
    assert_eq!(waits, vec![0, 2_500, 0, 500, 0]);
}

#[test]
fn a_shell_that_does_not_go_is_terminated_and_may_come_back_by_itself() {
    let at = ShellRestart::Ask.next(ShellEvent::Asked(true)).next(ShellEvent::Exited(false));
    assert_eq!(at, ShellRestart::Terminate);
    assert_eq!(ShellRestart::Ask.next(ShellEvent::Asked(false)), ShellRestart::Terminate);
    let at = at.next(ShellEvent::Terminated(true)).next(ShellEvent::Exited(true));
    assert_eq!(at, ShellRestart::Vacant { terminated: true });
    let at = at.next(ShellEvent::Placed);
    assert_eq!(at.wait_ms(), 1_500);
    assert_eq!(at.next(ShellEvent::Returned(true)), ShellRestart::Done);
    // What does not belong to a step changes nothing.
    assert_eq!(at.next(ShellEvent::Asked(true)), at);
}

#[test]
fn a_restart_of_the_shell_can_fail_in_three_ways() {
    assert_eq!(
        ShellRestart::Terminate.next(ShellEvent::Terminated(false)),
        ShellRestart::Failed(ShellError::Terminate)
    );
    assert_eq!(
        ShellRestart::AwaitDeath.next(ShellEvent::Exited(false)),
        ShellRestart::Failed(ShellError::WouldNotExit)
    );
    assert_eq!(
        ShellRestart::Launch.next(ShellEvent::Launched(false)),
        ShellRestart::Failed(ShellError::Launch)
    );
}

#[test]
fn the_readout_holds_three_seconds_and_fades() {
    let mut readout = Readout::new();
    assert_eq!(readout.tick(0), Frame::Idle);
    assert!(readout.show());
    assert!(!readout.show());
    assert_eq!(readout.tick(HOLD_NANOS - 1), Frame::Hold);
    assert_eq!(readout.tick(HOLD_NANOS), Frame::Fade { nanos: 0 });
    assert_eq!(readout.tick(HOLD_NANOS + FADE_NANOS - 1), Frame::Fade { nanos: 399_999_999 });
    assert_eq!(readout.tick(HOLD_NANOS + FADE_NANOS), Frame::Hide);
    assert!(readout.dismiss());
    assert!(!readout.dismiss());
    assert_eq!(readout.tick(0), Frame::Idle);
}

#[test]
fn the_readout_is_sized_anew_when_the_resolution_changes() {
    let mut readout = Readout::new();
    assert!(readout.fit(144));
    assert_eq!((readout.width, readout.height), (192, 48));
    assert!(!readout.fit(144));
    assert!(readout.fit(96));
    assert_eq!((readout.width, readout.height), (128, 32));
}

#[test]
fn the_readout_shows_the_endpoints_glyph() {
    assert_eq!(glyph(Flow::Output, false), (theme::GLYPH_VOLUME, theme::TEXT));
    assert_eq!(glyph(Flow::Output, true), (theme::GLYPH_MUTE, MUTED_GLYPH));
    assert_eq!(glyph(Flow::Input, false), (theme::GLYPH_MIC, theme::TEXT));
    assert_eq!(glyph(Flow::Input, true), (theme::GLYPH_MIC_OFF, MUTED_GLYPH));
}

#[test]
fn the_readout_stands_beside_its_icon_and_on_its_monitor() {
    let monitor = Area { left: 0, top: 0, right: 1920, bottom: 1080 };
    let slot = Area { left: 1000, top: 1040, right: 1050, bottom: 1080 };
    assert_eq!(place(slot, monitor, 128, 32, 6), (1056, 1044));
    let last = Area { left: 1860, top: 1040, right: 1910, bottom: 1080 };
    assert_eq!(place(last, monitor, 128, 32, 6), (1860 - 6 - 128, 1044));
    let low = Area { left: 10, top: 1075, right: 20, bottom: 1080 };
    assert_eq!(place(low, monitor, 128, 32, 6), (26, 1048));
    let narrow = Area { left: 0, top: 0, right: 100, bottom: 20 };
    assert_eq!(place(low, narrow, 128, 32, 6), (0, 0));
}
