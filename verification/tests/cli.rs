//! The command line, the listing of endpoints, updates and the texts they are made of.
use audio_tray::audio::{describe, Device, DeviceId, Flow};
use audio_tray::cli::{parse, Mode, Nudge, Preview, Usage, MIC_SECONDS};
use audio_tray::icons::IconId;
use audio_tray::listing::{device_line, name_of, role_line};
use audio_tray::taskbar::Action;
use audio_tray::text;
use audio_tray::update::{
    asset_or, pending_version, pick_asset, set_pending_version, staging_dir, Asset, NoAsset, Published,
    Updates,
};

fn asked(words: &[&str]) -> Result<Mode, Usage> {
    let args: Vec<String> = words.iter().map(|w| w.to_string()).collect();
    parse(&args)
}

#[test]
fn nothing_or_something_unknown_runs_the_tray() {
    assert_eq!(asked(&[]), Ok(Mode::Tray));
    assert_eq!(asked(&["--frobnicate", "--list"]), Ok(Mode::Tray));
    assert_eq!(asked(&["--LIST"]), Ok(Mode::Tray));
}

#[test]
fn every_documented_word_is_understood() {
    assert_eq!(asked(&["--list"]), Ok(Mode::List));
    assert_eq!(asked(&["--set", "buds"]), Ok(Mode::Switch));
    assert_eq!(asked(&["--update"]), Ok(Mode::Update));
    assert_eq!(asked(&["--tap-version"]), Ok(Mode::TapVersion));
    assert_eq!(asked(&["--taskbar-revert"]), Ok(Mode::TaskbarRevert));
    assert_eq!(asked(&["--taskbar-restart"]), Ok(Mode::TaskbarRestart));
    assert_eq!(asked(&["--music-probe"]), Ok(Mode::MusicProbe));
    assert_eq!(asked(&["--music-timeline"]), Ok(Mode::MusicTimeline));
    assert_eq!(asked(&["--music-windows"]), Ok(Mode::MusicWindows));
    assert_eq!(asked(&["--meter"]), Ok(Mode::Meter));
    assert_eq!(asked(&["--flyout"]), Ok(Mode::Flyout(Preview::Panel)));
    assert_eq!(asked(&["--flyout", "icons"]), Ok(Mode::Flyout(Preview::Icons)));
    assert_eq!(asked(&["--flyout", "update"]), Ok(Mode::Flyout(Preview::Update)));
    assert_eq!(asked(&["--flyout", "menu"]), Ok(Mode::Flyout(Preview::Panel)));
}

#[test]
fn operands_are_told_apart() {
    assert_eq!(asked(&["--vol"]), Ok(Mode::Volume(Nudge::Get)));
    assert_eq!(asked(&["--vol", "get"]), Ok(Mode::Volume(Nudge::Get)));
    assert_eq!(asked(&["--vol", "up"]), Ok(Mode::Volume(Nudge::Up)));
    assert_eq!(asked(&["--vol", "down"]), Ok(Mode::Volume(Nudge::Down)));
    assert_eq!(asked(&["--osd"]), Ok(Mode::Osd(Flow::Output)));
    assert_eq!(asked(&["--osd", "in", "40"]), Ok(Mode::Osd(Flow::Input)));
    assert_eq!(asked(&["--mic"]), Ok(Mode::Mic(MIC_SECONDS)));
    assert_eq!(asked(&["--mic", "90"]), Ok(Mode::Mic(90)));
    assert_eq!(asked(&["--taskbar-click", "out"]), Ok(Mode::TaskbarClick(Action::CycleOutput)));
    assert_eq!(asked(&["--taskbar-click", "in"]), Ok(Mode::TaskbarClick(Action::CycleInput)));
    assert_eq!(asked(&["--taskbar-click", "panel"]), Ok(Mode::TaskbarClick(Action::OpenPanel)));
    assert_eq!(asked(&["--taskbar-scroll", "in", "2.5"]), Ok(Mode::TaskbarScroll(Flow::Input)));
    assert_eq!(asked(&["--taskbar-scroll", "out"]), Ok(Mode::TaskbarScroll(Flow::Output)));
    assert_eq!(asked(&["--music-progress", "40"]), Ok(Mode::MusicProgress { shown: true }));
    for off in [&["--music-progress"][..], &["--music-progress", "off"], &["--music-progress", "none"]] {
        assert_eq!(asked(off), Ok(Mode::MusicProgress { shown: false }));
    }
    assert_eq!(asked(&["--music-thumbbar"]), Ok(Mode::MusicThumbbar(true)));
    assert_eq!(asked(&["--music-thumbbar", "paused"]), Ok(Mode::MusicThumbbar(false)));
    assert_eq!(asked(&["--set-icon", "buds", "hdmi"]), Ok(Mode::SetIcon(IconId::Hdmi)));
}

#[test]
fn what_is_missing_or_wrong_is_told() {
    assert_eq!(asked(&["--set"]), Err(Usage::Switch));
    assert_eq!(asked(&["--set-icon", "buds"]), Err(Usage::SetIcon));
    assert_eq!(asked(&["--set-icon", "buds", "banana"]), Err(Usage::UnknownIcon));
    assert_eq!(asked(&["--vol", "loud"]), Err(Usage::Volume));
    assert_eq!(asked(&["--osd", "left"]), Err(Usage::Osd));
    assert_eq!(asked(&["--mic", "soon"]), Err(Usage::Mic));
    assert_eq!(asked(&["--taskbar-click"]), Err(Usage::TaskbarClick));
    assert_eq!(asked(&["--taskbar-scroll"]), Err(Usage::TaskbarScroll));
    assert_eq!(asked(&["--music-thumbbar", "stopped"]), Err(Usage::MusicThumbbar));
}

fn device(id: &str, name: &str) -> Device {
    describe(id.to_string(), Some(name.to_string()), Some(3), None)
}

#[test]
fn a_device_is_listed_on_one_line() {
    let d = device("a", "Buds");
    let default = Some(DeviceId("a".into()));
    assert_eq!(device_line(&d, &default, Some(7), false), "  * [Headphones]   7%  Buds");
    assert_eq!(device_line(&d, &None, Some(100), true), "    [Headphones] 100% muted  Buds");
    assert_eq!(device_line(&d, &None, None, false), "    [Headphones]   ?   Buds");
}

#[test]
fn a_roles_default_is_listed_by_its_name() {
    let devices = [device("a", "Buds"), device("b", "Speakers")];
    assert_eq!(
        role_line("eConsole", &Some(DeviceId("b".into())), &devices),
        "  eConsole         Speakers"
    );
    assert_eq!(role_line("eCommunications", &None, &devices), "  eCommunications  (none)");
    assert_eq!(
        role_line("aRoleWithAVeryLongName", &None, &devices),
        "  aRoleWithAVeryLongName (none)"
    );
    assert_eq!(name_of(&devices, &DeviceId("zz".into())), "zz");
    assert_eq!(format!("  {:<16} {}", "eConsole", "x"), role_line("eConsole", &Some(DeviceId("x".into())), &[]));
}

#[test]
fn a_staged_version_waits_for_a_restart() {
    let mut updates = Updates::new();
    assert_eq!(pending_version(&updates), None);
    set_pending_version(&mut updates, "9.9.9".to_string());
    assert_eq!(pending_version(&updates), Some("9.9.9".to_string()));
    set_pending_version(&mut updates, "10.0.0".to_string());
    assert_eq!(pending_version(&updates), Some("10.0.0".to_string()));
}

#[test]
fn a_components_directory_is_known_by_its_version() {
    assert_eq!(staging_dir("1.2.3"), "audio-tray-tap-1.2.3");
    assert_ne!(staging_dir("1.2.3"), staging_dir("1.2.30"));
}

fn asset(name: &str) -> Asset {
    Asset { name: name.to_string(), download_url: format!("https://example.org/{name}") }
}

fn release(version: &str, names: &[&str]) -> Published {
    Published { version: version.to_string(), assets: names.iter().map(|n| asset(n)).collect() }
}

#[test]
fn the_file_of_a_version_is_picked_by_its_target() {
    let releases = [
        release("2.0.0", &["audio-tray-x86_64-pc-windows-msvc.zip"]),
        release(
            "1.9.0",
            &["notes.txt", "audio-tray-x86_64-pc-windows-msvc.zip", "old-x86_64-pc-windows-msvc.zip"],
        ),
        release("1.9.0", &["other-x86_64-pc-windows-msvc.zip"]),
    ];
    let picked = pick_asset(&releases, "1.9.0").unwrap();
    assert_eq!(picked.name, "audio-tray-x86_64-pc-windows-msvc.zip");
    assert_eq!(picked.download_url, "https://example.org/audio-tray-x86_64-pc-windows-msvc.zip");
}

#[test]
fn a_version_or_its_file_may_be_missing() {
    let releases = [release("2.0.0", &["notes.txt", "source.tar.gz"])];
    assert_eq!(pick_asset(&releases, "1.9.0").err(), Some(NoAsset::NoRelease));
    assert_eq!(pick_asset(&releases, "2.0.0").err(), Some(NoAsset::NoFile));
    assert_eq!(pick_asset(&[], "2.0.0").err(), Some(NoAsset::NoRelease));
    assert_eq!(asset_or(None).err(), Some(NoAsset::NoFile));
    assert_eq!(asset_or(Some(asset("a"))).unwrap().name, "a");
}

#[test]
fn numbers_are_read_as_they_are_written() {
    for v in [0, 7, 10, 4_321, u64::MAX] {
        let mut s = String::new();
        text::push_decimal(&mut s, v);
        assert_eq!(s, v.to_string());
        assert_eq!(text::parse_number(&s), Some(v));
    }
    for s in ["", "+", "+5", "007", "5 ", "-1", "1_0", "18446744073709551616", "99999999999999999999x", "٣"] {
        assert_eq!(text::parse_number(s), s.parse::<u64>().ok());
    }
    for v in [i64::MIN, -5, 0, i64::MAX] {
        let mut s = String::new();
        text::push_signed(&mut s, v);
        assert_eq!(s, v.to_string());
    }
}

#[test]
fn hexadecimal_is_padded_and_never_cut() {
    for (v, width) in [(0, 4), (0xE767, 4), (0xF0001, 4), (0xAB, 2), (u32::MAX, 8)] {
        let mut s = String::new();
        text::push_hex(&mut s, v, width);
        assert_eq!(s, format!("{v:0width$X}", width = width as usize));
    }
    for v in [0, 0xdead_beef, u64::MAX] {
        let mut s = String::new();
        text::push_small_hex(&mut s, v);
        assert_eq!(s, format!("{v:x}"));
    }
}

#[test]
fn texts_are_trimmed_of_all_white_space() {
    for s in ["", "  a b ", "\u{3000}x\u{2028}", "\t\r\n", "é", "\u{200B}z"] {
        assert_eq!(text::trim(s), s.trim());
        assert_eq!(text::blank(s), s.trim().is_empty());
    }
}

#[test]
fn white_space_is_what_the_list_says() {
    for v in 0..=0x10_FFFFu32 {
        let Some(c) = char::from_u32(v) else {
            continue;
        };
        let listed = matches!(
            v,
            0x9..=0xD
                | 0x20
                | 0x85
                | 0xA0
                | 0x1680
                | 0x2000..=0x200A
                | 0x2028
                | 0x2029
                | 0x202F
                | 0x205F
                | 0x3000
        );
        assert_eq!(text::blank(c.encode_utf8(&mut [0; 4])), listed, "U+{v:04X}");
    }
}

#[test]
fn letters_are_lowered() {
    assert_eq!(text::to_ascii_lowercase("AbZ[É"), "abz[É");
    assert_eq!(text::lower_char('Q'), 'q');
    assert_eq!(text::lower_char('É'), 'É');
    assert!(text::eq_ignore_ascii_case("MSEdge", "msedgE"));
    assert!(!text::eq_ignore_ascii_case("É", "é"));
    assert!(!text::eq_ignore_ascii_case("ab", "a"));
    assert!(text::same_text("aé", "aé"));
    assert!(!text::same_text("a", "A"));
}

#[test]
fn texts_are_searched_and_replaced() {
    for (hay, needle) in [("abcabd", "abd"), ("abc", ""), ("", ""), ("", "a"), ("aab", "ab"), ("é", "e")] {
        assert_eq!(text::contains(hay, needle), hay.contains(needle));
    }
    assert_eq!(text::replace_char("a#b##", '#', '\\'), "a\\b\\\\");
    assert_eq!(text::trim_start_matches("ababx", "ab"), "x");
    assert_eq!(text::trim_start_matches("xab", "ab"), "xab");
    assert_eq!(text::chars_of("aé"), vec!['a', 'é']);
}
