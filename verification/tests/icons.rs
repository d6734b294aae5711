//! Icons, the configuration that chooses them, and the pixels that come of them.
use audio_tray::audio::{describe, Device, FormFactor};
use audio_tray::config::{Config, IconChoice, Music};
use audio_tray::icons::{
    default_icon, default_icon_lowered, render_glyph, render_outline, stamp_dots, Coverage, Dot,
    Drawing, IconId,
};
use audio_tray::layered::{to_bgra, to_layered};
use audio_tray::win::{small_icon_size, wide};

const RED: [u8; 3] = [200, 10, 20];

fn device(id: &str, name: &str, form: u32) -> Device {
    describe(id.to_string(), Some(name.to_string()), Some(form), None)
}

#[test]
fn every_name_reads_back_in_any_case() {
    for icon in IconId::ALL {
        assert_eq!(icon.name(), format!("{icon:?}"));
        assert_eq!(IconId::parse(icon.name()), Some(icon));
        assert_eq!(IconId::parse(&icon.name().to_uppercase()), Some(icon));
        assert_eq!(IconId::parse(&icon.name().to_lowercase()), Some(icon));
    }
    assert_eq!(IconId::parse("Speaker"), None);
    assert_eq!(IconId::parse(""), None);
    assert_eq!(IconId::parse("speakers"), Some(IconId::Speakers));
}

#[test]
fn only_the_earbuds_are_drawn_by_hand() {
    assert_eq!(IconId::WirelessEarbuds.drawing(), Drawing::StemEarbuds);
    assert_eq!(IconId::RoundEarbuds.drawing(), Drawing::RoundEarbuds);
    assert_eq!(IconId::Hdmi.drawing(), Drawing::Glyph('\u{E7F4}'));
    assert_eq!(IconId::Webcam.drawing(), Drawing::Glyph('\u{E960}'));
    assert_eq!(IconId::RoundEarbuds.glyph(), IconId::Headphones.glyph());
}

#[test]
fn a_device_starts_with_the_icon_of_its_form() {
    let starts = [
        (FormFactor::Speakers, IconId::Speakers),
        (FormFactor::Headphones, IconId::Headphones),
        (FormFactor::Headset, IconId::HeadsetMic),
        (FormFactor::Microphone, IconId::Microphone),
        (FormFactor::DigitalDisplay, IconId::Hdmi),
        (FormFactor::Spdif, IconId::Speakers),
        (FormFactor::Unknown, IconId::Unknown),
    ];
    for (form, icon) in starts {
        assert_eq!(default_icon(form, "Realtek(R) Audio"), icon);
    }
}

#[test]
fn a_name_gives_earbuds_away() {
    for name in ["Galaxy BUDS", "EarBud 2", "AirPods", "WF-1000XM5", "FreeBuds", "Pixel Buds Pro"] {
        assert_eq!(default_icon(FormFactor::Headphones, name), IconId::WirelessEarbuds);
    }
    assert_eq!(default_icon(FormFactor::Speakers, "WH-1000XM5"), IconId::Speakers);
    // The lower-case form expects its name lowered already.
    assert_eq!(default_icon_lowered(FormFactor::Speakers, "BUDS"), IconId::Speakers);
    assert_eq!(default_icon_lowered(FormFactor::Speakers, "my buds"), IconId::WirelessEarbuds);
}

#[test]
fn the_users_choice_wins_over_the_form_and_the_name() {
    let mut config = Config::default();
    let buds = device("x", "AirPods", 3);
    assert_eq!(config.icon_of(&buds), IconId::WirelessEarbuds);
    config.set_icon("x".to_string(), IconId::Speakers);
    assert_eq!(config.icon_of(&buds), IconId::Speakers);
    assert_eq!(config.icon_for("y"), None);
}

#[test]
fn choosing_again_replaces_the_choice_and_leaves_the_others() {
    let mut config = Config::default();
    config.set_icon("{0.0.0.00000000}.{abc}".into(), IconId::Speakers);
    config.set_icon("other".into(), IconId::Webcam);
    config.set_icon("{0.0.0.00000000}.{abc}".into(), IconId::Hdmi);
    assert_eq!(config.icon_for("{0.0.0.00000000}.{abc}"), Some(IconId::Hdmi));
    assert_eq!(config.icon_for("other"), Some(IconId::Webcam));
    assert_eq!(config.icons.len(), 2);
    config.icons.push(IconChoice { id: "third".into(), icon: IconId::Unknown });
    assert_eq!(config.icon_for("third"), Some(IconId::Unknown));
}

#[test]
fn the_music_half_is_on_by_default() {
    let music = Music::default();
    assert!(music.enabled);
    assert_eq!(music.tile, "YouTube Music");
    assert_eq!(music.app_id, None);
    assert!(Config::default().icons.is_empty());
}

#[test]
fn a_stroke_is_as_opaque_as_it_covers() {
    let (buf, w, h) = render_outline(2, RED, &[0, 4, 8, 16]);
    assert_eq!((w, h), (2, 2));
    assert_eq!(
        buf,
        vec![0, 0, 0, 0, 200, 10, 20, 64, 200, 10, 20, 128, 200, 10, 20, 255]
    );
}

#[test]
fn a_glyph_stands_in_the_middle_of_its_picture() {
    let coverage = Coverage { width: 1, height: 2, alpha: vec![9, 0] };
    let (buf, _, _) = render_glyph(4, RED, &coverage);
    let lit: Vec<usize> = (0..16).filter(|p| buf[p * 4 + 3] > 0).collect();
    assert_eq!(lit, vec![4 + 1]);
    assert_eq!(&buf[20..24], &[200, 10, 20, 9]);
}

#[test]
fn a_glyph_larger_than_its_picture_is_cut() {
    let coverage = Coverage { width: 3, height: 3, alpha: vec![1, 2, 3, 4, 5, 6, 7, 8, 9] };
    let (buf, _, _) = render_glyph(2, RED, &coverage);
    let alphas: Vec<u8> = buf.chunks(4).map(|p| p[3]).collect();
    assert_eq!(alphas, vec![1, 2, 4, 5]);
}

#[test]
fn dots_outside_the_picture_are_left_out_and_later_ones_win() {
    let dots = [
        Dot { x: 0, y: 0, alpha: 5 },
        Dot { x: 1, y: 1, alpha: 7 },
        Dot { x: 0, y: 0, alpha: 0 },
        Dot { x: 3, y: 0, alpha: 9 },
    ];
    let (buf, _, _) = stamp_dots(2, RED, &dots, 0, 0);
    assert_eq!(&buf[0..4], &[200, 10, 20, 0]);
    assert_eq!(&buf[12..16], &[200, 10, 20, 7]);
    assert_eq!(&buf[4..12], &[0; 8]);
    let (buf, _, _) = stamp_dots(2, RED, &dots, -1, -1);
    assert_eq!(&buf[0..4], &[200, 10, 20, 7]);
    assert_eq!(&buf[4..16], &[0; 12]);
}

#[test]
fn layered_pixels_are_premultiplied_and_turned_round() {
    assert_eq!(
        to_layered(&[10, 20, 30, 255, 100, 50, 200, 128, 9, 9, 9, 0]),
        vec![30, 20, 10, 255, 100, 25, 50, 128, 0, 0, 0, 0]
    );
    assert!(to_layered(&[]).is_empty());
}

#[test]
fn turning_a_picture_round_twice_gives_it_back() {
    let rgba = [1, 2, 3, 4, 5, 6, 7, 8];
    assert_eq!(to_bgra(&rgba), vec![3, 2, 1, 4, 7, 6, 5, 8]);
    assert_eq!(to_bgra(&to_bgra(&rgba)), rgba);
}

#[test]
fn a_wide_text_ends_in_a_zero() {
    assert_eq!(wide("aé"), vec![0x61, 0xE9, 0]);
    assert_eq!(wide(""), vec![0]);
    assert_eq!(wide("\u{1F3B5}"), vec![0xD83C, 0xDFB5, 0]);
    let long = "Écouteurs \u{10FFFF}\u{FFFF}";
    let expected: Vec<u16> = long.encode_utf16().chain(std::iter::once(0)).collect();
    assert_eq!(wide(long), expected);
}

#[test]
fn a_small_icon_has_a_size_even_where_none_is_told() {
    assert_eq!(small_icon_size(24), 24);
    assert_eq!(small_icon_size(0), 16);
    assert_eq!(small_icon_size(-3), 16);
}
