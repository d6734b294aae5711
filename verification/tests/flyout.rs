//! What gestures do to the flyout, and what it paints.
use audio_tray::audio::{describe, Device, DeviceId, Flow};
use audio_tray::config::Config;
use audio_tray::flyout::canvas::{
    blit_shift, clear, fit_label, slide_offset, slide_places, SLIDE_FRAMES,
};
use audio_tray::flyout::control::{mouse_xy, Event, Interaction, Panel, Reply, VolumeReading};
use audio_tray::flyout::layout::{
    label_room, ActionKind, Elem, Measured, Ratio, Screen, TextWidth,
};
use audio_tray::flyout::model::{build_groups, copy_id, is_id, FlowReading, Model};
use audio_tray::flyout::render::{battery_glyph, battery_text, compose, render_page, Overlay, Paint};
use audio_tray::flyout::theme;
use audio_tray::flyout::window::{anchor_point, reposition, Area};
use audio_tray::flyout::Anchor;
use audio_tray::icons::IconId;

fn device(id: &str, form: u32, container: Option<&str>) -> Device {
    describe(id.to_string(), Some(format!("Name {id}")), Some(form), container.map(str::to_string))
}

fn id(s: &str) -> Option<DeviceId> {
    Some(DeviceId(s.to_string()))
}

fn readings() -> (FlowReading, FlowReading) {
    (
        FlowReading {
            devices: vec![device("a", 1, None), device("b", 3, Some("{C1}"))],
            default_id: id("a"),
            muted: false,
        },
        FlowReading { devices: vec![device("m", 4, None)], default_id: id("m"), muted: true },
    )
}

/// A panel of two outputs and a microphone at 96 dots to the inch: 340 pixels wide, 358 high.
fn panel(update: Option<&str>, start_icons: bool) -> Panel {
    let (output, input) = readings();
    let levels = [("{c1}".to_string(), 40)];
    let groups = build_groups(&output, &input, &Config::default(), &levels);
    let label = 7 * 15 * 96;
    let measured = Measured {
        titles: vec![4000, 3500],
        labels: vec![vec![4000, 4000], vec![4000]],
        item: TextWidth { down: label, up: label },
    };
    Panel::open(groups, update.map(str::to_string), true, 96, &measured, start_icons)
}

fn click(p: &mut Panel, config: &mut Config, x: i32, y: i32) -> Reply {
    assert_eq!(p.handle(config, Event::ButtonDown { x, y }), Reply::Nothing);
    p.handle(config, Event::ButtonUp { x, y })
}

#[test]
fn groups_show_what_was_read() {
    let (output, input) = readings();
    let mut config = Config::default();
    config.set_icon("b".into(), IconId::RoundEarbuds);
    let groups = build_groups(&output, &input, &config, &[("{c1}".to_string(), 40)]);
    assert_eq!(groups.len(), 2);
    assert_eq!((groups[0].title, groups[1].title), ("Output", "Input"));
    assert_eq!((groups[0].muted, groups[1].muted), (false, true));
    let b = &groups[0].devices[1];
    assert_eq!((b.label.as_str(), b.icon, b.selected, b.battery), ("Name b", IconId::RoundEarbuds, false, Some(40)));
    assert!(groups[0].devices[0].selected);
    assert_eq!(groups[0].devices[0].battery, None);
    assert_eq!(groups[1].devices[0].icon, IconId::Microphone);
}

#[test]
fn a_direction_without_devices_has_no_group() {
    let (output, input) = readings();
    let none = FlowReading { devices: vec![], default_id: None, muted: false };
    let only = build_groups(&none, &input, &Config::default(), &[]);
    assert_eq!(only.len(), 1);
    assert_eq!(only[0].flow, Flow::Input);
    assert!(build_groups(&none, &none, &Config::default(), &[]).is_empty());
    // A mute without a default to be muted is none.
    let lost = FlowReading { devices: output.devices, default_id: None, muted: true };
    assert!(!build_groups(&lost, &none, &Config::default(), &[])[0].muted);
}

#[test]
fn ids_are_copied_and_compared() {
    assert_eq!(copy_id(&id("x")), id("x"));
    assert_eq!(copy_id(&None), None);
    assert!(is_id(&id("x"), &DeviceId("x".into())));
    assert!(!is_id(&None, &DeviceId("x".into())));
}

#[test]
fn a_new_model_reports_nothing() {
    let m = Model::new(vec![], Some("9.9.9".into()), true);
    let o = m.outcome();
    assert!(!o.quit && !o.config_changed && !o.output_changed && !o.restart && !o.restart_explorer);
    assert_eq!(m.screen, Screen::Main);
}

#[test]
fn the_panel_opens_at_its_size() {
    let p = panel(None, false);
    assert_eq!((p.width, p.height, p.elems.len()), (340, 358, 8));
    assert_eq!(p.model.screen, Screen::Main);
    assert!(matches!(p.elems[7].elem, Elem::Footer));
    assert_eq!(p.elems[7].top, 306);
    assert_eq!(p.hit, Interaction::default());
    let preview = panel(None, true);
    assert_eq!(preview.model.screen, Screen::IconPicker { group: 0, dev: 0 });
    assert_eq!((preview.elems.len(), preview.height), (2, 358));
}

#[test]
fn the_pointer_lights_what_it_is_over_once() {
    let mut p = panel(None, false);
    assert_eq!(p.mouse_move(100, 100), Reply::Compose);
    assert_eq!(p.hit.hover, Some(2));
    assert!(!p.hit.hover_pencil);
    assert_eq!(p.mouse_move(120, 101), Reply::Nothing);
    assert_eq!(p.mouse_move(316, 100), Reply::Compose);
    assert!(p.hit.hover_pencil);
    assert_eq!(p.mouse_move(315, 330), Reply::Compose);
    assert_eq!((p.hit.hover, p.hit.hover_action), (Some(7), Some(ActionKind::SoundSettings)));
    assert_eq!(p.mouse_move(200, 330), Reply::Compose);
    assert_eq!((p.hit.hover, p.hit.hover_action), (Some(7), None));
    assert_eq!(p.mouse_move(-1, 330), Reply::Compose);
    assert_eq!(p.hit.hover, None);
    assert_eq!(p.mouse_move(20, 10), Reply::Nothing);
}

#[test]
fn a_press_outside_closes_the_panel() {
    let mut p = panel(None, false);
    assert_eq!(p.button_down(340, 10), Reply::Close);
    assert_eq!(p.right_button_down(-1, 10), Reply::Close);
    assert_eq!(p.right_button_down(10, 10), Reply::Nothing);
    assert_eq!(p.key_down(true), Reply::Close);
    assert_eq!(p.key_down(false), Reply::Nothing);
    assert_eq!(p.handle(&mut Config::default(), Event::LostCapture), Reply::Close);
    assert_eq!(p.handle(&mut Config::default(), Event::KeyDown { escape: true }), Reply::Close);
    assert_eq!(p.handle(&mut Config::default(), Event::RightButtonDown { x: 1, y: 358 }), Reply::Close);
}

#[test]
fn a_press_on_the_glyph_mutes_and_unmutes() {
    let mut p = panel(None, false);
    assert_eq!(p.button_down(20, 60), Reply::SetMuted { group: 0, muted: true });
    assert!(p.model.groups[0].muted);
    assert_eq!(p.button_down(20, 60), Reply::SetMuted { group: 0, muted: false });
    assert_eq!(p.button_down(20, 220), Reply::SetMuted { group: 1, muted: false });
    assert_eq!(p.hit.pending, None);
}

#[test]
fn a_drag_sets_the_level_and_sounds_it_for_the_output() {
    let mut p = panel(None, false);
    let mut config = Config::default();
    let whole = 242 * 96;
    assert_eq!(
        p.button_down(173, 60),
        Reply::SetLevel { group: 0, level: Ratio { part: 121 * 96, whole } }
    );
    assert_eq!(
        p.mouse_move(1000, -50),
        Reply::SetLevel { group: 0, level: Ratio { part: whole, whole } }
    );
    assert_eq!(p.button_up(&mut config, 1000, -50), Reply::Beep);
    assert_eq!(p.hit.drag, None);
    assert!(matches!(p.button_down(60, 220), Reply::SetLevel { group: 1, .. }));
    assert_eq!(p.button_up(&mut config, 60, 220), Reply::Nothing);
}

#[test]
fn a_click_on_a_device_switches_to_it() {
    let mut p = panel(None, false);
    let mut config = Config::default();
    assert_eq!(click(&mut p, &mut config, 100, 150), Reply::Switch { group: 0, dev: 1 });
    assert_eq!(p.switched(0, 1, Some(true)), Reply::Render);
    let g = &p.model.groups[0];
    assert_eq!(g.default_id, id("b"));
    assert!(g.muted && g.devices[1].selected && !g.devices[0].selected);
    assert!(p.model.outcome().output_changed);
    // It is the default now, so that another click does nothing.
    assert_eq!(click(&mut p, &mut config, 100, 150), Reply::Nothing);
    // A switch of the input is not the tray icon's business.
    let mut q = panel(None, false);
    assert_eq!(q.switched(1, 0, None), Reply::Render);
    assert!(!q.model.outcome().output_changed && !q.model.groups[1].muted);
}

#[test]
fn a_click_begins_and_ends_on_one_element() {
    let mut p = panel(None, false);
    let mut config = Config::default();
    assert_eq!(p.button_down(100, 150), Reply::Nothing);
    assert_eq!(p.hit.pending, Some(3));
    assert_eq!(p.button_up(&mut config, 100, 100), Reply::Nothing);
    assert_eq!(p.hit.pending, None);
    assert_eq!(p.button_up(&mut config, 100, 150), Reply::Nothing);
}

#[test]
fn an_icon_is_picked_from_the_grid_for_its_device() {
    let mut p = panel(None, false);
    let mut config = Config::default();
    let picker = Screen::IconPicker { group: 0, dev: 1 };
    assert_eq!(
        click(&mut p, &mut config, 316, 150),
        Reply::Navigate { to: picker, forward: true, save: false }
    );
    p.navigated(picker);
    assert_eq!(p.model.screen, picker);
    assert_eq!((p.elems.len(), p.elems[1].top), (2, 147));
    assert_eq!(p.mouse_move(92, 225), Reply::Compose);
    assert_eq!(p.hit.hover_chip, Some(7));
    let back = Reply::Navigate { to: Screen::Main, forward: false, save: true };
    assert_eq!(click(&mut p, &mut config, 92, 225), back);
    assert_eq!(config.icon_for("b"), Some(IconId::ALL[7]));
    assert_eq!(p.model.groups[0].devices[1].icon, IconId::ALL[7]);
    assert!(p.model.outcome().config_changed);
    // Between two cells nothing is picked, and the arrow goes back without a choice.
    assert_eq!(click(&mut p, &mut config, 18 + 46, 225), Reply::Nothing);
    assert_eq!(
        click(&mut p, &mut config, 20, 30),
        Reply::Navigate { to: Screen::Main, forward: false, save: false }
    );
    assert_eq!(click(&mut p, &mut config, 200, 30), Reply::Nothing);
    p.navigated(Screen::Main);
    assert_eq!(p.elems.len(), 8);
}

#[test]
fn the_footer_leaves_its_mark_on_the_outcome() {
    let mut config = Config::default();
    let mut p = panel(Some("9.9.9"), false);
    assert_eq!(click(&mut p, &mut config, 200, 330), Reply::Nothing);
    assert_eq!(click(&mut p, &mut config, 315, 330), Reply::SoundSettings);
    let quiet = p.model.outcome();
    assert!(!quiet.quit && !quiet.restart && !quiet.restart_explorer);
    assert_eq!(click(&mut p, &mut config, 279, 330), Reply::Close);
    assert!(p.model.outcome().restart_explorer);
    let mut p = panel(Some("9.9.9"), false);
    assert_eq!(click(&mut p, &mut config, 243, 330), Reply::Close);
    assert!(p.model.outcome().restart);
    let mut p = panel(None, false);
    assert_eq!(click(&mut p, &mut config, 60, 330), Reply::Close);
    assert!(p.model.outcome().quit);
}

#[test]
fn volumes_from_elsewhere_are_taken_over_but_not_during_a_drag() {
    let mut p = panel(None, false);
    let same = VolumeReading { moved: false, muted: false };
    let input = VolumeReading { moved: false, muted: true };
    assert_eq!(p.volumes_read(&[Some(same), Some(input)]), Reply::Nothing);
    assert_eq!(p.volumes_read(&[Some(VolumeReading { moved: true, ..same }), None]), Reply::Compose);
    assert_eq!(p.volumes_read(&[Some(VolumeReading { muted: true, ..same }), None]), Reply::Render);
    assert!(p.model.groups[0].muted && p.model.groups[1].muted);
    assert!(matches!(p.button_down(173, 60), Reply::SetLevel { .. }));
    assert_eq!(p.volumes_read(&[Some(same), Some(same)]), Reply::Nothing);
    assert!(p.model.groups[0].muted);
}

#[test]
fn a_mouse_message_carries_two_signed_half_words() {
    assert_eq!(mouse_xy(0x0010_0020), (32, 16));
    assert_eq!(mouse_xy(0xFFFF_FFFE), (-2, -1));
    assert_eq!(mouse_xy(0x8000_7FFF), (32767, -32768));
    assert_eq!(mouse_xy(0xABCD_0001_0002), (2, 1));
}

#[test]
fn a_page_is_painted_from_the_top_down() {
    let p = panel(Some("9.9.9"), false);
    let page = render_page(&p.model, &p.elems, p.width, p.dpi, true);
    assert_eq!(page.len(), 7 + 2 + 3);
    assert!(matches!(page[0], Paint::Header { text: "Output", top: 6, height: 30 }));
    assert!(matches!(
        page[1],
        Paint::Slider { glyph: theme::GLYPH_VOLUME, muted: false, recording: false, middle: 60 }
    ));
    assert!(matches!(
        page[2],
        Paint::Row { icon: IconId::Speakers, selected: true, reserve: theme::PENCIL_W, middle: 106, .. }
    ));
    assert!(matches!(page[3], Paint::Row { selected: false, reserve: theme::BATTERY_W, .. }));
    assert!(matches!(
        page[5],
        Paint::Slider { glyph: theme::GLYPH_MIC_OFF, muted: true, recording: true, .. }
    ));
    assert!(matches!(page[7], Paint::Footer { top: 306, height: 52 }));
    assert!(matches!(page[8], Paint::Item { action: ActionKind::Quit, middle: 332, .. }));
    assert!(matches!(
        page[9],
        Paint::Button { action: ActionKind::SoundSettings, cta: false, centre: 30240, .. }
    ));
    assert!(matches!(page[11], Paint::Button { action: ActionKind::Restart, cta: true, .. }));
}

#[test]
fn the_picker_shows_every_icon_and_marks_the_devices_own() {
    let p = panel(None, true);
    let page = render_page(&p.model, &p.elems, p.width, p.dpi, false);
    assert_eq!(page.len(), 11);
    assert!(matches!(page[0], Paint::PickerHeader { group: 0, dev: 0, .. }));
    for (k, paint) in page[1..].iter().enumerate() {
        match paint {
            Paint::Chip { icon, selected, x, y, size } => {
                assert_eq!(*icon, IconId::ALL[k]);
                assert_eq!(*selected, *icon == IconId::Speakers);
                assert_eq!((*x, *y, *size), (18 + 52 * (k as i64 % 6), 151 + 52 * (k as i64 / 6), 44));
            }
            other => panic!("not a chip: {other:?}"),
        }
    }
}

#[test]
fn overlays_follow_the_pointer() {
    let mut p = panel(None, false);
    let rest = compose(&p.model, &p.hit, &p.elems, p.width, p.dpi);
    assert_eq!(
        rest,
        vec![
            Overlay::Level { group: 0, muted: false, top: 36, height: 48 },
            Overlay::Level { group: 1, muted: true, top: 208, height: 48 },
            Overlay::Battery { percent: 40, glyph: '\u{E854}', right: 96 * (340 - 16), middle: 150 },
        ]
    );
    p.mouse_move(316, 150);
    let hovered = compose(&p.model, &p.hit, &p.elems, p.width, p.dpi);
    assert_eq!(
        &hovered[2..],
        &[
            Overlay::Highlight { top: 128, height: 44 },
            Overlay::Battery { percent: 40, glyph: '\u{E854}', right: 96 * (316 - 15 - 6), middle: 150 },
            Overlay::Pencil { lit: true, centre: 96 * 316, middle: 150 },
        ]
    );
    // The selected row is lit already.
    p.mouse_move(100, 100);
    let on_default = compose(&p.model, &p.hit, &p.elems, p.width, p.dpi);
    assert_eq!(on_default[2], Overlay::Pencil { lit: false, centre: 96 * 316, middle: 106 });
    p.mouse_move(60, 330);
    assert!(compose(&p.model, &p.hit, &p.elems, p.width, p.dpi).contains(&Overlay::ItemLit { middle: 332 }));
    p.mouse_move(279, 330);
    assert!(compose(&p.model, &p.hit, &p.elems, p.width, p.dpi)
        .contains(&Overlay::ButtonLit { cta: false, centre: 96 * 279, middle: 332 }));
}

#[test]
fn overlays_light_the_pickers_parts() {
    let mut p = panel(None, true);
    p.mouse_move(20, 30);
    assert_eq!(
        compose(&p.model, &p.hit, &p.elems, p.width, p.dpi),
        vec![Overlay::Back { middle: 29 }]
    );
    p.mouse_move(92, 225);
    assert_eq!(
        compose(&p.model, &p.hit, &p.elems, p.width, p.dpi),
        vec![Overlay::ChipLit { selected: false, x: 70, y: 203, size: 44 }]
    );
}

#[test]
fn a_battery_has_eleven_pictures() {
    assert_eq!(battery_glyph(0), '\u{E850}');
    assert_eq!(battery_glyph(4), '\u{E850}');
    assert_eq!(battery_glyph(5), '\u{E851}');
    assert_eq!(battery_glyph(94), '\u{E859}');
    assert_eq!(battery_glyph(95), '\u{E85A}');
    assert_eq!(battery_glyph(255), '\u{E85A}');
    assert_eq!(battery_text(7), "7%");
    assert_eq!(battery_text(200), "100%");
}

#[test]
fn the_accent_comes_from_the_palette_or_the_compositor() {
    let palette = [1, 2, 3, 4, 5, 6, 7, 8];
    assert_eq!(theme::accent_rgb(Some(&palette), Some(0x11_2233)), [5, 6, 7]);
    assert_eq!(theme::accent_rgb(Some(&palette[..7]), Some(0xFF_112233)), [0x33, 0x22, 0x11]);
    assert_eq!(theme::accent_rgb(None, None), [0x60, 0xCD, 0xFF]);
    assert_eq!(theme::endpoint_glyph(Flow::Input, true), theme::GLYPH_MIC_OFF);
}

#[test]
fn a_slide_slows_down_and_arrives() {
    let offsets: Vec<i32> = (1..=SLIDE_FRAMES).map(|i| slide_offset(i, 340)).collect();
    assert_eq!(offsets, vec![71, 134, 189, 235, 273, 302, 323, 336, 340]);
    assert_eq!(slide_places(1, 340, true), (-71, 269));
    assert_eq!(slide_places(1, 340, false), (71, -269));
    assert_eq!(slide_places(9, 340, true), (-340, 0));
}

#[test]
fn two_screens_fill_a_frame_between_them() {
    let (w, h) = (3, 2);
    let old: Vec<u8> = (0..24).collect();
    let new: Vec<u8> = (100..124).collect();
    let mut frame = vec![255; 24];
    clear(&mut frame);
    assert_eq!(frame, vec![0; 24]);
    blit_shift(&mut frame, &old, w, h, -2);
    blit_shift(&mut frame, &new, w, h, 1);
    let reds: Vec<u8> = frame.chunks(4).map(|p| p[0]).collect();
    assert_eq!(reds, vec![8, 100, 104, 20, 112, 116]);
    let before = frame.clone();
    blit_shift(&mut frame, &old, w, h, 3);
    blit_shift(&mut frame, &old, w, h, i32::MIN);
    blit_shift(&mut Vec::new(), &[], 0, h, 1);
    assert_eq!(frame, before);
}

#[test]
fn the_panel_stands_above_its_icon_and_inside_the_work_area() {
    let work = Area { left: 0, top: 0, right: 1920, bottom: 1040 };
    let icon = Some(Anchor { cx: 1900, bottom: 1045 });
    assert_eq!(anchor_point(icon, (5, 5), 8, work, 8), (1900, 1032));
    assert_eq!(anchor_point(None, (500, 600), 8, work, 8), (500, 600));
    assert_eq!(reposition(1900, 1032, 340, 358, work, 8), (1920 - 8 - 340, 1032 - 358));
    assert_eq!(reposition(500, 600, 340, 358, work, 8), (330, 242));
    assert_eq!(reposition(5, 100, 340, 358, work, 8), (8, 8));
    assert_eq!(reposition(960, 1032, 3000, 358, work, 8), (8, 1032 - 358));
}

#[test]
fn a_label_is_cut_to_its_room() {
    let cut = |label: &str, room: i64| {
        let advances = vec![10; label.chars().count()];
        fit_label(label, 10 * advances.len() as u32, &advances, 7, room)
    };
    assert_eq!(cut("Speakers", 80), "Speakers");
    assert_eq!(cut("Speakers", 79), "Speaker…");
    assert_eq!(cut("Speakers", 76), "Speake…");
    assert_eq!(cut("Écouteurs", 30), "Éc…");
    assert_eq!(cut("Speakers", 5), "…");
    assert_eq!(cut("Speakers", -5), "…");
    assert_eq!(cut("", 0), "");
    // Every letter counts with its own width.
    assert_eq!(fit_label("WiW", 23, &[10, 3, 10], 5, 20), "Wi…");
}

#[test]
fn a_name_has_the_room_between_its_start_and_its_mark() {
    assert_eq!(label_room(340, theme::PENCIL_W, 96), 96 * (340 - 48 - 42));
    assert_eq!(label_room(510, theme::BATTERY_W, 144), 96 * (510 - 72 - 144));
    assert_eq!(label_room(340, theme::RIGHT_PAD, 97), 96 * (340 - 49) - 16 * 97);
}
