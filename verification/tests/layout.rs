//! Layout and hit-testing of the flyout.
use audio_tray::audio::{DeviceId, Flow};
use audio_tray::flyout::layout::{
    build_view, content_width, elem_at, footer_btn_center_x, footer_buttons, footer_hit,
    footer_item_right, footer_min_width, grid_chip_at, grid_metrics, grid_px_height, inside,
    level_from_x, on_mute, over_back, over_pencil, panel_height, pencil_center_x, px, view_fits,
    ActionKind, Elem, LaidElem, Measured, Ratio, Screen, TextWidth,
};
use audio_tray::flyout::model::{DeviceRow, Group, Model};
use audio_tray::flyout::theme;
use audio_tray::icons::IconId;

/// The resolutions of a monitor at 100, 150 and 200 percent.
const DPIS: [u32; 3] = [96, 144, 192];

fn scale_of(dpi: u32) -> f32 {
    dpi as f32 / 96.0
}

fn pixels(ninety_sixths: i64) -> f32 {
    ninety_sixths as f32 / 96.0
}

/// The width of a text whose letters are seven dips wide, in ninety-sixths of a pixel.
fn text_width(s: &str, dpi: u32) -> u32 {
    7 * s.chars().count() as u32 * dpi
}

fn item(dpi: u32) -> TextWidth {
    let w = text_width(ActionKind::LEFT.label(), dpi);
    TextWidth { down: w, up: w }
}

fn measured(m: &Model, dpi: u32) -> Measured {
    Measured {
        titles: m.groups.iter().map(|g| text_width(g.title, dpi)).collect(),
        labels: m
            .groups
            .iter()
            .map(|g| g.devices.iter().map(|d| text_width(&d.label, dpi)).collect())
            .collect(),
        item: item(dpi),
    }
}

fn width_of(m: &Model, dpi: u32) -> i32 {
    content_width(m, dpi, &measured(m, dpi))
}

fn level(r: Ratio) -> f32 {
    r.part as f32 / r.whole as f32
}

fn dev(label: &str, battery: Option<u8>) -> DeviceRow {
    DeviceRow {
        id: DeviceId(label.to_string()),
        label: label.to_string(),
        icon: IconId::Speakers,
        selected: false,
        battery,
    }
}

/// A model with the strip up, the ordinary case.
fn model(groups: Vec<Group>, update: Option<&str>) -> Model {
    Model::new(groups, update.map(str::to_string), true)
}

fn model_no_strip(groups: Vec<Group>, update: Option<&str>) -> Model {
    Model::new(groups, update.map(str::to_string), false)
}

fn output_group(devices: Vec<DeviceRow>) -> Group {
    Group {
        flow: Flow::Output,
        title: "Output",
        default_id: Some(DeviceId("d".into())),
        muted: false,
        devices,
    }
}

#[test]
fn content_width_always_within_min_max() {
    for dpi in DPIS {
        let scale = scale_of(dpi);
        let m = model(vec![output_group(vec![dev("Speakers", None)])], None);
        let w = width_of(&m, dpi);
        assert!(
            w >= (theme::MIN_W as f32 * scale).round() as i32,
            "w={w} below min at scale {scale}"
        );
        assert!(
            w <= (theme::MAX_W as f32 * scale).round() as i32,
            "w={w} above max at scale {scale}"
        );
    }
}

#[test]
fn content_width_fits_the_footer_even_with_no_devices() {
    // With no devices the width comes purely from the footer, whose labelled item and icon button
    // share one line: too narrow and they would overlap.
    for dpi in DPIS {
        let scale = scale_of(dpi);
        let m = model(vec![], None);
        let w = width_of(&m, dpi);
        assert!(
            w >= (theme::MIN_W as f32 * scale).round() as i32,
            "w={w} below the panel floor"
        );
        assert!(w <= (theme::MAX_W as f32 * scale).round() as i32, "w={w} above the cap");
        assert!(
            w as f32 >= pixels(footer_min_width(&m, dpi, item(dpi))),
            "w={w} squeezes the footer at scale {scale}"
        );
    }
}

#[test]
fn main_view_always_ends_with_the_footer() {
    let m = model(vec![output_group(vec![dev("Speakers", None)])], None);
    let (elems, total) = build_view(&m, 96, 400, Screen::Main, 0);
    let last = elems.last().expect("main view is never empty");
    assert!(matches!(last.elem, Elem::Footer));
    // Flush with the bottom edge: no padding band under the strip.
    assert_eq!(last.top + last.height, total);
}

#[test]
fn footer_stays_pinned_to_the_bottom_when_the_panel_is_stretched() {
    let m = model(vec![output_group(vec![dev("Speakers", None)])], None);
    let (elems, natural) = build_view(&m, 96, 400, Screen::Main, 0);
    let natural_top = elems.last().map(|le| le.top).unwrap();
    let (elems, total) = build_view(&m, 96, 400, Screen::Main, natural + 120);
    let last = elems.last().unwrap();
    assert_eq!(total, natural + 120);
    assert_eq!(last.top, natural_top + 120);
    assert_eq!(last.top + last.height, total);
}

#[test]
fn footer_hit_targets_its_actions_and_nothing_between() {
    for dpi in DPIS {
        let scale = scale_of(dpi);
        let m = model(vec![], None);
        let width = width_of(&m, dpi);
        let btn = pixels(footer_btn_center_x(width, dpi, 0)).round() as i32;
        assert_eq!(
            footer_hit(&m, width, dpi, item(dpi), btn),
            Some(ActionKind::SoundSettings)
        );
        let left = ((theme::FOOTER_TEXT_X as f32 + 2.0) * scale).round() as i32;
        assert_eq!(footer_hit(&m, width, dpi, item(dpi), left), Some(ActionKind::LEFT));
        // The gap between the label and the buttons is inert. Measured to the leftmost button, since
        // there is always more than one.
        let leftmost = pixels(footer_btn_center_x(width, dpi, footer_buttons(&m).len() - 1));
        let gap = ((pixels(footer_item_right(dpi, item(dpi))) + leftmost
            - theme::FOOTER_BTN as f32 * scale / 2.0)
            / 2.0)
            .round() as i32;
        assert_eq!(
            footer_hit(&m, width, dpi, item(dpi), gap),
            None,
            "gap at {gap} is clickable"
        );
    }
}

#[test]
fn a_staged_update_adds_a_restart_button_left_of_the_others() {
    let (dpi, scale) = (144, 1.5);
    let staged = model(vec![output_group(vec![dev("Speakers", None)])], Some("9.9.9"));
    let plain = model(vec![output_group(vec![dev("Speakers", None)])], None);
    assert_eq!(
        footer_buttons(&plain),
        vec![ActionKind::SoundSettings, ActionKind::RestartExplorer]
    );
    // `Restart` is transient, so it goes on the left end: the permanent buttons must not shift under
    // the pointer when an update lands.
    assert_eq!(
        footer_buttons(&staged),
        vec![ActionKind::SoundSettings, ActionKind::RestartExplorer, ActionKind::Restart]
    );

    let width = width_of(&staged, dpi);
    let neighbour = pixels(footer_btn_center_x(width, dpi, 1));
    let restart = pixels(footer_btn_center_x(width, dpi, 2));
    assert!(
        restart < neighbour - theme::FOOTER_BTN as f32 * scale,
        "buttons overlap: {restart}"
    );
    assert_eq!(
        footer_hit(&staged, width, dpi, item(dpi), restart.round() as i32),
        Some(ActionKind::Restart)
    );
    // The same spot is the inert middle when nothing is staged.
    assert_eq!(footer_hit(&plain, width, dpi, item(dpi), restart.round() as i32), None);
    // And the panel is wide enough to hold the extra button clear of the label.
    assert!(
        restart - theme::FOOTER_BTN as f32 * scale / 2.0
            > pixels(footer_item_right(dpi, item(dpi)))
    );
}

#[test]
fn the_restart_explorer_button_is_always_there_and_accents_only_when_needed() {
    let devs = || vec![output_group(vec![dev("Speakers", None)])];
    for m in [
        model(devs(), None),
        model_no_strip(devs(), None),
        model(devs(), Some("9.9.9")),
        model_no_strip(devs(), Some("9.9.9")),
    ] {
        assert!(footer_buttons(&m).contains(&ActionKind::RestartExplorer));
        // Offered exactly once, however many reasons apply.
        assert_eq!(
            footer_buttons(&m).iter().filter(|k| **k == ActionKind::RestartExplorer).count(),
            1
        );
    }
    // Quiet when all is well, accented once there is a reason: a strip that is known to be down...
    assert!(!ActionKind::RestartExplorer.is_cta(&model(devs(), None)));
    assert!(ActionKind::RestartExplorer.is_cta(&model_no_strip(devs(), None)));
    // ...or an update.
    assert!(ActionKind::RestartExplorer.is_cta(&model(devs(), Some("9.9.9"))));
    // The gear is furniture and never shouts; `Restart` only exists when it should.
    assert!(!ActionKind::SoundSettings.is_cta(&model_no_strip(devs(), Some("9.9.9"))));
    assert!(ActionKind::Restart.is_cta(&model(devs(), Some("9.9.9"))));
}

#[test]
fn three_footer_buttons_stay_clear_of_each_other_and_the_label() {
    for dpi in DPIS {
        let scale = scale_of(dpi);
        let m = model_no_strip(vec![output_group(vec![dev("Speakers", None)])], Some("9.9.9"));
        let buttons = footer_buttons(&m);
        assert_eq!(buttons.len(), 3);
        let width = width_of(&m, dpi);
        let mut prev = f32::MAX;
        for (i, k) in buttons.iter().enumerate() {
            let cx = pixels(footer_btn_center_x(width, dpi, i));
            // Each button hit-tests to itself...
            assert_eq!(footer_hit(&m, width, dpi, item(dpi), cx.round() as i32), Some(*k));
            // ...sits fully left of the one before it...
            assert!(
                cx < prev - theme::FOOTER_BTN as f32 * scale,
                "buttons overlap at scale {scale}"
            );
            prev = cx;
        }
        // ...and the leftmost still clears the labelled item.
        let leftmost = pixels(footer_btn_center_x(width, dpi, buttons.len() - 1));
        assert!(
            leftmost - theme::FOOTER_BTN as f32 * scale / 2.0
                > pixels(footer_item_right(dpi, item(dpi))),
            "the footer buttons squeeze the label at scale {scale}"
        );
    }
}

#[test]
fn grid_metrics_fits_and_centres() {
    let (dpi, scale) = (144, 1.5);
    let width = width_of(&model(vec![output_group(vec![])], None), dpi);
    let (cols, left, chip, step) = grid_metrics(width, dpi);
    assert!(cols >= 1 && cols <= IconId::ALL.len() as i32);
    assert_eq!(chip, (theme::GRID_CHIP as f32 * scale).round() as i32);
    assert_eq!(step, chip + (theme::GRID_GAP as f32 * scale).round() as i32);
    // The centred grid must sit inside the panel with a non-negative left inset.
    let grid_w = cols * chip + (cols - 1) * (step - chip);
    assert!(left >= 0);
    assert!(left * 2 + grid_w <= width + 1); // symmetric within rounding
}

#[test]
fn grid_chip_at_hits_cells_and_misses_gaps() {
    let (width, dpi, scale, gy) = (510, 144, 1.5, 60);
    let (cols, left, chip, step) = grid_metrics(width, dpi);
    let gy0 = gy + (theme::GRID_TOP_PAD as f32 * scale).round() as i32;
    // Centre of cell 0.
    assert_eq!(grid_chip_at(width, dpi, left + chip / 2, gy0 + chip / 2, gy), Some(0));
    // Centre of cell 1 (next column), when there is more than one column.
    if cols > 1 {
        assert_eq!(
            grid_chip_at(width, dpi, left + step + chip / 2, gy0 + chip / 2, gy),
            Some(1)
        );
        // In the gap between columns 0 and 1: no cell.
        assert_eq!(grid_chip_at(width, dpi, left + chip + 1, gy0 + chip / 2, gy), None);
    }
    // Above the grid: no cell.
    assert_eq!(grid_chip_at(width, dpi, left + chip / 2, gy0 - 5, gy), None);
}

#[test]
fn level_from_x_clamps_to_unit_range() {
    let (width, dpi, scale) = (510, 144, 1.5);
    let x0 = (theme::TRACK_X0 as f32 * scale) as i32;
    let x1 = width - (theme::VALUE_W as f32 * scale) as i32;
    assert_eq!(level(level_from_x(width, dpi, x0 - 50)), 0.0);
    assert_eq!(level(level_from_x(width, dpi, x1 + 50)), 1.0);
    let mid = level(level_from_x(width, dpi, (x0 + x1) / 2));
    assert!((mid - 0.5).abs() < 0.02, "mid={mid}");
}

#[test]
fn over_pencil_and_back_target_their_buttons() {
    let (width, dpi, scale) = (510, 144, 1.5);
    let cx = pixels(pencil_center_x(width, dpi)).round() as i32;
    assert!(over_pencil(width, dpi, cx));
    assert!(!over_pencil(width, dpi, 10)); // far left, over the label
    let back_cx = ((theme::BACK_LEFT as f32 + theme::BACK_BTN as f32 / 2.0) * scale) as i32;
    assert!(over_back(dpi, back_cx));
    assert!(!over_back(dpi, width - 10)); // far right
}

#[test]
fn elem_at_skips_non_actionable_headers() {
    // A header (non-actionable) followed by a device row.
    let elems = vec![
        LaidElem { elem: Elem::Header("Output"), top: 0, height: 40 },
        LaidElem { elem: Elem::Device { group: 0, dev: 0 }, top: 40, height: 60 },
    ];
    assert_eq!(elem_at(&elems, 20), None); // inside the header band
    assert_eq!(elem_at(&elems, 70), Some(1)); // inside the device row
    assert_eq!(elem_at(&elems, 500), None); // past the end
}

#[test]
fn a_dimension_is_rounded_to_whole_pixels_halves_up() {
    assert_eq!(px(48, 96), 48);
    assert_eq!(px(6, 120), 8); // 7.5
    assert_eq!(px(15, 144), 23); // 22.5
    assert_eq!(px(0, 144), 0);
}

#[test]
fn the_main_screen_is_stacked_to_exact_heights() {
    let m = model(
        vec![output_group(vec![dev("Speakers", None), dev("Buds", Some(40))])],
        None,
    );
    let (elems, total) = build_view(&m, 96, 400, Screen::Main, 0);
    let places: Vec<(i32, i32)> = elems.iter().map(|le| (le.top, le.height)).collect();
    assert_eq!(places, vec![(6, 30), (36, 48), (84, 44), (128, 44), (178, 52)]);
    assert_eq!(total, 230);
    assert!(matches!(elems[0].elem, Elem::Header("Output")));
    assert!(matches!(elems[1].elem, Elem::Slider { group: 0 }));
    assert!(matches!(elems[3].elem, Elem::Device { group: 0, dev: 1 }));
}

#[test]
fn a_group_without_a_default_has_no_slider_and_a_later_header_is_taller() {
    let mut silent = output_group(vec![]);
    silent.default_id = None;
    let m = model(vec![silent, output_group(vec![])], None);
    let (elems, total) = build_view(&m, 96, 400, Screen::Main, 0);
    assert!(matches!(elems[0].elem, Elem::Header("Output")));
    assert!(matches!(elems[1].elem, Elem::Header("Output")));
    assert!(matches!(elems[2].elem, Elem::Slider { group: 1 }));
    assert_eq!((elems[0].height, elems[1].height), (30, 36));
    assert_eq!(total, 6 + 30 + 36 + 48 + 6 + 52);
}

#[test]
fn the_picker_centres_its_grid_in_the_shared_height() {
    let m = model(vec![output_group(vec![dev("Speakers", None)])], None);
    let picker = Screen::IconPicker { group: 0, dev: 0 };
    let (natural, height) = build_view(&m, 96, 340, picker, 0);
    let (stretched, total) = build_view(&m, 96, 340, picker, height + 31);
    assert_eq!(total, height + 31);
    assert_eq!(stretched[0].top, natural[0].top);
    assert_eq!(stretched[1].top, natural[1].top + 15);
    assert_eq!(natural[1].height, grid_px_height(340, 96));
}

#[test]
fn every_screen_shares_the_panel_height() {
    let m = model(vec![output_group(vec![dev("Speakers", None)])], None);
    let height = panel_height(&m, 96, 340);
    let (_, main) = build_view(&m, 96, 340, Screen::Main, height);
    let (_, picker) = build_view(&m, 96, 340, Screen::IconPicker { group: 0, dev: 0 }, height);
    assert_eq!((main, picker), (height, height));
    assert!(view_fits(&m, 96, 340, Screen::Main));
}

#[test]
fn the_widest_row_sets_the_width() {
    // A battery readout needs more room than the pencil: 48 + 26 * 7 + 96 and + 42.
    let label = "Headphones of a long name.";
    assert_eq!(label.chars().count(), 26);
    let with = model(vec![output_group(vec![dev(label, Some(80))])], None);
    let without = model(vec![output_group(vec![dev(label, None)])], None);
    assert_eq!(width_of(&with, 96), 340);
    let longer = "Headphones of a much longer name.....";
    assert_eq!(longer.chars().count(), 37);
    let with = model(vec![output_group(vec![dev(longer, Some(80))])], None);
    assert_eq!(width_of(&with, 96), 48 + 37 * 7 + 96);
    assert_eq!(width_of(&without, 96), 340);
    let endless = "x".repeat(200);
    assert_eq!(width_of(&model(vec![output_group(vec![dev(&endless, None)])], None), 96), 420);
}

#[test]
fn a_fraction_of_a_pixel_widens_the_panel() {
    let m = model(vec![output_group(vec![dev("Speakers", None)])], None);
    let mut sizes = measured(&m, 96);
    sizes.labels[0][0] = 96 * 300 + 1;
    assert_eq!(content_width(&m, 96, &sizes), 48 + 300 + 42 + 1);
}

#[test]
fn buttons_stand_at_exact_places() {
    assert_eq!(pixels(footer_btn_center_x(340, 96, 0)), 315.0);
    assert_eq!(pixels(footer_btn_center_x(340, 96, 1)), 279.0);
    assert_eq!(pixels(footer_btn_center_x(510, 144, 0)), 472.5);
    assert_eq!(pixels(pencil_center_x(340, 96)), 316.0);
    let label = TextWidth { down: 9600, up: 9605 };
    assert_eq!(footer_item_right(96, label), 96 * 54 + 9600);
    assert_eq!(
        footer_min_width(&model(vec![], None), 96, label),
        96 * (54 + 8 + 2 * 32 + 4 + 9) + 9605
    );
}

#[test]
fn the_entries_are_labelled() {
    assert_eq!(ActionKind::LEFT.label(), "Quit Audio Tray");
    assert_eq!(ActionKind::SoundSettings.label(), "Sound settings");
    assert_eq!(ActionKind::Restart.label(), "Restart to update");
    assert_eq!(ActionKind::RestartExplorer.label(), "Restart Explorer");
    assert_eq!(ActionKind::Quit.glyph(), theme::GLYPH_CANCEL);
    assert_eq!(ActionKind::Restart.glyph(), theme::GLYPH_UPDATE);
}

#[test]
fn the_panel_ends_at_its_edges() {
    assert!(inside(400, 300, 0, 0));
    assert!(inside(400, 300, 399, 299));
    assert!(!inside(400, 300, 400, 0));
    assert!(!inside(400, 300, 0, 300));
    assert!(!inside(400, 300, -1, 5));
}

#[test]
fn the_mute_glyph_ends_where_the_track_begins() {
    assert!(on_mute(96, 0));
    assert!(on_mute(96, 45));
    assert!(!on_mute(96, 52));
}

#[test]
fn every_cell_of_the_grid_answers_with_its_own_number() {
    for dpi in DPIS {
        let width = width_of(&model(vec![], None), dpi);
        let (cols, left, chip, step) = grid_metrics(width, dpi);
        for k in 0..IconId::ALL.len() as i32 {
            let x = left + (k % cols) * step + chip / 2;
            let y = 20 + px(theme::GRID_TOP_PAD, dpi) + (k / cols) * step + chip / 2;
            assert_eq!(grid_chip_at(width, dpi, x, y, 20), Some(k as usize));
        }
    }
}
