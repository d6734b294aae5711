//! Design tokens of the flyout: dimensions in device-independent pixels, glyphs and colours.
use crate::audio::Flow;
use vstd::prelude::*;

verus! {

// Layout, in device-independent pixels: 96 to the inch, scaled by the monitor's resolution.
/// Padding at the panel's top and bottom.
pub const PAD_V: i32 = 6;
/// The first section header.
pub const HEADER_FIRST_H: i32 = 30;
/// A later section header, with the gap that separates the groups.
pub const HEADER_H: i32 = 36;
/// A volume slider's row.
pub const SLIDER_H: i32 = 48;
/// A device's row.
pub const ITEM_H: i32 = 44;
/// Left inset of a row's label.
pub const TEXT_X: i32 = 48;
/// Left inset of a section header.
pub const HEADER_X: i32 = 15;
/// Right padding.
pub const RIGHT_PAD: i32 = 16;
/// The panel is never narrower.
pub const MIN_W: i32 = 340;
/// The panel is never wider, however long a device's name.
pub const MAX_W: i32 = 420;
/// Side margin of a row's highlight.
pub const ROW_MARGIN: i32 = 4;
/// Space on the right that a row without a battery keeps for its edit pencil.
pub const PENCIL_W: i32 = 42;
/// Diameter of the pencil's button.
pub const PENCIL_BTN: i32 = 30;
/// From the panel's right edge to the pencil's button.
pub const PENCIL_RIGHT: i32 = 9;
/// Space on the right that a row with a battery keeps for it and the pencil.
pub const BATTERY_W: i32 = 96;
/// Between a battery and the pencil on its right.
pub const BATTERY_GAP: i32 = 6;
/// Left end of a slider's track.
pub const TRACK_X0: i32 = 52;
/// The shortest track a panel is made for.
pub const TRACK_MIN_W: i32 = 130;
/// Space on the right of a track, for the percentage.
pub const VALUE_W: i32 = 46;
/// How far left of the track a press still means the track, not the mute glyph.
pub const TRACK_GRIP: i32 = 6;
/// From the last row to the footer's hairline.
pub const FOOTER_TOP_GAP: i32 = 6;
/// The footer strip, down to the panel's bottom edge.
pub const FOOTER_H: i32 = 52;
/// Left inset of the footer item's label.
pub const FOOTER_TEXT_X: i32 = 44;
/// Padding behind the footer item's label.
pub const FOOTER_ITEM_PAD: i32 = 10;
/// Diameter of a footer button.
pub const FOOTER_BTN: i32 = 32;
/// From the panel's right edge to the rightmost footer button.
pub const FOOTER_BTN_RIGHT: i32 = 9;
/// Between two footer buttons.
pub const FOOTER_BTN_GAP: i32 = 4;
/// Between the footer's item and its leftmost button, at the least.
pub const FOOTER_GAP: i32 = 8;
/// The icon picker's header.
pub const PICKER_HEADER_H: i32 = 46;
/// Left inset of the picker's back button.
pub const BACK_LEFT: i32 = 7;
/// Diameter of the picker's back button.
pub const BACK_BTN: i32 = 32;
/// One cell of the icon grid.
pub const GRID_CHIP: i32 = 44;
/// Between two cells of the icon grid.
pub const GRID_GAP: i32 = 8;
/// Side inset of the icon grid.
pub const GRID_X: i32 = 14;
/// Above the icon grid's first row.
pub const GRID_TOP_PAD: i32 = 4;
/// Below the icon grid's last row.
pub const GRID_BOTTOM_PAD: i32 = 10;

// Glyphs of the icon font that stand for controls rather than devices.
pub const GLYPH_VOLUME: char = '\u{E767}';
pub const GLYPH_MUTE: char = '\u{E74F}';
pub const GLYPH_MIC: char = '\u{E720}';
pub const GLYPH_MIC_OFF: char = '\u{EC54}';
pub const GLYPH_EDIT: char = '\u{E70F}';
pub const GLYPH_SETTINGS: char = '\u{E713}';
pub const GLYPH_CANCEL: char = '\u{E711}';
pub const GLYPH_BACK: char = '\u{E72B}';
pub const GLYPH_UPDATE: char = '\u{E72C}';
pub const GLYPH_RESTART_SHELL: char = '\u{E895}';

// Colours.
/// The dot that says an app is recording.
pub const RECORDING: [u8; 3] = [0xE8, 0x11, 0x23];
/// The panel's base.
pub const TINT: [u8; 3] = [0x2C, 0x2C, 0x2C];
/// Text and glyphs.
pub const TEXT: [u8; 3] = [0xFF, 0xFF, 0xFF];
/// A glyph on a solid accent.
pub const DARK_GLYPH: [u8; 3] = [0x12, 0x16, 0x1C];
/// What shades the footer.
pub const FOOTER_SHADE: [u8; 3] = [0x00, 0x00, 0x00];
/// The accent where the system names none.
pub const ACCENT: [u8; 3] = [0x60, 0xCD, 0xFF];

/// The glyph for an endpoint's direction and mute.
pub open spec fn endpoint_glyph_view(flow: Flow, muted: bool) -> char {
    match flow {
        Flow::Output => if muted {
            GLYPH_MUTE
        } else {
            GLYPH_VOLUME
        },
        Flow::Input => if muted {
            GLYPH_MIC_OFF
        } else {
            GLYPH_MIC
        },
    }
}

/// The glyph for one endpoint's state: which direction, and is it muted. Shared by the flyout's
/// sliders and the scroll readout, which are seen a few pixels apart.
pub fn endpoint_glyph(flow: Flow, muted: bool) -> (r: char)
    ensures
        r == endpoint_glyph_view(flow, muted),
{
    match flow {
        Flow::Output => if muted {
            GLYPH_MUTE
        } else {
            GLYPH_VOLUME
        },
        Flow::Input => if muted {
            GLYPH_MIC_OFF
        } else {
            GLYPH_MIC
        },
    }
}

/// The accent colour: the second shade of the accent palette, which is what the system paints on a
/// dark surface, or else the compositor's accent, or else the default one. The palette is a run of
/// four-byte colours, the compositor's accent a number whose low bytes are red, green and blue.
pub open spec fn accent(palette: Option<Seq<u8>>, dwm: Option<u32>) -> Seq<u8> {
    match palette {
        Some(p) if p.len() >= 8 => seq![p[4], p[5], p[6]],
        _ => match dwm {
            Some(v) => seq![
                (v as int % 256) as u8,
                (v as int / 256 % 256) as u8,
                (v as int / 65536 % 256) as u8,
            ],
            None => ACCENT@,
        },
    }
}

/// The accent colour to paint, from what the system's settings hold.
pub fn accent_rgb(palette: Option<&[u8]>, dwm: Option<u32>) -> (r: [u8; 3])
    ensures
        r@ == accent(
            match palette {
                Some(p) => Some(p@),
                None => None,
            },
            dwm,
        ),
{
    if let Some(p) = palette {
        if p.len() >= 8 {
            let rgb = [p[4], p[5], p[6]];
            proof {
                assert(rgb@ =~= seq![p@[4], p@[5], p@[6]]);
            }
            return rgb;
        }
    }
    match dwm {
        Some(v) => {
            let rgb = [(v % 256) as u8, (v / 256 % 256) as u8, (v / 65536 % 256) as u8];
            proof {
                assert(rgb@ =~= seq![
                    (v as int % 256) as u8,
                    (v as int / 256 % 256) as u8,
                    (v as int / 65536 % 256) as u8,
                ]);
            }
            rgb
        },
        None => ACCENT,
    }
}

/// A muted endpoint looks other than one that is not, and an output other than an input; the output is a
/// speaker, the input a microphone.
pub proof fn law_endpoints_look_different(flow: Flow, muted: bool, other: Flow, other_muted: bool)
    ensures
        endpoint_glyph_view(Flow::Output, false) == '\u{E767}',
        endpoint_glyph_view(Flow::Output, true) == '\u{E74F}',
        endpoint_glyph_view(Flow::Input, false) == '\u{E720}',
        endpoint_glyph_view(Flow::Input, true) == '\u{EC54}',
        (flow, muted) != (other, other_muted) ==> endpoint_glyph_view(flow, muted)
            != endpoint_glyph_view(other, other_muted),
{
}

/// The accent is the second of the palette's colours, each of which takes four bytes. Where there is no
/// palette it is the colour that the desktop names, its red in the lowest byte; and where there is neither, a
/// light blue.
pub proof fn law_the_accent_is_the_systems(palette: Seq<u8>, dwm: Option<u32>, v: u32)
    ensures
        palette.len() >= 8 ==> accent(Some(palette), dwm) == palette.subrange(4, 7),
        palette.len() < 8 ==> accent(Some(palette), dwm) == accent(None, dwm),
        ({
            let c = accent(None, Some(v));
            c.len() == 3 && v as int % 0x100_0000 == c[0] + 256 * c[1] + 65536 * c[2]
        }),
        accent(None, None) == seq![0x60u8, 0xCDu8, 0xFFu8],
{
    if palette.len() >= 8 {
        assert(accent(Some(palette), dwm) =~= palette.subrange(4, 7));
    }
    assert(accent(None, None) =~= seq![0x60u8, 0xCDu8, 0xFFu8]);
}

} // verus!
