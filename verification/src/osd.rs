//! The scroll readout: the level bar beside the taskbar buttons while the wheel is turning. It
//! holds for a while after the last change and then fades.
use crate::audio::Flow;
use crate::flyout::layout;
use crate::flyout::theme;
use crate::flyout::window::Area;
use vstd::prelude::*;

verus! {

/// How long the readout stays after the last change, in nanoseconds.
pub const HOLD_NANOS: u64 = 3_000_000_000;

/// How long it then takes to fade, in nanoseconds.
pub const FADE_NANOS: u64 = 400_000_000;

/// Between two frames, in milliseconds.
pub const TICK_MS: u32 = 33;

/// The readout's width, in device-independent pixels.
pub const PANEL_W: i32 = 128;

/// The readout's height: that of the taskbar's buttons.
pub const PANEL_H: i32 = 32;

/// Between the icon and the readout.
pub const GAP: i32 = 6;

/// The colour of a muted endpoint's glyph: that of the buttons beside it.
pub const MUTED_GLYPH: [u8; 3] = [0xE8, 0x83, 0x6A];

/// What a frame of the readout is to do.
#[derive(Debug, Clone, Copy, PartialEq, Eq, Structural)]
pub enum Frame {
    /// Nothing is shown.
    Idle,
    /// Shown, and to stay as it is.
    Hold,
    /// To be shown fainter, this long into the fade.
    Fade { nanos: u64 },
    /// To be taken away.
    Hide,
}

/// The readout: its size, and whether it is up.
#[derive(Debug, Clone, Copy, PartialEq, Eq, Structural)]
pub struct Readout {
    /// The resolution it is sized for, zero before it was first shown.
    pub dpi: u32,
    pub width: i32,
    pub height: i32,
    pub shown: bool,
}

impl Readout {
    /// A readout that was never shown.
    pub fn new() -> (r: Readout)
        ensures
            r == (Readout { dpi: 0, width: 0, height: 0, shown: false }),
    {
        Readout { dpi: 0, width: 0, height: 0, shown: false }
    }

    /// Sizes the readout to the current resolution, and says whether that has changed, so that its
    /// picture has to be made anew.
    pub fn fit(&mut self, dpi: u32) -> (changed: bool)
        requires
            layout::valid_dpi(dpi),
        ensures
            changed == (old(self).dpi != dpi),
            final(self).shown == old(self).shown,
            final(self).dpi == dpi,
            changed ==> final(self).width == layout::px_of(PANEL_W as int, dpi as int)
                && final(self).height == layout::px_of(PANEL_H as int, dpi as int),
            !changed ==> *final(self) == *old(self),
    {
        if self.dpi != dpi {
            self.dpi = dpi;
            self.width = layout::px(PANEL_W, dpi);
            self.height = layout::px(PANEL_H, dpi);
            true
        } else {
            false
        }
    }

    /// The readout was put up; whether it has to be brought on screen.
    pub fn show(&mut self) -> (appears: bool)
        ensures
            appears == !old(self).shown,
            *final(self) == (Readout { shown: true, ..*old(self) }),
    {
        let appears = !self.shown;
        self.shown = true;
        appears
    }

    /// The readout is to go; whether there is anything to take away.
    pub fn dismiss(&mut self) -> (goes: bool)
        ensures
            goes == old(self).shown,
            *final(self) == (Readout { shown: false, ..*old(self) }),
    {
        let goes = self.shown;
        self.shown = false;
        goes
    }

    /// What is to be done this long after the last change.
    pub fn tick(&self, elapsed_nanos: u64) -> (r: Frame)
        ensures
            r == frame_at(self.shown, elapsed_nanos),
    {
        if !self.shown {
            Frame::Idle
        } else if elapsed_nanos < HOLD_NANOS {
            Frame::Hold
        } else {
            let fading: u64 = elapsed_nanos - HOLD_NANOS;
            if fading >= FADE_NANOS {
                Frame::Hide
            } else {
                Frame::Fade { nanos: fading }
            }
        }
    }
}

/// What is to be done this long after the last change.
pub open spec fn frame_at(shown: bool, elapsed: u64) -> Frame {
    if !shown {
        Frame::Idle
    } else if elapsed < HOLD_NANOS {
        Frame::Hold
    } else if elapsed - HOLD_NANOS >= FADE_NANOS {
        Frame::Hide
    } else {
        Frame::Fade { nanos: (elapsed - HOLD_NANOS) as u64 }
    }
}

/// The readout is never taken away, nor dimmed, within three seconds of the last change, and is gone
/// four tenths of a second after that.
pub proof fn law_the_readout_holds_three_seconds(elapsed: u64)
    ensures
        elapsed < 3_000_000_000 ==> frame_at(true, elapsed) is Hold,
        3_000_000_000 <= elapsed < 3_400_000_000 ==> frame_at(true, elapsed) is Fade,
        elapsed >= 3_400_000_000 ==> frame_at(true, elapsed) is Hide,
{
}

/// The glyph of the readout and its colour: the flyout's glyph, in the buttons' tint where muted.
pub fn glyph(flow: Flow, muted: bool) -> (r: (char, [u8; 3]))
    ensures
        r.0 == theme::endpoint_glyph_view(flow, muted),
        r.1@ == glyph_colour(muted),
{
    (
        theme::endpoint_glyph(flow, muted),
        if muted {
            MUTED_GLYPH
        } else {
            theme::TEXT
        },
    )
}

/// A number held between two others; the lower one counts where they cross.
pub open spec fn held(v: int, least: int, most: int) -> int {
    if v < least || most < least {
        least
    } else if v > most {
        most
    } else {
        v
    }
}

fn hold(v: i64, least: i64, most: i64) -> (r: i64)
    ensures
        r == held(v as int, least as int, most as int),
{
    if v < least || most < least {
        least
    } else if v > most {
        most
    } else {
        v
    }
}

/// Where the readout stands: right of the icon's slot and centred on it, or left of it where there
/// is no room, and on the monitor in any case.
pub open spec fn beside(slot: Area, monitor: Area, width: int, height: int, gap: int) -> (int, int) {
    let right = slot.right + gap;
    let x = if right + width > monitor.right {
        slot.left - gap - width
    } else {
        right
    };
    let y = slot.top + layout::half(slot.bottom - slot.top - height);
    (
        held(x, monitor.left as int, monitor.right - width),
        held(y, monitor.top as int, monitor.bottom - height),
    )
}

/// Where the readout stands, beside an icon's slot on a monitor.
pub fn place(slot: Area, monitor: Area, width: i32, height: i32, gap: i32) -> (r: (i32, i32))
    requires
        0 <= width,
        0 <= height,
    ensures
        (r.0 as int, r.1 as int) == beside(
            slot,
            monitor,
            width as int,
            height as int,
            gap as int,
        ),
{
    let right: i64 = slot.right as i64 + gap as i64;
    let x: i64 = if right + width as i64 > monitor.right as i64 {
        slot.left as i64 - gap as i64 - width as i64
    } else {
        right
    };
    let room: i64 = slot.bottom as i64 - slot.top as i64 - height as i64;
    let y: i64 = slot.top as i64 + if room >= 0 {
        room / 2
    } else {
        -((-room) / 2)
    };
    (
        hold(x, monitor.left as i64, monitor.right as i64 - width as i64) as i32,
        hold(y, monitor.top as i64, monitor.bottom as i64 - height as i64) as i32,
    )
}

/// A readout that fits its monitor is wholly on it, wherever the icon is.
pub proof fn law_the_readout_stays_on_its_monitor(
    slot: Area,
    monitor: Area,
    width: int,
    height: int,
    gap: int,
)
    requires
        0 <= width <= monitor.right - monitor.left,
        0 <= height <= monitor.bottom - monitor.top,
    ensures
        ({
            let (x, y) = beside(slot, monitor, width, height, gap);
            &&& monitor.left <= x
            &&& x + width <= monitor.right
            &&& monitor.top <= y
            &&& y + height <= monitor.bottom
        }),
{
}

/// Where there is room on the right, the readout stands a gap right of its icon, and otherwise a gap left of
/// it; its middle is level with the icon's. It gives way only to stay on the monitor.
pub proof fn law_the_readout_stands_beside_its_icon(
    slot: Area,
    monitor: Area,
    width: int,
    height: int,
    gap: int,
)
    ensures
        ({
            let (x, y) = beside(slot, monitor, width, height, gap);
            let level = slot.top + (slot.bottom - slot.top - height) / 2;
            &&& monitor.left <= slot.right + gap && slot.right + gap + width <= monitor.right ==> x
                == slot.right + gap
            &&& slot.right + gap + width > monitor.right && monitor.left <= slot.left - gap - width
                && slot.left - gap <= monitor.right ==> x == slot.left - gap - width
            &&& height <= slot.bottom - slot.top && monitor.top <= level && level + height
                <= monitor.bottom ==> y == level
        }),
{
}

/// The colour of the readout's glyph.
pub open spec fn glyph_colour(muted: bool) -> Seq<u8> {
    if muted {
        MUTED_GLYPH@
    } else {
        theme::TEXT@
    }
}

/// A muted endpoint's glyph wears the colour of the muted buttons beside it, any other is white.
pub proof fn law_a_muted_glyph_is_tinted(muted: bool)
    ensures
        muted ==> glyph_colour(muted) == seq![0xE8u8, 0x83u8, 0x6Au8],
        !muted ==> glyph_colour(muted) == seq![0xFFu8, 0xFFu8, 0xFFu8],
{
    assert(MUTED_GLYPH@ =~= seq![0xE8u8, 0x83u8, 0x6Au8]);
    assert(theme::TEXT@ =~= seq![0xFFu8, 0xFFu8, 0xFFu8]);
}

} // verus!
