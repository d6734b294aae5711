//! What is painted: a laid-out screen as a list of things to draw, each with its place and its
//! state. Two lists, because they change at different times: the page itself, which only changes
//! with the model, and the overlays on it, which follow the pointer and the sound.
//!
//! Vertical places are in pixels, horizontal ones in pixels for the icon grid and in ninety-sixths
//! of a pixel elsewhere.
use crate::audio::Flow;
use crate::flyout::control::{self, Interaction};
use crate::flyout::layout::{self, ActionKind, Elem, LaidElem};
use crate::flyout::model::{Group, Model};
use crate::flyout::theme;
use crate::icons::IconId;
use vstd::prelude::*;

verus! {

/// One thing on a page.
#[derive(Debug, Clone, Copy)]
pub enum Paint {
    /// A group's title.
    Header { text: &'static str, top: i32, height: i32 },
    /// A slider's glyph and empty track. A muted one's glyph wears the accent; a microphone that
    /// some app records from wears the recording dot.
    Slider { glyph: char, muted: bool, recording: bool, middle: i64 },
    /// A device's icon and label, the label cut short of the space on its right; a selected one
    /// has its row lit and wears the accent pill.
    Row { group: usize, dev: usize, icon: IconId, selected: bool, reserve: i32, top: i32, height: i32, middle: i64 },
    /// The back arrow and the device's name.
    PickerHeader { group: usize, dev: usize, middle: i64 },
    /// One icon to pick; the device's own is filled with the accent.
    Chip { icon: IconId, selected: bool, x: i64, y: i64, size: i32 },
    /// The footer's shade and hairline.
    Footer { top: i32, height: i32 },
    /// The footer's labelled item.
    Item { action: ActionKind, glyph: char, middle: i64 },
    /// A footer button; a call to action stands on an accent disc.
    Button { action: ActionKind, glyph: char, cta: bool, centre: i64, middle: i64 },
}

/// One thing over a page.
#[derive(Debug, Clone, Copy, PartialEq, Eq, Structural)]
pub enum Overlay {
    /// A slider's fill, thumb and number.
    Level { group: usize, muted: bool, top: i32, height: i32 },
    /// The row under the pointer.
    Highlight { top: i32, height: i32 },
    /// A battery readout that ends at `right`.
    Battery { percent: u8, glyph: char, right: i64, middle: i64 },
    /// The edit pencil; lit with a disc behind it when it is under the pointer.
    Pencil { lit: bool, centre: i64, middle: i64 },
    /// The disc behind the back arrow.
    Back { middle: i64 },
    /// The icon under the pointer.
    ChipLit { selected: bool, x: i64, y: i64, size: i32 },
    /// The footer's item under the pointer.
    ItemLit { middle: i64 },
    /// The footer button under the pointer.
    ButtonLit { cta: bool, centre: i64, middle: i64 },
}

/// The middle of an element.
pub open spec fn middle_of(le: LaidElem) -> int {
    le.top + layout::half(le.height as int)
}

/// Where cell `k` of the icon grid stands, the grid's element starting at `top`.
pub open spec fn chip_place(k: int, width: int, dpi: int, top: int) -> (int, int) {
    let (cols, left, chip, step) = layout::grid(width, dpi);
    (left + (k % cols) * step, top + layout::px_of(theme::GRID_TOP_PAD as int, dpi) + (k / cols) * step)
}

/// The space on the right of a device's row that its label stops short of.
pub open spec fn row_reserve(battery: Option<u8>) -> i32 {
    if battery is Some {
        theme::BATTERY_W
    } else {
        theme::PENCIL_W
    }
}

/// What one element puts on the page.
pub open spec fn elem_paints(
    model: Model,
    le: LaidElem,
    width: int,
    dpi: int,
    recording: bool,
) -> Seq<Paint> {
    let middle = middle_of(le) as i64;
    match le.elem {
        Elem::Header(text) => seq![Paint::Header { text, top: le.top, height: le.height }],
        Elem::Slider { group } => {
            let g = model.groups@[group as int];
            seq![
                Paint::Slider {
                    glyph: theme::endpoint_glyph_view(g.flow, g.muted),
                    muted: g.muted,
                    recording: recording && g.flow == Flow::Input,
                    middle,
                },
            ]
        },
        Elem::Device { group, dev } => {
            let row = model.groups@[group as int].devices@[dev as int];
            seq![
                Paint::Row {
                    group,
                    dev,
                    icon: row.icon,
                    selected: row.selected,
                    reserve: row_reserve(row.battery),
                    top: le.top,
                    height: le.height,
                    middle,
                },
            ]
        },
        Elem::PickerHeader { group, dev } => seq![Paint::PickerHeader { group, dev, middle }],
        Elem::IconGrid { group, dev } => Seq::new(
            10,
            |k: int|
                {
                    let (x, y) = chip_place(k, width, dpi, le.top as int);
                    Paint::Chip {
                        icon: IconId::ALL@[k],
                        selected: IconId::ALL@[k]
                            == model.groups@[group as int].devices@[dev as int].icon,
                        x: x as i64,
                        y: y as i64,
                        size: layout::px_of(theme::GRID_CHIP as int, dpi) as i32,
                    }
                },
        ),
        Elem::Footer => seq![
            Paint::Footer { top: le.top, height: le.height },
            Paint::Item {
                action: ActionKind::LEFT,
                glyph: ActionKind::LEFT.glyph_view(),
                middle,
            },
        ] + Seq::new(
            layout::buttons(model.update is Some).len(),
            |i: int|
                {
                    let action = layout::buttons(model.update is Some)[i];
                    Paint::Button {
                        action,
                        glyph: action.glyph_view(),
                        cta: action.calls(model.update is Some, model.strip_up),
                        centre: layout::button_centre(width, dpi, i) as i64,
                        middle,
                    }
                },
        ),
    }
}

/// What the first `n` elements put on the page, from the top down.
pub open spec fn page(
    model: Model,
    elems: Seq<LaidElem>,
    n: int,
    width: int,
    dpi: int,
    recording: bool,
) -> Seq<Paint>
    decreases n,
{
    if n <= 0 {
        Seq::empty()
    } else {
        page(model, elems, n - 1, width, dpi, recording) + elem_paints(
            model,
            elems[n - 1],
            width,
            dpi,
            recording,
        )
    }
}

fn middle(le: &LaidElem) -> (r: i64)
    ensures
        r == middle_of(*le),
{
    let h: i64 = le.height as i64;
    if h >= 0 {
        le.top as i64 + h / 2
    } else {
        le.top as i64 - (-h) / 2
    }
}

fn place_chip(k: usize, width: i32, dpi: u32, top: i32) -> (r: (i64, i64))
    requires
        layout::valid_dpi(dpi),
        k < 10,
    ensures
        (r.0 as int, r.1 as int) == chip_place(k as int, width as int, dpi as int, top as int),
{
    let (cols, left, _chip, step): (i32, i32, i32, i32) = layout::grid_metrics(width, dpi);
    let col: i32 = k as i32 % cols;
    let row: i32 = k as i32 / cols;
    proof {
        assert(0 <= col <= 9 && 0 <= row <= 9) by (nonlinear_arith)
            requires
                0 <= k < 10,
                1 <= cols <= 10,
                col == k as int % cols as int,
                row == k as int / cols as int,
        ;
        assert(0 <= col * step <= 9 * step && 0 <= row * step <= 9 * step) by (nonlinear_arith)
            requires
                0 <= col <= 9,
                0 <= row <= 9,
                0 < step,
        ;
    }
    (
        left as i64 + col as i64 * step as i64,
        top as i64 + layout::px(theme::GRID_TOP_PAD, dpi) as i64 + row as i64 * step as i64,
    )
}

/// The page of a screen: everything on it that does not follow the pointer or the sound.
pub fn render_page(model: &Model, elems: &[LaidElem], width: i32, dpi: u32, recording: bool) -> (r: Vec<
    Paint,
>)
    requires
        layout::valid_dpi(dpi),
        control::elems_are_of(elems@, model.groups@),
    ensures
        r@ == page(
            *model,
            elems@,
            elems@.len() as int,
            width as int,
            dpi as int,
            recording,
        ),
{
    let mut out: Vec<Paint> = Vec::new();
    let mut i: usize = 0;
    while i < elems.len()
        invariant
            i <= elems@.len(),
            layout::valid_dpi(dpi),
            control::elems_are_of(elems@, model.groups@),
            out@ == page(*model, elems@, i as int, width as int, dpi as int, recording),
        decreases elems@.len() - i,
    {
        let ghost before = out@;
        let le = elems[i];
        let middle: i64 = middle(&le);
        proof {
            assert(layout::elem_is_of(elems@[i as int].elem, model.groups@));
        }
        match le.elem {
            Elem::Header(text) => {
                out.push(Paint::Header { text, top: le.top, height: le.height });
            },
            Elem::Slider { group } => {
                let g = &model.groups[group];
                out.push(
                    Paint::Slider {
                        glyph: theme::endpoint_glyph(g.flow, g.muted),
                        muted: g.muted,
                        recording: recording && g.flow == Flow::Input,
                        middle,
                    },
                );
            },
            Elem::Device { group, dev } => {
                let row = &model.groups[group].devices[dev];
                out.push(
                    Paint::Row {
                        group,
                        dev,
                        icon: row.icon,
                        selected: row.selected,
                        reserve: if row.battery.is_some() {
                            theme::BATTERY_W
                        } else {
                            theme::PENCIL_W
                        },
                        top: le.top,
                        height: le.height,
                        middle,
                    },
                );
            },
            Elem::PickerHeader { group, dev } => {
                out.push(Paint::PickerHeader { group, dev, middle });
            },
            Elem::IconGrid { group, dev } => {
                let own = model.groups[group].devices[dev].icon;
                let size: i32 = layout::px(theme::GRID_CHIP, dpi);
                let all = IconId::ALL;
                let ghost goal = elem_paints(*model, le, width as int, dpi as int, recording);
                let mut k: usize = 0;
                while k < all.len()
                    invariant
                        k <= 10,
                        all@ == IconId::ALL@,
                        layout::valid_dpi(dpi),
                        group < model.groups@.len(),
                        dev < model.groups@[group as int].devices@.len(),
                        own == model.groups@[group as int].devices@[dev as int].icon,
                        size == layout::px_of(theme::GRID_CHIP as int, dpi as int),
                        le.elem == (Elem::IconGrid { group, dev }),
                        goal == elem_paints(*model, le, width as int, dpi as int, recording),
                        out@ == before + goal.take(k as int),
                    decreases 10 - k,
                {
                    let (x, y): (i64, i64) = place_chip(k, width, dpi, le.top);
                    let icon = all[k];
                    let paint = Paint::Chip { icon, selected: icon == own, x, y, size };
                    proof {
                        assert(paint == goal[k as int]);
                        assert(goal.take(k + 1) =~= goal.take(k as int).push(paint));
                        assert((before + goal.take(k as int)).push(paint) =~= before + goal.take(
                            k + 1,
                        ));
                    }
                    out.push(paint);
                    k = k + 1;
                }
                proof {
                    assert(goal.take(10) =~= goal);
                }
            },
            Elem::Footer => {
                out.push(Paint::Footer { top: le.top, height: le.height });
                out.push(
                    Paint::Item {
                        action: ActionKind::LEFT,
                        glyph: ActionKind::LEFT.glyph(),
                        middle,
                    },
                );
                let all = layout::footer_buttons(model);
                let ghost goal = elem_paints(*model, le, width as int, dpi as int, recording);
                let mut k: usize = 0;
                proof {
                    assert(out@ =~= before + goal.take(2));
                }
                while k < all.len()
                    invariant
                        k <= all@.len(),
                        all@ == layout::buttons(model.update is Some),
                        layout::valid_dpi(dpi),
                        middle == middle_of(le),
                        le.elem is Footer,
                        goal == elem_paints(*model, le, width as int, dpi as int, recording),
                        out@ == before + goal.take(k + 2),
                    decreases all@.len() - k,
                {
                    let action = all[k];
                    let paint = Paint::Button {
                        action,
                        glyph: action.glyph(),
                        cta: action.is_cta(model),
                        centre: layout::footer_btn_center_x(width, dpi, k),
                        middle,
                    };
                    proof {
                        assert(paint == goal[k + 2]);
                        assert(goal.take(k + 3) =~= goal.take(k + 2).push(paint));
                        assert((before + goal.take(k + 2)).push(paint) =~= before + goal.take(
                            k + 3,
                        ));
                    }
                    out.push(paint);
                    k = k + 1;
                }
                proof {
                    assert(goal.take(all@.len() as int + 2) =~= goal);
                }
            },
        }
        proof {
            assert(out@ =~= before + elem_paints(
                *model,
                elems@[i as int],
                width as int,
                dpi as int,
                recording,
            ));
        }
        i = i + 1;
    }
    out
}

/// A battery's glyph: the font has eleven, from empty to full.
pub open spec fn battery_glyph_view(percent: u8) -> char {
    let p = if percent <= 100 {
        percent as int
    } else {
        100
    };
    (0xE850 + (p + 5) / 10) as char
}

/// The glyph for a battery's percentage.
pub fn battery_glyph(percent: u8) -> (r: char)
    ensures
        r == battery_glyph_view(percent),
{
    let p: u32 = if percent <= 100 {
        percent as u32
    } else {
        100
    };
    match (p + 5) / 10 {
        0 => '\u{E850}',
        1 => '\u{E851}',
        2 => '\u{E852}',
        3 => '\u{E853}',
        4 => '\u{E854}',
        5 => '\u{E855}',
        6 => '\u{E856}',
        7 => '\u{E857}',
        8 => '\u{E858}',
        9 => '\u{E859}',
        _ => '\u{E85A}',
    }
}

/// A battery's text: the percentage and its sign.
pub fn battery_text(percent: u8) -> (r: String)
    ensures
        r@ == crate::text::decimal(
            if percent <= 100 {
                percent as nat
            } else {
                100
            },
        ).push('%'),
{
    let p: u64 = if percent <= 100 {
        percent as u64
    } else {
        100
    };
    let mut out = String::new();
    crate::text::push_decimal(&mut out, p);
    out.push('%');
    proof {
        assert(out@ =~= crate::text::decimal(p as nat).push('%'));
    }
    out
}

/// What one element puts over the page, whether or not the pointer is on it: a slider's level.
pub open spec fn elem_level(model: Model, le: LaidElem) -> Seq<Overlay> {
    match le.elem {
        Elem::Slider { group } => seq![
            Overlay::Level {
                group,
                muted: model.groups@[group as int].muted,
                top: le.top,
                height: le.height,
            },
        ],
        _ => Seq::empty(),
    }
}

/// The levels of the first `n` elements.
pub open spec fn levels(model: Model, elems: Seq<LaidElem>, n: int) -> Seq<Overlay>
    decreases n,
{
    if n <= 0 {
        Seq::empty()
    } else {
        levels(model, elems, n - 1) + elem_level(model, elems[n - 1])
    }
}

/// What a device's row has on its right. Under the pointer that is the pencil, with the battery
/// moved to its left; otherwise the battery alone.
pub open spec fn row_marks(
    selected: bool,
    battery: Option<u8>,
    hovered: bool,
    pencil: bool,
    le: LaidElem,
    width: int,
    dpi: int,
) -> Seq<Overlay> {
    let middle = middle_of(le) as i64;
    let centre = layout::pencil_centre(width, dpi);
    let lit = if hovered && !selected {
        seq![Overlay::Highlight { top: le.top, height: le.height }]
    } else {
        Seq::empty()
    };
    let right = if hovered {
        centre - layout::span(theme::PENCIL_BTN as int / 2, dpi) - layout::span(
            theme::BATTERY_GAP as int,
            dpi,
        )
    } else {
        96 * width - layout::span(theme::RIGHT_PAD as int, dpi)
    };
    let shown = match battery {
        Some(percent) => seq![
            Overlay::Battery {
                percent,
                glyph: battery_glyph_view(percent),
                right: right as i64,
                middle,
            },
        ],
        None => Seq::empty(),
    };
    let edit = if hovered {
        seq![Overlay::Pencil { lit: pencil, centre: centre as i64, middle }]
    } else {
        Seq::empty()
    };
    lit + shown + edit
}

/// What the pointer brings out on one element.
pub open spec fn elem_marks(
    model: Model,
    hit: Interaction,
    le: LaidElem,
    hovered: bool,
    width: int,
    dpi: int,
) -> Seq<Overlay> {
    let middle = middle_of(le) as i64;
    match le.elem {
        Elem::Device { group, dev } => {
            let row = model.groups@[group as int].devices@[dev as int];
            row_marks(row.selected, row.battery, hovered, hit.hover_pencil, le, width, dpi)
        },
        Elem::PickerHeader { .. } => if hovered && hit.hover_back {
            seq![Overlay::Back { middle }]
        } else {
            Seq::empty()
        },
        Elem::IconGrid { group, dev } => match hit.hover_chip {
            Some(k) if hovered && k < 10 => {
                let (x, y) = chip_place(k as int, width, dpi, le.top as int);
                seq![
                    Overlay::ChipLit {
                        selected: IconId::ALL@[k as int]
                            == model.groups@[group as int].devices@[dev as int].icon,
                        x: x as i64,
                        y: y as i64,
                        size: layout::px_of(theme::GRID_CHIP as int, dpi) as i32,
                    },
                ]
            },
            _ => Seq::empty(),
        },
        Elem::Footer => if hovered {
            footer_marks(model, hit.hover_action, middle, width, dpi)
        } else {
            Seq::empty()
        },
        _ => Seq::empty(),
    }
}

/// What the pointer brings out on the footer.
pub open spec fn footer_marks(
    model: Model,
    action: Option<ActionKind>,
    middle: i64,
    width: int,
    dpi: int,
) -> Seq<Overlay> {
    match action {
        None => Seq::empty(),
        Some(ActionKind::Quit) => seq![Overlay::ItemLit { middle }],
        Some(a) => {
            let i = match a {
                ActionKind::SoundSettings => 0int,
                ActionKind::RestartExplorer => 1,
                _ => 2,
            };
            seq![
                Overlay::ButtonLit {
                    cta: a.calls(model.update is Some, model.strip_up),
                    centre: layout::button_centre(width, dpi, i) as i64,
                    middle,
                },
            ]
        },
    }
}

/// What the pointer brings out on the first `n` elements.
pub open spec fn marks(
    model: Model,
    hit: Interaction,
    elems: Seq<LaidElem>,
    n: int,
    width: int,
    dpi: int,
) -> Seq<Overlay>
    decreases n,
{
    if n <= 0 {
        Seq::empty()
    } else {
        marks(model, hit, elems, n - 1, width, dpi) + elem_marks(
            model,
            hit,
            elems[n - 1],
            hit.hover == Some((n - 1) as usize),
            width,
            dpi,
        )
    }
}

fn push_row_marks(
    out: &mut Vec<Overlay>,
    selected: bool,
    battery: Option<u8>,
    hovered: bool,
    pencil: bool,
    le: &LaidElem,
    width: i32,
    dpi: u32,
)
    requires
        layout::valid_dpi(dpi),
    ensures
        final(out)@ == old(out)@ + row_marks(
            selected,
            battery,
            hovered,
            pencil,
            *le,
            width as int,
            dpi as int,
        ),
{
    let middle: i64 = middle(le);
    let centre: i64 = layout::pencil_center_x(width, dpi);
    if hovered && !selected {
        out.push(Overlay::Highlight { top: le.top, height: le.height });
    }
    let right: i64 = if hovered {
        centre - layout::span_of(theme::PENCIL_BTN / 2, dpi) - layout::span_of(
            theme::BATTERY_GAP,
            dpi,
        )
    } else {
        96 * width as i64 - layout::span_of(theme::RIGHT_PAD, dpi)
    };
    if let Some(percent) = battery {
        out.push(
            Overlay::Battery { percent, glyph: battery_glyph(percent), right, middle },
        );
    }
    if hovered {
        out.push(Overlay::Pencil { lit: pencil, centre, middle });
    }
    proof {
        assert(out@ =~= old(out)@ + row_marks(
            selected,
            battery,
            hovered,
            pencil,
            *le,
            width as int,
            dpi as int,
        ));
    }
}

fn push_footer_marks(
    out: &mut Vec<Overlay>,
    model: &Model,
    action: Option<ActionKind>,
    middle: i64,
    width: i32,
    dpi: u32,
)
    requires
        layout::valid_dpi(dpi),
    ensures
        final(out)@ == old(out)@ + footer_marks(*model, action, middle, width as int, dpi as int),
{
    match action {
        None => {},
        Some(a) => {
            match a {
                ActionKind::Quit => {
                    out.push(Overlay::ItemLit { middle });
                },
                _ => {
                    let i: usize = match a {
                        ActionKind::SoundSettings => 0,
                        ActionKind::RestartExplorer => 1,
                        _ => 2,
                    };
                    out.push(
                        Overlay::ButtonLit {
                            cta: a.is_cta(model),
                            centre: layout::footer_btn_center_x(width, dpi, i),
                            middle,
                        },
                    );
                },
            }
        },
    }
    proof {
        assert(out@ =~= old(out)@ + footer_marks(*model, action, middle, width as int, dpi as int));
    }
}

/// The overlays of a screen: every slider's level, and then what the pointer brings out.
pub fn compose(model: &Model, hit: &Interaction, elems: &[LaidElem], width: i32, dpi: u32) -> (r: Vec<
    Overlay,
>)
    requires
        layout::valid_dpi(dpi),
        control::elems_are_of(elems@, model.groups@),
    ensures
        r@ == levels(*model, elems@, elems@.len() as int) + marks(
            *model,
            *hit,
            elems@,
            elems@.len() as int,
            width as int,
            dpi as int,
        ),
{
    let mut out: Vec<Overlay> = Vec::new();
    let mut i: usize = 0;
    while i < elems.len()
        invariant
            i <= elems@.len(),
            control::elems_are_of(elems@, model.groups@),
            out@ == levels(*model, elems@, i as int),
        decreases elems@.len() - i,
    {
        let le = elems[i];
        proof {
            assert(layout::elem_is_of(elems@[i as int].elem, model.groups@));
        }
        let ghost before = out@;
        if let Elem::Slider { group } = le.elem {
            let muted = model.groups[group].muted;
            out.push(Overlay::Level { group, muted, top: le.top, height: le.height });
        }
        proof {
            assert(out@ =~= before + elem_level(*model, le));
        }
        i = i + 1;
    }
    let ghost first = out@;
    let mut k: usize = 0;
    proof {
        assert(first + marks(*model, *hit, elems@, 0, width as int, dpi as int) =~= first);
    }
    while k < elems.len()
        invariant
            k <= elems@.len(),
            layout::valid_dpi(dpi),
            control::elems_are_of(elems@, model.groups@),
            out@ == first + marks(*model, *hit, elems@, k as int, width as int, dpi as int),
        decreases elems@.len() - k,
    {
        let le = elems[k];
        let hovered = hit.hover == Some(k);
        let middle: i64 = middle(&le);
        let ghost before = out@;
        proof {
            assert(layout::elem_is_of(elems@[k as int].elem, model.groups@));
        }
        match le.elem {
            Elem::Device { group, dev } => {
                let row = &model.groups[group].devices[dev];
                push_row_marks(
                    &mut out,
                    row.selected,
                    row.battery,
                    hovered,
                    hit.hover_pencil,
                    &le,
                    width,
                    dpi,
                );
            },
            Elem::PickerHeader { .. } => {
                if hovered && hit.hover_back {
                    out.push(Overlay::Back { middle });
                }
            },
            Elem::IconGrid { group, dev } => {
                if let Some(c) = hit.hover_chip {
                    if hovered && c < 10 {
                        let (x, y): (i64, i64) = place_chip(c, width, dpi, le.top);
                        let all = IconId::ALL;
                        let selected = all[c] == model.groups[group].devices[dev].icon;
                        out.push(
                            Overlay::ChipLit {
                                selected,
                                x,
                                y,
                                size: layout::px(theme::GRID_CHIP, dpi),
                            },
                        );
                    }
                }
            },
            Elem::Footer => {
                if hovered {
                    push_footer_marks(&mut out, model, hit.hover_action, middle, width, dpi);
                }
            },
            _ => {},
        }
        proof {
            let own = elem_marks(*model, *hit, le, hovered, width as int, dpi as int);
            assert(out@ =~= before + own);
            let seen = marks(*model, *hit, elems@, k as int, width as int, dpi as int);
            assert(first + seen + own =~= first + (seen + own));
        }
        k = k + 1;
    }
    out
}

/// The microphone's slider wears the recording dot exactly while an app records, muted or not, and the
/// output's never does.
pub proof fn law_the_dot_says_that_an_app_records(
    model: Model,
    le: LaidElem,
    width: int,
    dpi: int,
    recording: bool,
)
    requires
        le.elem is Slider,
    ensures
        ({
            let g = model.groups@[le.elem->Slider_group as int];
            let paints = elem_paints(model, le, width, dpi, recording);
            paints.len() == 1 && paints[0] is Slider && paints[0]->Slider_recording == (recording
                && g.flow == Flow::Input)
        }),
{
}

/// The picture of an icon stands where the pointer finds it: the corner of its cell and the opposite
/// one are both over it.
pub proof fn law_icons_are_drawn_where_they_answer(k: int, width: int, dpi: u32, top: int)
    requires
        layout::valid_dpi(dpi),
        0 <= k < 10,
    ensures
        ({
            let (x, y) = chip_place(k, width, dpi as int, top);
            let chip = layout::px_of(theme::GRID_CHIP as int, dpi as int);
            &&& layout::chip_at(width, dpi as int, x, y, top) == Some(k)
            &&& layout::chip_at(width, dpi as int, x + chip, y + chip, top) == Some(k)
        }),
{
    let chip = layout::px_of(theme::GRID_CHIP as int, dpi as int);
    assert(chip >= 0);
    layout::law_every_cell_answers(width, dpi, top, k, 0, 0);
    layout::law_every_cell_answers(width, dpi, top, k, chip, chip);
}

/// A device's battery is shown exactly where it reports one, and its pencil exactly where the
/// pointer is on its row; the two never overlap, since a battery beside a pencil ends left of it.
pub proof fn law_battery_and_pencil_share_the_right(
    selected: bool,
    battery: Option<u8>,
    hovered: bool,
    pencil: bool,
    le: LaidElem,
    width: i32,
    dpi: u32,
)
    requires
        layout::valid_dpi(dpi),
    ensures
        ({
            let m = row_marks(selected, battery, hovered, pencil, le, width as int, dpi as int);
            &&& battery is Some <==> exists|i: int|
                0 <= i < m.len() && #[trigger] m[i] is Battery
            &&& hovered <==> exists|i: int| 0 <= i < m.len() && #[trigger] m[i] is Pencil
            &&& forall|i: int|
                hovered && 0 <= i < m.len() && #[trigger] m[i] is Battery ==> m[i]->right
                    < layout::pencil_centre(width as int, dpi as int) - layout::span(
                    theme::PENCIL_BTN as int / 2,
                    dpi as int,
                )
        }),
{
    layout::lemma_span_bounds(theme::PENCIL_BTN as int / 2, dpi as int);
    layout::lemma_span_bounds(theme::BATTERY_GAP as int, dpi as int);
    layout::lemma_span_bounds(theme::RIGHT_PAD as int, dpi as int);
    layout::lemma_span_bounds(theme::PENCIL_RIGHT + theme::PENCIL_BTN / 2, dpi as int);
    let m = row_marks(selected, battery, hovered, pencil, le, width as int, dpi as int);
    let first: int = if hovered && !selected {
        1
    } else {
        0
    };
    if battery is Some {
        assert(m[first] is Battery);
    }
    if hovered {
        assert(m[m.len() - 1] is Pencil);
    }
}

/// A battery's picture is the one of eleven that is nearest to its level, from empty to full.
pub proof fn law_a_battery_looks_as_full_as_it_is(percent: u8)
    ensures
        ({
            let p = if percent <= 100 {
                percent as int
            } else {
                100
            };
            let tenths = battery_glyph_view(percent) as u32 - 0xE850;
            &&& 0 <= tenths <= 10
            &&& -5 <= p - 10 * tenths <= 5
        }),
{
}

/// Every element of a screen is painted: what it paints stands in the page, and in the order of the
/// elements.
pub proof fn law_every_element_is_painted(
    model: Model,
    elems: Seq<LaidElem>,
    n: int,
    width: int,
    dpi: int,
    recording: bool,
    i: int,
)
    requires
        0 <= i < n <= elems.len(),
    ensures
        ({
            let from = page(model, elems, i, width, dpi, recording).len() as int;
            let own = elem_paints(model, elems[i], width, dpi, recording);
            let all = page(model, elems, n, width, dpi, recording);
            &&& from + own.len() <= all.len()
            &&& all.subrange(from, from + own.len()) == own
            &&& page(model, elems, 0, width, dpi, recording).len() == 0
            &&& page(model, elems, i + 1, width, dpi, recording).len() == from + own.len()
        }),
    decreases n,
{
    let from = page(model, elems, i, width, dpi, recording).len() as int;
    let own = elem_paints(model, elems[i], width, dpi, recording);
    let all = page(model, elems, n, width, dpi, recording);
    if i == n - 1 {
        assert(all.subrange(from, from + own.len()) =~= own);
    } else {
        law_every_element_is_painted(model, elems, n - 1, width, dpi, recording, i);
        let less = page(model, elems, n - 1, width, dpi, recording);
        assert(all.subrange(from, from + own.len()) =~= less.subrange(from, from + own.len()));
    }
}

/// A device's row shows that device's own icon and whether it is the default, a picker all ten icons with
/// the device's own marked, a header its title, and a footer its item and as many buttons as it offers, each
/// where it answers.
pub proof fn law_elements_are_painted_as_they_are(
    model: Model,
    le: LaidElem,
    width: int,
    dpi: int,
    recording: bool,
    k: int,
)
    ensures
        ({
            let paints = elem_paints(model, le, width, dpi, recording);
            &&& le.elem matches Elem::Header(text) ==> paints.len() == 1 && paints[0] is Header
                && paints[0]->Header_text == text
            &&& le.elem matches Elem::Device { group, dev } ==> {
                let row = model.groups@[group as int].devices@[dev as int];
                &&& paints.len() == 1
                &&& paints[0] is Row
                &&& paints[0]->Row_group == group
                &&& paints[0]->Row_dev == dev
                &&& paints[0]->Row_icon == row.icon
                &&& paints[0]->Row_selected == row.selected
                &&& paints[0]->reserve == (if row.battery is Some {
                    96i32
                } else {
                    42i32
                })
            }
            &&& le.elem matches Elem::IconGrid { group, dev } ==> paints.len() == 10 && (0 <= k < 10
                ==> paints[k] is Chip && paints[k]->Chip_icon == IconId::ALL@[k]
                && paints[k]->Chip_selected == (IconId::ALL@[k]
                == model.groups@[group as int].devices@[dev as int].icon))
            &&& le.elem is Footer ==> {
                &&& paints.len() == 2 + layout::buttons(model.update is Some).len()
                &&& paints[0] is Footer
                &&& paints[1] is Item
                &&& paints[1]->Item_action == ActionKind::Quit
                &&& 2 <= k < paints.len() ==> paints[k] is Button && paints[k]->Button_action
                    == layout::buttons(model.update is Some)[k - 2] && paints[k]->Button_glyph
                    == paints[k]->Button_action.glyph_view()
            }
            &&& le.elem matches Elem::Slider { group } ==> {
                let g = model.groups@[group as int];
                &&& paints.len() == 1
                &&& paints[0] is Slider
                &&& paints[0]->Slider_muted == g.muted
                &&& paints[0]->Slider_glyph == theme::endpoint_glyph_view(g.flow, g.muted)
            }
        }),
{
}

/// Of the elements only the one under the pointer is marked, but that batteries are always shown; and
/// every slider shows its level, in the order of the elements.
pub proof fn law_only_what_is_hovered_is_marked(
    model: Model,
    hit: Interaction,
    le: LaidElem,
    width: int,
    dpi: int,
    k: int,
)
    requires
        0 <= k < elem_marks(model, hit, le, false, width, dpi).len(),
    ensures
        elem_marks(model, hit, le, false, width, dpi)[k] is Battery,
        le.elem is Device,
{
}

/// The level of every slider is shown, and nothing else's.
pub proof fn law_every_slider_shows_its_level(model: Model, le: LaidElem)
    ensures
        le.elem matches Elem::Slider { group } ==> elem_level(model, le).len() == 1 && elem_level(
            model,
            le,
        )[0] == (Overlay::Level {
            group,
            muted: model.groups@[group as int].muted,
            top: le.top,
            height: le.height,
        }),
        !(le.elem is Slider) ==> elem_level(model, le).len() == 0,
{
}

/// What is marked is where it answers: a lit button at that button's own centre, a lit cell in the place of
/// its own icon, and a battery with its own level.
pub proof fn law_marks_stand_where_they_belong(
    model: Model,
    hit: Interaction,
    le: LaidElem,
    width: i32,
    dpi: u32,
    i: int,
    k: int,
)
    requires
        layout::valid_dpi(dpi),
        0 <= i < layout::buttons(model.update is Some).len(),
    ensures
        ({
            let action = layout::buttons(model.update is Some)[i];
            let m = footer_marks(model, Some(action), 0, width as int, dpi as int);
            &&& m.len() == 1
            &&& m[0] is ButtonLit
            &&& m[0]->ButtonLit_centre == layout::button_centre(width as int, dpi as int, i) as i64
            &&& m[0]->ButtonLit_cta == action.calls(model.update is Some, model.strip_up)
        }),
        footer_marks(model, None, 0, width as int, dpi as int).len() == 0,
        ({
            let m = footer_marks(model, Some(ActionKind::Quit), 0, width as int, dpi as int);
            m.len() == 1 && m[0] is ItemLit
        }),
        le.elem is Device ==> ({
            let row = model.groups@[le.elem->Device_group as int].devices@[le.elem->Device_dev as int];
            let m = elem_marks(model, hit, le, false, width as int, dpi as int);
            row.battery matches Some(p) ==> m.len() == 1 && m[0] is Battery && m[0]->percent == p
        }),
{
}

/// The levels and the marks of all the elements are laid over the page, those of one after those of the one
/// before it: each element's own stand among them, marked as hovered exactly where the pointer is on it.
pub proof fn law_every_element_is_marked_in_turn(
    model: Model,
    hit: Interaction,
    elems: Seq<LaidElem>,
    n: int,
    width: int,
    dpi: int,
    i: int,
)
    requires
        0 <= i < n <= elems.len(),
    ensures
        ({
            let from = levels(model, elems, i).len() as int;
            let own = elem_level(model, elems[i]);
            let all = levels(model, elems, n);
            &&& from + own.len() <= all.len()
            &&& all.subrange(from, from + own.len()) == own
            &&& levels(model, elems, i + 1).len() == from + own.len()
            &&& levels(model, elems, 0).len() == 0
        }),
        ({
            let from = marks(model, hit, elems, i, width, dpi).len() as int;
            let own = elem_marks(
                model,
                hit,
                elems[i],
                hit.hover == Some(i as usize),
                width,
                dpi,
            );
            let all = marks(model, hit, elems, n, width, dpi);
            &&& from + own.len() <= all.len()
            &&& all.subrange(from, from + own.len()) == own
            &&& marks(model, hit, elems, i + 1, width, dpi).len() == from + own.len()
            &&& marks(model, hit, elems, 0, width, dpi).len() == 0
        }),
    decreases n,
{
    let a = levels(model, elems, n);
    let b = marks(model, hit, elems, n, width, dpi);
    let (fa, fb) = (
        levels(model, elems, i).len() as int,
        marks(model, hit, elems, i, width, dpi).len() as int,
    );
    let x = elem_level(model, elems[i]);
    let y = elem_marks(model, hit, elems[i], hit.hover == Some(i as usize), width, dpi);
    if i == n - 1 {
        assert(a.subrange(fa, fa + x.len()) =~= x);
        assert(b.subrange(fb, fb + y.len()) =~= y);
    } else {
        law_every_element_is_marked_in_turn(model, hit, elems, n - 1, width, dpi, i);
        let la = levels(model, elems, n - 1);
        let lb = marks(model, hit, elems, n - 1, width, dpi);
        assert(a.subrange(fa, fa + x.len()) =~= la.subrange(fa, fa + x.len()));
        assert(b.subrange(fb, fb + y.len()) =~= lb.subrange(fb, fb + y.len()));
    }
}

/// Under the pointer a row that is not the default lights up, the way back does where the pointer is on it,
/// and of the grid the one cell it is on, marked as the device's own where it is.
pub proof fn law_what_is_hovered_lights_up(
    model: Model,
    hit: Interaction,
    le: LaidElem,
    width: int,
    dpi: int,
)
    ensures
        ({
            let m = elem_marks(model, hit, le, true, width, dpi);
            &&& le.elem matches Elem::Device { group, dev } ==> {
                let row = model.groups@[group as int].devices@[dev as int];
                &&& m.len() > 0
                &&& m[0] is Highlight <==> !row.selected
                &&& m.last() is Pencil
                &&& m.last()->lit == hit.hover_pencil
            }
            &&& le.elem is PickerHeader ==> m.len() == (if hit.hover_back {
                1nat
            } else {
                0
            })
            &&& le.elem is PickerHeader && hit.hover_back ==> m[0] is Back
            &&& le.elem matches Elem::IconGrid { group, dev } ==> (hit.hover_chip matches Some(k) ==> k < 10
                ==> m.len() == 1 && m[0] is ChipLit && (m[0]->ChipLit_selected <==> IconId::ALL@[k as int]
                == model.groups@[group as int].devices@[dev as int].icon))
            &&& le.elem is IconGrid && hit.hover_chip is None ==> m.len() == 0
            &&& le.elem is Header || le.elem is Slider ==> m.len() == 0
        }),
{
}

} // verus!
