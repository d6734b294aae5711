//! Layout and hit-testing of the flyout: what a screen is made of, how its elements are stacked,
//! how large the panel is, how the icon grid wraps, and what a point is over.
//!
//! Dimensions are given in device-independent pixels, 96 to the inch, and the monitor's resolution
//! `dpi` says how many pixels an inch has. A length in *ninety-sixths* of a pixel is a whole number
//! wherever it comes of such dimensions.
use crate::flyout::model::{Group, Model};
use crate::flyout::theme;
use vstd::prelude::*;

verus! {

/// Which screen the flyout is showing. The icon picker is a screen of its own, so that it can wrap
/// its icons without ever changing the panel's width.
#[derive(Debug, Clone, Copy, PartialEq, Eq, Structural)]
pub enum Screen {
    /// The sliders and device lists.
    Main,
    /// The icons to pick one device's from.
    IconPicker { group: usize, dev: usize },
}

/// What a footer entry does.
#[derive(Debug, Clone, Copy, PartialEq, Eq, Structural)]
pub enum ActionKind {
    SoundSettings,
    Quit,
    /// Relaunch into an update that is staged on disk. Only offered while there is one.
    Restart,
    /// Restart the shell, rebuilding the strip with it. Always offered.
    RestartExplorer,
}

impl ActionKind {
    /// The footer's labelled item.
    pub const LEFT: ActionKind = ActionKind::Quit;

    /// The entry's label.
    pub fn label(self) -> (r: &'static str)
        ensures
            r@ == (match self {
                ActionKind::SoundSettings => "Sound settings"@,
                ActionKind::Quit => "Quit Audio Tray"@,
                ActionKind::Restart => "Restart to update"@,
                ActionKind::RestartExplorer => "Restart Explorer"@,
            }),
    {
        match self {
            ActionKind::SoundSettings => "Sound settings",
            ActionKind::Quit => "Quit Audio Tray",
            ActionKind::Restart => "Restart to update",
            ActionKind::RestartExplorer => "Restart Explorer",
        }
    }

    /// The entry's glyph.
    pub open spec fn glyph_view(self) -> char {
        match self {
            ActionKind::SoundSettings => theme::GLYPH_SETTINGS,
            ActionKind::Quit => theme::GLYPH_CANCEL,
            ActionKind::Restart => theme::GLYPH_UPDATE,
            ActionKind::RestartExplorer => theme::GLYPH_RESTART_SHELL,
        }
    }

    /// The entry's glyph.
    pub fn glyph(self) -> (r: char)
        ensures
            r == self.glyph_view(),
    {
        match self {
            ActionKind::SoundSettings => theme::GLYPH_SETTINGS,
            ActionKind::Quit => theme::GLYPH_CANCEL,
            ActionKind::Restart => theme::GLYPH_UPDATE,
            ActionKind::RestartExplorer => theme::GLYPH_RESTART_SHELL,
        }
    }

    /// Whether there is a reason to notice the entry.
    pub open spec fn calls(self, update: bool, strip_up: bool) -> bool {
        match self {
            ActionKind::Restart => true,
            ActionKind::RestartExplorer => !strip_up || update,
            ActionKind::SoundSettings => false,
            ActionKind::Quit => false,
        }
    }

    /// Whether the button wears a standing accent disc. `Restart` always does, since it only exists
    /// while an update is staged. `RestartExplorer` is always there and has to earn it: by a staged
    /// update, or by a strip that is known to be down.
    pub fn is_cta(self, model: &Model) -> (r: bool)
        ensures
            r == self.calls(model.update is Some, model.strip_up),
    {
        match self {
            ActionKind::Restart => true,
            ActionKind::RestartExplorer => !model.strip_up || model.update.is_some(),
            ActionKind::SoundSettings => false,
            ActionKind::Quit => false,
        }
    }
}

/// One element of a screen.
#[derive(Debug, Clone, Copy)]
pub enum Elem {
    /// A group's title.
    Header(&'static str),
    /// A group's volume slider.
    Slider { group: usize },
    /// A device's row.
    Device { group: usize, dev: usize },
    /// The icon picker's header: a back arrow and the device's name.
    PickerHeader { group: usize, dev: usize },
    /// The icon picker's grid.
    IconGrid { group: usize, dev: usize },
    /// The strip that closes the main panel: [`ActionKind::LEFT`] on the left, round icon buttons
    /// on the right.
    Footer,
}

/// An element and where it stands.
#[derive(Debug, Clone, Copy)]
pub struct LaidElem {
    pub elem: Elem,
    pub top: i32,
    pub height: i32,
}

/// The resolutions that are laid out for: no coarser than 96 dots to the inch.
pub open spec fn valid_dpi(dpi: u32) -> bool {
    96 <= dpi <= 0x100_0000
}

/// A dimension in whole pixels, rounded to the nearest, halves up.
pub open spec fn px_of(dips: int, dpi: int) -> int {
    (2 * (dips * dpi) + 96) / 192
}

proof fn lemma_px_bounds(dips: int, dpi: int)
    requires
        0 <= dips <= 1024,
        96 <= dpi <= 0x100_0000,
    ensures
        dips <= px_of(dips, dpi) <= dips * 0x3_0000,
        0 <= dips * dpi <= 1024 * 0x100_0000,
{
    assert(dips * 96 <= dips * dpi <= dips * 0x100_0000) by (nonlinear_arith)
        requires
            0 <= dips,
            96 <= dpi <= 0x100_0000,
    ;
}

/// A dimension in whole pixels.
pub fn px(dips: i32, dpi: u32) -> (r: i32)
    requires
        0 <= dips <= 1024,
        valid_dpi(dpi),
    ensures
        r == px_of(dips as int, dpi as int),
        dips <= r <= dips * 0x3_0000,
{
    proof {
        lemma_px_bounds(dips as int, dpi as int);
    }
    let wide: i64 = 2 * (dips as i64 * dpi as i64) + 96;
    (wide / 192) as i32
}

// The icon grid.

/// How many columns of the icon grid fit a panel of the given width.
pub open spec fn grid_cols(width: int, dpi: int) -> int {
    let step = px_of(theme::GRID_CHIP as int, dpi) + px_of(theme::GRID_GAP as int, dpi);
    let avail = width - px_of(theme::GRID_X + theme::RIGHT_PAD, dpi);
    let fit = (avail + px_of(theme::GRID_GAP as int, dpi)) / step;
    if fit < 1 {
        1
    } else if fit > 10 {
        10
    } else {
        fit
    }
}

/// How wide the icon grid is.
pub open spec fn grid_width(width: int, dpi: int) -> int {
    let cols = grid_cols(width, dpi);
    cols * px_of(theme::GRID_CHIP as int, dpi) + (cols - 1) * px_of(theme::GRID_GAP as int, dpi)
}

/// Half of a length, rounded towards zero.
pub open spec fn half(x: int) -> int {
    if x >= 0 {
        x / 2
    } else {
        -((-x) / 2)
    }
}

/// The icon grid in a panel of the given width: columns, left edge, cell, and the distance from one
/// cell to the next. It wraps to as many columns as fit and is centred.
pub open spec fn grid(width: int, dpi: int) -> (int, int, int, int) {
    let chip = px_of(theme::GRID_CHIP as int, dpi);
    let gap = px_of(theme::GRID_GAP as int, dpi);
    (grid_cols(width, dpi), half(width - grid_width(width, dpi)), chip, chip + gap)
}

/// How many rows the icon grid takes.
pub open spec fn grid_rows(width: int, dpi: int) -> int {
    (10 + grid_cols(width, dpi) - 1) / grid_cols(width, dpi)
}

/// The icon grid's height, with its padding.
pub open spec fn grid_height(width: int, dpi: int) -> int {
    let rows = grid_rows(width, dpi);
    px_of(theme::GRID_TOP_PAD as int, dpi) + rows * px_of(theme::GRID_CHIP as int, dpi) + (rows - 1)
        * px_of(theme::GRID_GAP as int, dpi) + px_of(theme::GRID_BOTTOM_PAD as int, dpi)
}

fn halved(x: i64) -> (r: i64)
    requires
        -0x1_0000_0000_0000 <= x <= 0x1_0000_0000_0000,
    ensures
        r == half(x as int),
{
    if x >= 0 {
        x / 2
    } else {
        -((-x) / 2)
    }
}

proof fn lemma_grid_bounds(width: int, dpi: int)
    requires
        96 <= dpi <= 0x100_0000,
    ensures
        1 <= grid_cols(width, dpi) <= 10,
        1 <= grid_rows(width, dpi) <= 10,
        0 < grid_width(width, dpi) <= 600 * 0x3_0000,
        0 < grid_height(width, dpi) <= 600 * 0x3_0000,
{
    let cols = grid_cols(width, dpi);
    let chip = px_of(theme::GRID_CHIP as int, dpi);
    let gap = px_of(theme::GRID_GAP as int, dpi);
    lemma_px_bounds(theme::GRID_CHIP as int, dpi);
    lemma_px_bounds(theme::GRID_GAP as int, dpi);
    lemma_px_bounds(theme::GRID_TOP_PAD as int, dpi);
    lemma_px_bounds(theme::GRID_BOTTOM_PAD as int, dpi);
    assert(1 <= (10 + cols - 1) / cols <= 10) by (nonlinear_arith)
        requires
            1 <= cols <= 10,
    ;
    let rows = grid_rows(width, dpi);
    assert(chip <= cols * chip <= 10 * chip && 0 <= (cols - 1) * gap <= 9 * gap) by (nonlinear_arith)
        requires
            1 <= cols <= 10,
            0 < chip,
            0 < gap,
    ;
    assert(chip <= rows * chip <= 10 * chip && 0 <= (rows - 1) * gap <= 9 * gap) by (nonlinear_arith)
        requires
            1 <= rows <= 10,
            0 < chip,
            0 < gap,
    ;
}

/// Icon-grid geometry for a panel of the given width: columns, left edge, cell size and the
/// distance from one cell to the next.
pub fn grid_metrics(width: i32, dpi: u32) -> (r: (i32, i32, i32, i32))
    requires
        valid_dpi(dpi),
    ensures
        (r.0 as int, r.1 as int, r.2 as int, r.3 as int) == grid(width as int, dpi as int),
        1 <= r.0 <= 10,
        0 < r.2 < r.3 <= 52 * 0x3_0000,
{
    let chip: i32 = px(theme::GRID_CHIP, dpi);
    let gap: i32 = px(theme::GRID_GAP, dpi);
    let step: i32 = chip + gap;
    let avail: i64 = width as i64 - px(theme::GRID_X + theme::RIGHT_PAD, dpi) as i64;
    let room: i64 = avail + gap as i64;
    let fit: i64 = if room < step as i64 {
        1
    } else {
        room / (step as i64)
    };
    proof {
        if room < step {
            assert(room as int / step as int <= 0) by (nonlinear_arith)
                requires
                    room < step,
                    step > 0,
            ;
        } else {
            assert(room as int / step as int >= 1) by (nonlinear_arith)
                requires
                    room >= step,
                    step > 0,
            ;
        }
    }
    let cols: i32 = if fit > 10 {
        10
    } else {
        fit as i32
    };
    proof {
        assert(cols == grid_cols(width as int, dpi as int));
        lemma_grid_bounds(width as int, dpi as int);
        assert(0 < cols * chip <= 10 * chip && 0 <= (cols - 1) * gap <= 9 * gap) by (nonlinear_arith)
            requires
                1 <= cols <= 10,
                0 < chip,
                0 < gap,
        ;
    }
    let grid_w: i32 = cols * chip + (cols - 1) * gap;
    let left: i64 = halved(width as i64 - grid_w as i64);
    (cols, left as i32, chip, step)
}

/// The icon grid's height, with its padding.
pub fn grid_px_height(width: i32, dpi: u32) -> (r: i32)
    requires
        valid_dpi(dpi),
    ensures
        r == grid_height(width as int, dpi as int),
        0 < r <= 600 * 0x3_0000,
{
    let (cols, _left, chip, step): (i32, i32, i32, i32) = grid_metrics(width, dpi);
    let gap: i32 = step - chip;
    let rows: i32 = (10 + cols - 1) / cols;
    proof {
        lemma_grid_bounds(width as int, dpi as int);
        assert(rows == grid_rows(width as int, dpi as int));
        assert(0 < rows * chip <= 10 * chip && 0 <= (rows - 1) * gap <= 9 * gap) by (nonlinear_arith)
            requires
                1 <= rows <= 10,
                0 < chip,
                0 < gap,
        ;
    }
    px(theme::GRID_TOP_PAD, dpi) + rows * chip + (rows - 1) * gap + px(theme::GRID_BOTTOM_PAD, dpi)
}

// Stacking.

/// The elements of one group, from the top down.
pub open spec fn group_elems(g: Group, gi: int) -> Seq<Elem> {
    let head = if g.default_id is Some {
        seq![Elem::Header(g.title), Elem::Slider { group: gi as usize }]
    } else {
        seq![Elem::Header(g.title)]
    };
    head + Seq::new(
        g.devices@.len(),
        |d: int| Elem::Device { group: gi as usize, dev: d as usize },
    )
}

/// The elements of the first `n` groups.
pub open spec fn groups_elems(groups: Seq<Group>, n: nat) -> Seq<Elem>
    decreases n,
{
    if n == 0 || n > groups.len() {
        Seq::empty()
    } else {
        groups_elems(groups, (n - 1) as nat) + group_elems(groups[n - 1], n - 1)
    }
}

/// The elements of a screen, from the top down.
pub open spec fn screen_elems(groups: Seq<Group>, screen: Screen) -> Seq<Elem> {
    match screen {
        Screen::Main => groups_elems(groups, groups.len()).push(Elem::Footer),
        Screen::IconPicker { group, dev } => seq![
            Elem::PickerHeader { group, dev },
            Elem::IconGrid { group, dev },
        ],
    }
}

/// How tall an element is. The first header sits at the very top, a later one keeps its distance
/// from the group above.
pub open spec fn elem_height(e: Elem, first: bool, width: int, dpi: int) -> int {
    match e {
        Elem::Header(_) => px_of(
            if first {
                theme::HEADER_FIRST_H as int
            } else {
                theme::HEADER_H as int
            },
            dpi,
        ),
        Elem::Slider { .. } => px_of(theme::SLIDER_H as int, dpi),
        Elem::Device { .. } => px_of(theme::ITEM_H as int, dpi),
        Elem::PickerHeader { .. } => px_of(theme::PICKER_HEADER_H as int, dpi),
        Elem::IconGrid { .. } => grid_height(width, dpi),
        Elem::Footer => px_of(theme::FOOTER_H as int, dpi),
    }
}

/// The gap above an element. It is outside the element, so a footer's hit band starts at its
/// hairline.
pub open spec fn gap_above(e: Elem, dpi: int) -> int {
    match e {
        Elem::Footer => px_of(theme::FOOTER_TOP_GAP as int, dpi),
        _ => 0,
    }
}

/// Where the first `i` elements end, counted from the panel's top.
pub open spec fn stacked(elems: Seq<Elem>, i: int, width: int, dpi: int) -> int
    decreases i,
{
    if i <= 0 {
        px_of(theme::PAD_V as int, dpi)
    } else {
        stacked(elems, i - 1, width, dpi) + gap_above(elems[i - 1], dpi) + elem_height(
            elems[i - 1],
            i == 1,
            width,
            dpi,
        )
    }
}

/// Whether a screen ends in the footer, which runs to the panel's bottom edge.
pub open spec fn ends_flush(elems: Seq<Elem>) -> bool {
    elems.len() > 0 && elems.last() is Footer
}

/// The height a screen takes of its own.
pub open spec fn natural_height(elems: Seq<Elem>, width: int, dpi: int) -> int {
    stacked(elems, elems.len() as int, width, dpi) + if ends_flush(elems) {
        0
    } else {
        px_of(theme::PAD_V as int, dpi)
    }
}

/// The height a screen is laid out to: its own, or the panel's if that is more.
pub open spec fn laid_height(elems: Seq<Elem>, width: int, dpi: int, fill_h: int) -> int {
    let natural = natural_height(elems, width, dpi);
    if natural < fill_h {
        fill_h
    } else {
        natural
    }
}

/// How far an element moves down when the panel has `slack` to spare: the icon grid to the middle of
/// it, the footer to its end.
pub open spec fn slack_shift(e: Elem, slack: int) -> int {
    match e {
        Elem::IconGrid { .. } => slack / 2,
        Elem::Footer => slack,
        _ => 0,
    }
}

/// Where element `i` of a screen starts.
pub open spec fn elem_top(elems: Seq<Elem>, i: int, width: int, dpi: int, fill_h: int) -> int {
    stacked(elems, i, width, dpi) + gap_above(elems[i], dpi) + slack_shift(
        elems[i],
        laid_height(elems, width, dpi, fill_h) - natural_height(elems, width, dpi),
    )
}

/// A screen laid out: its elements in order, each where it belongs, and the height of the whole.
pub open spec fn is_laid_out(
    laid: Seq<LaidElem>,
    total: int,
    elems: Seq<Elem>,
    width: int,
    dpi: int,
    fill_h: int,
) -> bool {
    &&& laid.len() == elems.len()
    &&& forall|i: int|
        0 <= i < laid.len() ==> {
            &&& (#[trigger] laid[i]).elem == elems[i]
            &&& laid[i].top == elem_top(elems, i, width, dpi, fill_h)
            &&& laid[i].height == elem_height(elems[i], i == 0, width, dpi)
        }
    &&& total == laid_height(elems, width, dpi, fill_h)
}

proof fn lemma_elem_height_bounds(e: Elem, first: bool, width: int, dpi: int)
    requires
        96 <= dpi <= 0x100_0000,
    ensures
        0 < elem_height(e, first, width, dpi) <= 600 * 0x3_0000,
        0 <= gap_above(e, dpi) <= 6 * 0x3_0000,
{
    lemma_px_bounds(theme::HEADER_FIRST_H as int, dpi);
    lemma_px_bounds(theme::HEADER_H as int, dpi);
    lemma_px_bounds(theme::SLIDER_H as int, dpi);
    lemma_px_bounds(theme::ITEM_H as int, dpi);
    lemma_px_bounds(theme::PICKER_HEADER_H as int, dpi);
    lemma_px_bounds(theme::FOOTER_H as int, dpi);
    lemma_px_bounds(theme::FOOTER_TOP_GAP as int, dpi);
    lemma_grid_bounds(width, dpi);
}

proof fn lemma_stacked_grows(elems: Seq<Elem>, i: int, j: int, width: int, dpi: int)
    requires
        96 <= dpi <= 0x100_0000,
        0 <= i <= j,
    ensures
        px_of(theme::PAD_V as int, dpi) <= stacked(elems, i, width, dpi),
        0 < px_of(theme::PAD_V as int, dpi),
        stacked(elems, i, width, dpi) <= stacked(elems, j, width, dpi),
    decreases j,
{
    lemma_px_bounds(theme::PAD_V as int, dpi);
    if j > 0 {
        lemma_elem_height_bounds(elems[j - 1], j == 1, width, dpi);
        if i < j {
            lemma_stacked_grows(elems, i, j - 1, width, dpi);
        } else {
            lemma_stacked_grows(elems, i - 1, j - 1, width, dpi);
        }
    }
}

/// The elements of a screen, from the top down.
fn list_elems(model: &Model, screen: Screen) -> (r: Vec<Elem>)
    ensures
        r@ == screen_elems(model.groups@, screen),
{
    let mut elems: Vec<Elem> = Vec::new();
    match screen {
        Screen::Main => {
            let mut gi: usize = 0;
            while gi < model.groups.len()
                invariant
                    gi <= model.groups@.len(),
                    elems@ == groups_elems(model.groups@, gi as nat),
                decreases model.groups@.len() - gi,
            {
                let g = &model.groups[gi];
                let ghost before = elems@;
                elems.push(Elem::Header(g.title));
                if g.default_id.is_some() {
                    elems.push(Elem::Slider { group: gi });
                }
                let ghost head = elems@;
                let mut di: usize = 0;
                while di < g.devices.len()
                    invariant
                        di <= g.devices@.len(),
                        elems@ == head + Seq::new(
                            di as nat,
                            |d: int| Elem::Device { group: gi, dev: d as usize },
                        ),
                    decreases g.devices@.len() - di,
                {
                    let ghost done = Seq::new(
                        di as nat,
                        |d: int| Elem::Device { group: gi, dev: d as usize },
                    );
                    elems.push(Elem::Device { group: gi, dev: di });
                    di = di + 1;
                    proof {
                        assert(elems@ =~= head + Seq::new(
                            di as nat,
                            |d: int| Elem::Device { group: gi, dev: d as usize },
                        ));
                    }
                }
                proof {
                    assert(elems@ =~= before + group_elems(*g, gi as int));
                }
                gi = gi + 1;
            }
            elems.push(Elem::Footer);
        },
        Screen::IconPicker { group, dev } => {
            elems.push(Elem::PickerHeader { group, dev });
            elems.push(Elem::IconGrid { group, dev });
            proof {
                assert(elems@ =~= screen_elems(model.groups@, screen));
            }
        },
    }
    elems
}

/// How tall an element is.
fn height_of(e: Elem, first: bool, width: i32, dpi: u32) -> (r: i32)
    requires
        valid_dpi(dpi),
    ensures
        r == elem_height(e, first, width as int, dpi as int),
        0 < r,
{
    match e {
        Elem::Header(_) => px(
            if first {
                theme::HEADER_FIRST_H
            } else {
                theme::HEADER_H
            },
            dpi,
        ),
        Elem::Slider { .. } => px(theme::SLIDER_H, dpi),
        Elem::Device { .. } => px(theme::ITEM_H, dpi),
        Elem::PickerHeader { .. } => px(theme::PICKER_HEADER_H, dpi),
        Elem::IconGrid { .. } => grid_px_height(width, dpi),
        Elem::Footer => px(theme::FOOTER_H, dpi),
    }
}

/// Lays out a screen in a panel of the given width, and says how tall it is. The layout is grown to
/// at least `fill_h`, the height that every screen shares; with zero it takes its own height.
pub fn build_view(model: &Model, dpi: u32, width: i32, screen: Screen, fill_h: i32) -> (r: (
    Vec<LaidElem>,
    i32,
))
    requires
        valid_dpi(dpi),
        natural_height(screen_elems(model.groups@, screen), width as int, dpi as int) <= i32::MAX,
    ensures
        is_laid_out(
            r.0@,
            r.1 as int,
            screen_elems(model.groups@, screen),
            width as int,
            dpi as int,
            fill_h as int,
        ),
{
    let kinds = list_elems(model, screen);
    let ghost elems = kinds@;
    let ghost (w, d) = (width as int, dpi as int);
    let ghost n = elems.len() as int;
    proof {
        lemma_px_bounds(theme::PAD_V as int, d);
        lemma_stacked_grows(elems, 0, n, w, d);
    }
    let mut laid: Vec<LaidElem> = Vec::new();
    let mut y: i32 = px(theme::PAD_V, dpi);
    let mut i: usize = 0;
    while i < kinds.len()
        invariant
            i <= kinds@.len(),
            valid_dpi(dpi),
            kinds@ == elems,
            n == elems.len(),
            w == width,
            d == dpi,
            stacked(elems, n, w, d) <= i32::MAX,
            y == stacked(elems, i as int, w, d),
            y > 0,
            laid@.len() == i,
            forall|k: int|
                0 <= k < i ==> {
                    &&& (#[trigger] laid@[k]).elem == elems[k]
                    &&& laid@[k].top == stacked(elems, k, w, d) + gap_above(elems[k], d)
                    &&& laid@[k].height == elem_height(elems[k], k == 0, w, d)
                },
        decreases kinds@.len() - i,
    {
        let elem = kinds[i];
        proof {
            lemma_stacked_grows(elems, i + 1, n, w, d);
            lemma_elem_height_bounds(elem, i == 0, w, d);
        }
        if let Elem::Footer = elem {
            y = y + px(theme::FOOTER_TOP_GAP, dpi);
        }
        let height: i32 = height_of(elem, i == 0, width, dpi);
        laid.push(LaidElem { elem, top: y, height });
        y = y + height;
        i = i + 1;
    }
    let flush = if kinds.len() > 0 {
        match kinds[kinds.len() - 1] {
            Elem::Footer => true,
            _ => false,
        }
    } else {
        false
    };
    let natural: i32 = if flush {
        y
    } else {
        y + px(theme::PAD_V, dpi)
    };
    let total: i32 = if natural < fill_h {
        fill_h
    } else {
        natural
    };
    let slack: i32 = total - natural;
    let mut k: usize = 0;
    while k < laid.len()
        invariant
            k <= laid@.len(),
            laid@.len() == n,
            valid_dpi(dpi),
            n == elems.len(),
            w == width,
            d == dpi,
            natural == natural_height(elems, w, d),
            total == laid_height(elems, w, d, fill_h as int),
            slack == total - natural,
            stacked(elems, n, w, d) <= natural,
            forall|j: int|
                0 <= j < n ==> {
                    &&& (#[trigger] laid@[j]).elem == elems[j]
                    &&& laid@[j].top == stacked(elems, j, w, d) + gap_above(elems[j], d) + if j < k {
                        slack_shift(elems[j], slack as int)
                    } else {
                        0
                    }
                    &&& laid@[j].height == elem_height(elems[j], j == 0, w, d)
                },
        decreases laid@.len() - k,
    {
        let le = laid[k];
        proof {
            lemma_stacked_grows(elems, k as int, n, w, d);
            lemma_stacked_grows(elems, k + 1, n, w, d);
            lemma_elem_height_bounds(elems[k as int], k == 0, w, d);
        }
        let shift: i32 = match le.elem {
            Elem::IconGrid { .. } => slack / 2,
            Elem::Footer => slack,
            _ => 0,
        };
        laid.set(k, LaidElem { elem: le.elem, top: le.top + shift, height: le.height });
        k = k + 1;
    }
    (laid, total)
}

/// Whether a screen's own height can be counted in pixels at all.
pub fn view_fits(model: &Model, dpi: u32, width: i32, screen: Screen) -> (r: bool)
    requires
        valid_dpi(dpi),
    ensures
        r == (natural_height(screen_elems(model.groups@, screen), width as int, dpi as int)
            <= i32::MAX),
{
    let kinds = list_elems(model, screen);
    let ghost (w, d) = (width as int, dpi as int);
    let mut y: i64 = px(theme::PAD_V, dpi) as i64;
    let mut i: usize = 0;
    while i < kinds.len()
        invariant
            i <= kinds@.len(),
            valid_dpi(dpi),
            kinds@ == screen_elems(model.groups@, screen),
            w == width,
            d == dpi,
            y == stacked(kinds@, i as int, w, d),
            0 < y <= i32::MAX,
        decreases kinds@.len() - i,
    {
        let elem = kinds[i];
        let gap: i64 = match elem {
            Elem::Footer => px(theme::FOOTER_TOP_GAP, dpi) as i64,
            _ => 0,
        };
        y = y + gap + height_of(elem, i == 0, width, dpi) as i64;
        i = i + 1;
        if y > i32::MAX as i64 {
            proof {
                lemma_stacked_grows(kinds@, i as int, kinds@.len() as int, w, d);
                lemma_px_bounds(theme::PAD_V as int, d);
            }
            return false;
        }
    }
    let flush = if kinds.len() > 0 {
        match kinds[kinds.len() - 1] {
            Elem::Footer => true,
            _ => false,
        }
    } else {
        false
    };
    let pad: i64 = if flush {
        0
    } else {
        px(theme::PAD_V, dpi) as i64
    };
    y + pad <= i32::MAX as i64
}

/// Whether some group has a device, and so an icon to pick.
pub open spec fn has_device(groups: Seq<Group>) -> bool {
    exists|g: int| 0 <= g < groups.len() && (#[trigger] groups[g]).devices@.len() > 0
}

/// The height that every screen shares: that of the tallest.
pub open spec fn shared_height(groups: Seq<Group>, width: int, dpi: int) -> int {
    let main = natural_height(screen_elems(groups, Screen::Main), width, dpi);
    let picker = if has_device(groups) {
        natural_height(screen_elems(groups, Screen::IconPicker { group: 0, dev: 0 }), width, dpi)
    } else {
        0
    };
    if main < picker {
        picker
    } else {
        main
    }
}

proof fn lemma_picker_height(groups: Seq<Group>, group: usize, dev: usize, width: int, dpi: int)
    requires
        96 <= dpi <= 0x100_0000,
    ensures
        natural_height(screen_elems(groups, Screen::IconPicker { group, dev }), width, dpi) == 2
            * px_of(theme::PAD_V as int, dpi) + px_of(theme::PICKER_HEADER_H as int, dpi)
            + grid_height(width, dpi),
        natural_height(screen_elems(groups, Screen::IconPicker { group, dev }), width, dpi) <= 700
            * 0x3_0000,
{
    let elems = screen_elems(groups, Screen::IconPicker { group, dev });
    reveal_with_fuel(stacked, 3);
    assert(elems.len() == 2);
    assert(elems.last() is IconGrid);
    lemma_px_bounds(theme::PAD_V as int, dpi);
    lemma_px_bounds(theme::PICKER_HEADER_H as int, dpi);
    lemma_grid_bounds(width, dpi);
}

/// The panel height that every screen shares, so that moving between them never resizes the window.
pub fn panel_height(model: &Model, dpi: u32, width: i32) -> (r: i32)
    requires
        valid_dpi(dpi),
        natural_height(screen_elems(model.groups@, Screen::Main), width as int, dpi as int)
            <= i32::MAX,
    ensures
        r == shared_height(model.groups@, width as int, dpi as int),
{
    let main_h: i32 = build_view(model, dpi, width, Screen::Main, 0).1;
    proof {
        let elems = screen_elems(model.groups@, Screen::Main);
        lemma_stacked_grows(elems, 0, elems.len() as int, width as int, dpi as int);
        lemma_px_bounds(theme::PAD_V as int, dpi as int);
        lemma_picker_height(model.groups@, 0, 0, width as int, dpi as int);
    }
    let mut any = false;
    let mut g: usize = 0;
    while g < model.groups.len() && !any
        invariant
            g <= model.groups@.len(),
            !any ==> forall|k: int|
                0 <= k < g ==> (#[trigger] model.groups@[k]).devices@.len() == 0,
            any ==> has_device(model.groups@),
        decreases model.groups@.len() - g,
    {
        if model.groups[g].devices.len() > 0 {
            proof {
                assert(model.groups@[g as int].devices@.len() > 0);
            }
            any = true;
        }
        g = g + 1;
    }
    let picker_h: i32 = if any {
        build_view(model, dpi, width, Screen::IconPicker { group: 0, dev: 0 }, 0).1
    } else {
        0
    };
    proof {
        if any {
            let elems = screen_elems(model.groups@, Screen::IconPicker { group: 0, dev: 0 });
            lemma_stacked_grows(elems, 0, elems.len() as int, width as int, dpi as int);
        }
    }
    if main_h < picker_h {
        picker_h
    } else {
        main_h
    }
}

/// The main panel always ends in its footer, flush with the bottom edge however tall the panel is.
pub proof fn law_the_footer_closes_the_panel(
    groups: Seq<Group>,
    laid: Seq<LaidElem>,
    total: int,
    width: int,
    dpi: u32,
    fill_h: int,
)
    requires
        valid_dpi(dpi),
        is_laid_out(laid, total, screen_elems(groups, Screen::Main), width, dpi as int, fill_h),
    ensures
        laid.len() > 0,
        laid.last().elem is Footer,
        laid.last().top + laid.last().height == total,
{
    let elems = screen_elems(groups, Screen::Main);
    let n = elems.len() as int;
    assert(elems.last() is Footer);
    assert(laid[n - 1].elem == elems[n - 1]);
    if n == 1 {
        assert(groups_elems(groups, groups.len()).len() == 0);
    }
}

/// Elements never overlap and never leave the panel: each starts where the one above it has ended
/// or below, and the last ends at or above the panel's bottom edge.
pub proof fn law_elements_are_stacked(
    laid: Seq<LaidElem>,
    total: int,
    groups: Seq<Group>,
    screen: Screen,
    width: int,
    dpi: u32,
    fill_h: int,
    i: int,
    j: int,
)
    requires
        valid_dpi(dpi),
        is_laid_out(laid, total, screen_elems(groups, screen), width, dpi as int, fill_h),
        0 <= i < j < laid.len(),
    ensures
        0 <= laid[i].top,
        0 < laid[i].height,
        laid[i].top + laid[i].height <= laid[j].top,
        0 < laid[j].height,
        laid[j].top + laid[j].height <= total,
{
    let elems = screen_elems(groups, screen);
    let d = dpi as int;
    lemma_only_the_last_moves(groups, screen);
    lemma_stacked_grows(elems, i, elems.len() as int, width, d);
    lemma_stacked_grows(elems, i + 1, j, width, d);
    lemma_stacked_grows(elems, j + 1, elems.len() as int, width, d);
    lemma_stacked_grows(elems, j, elems.len() as int, width, d);
    lemma_elem_height_bounds(elems[i], i == 0, width, d);
    lemma_elem_height_bounds(elems[j], j == 0, width, d);
    assert(laid[i].elem == elems[i]);
    assert(laid[j].elem == elems[j]);
}

proof fn lemma_only_the_last_moves(groups: Seq<Group>, screen: Screen)
    ensures
        forall|i: int|
            0 <= i < screen_elems(groups, screen).len() - 1 ==> !(#[trigger] screen_elems(
                groups,
                screen,
            )[i] is Footer) && !(screen_elems(groups, screen)[i] is IconGrid),
{
    if let Screen::Main = screen {
        lemma_groups_have_no_footer(groups, groups.len());
        let elems = screen_elems(groups, screen);
        assert forall|i: int| 0 <= i < elems.len() - 1 implies !(#[trigger] elems[i] is Footer)
            && !(elems[i] is IconGrid) by {
            assert(elems[i] == groups_elems(groups, groups.len())[i]);
        }
    }
}

proof fn lemma_groups_have_no_footer(groups: Seq<Group>, n: nat)
    ensures
        forall|i: int|
            0 <= i < groups_elems(groups, n).len() ==> !(#[trigger] groups_elems(groups, n)[i]
                is Footer) && !(groups_elems(groups, n)[i] is IconGrid),
    decreases n,
{
    if 0 < n <= groups.len() {
        lemma_groups_have_no_footer(groups, (n - 1) as nat);
        let before = groups_elems(groups, (n - 1) as nat);
        let own = group_elems(groups[n - 1], n - 1);
        assert forall|i: int| 0 <= i < groups_elems(groups, n).len() implies !(
        #[trigger] groups_elems(groups, n)[i] is Footer) && !(groups_elems(groups, n)[i]
            is IconGrid) by {
            if i < before.len() {
                assert(groups_elems(groups, n)[i] == before[i]);
            } else {
                assert(groups_elems(groups, n)[i] == own[i - before.len()]);
            }
        }
    }
}

/// A screen that is stretched to the panel's height moves its footer down by what was added, and
/// its icon grid by half of that, and nothing else.
pub proof fn law_stretching_moves_only_the_last(
    groups: Seq<Group>,
    screen: Screen,
    width: int,
    dpi: u32,
    extra: int,
    i: int,
)
    requires
        valid_dpi(dpi),
        0 <= extra,
        0 <= i < screen_elems(groups, screen).len(),
    ensures
        ({
            let elems = screen_elems(groups, screen);
            let natural = natural_height(elems, width, dpi as int);
            let top = elem_top(elems, i, width, dpi as int, 0);
            let stretched = elem_top(elems, i, width, dpi as int, natural + extra);
            &&& laid_height(elems, width, dpi as int, natural + extra) == natural + extra
            &&& elems[i] is Footer ==> stretched == top + extra
            &&& elems[i] is IconGrid ==> stretched == top + extra / 2
            &&& !(elems[i] is Footer) && !(elems[i] is IconGrid) ==> stretched == top
        }),
{
    let elems = screen_elems(groups, screen);
    lemma_stacked_grows(elems, 0, elems.len() as int, width, dpi as int);
    lemma_px_bounds(theme::PAD_V as int, dpi as int);
}

/// Which element of the main panel is the header of group `g`: the number of those above it.
pub open spec fn group_place(groups: Seq<Group>, g: int) -> int {
    groups_elems(groups, g as nat).len() as int
}

/// How many elements stand between a group's header and its devices: its slider, where there is a
/// device to set the volume of.
pub open spec fn sliders_of(g: Group) -> int {
    if g.default_id is Some {
        1
    } else {
        0
    }
}

/// Whether a laid out screen holds group `g` in its place: its header, its slider where it has a
/// default, and all its devices in order, right above the next group.
pub open spec fn holds_group(laid: Seq<LaidElem>, groups: Seq<Group>, g: int) -> bool {
    let at = group_place(groups, g);
    let first = at + 1 + sliders_of(groups[g]);
    &&& group_place(groups, g + 1) == first + groups[g].devices@.len()
    &&& group_place(groups, g + 1) < laid.len()
    &&& laid[at].elem == Elem::Header(groups[g].title)
    &&& groups[g].default_id is Some ==> laid[at + 1].elem == (Elem::Slider { group: g as usize })
    &&& forall|d: int|
        0 <= d < groups[g].devices@.len() ==> (#[trigger] laid[first + d]).elem == (Elem::Device {
            group: g as usize,
            dev: d as usize,
        })
}

/// Whether a laid out screen is the main panel of the given groups from the top down: each of them in
/// turn, and last the footer, which stands nowhere else.
pub open spec fn is_main_panel(laid: Seq<LaidElem>, groups: Seq<Group>) -> bool {
    &&& group_place(groups, 0) == 0
    &&& laid.len() == group_place(groups, groups.len() as int) + 1
    &&& laid.last().elem is Footer
    &&& forall|i: int| 0 <= i < laid.len() - 1 ==> !((#[trigger] laid[i]).elem is Footer)
    &&& forall|g: int| 0 <= g < groups.len() ==> #[trigger] holds_group(laid, groups, g)
}

/// The main panel holds every group and closes with one footer, its elements stand one below the other,
/// and it is as tall as it needs to be or as it is asked to be, whichever is more. Its footer ends at the
/// bottom edge; everything else stands where it does without being stretched.
pub proof fn law_the_main_panel_is_laid_out(
    groups: Seq<Group>,
    own: Seq<LaidElem>,
    natural: int,
    laid: Seq<LaidElem>,
    total: int,
    width: int,
    dpi: u32,
    fill_h: int,
)
    requires
        valid_dpi(dpi),
        is_laid_out(own, natural, screen_elems(groups, Screen::Main), width, dpi as int, 0),
        is_laid_out(laid, total, screen_elems(groups, Screen::Main), width, dpi as int, fill_h),
    ensures
        is_main_panel(laid, groups),
        total == (if natural < fill_h {
            fill_h
        } else {
            natural
        }),
        laid.last().top + laid.last().height == total,
        forall|i: int|
            0 <= i < laid.len() - 1 ==> (#[trigger] laid[i]).top + laid[i].height <= laid[i + 1].top,
        own.len() == laid.len(),
        forall|i: int| 0 <= i < laid.len() - 1 ==> #[trigger] laid[i] == own[i],
{
    let elems = screen_elems(groups, Screen::Main);
    let d = dpi as int;
    law_the_footer_closes_the_panel(groups, laid, total, width, dpi, fill_h);
    lemma_stacked_grows(elems, 0, elems.len() as int, width, d);
    lemma_only_the_last_moves(groups, Screen::Main);
    assert forall|i: int| 0 <= i < laid.len() - 1 implies (#[trigger] laid[i]).top + laid[i].height
        <= laid[i + 1].top by {
        law_elements_are_stacked(
            laid,
            total,
            groups,
            Screen::Main,
            width,
            dpi,
            fill_h,
            i,
            i + 1,
        );
    }
    assert forall|i: int| 0 <= i < laid.len() - 1 implies #[trigger] laid[i] == own[i] by {
        assert(own[i].elem == elems[i]);
    }
    assert forall|i: int| 0 <= i < laid.len() - 1 implies !((#[trigger] laid[i]).elem is Footer) by {
        assert(laid[i].elem == elems[i]);
    }
    assert forall|g: int| 0 <= g < groups.len() implies #[trigger] holds_group(laid, groups, g) by {
        lemma_main_panel_holds_group(laid, groups, g);
    }
}

proof fn lemma_main_panel_holds_group(laid: Seq<LaidElem>, groups: Seq<Group>, g: int)
    requires
        0 <= g < groups.len(),
        laid.len() == screen_elems(groups, Screen::Main).len(),
        forall|i: int|
            0 <= i < laid.len() ==> (#[trigger] laid[i]).elem == screen_elems(groups, Screen::Main)[i],
    ensures
        holds_group(laid, groups, g),
{
    let own = group_elems(groups[g], g);
    let at = group_place(groups, g);
    let first = at + 1 + sliders_of(groups[g]);
    let all = groups_elems(groups, groups.len());
    lemma_group_stands_in_its_place(groups, groups.len(), g);
    assert forall|k: int| 0 <= k < own.len() implies #[trigger] own[k] == laid[at + k].elem by {
        assert(all.subrange(at, at + own.len())[k] == all[at + k]);
    }
    assert(own[0] == laid[at + 0].elem);
    if groups[g].default_id is Some {
        assert(own[1] == laid[at + 1].elem);
    }
    assert forall|d: int| 0 <= d < groups[g].devices@.len() implies (#[trigger] laid[first + d]).elem
        == (Elem::Device { group: g as usize, dev: d as usize }) by {
        let k = 1 + sliders_of(groups[g]) + d;
        assert(own[k] == laid[at + k].elem);
    }
}

proof fn lemma_group_stands_in_its_place(groups: Seq<Group>, n: nat, g: int)
    requires
        0 <= g < n <= groups.len(),
    ensures
        ({
            let at = group_place(groups, g);
            let own = group_elems(groups[g], g);
            &&& at + own.len() == group_place(groups, g + 1)
            &&& at + own.len() <= groups_elems(groups, n).len()
            &&& groups_elems(groups, n).subrange(at, at + own.len()) == own
        }),
    decreases n,
{
    let at = group_place(groups, g);
    let own = group_elems(groups[g], g);
    let before = groups_elems(groups, (n - 1) as nat);
    let all = groups_elems(groups, n);
    assert(all == before + group_elems(groups[n - 1], n - 1));
    assert(groups_elems(groups, (g + 1) as nat) == groups_elems(groups, g as nat) + own);
    if g == n - 1 {
        assert(all.subrange(at, at + own.len()) =~= own);
    } else {
        lemma_group_stands_in_its_place(groups, (n - 1) as nat, g);
        assert(all.subrange(at, at + own.len()) =~= before.subrange(at, at + own.len()));
    }
}

/// Moving between the screens never resizes the panel: the main panel and every device's icon
/// picker, laid out to the shared height, are exactly that tall.
pub proof fn law_every_screen_is_as_tall_as_the_panel(
    groups: Seq<Group>,
    group: usize,
    dev: usize,
    width: int,
    dpi: u32,
)
    requires
        valid_dpi(dpi),
        group < groups.len(),
        dev < groups[group as int].devices@.len(),
    ensures
        ({
            let h = shared_height(groups, width, dpi as int);
            &&& laid_height(screen_elems(groups, Screen::Main), width, dpi as int, h) == h
            &&& laid_height(
                screen_elems(groups, Screen::IconPicker { group, dev }),
                width,
                dpi as int,
                h,
            ) == h
        }),
{
    assert(groups[group as int].devices@.len() > 0);
    lemma_picker_height(groups, group, dev, width, dpi as int);
    lemma_picker_height(groups, 0, 0, width, dpi as int);
}

/// A dimension in ninety-sixths of a pixel.
pub open spec fn span(dips: int, dpi: int) -> int {
    dips * dpi
}

/// A dimension in ninety-sixths of a pixel.
pub(crate) fn span_of(dips: i32, dpi: u32) -> (r: i64)
    requires
        0 <= dips <= 1024,
        valid_dpi(dpi),
    ensures
        r == span(dips as int, dpi as int),
        0 <= r <= 0x4_0000_0000,
{
    proof {
        lemma_px_bounds(dips as int, dpi as int);
    }
    dips as i64 * dpi as i64
}

/// A dimension is no shorter than its pixels at the coarsest resolution, and no longer than a machine
/// word counts.
pub proof fn lemma_span_bounds(dips: int, dpi: int)
    requires
        0 <= dips <= 1024,
        96 <= dpi <= 0x100_0000,
    ensures
        96 * dips <= span(dips, dpi) <= 0x4_0000_0000,
{
    assert(dips * 96 <= dips * dpi <= dips * 0x100_0000) by (nonlinear_arith)
        requires
            0 <= dips,
            96 <= dpi <= 0x100_0000,
    ;
}

proof fn lemma_span_steps(a: int, b: int, dpi: int)
    ensures
        span(a + b, dpi) == span(a, dpi) + span(b, dpi),
        96 <= dpi && a < b ==> span(a, dpi) + dpi <= span(b, dpi),
        span(0, dpi) == 0,
{
    assert((a + b) * dpi == a * dpi + b * dpi) by (nonlinear_arith);
    if 96 <= dpi && a < b {
        assert(a * dpi + dpi <= b * dpi) by (nonlinear_arith)
            requires
                96 <= dpi,
                a < b,
        ;
    }
    assert(0 * dpi == 0);
}

// The footer. Horizontal positions are in ninety-sixths of a pixel.

/// The footer's buttons, rightmost first.
pub open spec fn buttons(update: bool) -> Seq<ActionKind> {
    if update {
        seq![ActionKind::SoundSettings, ActionKind::RestartExplorer, ActionKind::Restart]
    } else {
        seq![ActionKind::SoundSettings, ActionKind::RestartExplorer]
    }
}

/// The footer's round icon buttons, rightmost first: the settings gear, the restart of the shell,
/// and, while an update is staged, the restart into it. The permanent ones keep their places, so
/// that no button ever moves under the pointer.
pub fn footer_buttons(model: &Model) -> (r: Vec<ActionKind>)
    ensures
        r@ == buttons(model.update is Some),
{
    let mut out: Vec<ActionKind> = Vec::new();
    out.push(ActionKind::SoundSettings);
    out.push(ActionKind::RestartExplorer);
    if model.update.is_some() {
        out.push(ActionKind::Restart);
    }
    proof {
        assert(out@ =~= buttons(model.update is Some));
    }
    out
}

/// The centre of footer button `i`, counted from the right.
pub open spec fn button_centre(width: int, dpi: int, i: int) -> int {
    96 * width - span(
        theme::FOOTER_BTN_RIGHT + theme::FOOTER_BTN / 2 + i * (theme::FOOTER_BTN
            + theme::FOOTER_BTN_GAP),
        dpi,
    )
}

/// The centre of footer button `i`, counted from the right, in ninety-sixths of a pixel: the place
/// of its hit area, its disc and its glyph.
pub fn footer_btn_center_x(width: i32, dpi: u32, i: usize) -> (r: i64)
    requires
        valid_dpi(dpi),
        i <= u32::MAX,
    ensures
        r == button_centre(width as int, dpi as int, i as int),
        i < 16 ==> -0x80_0000_0000 <= r <= 0x80_0000_0000,
{
    let step: i64 = (theme::FOOTER_BTN + theme::FOOTER_BTN_GAP) as i64;
    let first: i64 = (theme::FOOTER_BTN_RIGHT + theme::FOOTER_BTN / 2) as i64;
    proof {
        assert(0 <= i * step <= u32::MAX * 36) by (nonlinear_arith)
            requires
                i <= u32::MAX,
                step == 36,
        ;
    }
    let from_right: i64 = first + i as i64 * step;
    proof {
        assert(0 <= from_right * dpi <= (25 + u32::MAX * 36) * 0x100_0000) by (nonlinear_arith)
            requires
                0 <= from_right <= 25 + u32::MAX * 36,
                dpi <= 0x100_0000,
        ;
        if i < 16 {
            assert(from_right * dpi <= (25 + 16 * 36) * 0x100_0000) by (nonlinear_arith)
                requires
                    from_right == 25 + i * 36,
                    i < 16,
                    dpi <= 0x100_0000,
            ;
        }
    }
    96 * width as i64 - from_right * dpi as i64
}

/// The width of a text, measured in ninety-sixths of a pixel and rounded both ways.
#[derive(Debug, Clone, Copy, PartialEq, Eq, Structural)]
pub struct TextWidth {
    pub down: u32,
    pub up: u32,
}

/// The right edge of the footer's labelled item, for the given width of its label.
pub open spec fn item_right(dpi: int, label: int) -> int {
    span(theme::FOOTER_TEXT_X + theme::FOOTER_ITEM_PAD, dpi) + label
}

/// The right edge of the footer's labelled item, in ninety-sixths of a pixel, rounded down: its
/// highlight and its hit area, so that the highlight is exactly what responds.
pub fn footer_item_right(dpi: u32, label: TextWidth) -> (r: i64)
    requires
        valid_dpi(dpi),
    ensures
        r == item_right(dpi as int, label.down as int),
{
    span_of(theme::FOOTER_TEXT_X + theme::FOOTER_ITEM_PAD, dpi) + label.down as i64
}

/// The narrowest panel the footer fits in: its item, a gap, and its buttons.
pub open spec fn footer_needs(update: bool, dpi: int, label: int) -> int {
    let n = buttons(update).len() as int;
    item_right(dpi, label) + span(
        theme::FOOTER_GAP + n * theme::FOOTER_BTN + (n - 1) * theme::FOOTER_BTN_GAP
            + theme::FOOTER_BTN_RIGHT,
        dpi,
    )
}

/// The narrowest panel the footer fits in, in ninety-sixths of a pixel, rounded up.
pub fn footer_min_width(model: &Model, dpi: u32, label: TextWidth) -> (r: i64)
    requires
        valid_dpi(dpi),
    ensures
        r == footer_needs(model.update is Some, dpi as int, label.up as int),
        0 <= r <= 0x10_0000_0000,
{
    let n: i32 = if model.update.is_some() {
        3
    } else {
        2
    };
    let right: i32 = theme::FOOTER_GAP + n * theme::FOOTER_BTN + (n - 1) * theme::FOOTER_BTN_GAP
        + theme::FOOTER_BTN_RIGHT;
    span_of(theme::FOOTER_TEXT_X + theme::FOOTER_ITEM_PAD, dpi) + label.up as i64 + span_of(
        right,
        dpi,
    )
}

/// Whether a pixel column is over footer button `i`.
pub open spec fn over_button(width: int, dpi: int, i: int, mx: int) -> bool {
    let off = 96 * mx - button_centre(width, dpi, i);
    -span(theme::FOOTER_BTN as int / 2, dpi) <= off <= span(theme::FOOTER_BTN as int / 2, dpi)
}

/// Whether a pixel column is over the footer's labelled item.
pub open spec fn over_item(dpi: int, label: int, mx: int) -> bool {
    span(theme::ROW_MARGIN as int, dpi) <= 96 * mx <= item_right(dpi, label)
}

/// What a pixel column of the footer is over: the rightmost button there, or else the item, or else
/// nothing.
pub open spec fn footer_at(update: bool, width: int, dpi: int, label: int, mx: int) -> Option<ActionKind> {
    if over_button(width, dpi, 0, mx) {
        Some(ActionKind::SoundSettings)
    } else if over_button(width, dpi, 1, mx) {
        Some(ActionKind::RestartExplorer)
    } else if update && over_button(width, dpi, 2, mx) {
        Some(ActionKind::Restart)
    } else if over_item(dpi, label, mx) {
        Some(ActionKind::Quit)
    } else {
        None
    }
}

/// Which footer action is under a pixel column. The strip between the labelled item and the buttons
/// is inert, so that a click on the empty middle does nothing rather than quit.
pub fn footer_hit(model: &Model, width: i32, dpi: u32, label: TextWidth, mx: i32) -> (r: Option<
    ActionKind,
>)
    requires
        valid_dpi(dpi),
    ensures
        r == footer_at(
            model.update is Some,
            width as int,
            dpi as int,
            label.down as int,
            mx as int,
        ),
{
    let x: i64 = 96 * mx as i64;
    let radius: i64 = span_of(theme::FOOTER_BTN / 2, dpi);
    let all = footer_buttons(model);
    let mut i: usize = 0;
    while i < all.len()
        invariant
            i <= all@.len(),
            all@ == buttons(model.update is Some),
            valid_dpi(dpi),
            x == 96 * mx,
            radius == span(theme::FOOTER_BTN as int / 2, dpi as int),
            0 <= radius <= 0x4_0000_0000,
            forall|k: int|
                0 <= k < i ==> !#[trigger] over_button(width as int, dpi as int, k, mx as int),
        decreases all@.len() - i,
    {
        let off: i64 = x - footer_btn_center_x(width, dpi, i);
        if -radius <= off && off <= radius {
            proof {
                assert(over_button(width as int, dpi as int, i as int, mx as int));
            }
            return Some(all[i]);
        }
        i = i + 1;
    }
    proof {
        assert(!over_button(width as int, dpi as int, 0, mx as int));
        assert(!over_button(width as int, dpi as int, 1, mx as int));
        assert(model.update is Some ==> !over_button(width as int, dpi as int, 2, mx as int));
    }
    if x >= span_of(theme::ROW_MARGIN, dpi) && x <= footer_item_right(dpi, label) {
        Some(ActionKind::LEFT)
    } else {
        None
    }
}

/// The restart of the shell is offered exactly once whatever the state, and the permanent buttons
/// keep their places when an update is staged: the restart into it comes to their left.
pub proof fn law_permanent_buttons_stay(update: bool)
    ensures
        buttons(update)[0] == ActionKind::SoundSettings,
        buttons(update)[1] == ActionKind::RestartExplorer,
        forall|i: int|
            0 <= i < buttons(update).len() && buttons(update)[i] == ActionKind::RestartExplorer
                ==> i == 1,
        update <==> buttons(update).contains(ActionKind::Restart),
        !buttons(update).contains(ActionKind::LEFT),
{
    if update {
        assert(buttons(update)[2] == ActionKind::Restart);
    }
}

/// Each button is fully left of the one before it, so that no pixel column is over two.
pub proof fn law_buttons_are_apart(width: int, dpi: u32, i: int, j: int, mx: int)
    requires
        valid_dpi(dpi),
        0 <= i < j,
        over_button(width, dpi as int, i, mx),
    ensures
        button_centre(width, dpi as int, j) < button_centre(width, dpi as int, i) - span(
            theme::FOOTER_BTN as int,
            dpi as int,
        ),
        !over_button(width, dpi as int, j, mx),
{
    let d = dpi as int;
    let step = theme::FOOTER_BTN + theme::FOOTER_BTN_GAP;
    let (ci, cj) = (25 + i * step, 25 + j * step);
    assert(j * step >= i * step + step) by (nonlinear_arith)
        requires
            i < j,
            step > 0,
    ;
    lemma_span_steps(ci + theme::FOOTER_BTN, cj, d);
    lemma_span_steps(ci, theme::FOOTER_BTN as int, d);
    lemma_span_steps(theme::FOOTER_BTN as int / 2, theme::FOOTER_BTN as int / 2, d);
}

/// In a panel wide enough for its footer, every button clears the labelled item, and a column
/// between the item and the leftmost button is over nothing.
pub proof fn law_the_footer_fits(update: bool, width: int, dpi: u32, label: TextWidth, mx: int)
    requires
        valid_dpi(dpi),
        label.down <= label.up,
        96 * width >= footer_needs(update, dpi as int, label.up as int),
    ensures
        ({
            let last = buttons(update).len() - 1;
            let left = button_centre(width, dpi as int, last) - span(
                theme::FOOTER_BTN as int / 2,
                dpi as int,
            );
            &&& item_right(dpi as int, label.up as int) < left
            &&& item_right(dpi as int, label.down as int) < 96 * mx < left ==> footer_at(
                update,
                width,
                dpi as int,
                label.down as int,
                mx,
            ) is None
            &&& over_item(dpi as int, label.down as int, mx) ==> footer_at(
                update,
                width,
                dpi as int,
                label.down as int,
                mx,
            ) == Some(ActionKind::LEFT)
        }),
{
    let d = dpi as int;
    let n = buttons(update).len() as int;
    let last = 25 + (n - 1) * (theme::FOOTER_BTN + theme::FOOTER_BTN_GAP);
    let right = theme::FOOTER_GAP + n * theme::FOOTER_BTN + (n - 1) * theme::FOOTER_BTN_GAP
        + theme::FOOTER_BTN_RIGHT;
    assert(last + 16 + 8 == right);
    lemma_span_steps(last, 16, d);
    lemma_span_steps(last + 16, 8, d);
    lemma_span_steps(0, 8, d);
    if over_item(d, label.down as int, mx) || item_right(d, label.down as int) < 96 * mx
        < button_centre(width, d, n - 1) - span(16, d) {
        assert(!over_button(width, d, n - 1, mx));
        assert(button_centre(width, d, n - 1) <= button_centre(width, d, 0)) by {
            lemma_span_steps(25, (n - 1) * (theme::FOOTER_BTN + theme::FOOTER_BTN_GAP), d);
            lemma_span_steps(0, (n - 1) * (theme::FOOTER_BTN + theme::FOOTER_BTN_GAP), d);
        }
        assert(button_centre(width, d, n - 1) <= button_centre(width, d, 1)) by {
            lemma_span_steps(61, (n - 2) * (theme::FOOTER_BTN + theme::FOOTER_BTN_GAP), d);
            lemma_span_steps(0, (n - 2) * (theme::FOOTER_BTN + theme::FOOTER_BTN_GAP), d);
        }
        assert(!over_button(width, d, 0, mx));
        assert(!over_button(width, d, 1, mx));
    }
}

/// A button answers at the pixel column nearest its centre.
pub proof fn law_a_button_answers_at_its_centre(update: bool, width: int, dpi: u32, label: int, i: int, mx: int)
    requires
        valid_dpi(dpi),
        0 <= i < buttons(update).len(),
        -48 <= 96 * mx - button_centre(width, dpi as int, i) <= 48,
    ensures
        footer_at(update, width, dpi as int, label, mx) == Some(buttons(update)[i]),
{
    let d = dpi as int;
    lemma_span_steps(0, 16, d);
    assert(over_button(width, d, i, mx));
    if i > 0 && over_button(width, d, 0, mx) {
        law_buttons_are_apart(width, dpi, 0, i, mx);
    }
    if i > 1 && over_button(width, d, 1, mx) {
        law_buttons_are_apart(width, dpi, 1, i, mx);
    }
}

// The panel's width.

/// The widths of the texts on the main panel, in ninety-sixths of a pixel, rounded up: each group's
/// title, each group's device labels, and the footer item's label.
pub struct Measured {
    pub titles: Vec<u32>,
    pub labels: Vec<Vec<u32>>,
    pub item: TextWidth,
}

impl Measured {
    /// There is a width for every text.
    pub open spec fn measures(&self, groups: Seq<Group>) -> bool {
        &&& self.titles@.len() == groups.len()
        &&& self.labels@.len() == groups.len()
        &&& forall|g: int|
            0 <= g < groups.len() ==> (#[trigger] self.labels@[g])@.len()
                == groups[g].devices@.len()
    }
}

/// The larger of two lengths.
pub open spec fn longer(a: int, b: int) -> int {
    if a < b {
        b
    } else {
        a
    }
}

/// What a device's row needs: its label, and on the right the space for a battery or a pencil.
pub open spec fn row_needs(battery: bool, label: int, dpi: int) -> int {
    span(
        theme::TEXT_X + if battery {
            theme::BATTERY_W
        } else {
            theme::PENCIL_W
        },
        dpi,
    ) + label
}

/// What the first `n` rows of a group need.
pub open spec fn rows_need(g: Group, labels: Seq<u32>, n: int, dpi: int) -> int
    decreases n,
{
    if n <= 0 {
        0
    } else {
        longer(
            rows_need(g, labels, n - 1, dpi),
            row_needs(g.devices@[n - 1].battery is Some, labels[n - 1] as int, dpi),
        )
    }
}

/// What a group's header and slider need.
pub open spec fn head_needs(g: Group, title: int, dpi: int) -> int {
    longer(
        span(theme::HEADER_X + theme::RIGHT_PAD, dpi) + title,
        if g.default_id is Some {
            span(theme::TRACK_X0 + theme::TRACK_MIN_W + theme::VALUE_W, dpi)
        } else {
            0
        },
    )
}

/// What the first `n` groups need.
pub open spec fn groups_need(groups: Seq<Group>, m: Measured, n: int, dpi: int) -> int
    decreases n,
{
    if n <= 0 {
        0
    } else {
        longer(
            groups_need(groups, m, n - 1, dpi),
            longer(
                head_needs(groups[n - 1], m.titles@[n - 1] as int, dpi),
                rows_need(
                    groups[n - 1],
                    m.labels@[n - 1]@,
                    groups[n - 1].devices@.len() as int,
                    dpi,
                ),
            ),
        )
    }
}

/// What the main panel needs, in ninety-sixths of a pixel.
pub open spec fn panel_needs(groups: Seq<Group>, update: bool, m: Measured, dpi: int) -> int {
    longer(
        groups_need(groups, m, groups.len() as int, dpi),
        footer_needs(update, dpi, m.item.up as int),
    )
}

/// The panel's width: what its content needs, held between the least and the most, in whole pixels
/// rounded up. Rounding down would make the panel narrower than a text it was measured from.
pub open spec fn panel_width(needs: int, dpi: int) -> int {
    let held = if needs < span(theme::MIN_W as int, dpi) {
        span(theme::MIN_W as int, dpi)
    } else if needs > span(theme::MAX_W as int, dpi) {
        span(theme::MAX_W as int, dpi)
    } else {
        needs
    };
    (held + 95) / 96
}

fn max(a: i64, b: i64) -> (r: i64)
    ensures
        r == longer(a as int, b as int),
{
    if a < b {
        b
    } else {
        a
    }
}

/// The panel's width, from the main panel's content alone: it holds for every screen, and the icon
/// picker wraps into it.
pub fn content_width(model: &Model, dpi: u32, measured: &Measured) -> (r: i32)
    requires
        valid_dpi(dpi),
        measured.measures(model.groups@),
    ensures
        r == panel_width(
            panel_needs(model.groups@, model.update is Some, *measured, dpi as int),
            dpi as int,
        ),
{
    let mut need: i64 = 0;
    let mut g: usize = 0;
    while g < model.groups.len()
        invariant
            g <= model.groups@.len(),
            valid_dpi(dpi),
            measured.measures(model.groups@),
            need == groups_need(model.groups@, *measured, g as int, dpi as int),
            0 <= need <= 0x10_0000_0000,
        decreases model.groups@.len() - g,
    {
        let group = &model.groups[g];
        proof {
            assert(measured.labels@[g as int]@.len() == group.devices@.len());
        }
        let head: i64 = span_of(theme::HEADER_X + theme::RIGHT_PAD, dpi) + measured.titles[g]
            as i64;
        let slider: i64 = if group.default_id.is_some() {
            span_of(theme::TRACK_X0 + theme::TRACK_MIN_W + theme::VALUE_W, dpi)
        } else {
            0
        };
        let mut rows: i64 = 0;
        let mut i: usize = 0;
        while i < group.devices.len()
            invariant
                i <= group.devices@.len(),
                group == &model.groups@[g as int],
                g < model.groups@.len(),
                valid_dpi(dpi),
                measured.measures(model.groups@),
                measured.labels@[g as int]@.len() == group.devices@.len(),
                rows == rows_need(*group, measured.labels@[g as int]@, i as int, dpi as int),
                0 <= rows <= 0x10_0000_0000,
            decreases group.devices@.len() - i,
        {
            let reserve: i32 = if group.devices[i].battery.is_some() {
                theme::BATTERY_W
            } else {
                theme::PENCIL_W
            };
            let row: i64 = span_of(theme::TEXT_X + reserve, dpi) + measured.labels[g][i] as i64;
            rows = max(rows, row);
            i = i + 1;
        }
        need = max(need, max(max(head, slider), rows));
        g = g + 1;
    }
    need = max(need, footer_min_width(model, dpi, measured.item));
    let least: i64 = span_of(theme::MIN_W, dpi);
    let most: i64 = span_of(theme::MAX_W, dpi);
    proof {
        lemma_span_steps(theme::MIN_W as int, theme::MAX_W as int, dpi as int);
    }
    let held: i64 = if need < least {
        least
    } else if need > most {
        most
    } else {
        need
    };
    ((held + 95) / 96) as i32
}

/// The panel's width stays between its least and its most.
pub proof fn law_width_is_within_its_limits(needs: int, dpi: u32)
    requires
        valid_dpi(dpi),
    ensures
        px_of(theme::MIN_W as int, dpi as int) <= panel_width(needs, dpi as int),
        96 * (panel_width(needs, dpi as int) - 1) < span(theme::MAX_W as int, dpi as int),
{
    lemma_span_steps(theme::MIN_W as int, theme::MAX_W as int, dpi as int);
}

/// Unless the panel is as wide as it may be, nothing on it is squeezed: every row, every header and
/// the footer have the room they need.
pub proof fn law_what_was_measured_fits(
    groups: Seq<Group>,
    update: bool,
    m: Measured,
    dpi: u32,
    g: int,
    i: int,
)
    requires
        valid_dpi(dpi),
        m.measures(groups),
        panel_needs(groups, update, m, dpi as int) <= span(theme::MAX_W as int, dpi as int),
        0 <= g < groups.len(),
        0 <= i < groups[g].devices@.len(),
    ensures
        ({
            let w = 96 * panel_width(panel_needs(groups, update, m, dpi as int), dpi as int);
            &&& row_needs(
                groups[g].devices@[i].battery is Some,
                m.labels@[g]@[i] as int,
                dpi as int,
            ) <= w
            &&& head_needs(groups[g], m.titles@[g] as int, dpi as int) <= w
            &&& footer_needs(update, dpi as int, m.item.up as int) <= w
        }),
{
    lemma_groups_need(groups, m, groups.len() as int, dpi as int, g, i);
}

proof fn lemma_groups_need(groups: Seq<Group>, m: Measured, n: int, dpi: int, g: int, i: int)
    requires
        0 <= g < n <= groups.len(),
        0 <= i < groups[g].devices@.len(),
    ensures
        row_needs(groups[g].devices@[i].battery is Some, m.labels@[g]@[i] as int, dpi)
            <= groups_need(groups, m, n, dpi),
        head_needs(groups[g], m.titles@[g] as int, dpi) <= groups_need(groups, m, n, dpi),
    decreases n,
{
    if g < n - 1 {
        lemma_groups_need(groups, m, n - 1, dpi, g, i);
    } else {
        lemma_rows_need(groups[g], m.labels@[g]@, groups[g].devices@.len() as int, dpi, i);
    }
}

proof fn lemma_rows_need(g: Group, labels: Seq<u32>, n: int, dpi: int, i: int)
    requires
        0 <= i < n,
    ensures
        row_needs(g.devices@[i].battery is Some, labels[i] as int, dpi) <= rows_need(
            g,
            labels,
            n,
            dpi,
        ),
    decreases n,
{
    if i < n - 1 {
        lemma_rows_need(g, labels, n - 1, dpi, i);
    }
}

/// The room a device's name has, in ninety-sixths of a pixel: from where it starts, which is a whole
/// pixel, to the space that is kept on its right.
pub open spec fn room_for_label(width: int, reserve: int, dpi: int) -> int {
    96 * width - 96 * px_of(theme::TEXT_X as int, dpi) - span(reserve, dpi)
}

/// The room a device's name has, in ninety-sixths of a pixel, where a space is kept on its right.
pub fn label_room(width: i32, reserve: i32, dpi: u32) -> (r: i64)
    requires
        valid_dpi(dpi),
        0 <= reserve <= 1024,
    ensures
        r == room_for_label(width as int, reserve as int, dpi as int),
{
    96 * width as i64 - 96 * px(theme::TEXT_X, dpi) as i64 - span_of(reserve, dpi)
}

/// Whatever is on the panel, and however wide its label is, the footer answers where it is drawn: each
/// button at the pixel column nearest its centre, the labelled item just inside its label, and nothing in
/// the middle of the space between the item and the leftmost button, where there is one of more than a
/// pixel. There is one unless the label is too wide for any panel.
pub proof fn law_the_footer_answers_where_it_is_drawn(
    groups: Seq<Group>,
    update: bool,
    m: Measured,
    dpi: u32,
)
    requires
        valid_dpi(dpi),
    ensures
        ({
            let d = dpi as int;
            let label = m.item.down as int;
            let w = panel_width(panel_needs(groups, update, m, d), d);
            let left = button_centre(w, d, buttons(update).len() - 1) - span(
                theme::FOOTER_BTN as int / 2,
                d,
            );
            let right = item_right(d, label);
            &&& forall|i: int, mx: int|
                0 <= i < buttons(update).len() && -48 <= 96 * mx - #[trigger] button_centre(w, d, i)
                    <= 48 ==> #[trigger] footer_at(update, w, d, label, mx) == Some(
                    buttons(update)[i],
                )
            &&& footer_at(update, w, d, label, px_of(theme::FOOTER_TEXT_X + 2, d)) == Some(
                ActionKind::Quit,
            )
            &&& forall|mx: int|
                left - right > 96 && -96 <= 192 * mx - (right + left) <= 96
                    ==> #[trigger] footer_at(update, w, d, label, mx) is None
            &&& m.item.down <= m.item.up && footer_needs(update, d, m.item.up as int) <= span(
                theme::MAX_W as int,
                d,
            ) ==> left - right > 96
        }),
{
    let d = dpi as int;
    let label = m.item.down as int;
    let w = panel_width(panel_needs(groups, update, m, d), d);
    let n = buttons(update).len() as int;
    let step = theme::FOOTER_BTN + theme::FOOTER_BTN_GAP;
    let last = 25 + (n - 1) * step;
    let left = button_centre(w, d, n - 1) - span(16, d);
    let right = item_right(d, label);
    assert forall|i: int, mx: int|
        0 <= i < n && -48 <= 96 * mx - #[trigger] button_centre(w, d, i) <= 48 implies #[trigger] footer_at(
        update,
        w,
        d,
        label,
        mx,
    ) == Some(buttons(update)[i]) by {
        law_a_button_answers_at_its_centre(update, w, dpi, label, i, mx);
    }
    lemma_span_steps(25, (n - 1) * step, d);
    lemma_span_steps(61, (n - 2) * step, d);
    lemma_span_steps(0, (n - 1) * step, d);
    lemma_span_steps(0, (n - 2) * step, d);
    assert(left <= button_centre(w, d, 0) - span(16, d));
    assert(left <= button_centre(w, d, 1) - span(16, d));
    let inside = px_of(theme::FOOTER_TEXT_X + 2, d);
    assert(96 * inside < left && over_item(d, label, inside)) by {
        lemma_span_steps(theme::MIN_W as int, theme::MAX_W as int, d);
        lemma_span_steps(last, 16, d);
        lemma_span_steps(last + 16, 47, d);
        lemma_span_steps(last + 63, theme::MIN_W as int, d);
        lemma_span_steps(46, 1, d);
        lemma_span_steps(46, 54, d);
        lemma_span_steps(4, 46, d);
        lemma_span_steps(0, 1, d);
    }
    assert forall|mx: int|
        left - right > 96 && -96 <= 192 * mx - (right + left) <= 96 implies #[trigger] footer_at(
        update,
        w,
        d,
        label,
        mx,
    ) is None by {
        assert(right < 96 * mx < left);
    }
    if m.item.down <= m.item.up && footer_needs(update, d, m.item.up as int) <= span(
        theme::MAX_W as int,
        d,
    ) {
        assert(96 * w >= footer_needs(update, d, m.item.up as int));
        lemma_span_steps(last, 16, d);
        lemma_span_steps(last + 16, 8, d);
        lemma_span_bounds(8, d);
    }
}

/// A label that the panel was sized for is not cut: where the panel is not held to its greatest width,
/// and a label starts on a whole pixel of itself, there is room for it.
pub proof fn law_a_measured_label_is_not_cut(
    groups: Seq<Group>,
    update: bool,
    m: Measured,
    dpi: u32,
    g: int,
    i: int,
)
    requires
        valid_dpi(dpi),
        dpi % 2 == 0,
        m.measures(groups),
        panel_needs(groups, update, m, dpi as int) <= span(theme::MAX_W as int, dpi as int),
        0 <= g < groups.len(),
        0 <= i < groups[g].devices@.len(),
    ensures
        m.labels@[g]@[i] <= room_for_label(
            panel_width(panel_needs(groups, update, m, dpi as int), dpi as int),
            if groups[g].devices@[i].battery is Some {
                theme::BATTERY_W as int
            } else {
                theme::PENCIL_W as int
            },
            dpi as int,
        ),
{
    law_what_was_measured_fits(groups, update, m, dpi, g, i);
    let d = dpi as int;
    assert(96 * px_of(theme::TEXT_X as int, d) == span(theme::TEXT_X as int, d)) by {
        assert(d == 2 * (d / 2));
    }
    let reserve = if groups[g].devices@[i].battery is Some {
        theme::BATTERY_W as int
    } else {
        theme::PENCIL_W as int
    };
    assert((theme::TEXT_X + reserve) * d == theme::TEXT_X * d + reserve * d) by (nonlinear_arith);
}

// What a point is over.

/// Whether a point is inside the panel.
pub fn inside(width: i32, height: i32, mx: i32, my: i32) -> (r: bool)
    ensures
        r == (0 <= mx < width && 0 <= my < height),
{
    0 <= mx && mx < width && 0 <= my && my < height
}

/// Whether an element answers to the pointer. Headers do not.
pub open spec fn is_actionable(e: Elem) -> bool {
    !(e is Header)
}

/// Whether a row of pixels is on an element that answers to the pointer.
pub open spec fn on_elem(le: LaidElem, y: int) -> bool {
    is_actionable(le.elem) && le.top <= y < le.top + le.height
}

/// Whether element `i` is the first that answers to the pointer at height `y`.
pub open spec fn is_first_at(elems: Seq<LaidElem>, y: int, i: int) -> bool {
    0 <= i < elems.len() && on_elem(elems[i], y) && forall|j: int|
        0 <= j < i ==> !on_elem(#[trigger] elems[j], y)
}

/// The first element that answers to the pointer at height `y`, where one does.
pub open spec fn found_at(elems: Seq<LaidElem>, y: int) -> Option<int> {
    if exists|i: int| is_first_at(elems, y, i) {
        Some(choose|i: int| is_first_at(elems, y, i))
    } else {
        None
    }
}

proof fn lemma_found_at(elems: Seq<LaidElem>, y: int, i: int)
    requires
        is_first_at(elems, y, i),
    ensures
        found_at(elems, y) == Some(i),
{
    let k = choose|k: int| is_first_at(elems, y, k);
    assert(is_first_at(elems, y, k));
    if k < i {
        assert(!on_elem(elems[k], y));
    }
    if i < k {
        assert(!on_elem(elems[i], y));
    }
}

/// The first element that answers to the pointer at height `y`.
pub fn elem_at(elems: &[LaidElem], y: i32) -> (r: Option<usize>)
    ensures
        found_at(elems@, y as int) == (match r {
            Some(i) => Some(i as int),
            None => None,
        }),
        match r {
            Some(i) => i < elems@.len() && on_elem(elems@[i as int], y as int) && forall|j: int|
                0 <= j < i ==> !on_elem(#[trigger] elems@[j], y as int),
            None => forall|j: int|
                0 <= j < elems@.len() ==> !on_elem(#[trigger] elems@[j], y as int),
        },
{
    let mut i: usize = 0;
    while i < elems.len()
        invariant
            i <= elems@.len(),
            forall|j: int| 0 <= j < i ==> !on_elem(#[trigger] elems@[j], y as int),
        decreases elems@.len() - i,
    {
        let le = elems[i];
        let actionable = match le.elem {
            Elem::Header(_) => false,
            _ => true,
        };
        if actionable && y >= le.top && (y as i64) < le.top as i64 + le.height as i64 {
            proof {
                assert(is_first_at(elems@, y as int, i as int));
                lemma_found_at(elems@, y as int, i as int);
            }
            return Some(i);
        }
        i = i + 1;
    }
    proof {
        if exists|k: int| is_first_at(elems@, y as int, k) {
            let k = choose|k: int| is_first_at(elems@, y as int, k);
            assert(!on_elem(elems@[k], y as int));
        }
    }
    None
}

/// In a screen that is laid out, a row of pixels is on one element at most: the one that
/// [`elem_at`] finds there is the only one.
pub proof fn law_a_point_is_on_one_element(
    laid: Seq<LaidElem>,
    total: int,
    groups: Seq<Group>,
    screen: Screen,
    width: int,
    dpi: u32,
    fill_h: int,
    i: int,
    j: int,
    y: int,
)
    requires
        valid_dpi(dpi),
        is_laid_out(laid, total, screen_elems(groups, screen), width, dpi as int, fill_h),
        0 <= i < laid.len(),
        0 <= j < laid.len(),
        on_elem(laid[i], y),
        on_elem(laid[j], y),
    ensures
        i == j,
        0 <= y < total,
{
    if i < j {
        law_elements_are_stacked(laid, total, groups, screen, width, dpi, fill_h, i, j);
    } else if j < i {
        law_elements_are_stacked(laid, total, groups, screen, width, dpi, fill_h, j, i);
    } else {
        let elems = screen_elems(groups, screen);
        let n = elems.len() as int;
        lemma_only_the_last_moves(groups, screen);
        lemma_stacked_grows(elems, i, n, width, dpi as int);
        lemma_stacked_grows(elems, i + 1, n, width, dpi as int);
        lemma_elem_height_bounds(elems[i], i == 0, width, dpi as int);
        assert(laid[i].elem == elems[i]);
    }
}

/// A part of a whole: a slider's level, as the left part of its track.
#[derive(Debug, Clone, Copy, PartialEq, Eq, Structural)]
pub struct Ratio {
    pub part: i64,
    pub whole: i64,
}

/// The length of a slider's track.
pub open spec fn track_len(width: int, dpi: int) -> int {
    96 * width - span(theme::VALUE_W as int, dpi) - span(theme::TRACK_X0 as int, dpi)
}

/// How much of a slider's track is left of a pixel column, held to the track.
pub open spec fn track_part(width: int, dpi: int, mx: int) -> int {
    let at = 96 * mx - span(theme::TRACK_X0 as int, dpi);
    if at < 0 {
        0
    } else if at > track_len(width, dpi) {
        track_len(width, dpi)
    } else {
        at
    }
}

/// The level that a pixel column of a slider stands for: the part of the track on its left.
pub fn level_from_x(width: i32, dpi: u32, mx: i32) -> (r: Ratio)
    requires
        valid_dpi(dpi),
        track_len(width as int, dpi as int) > 0,
    ensures
        r.part == track_part(width as int, dpi as int, mx as int),
        r.whole == track_len(width as int, dpi as int),
        0 <= r.part <= r.whole,
        0 < r.whole,
{
    let x0: i64 = span_of(theme::TRACK_X0, dpi);
    let whole: i64 = 96 * width as i64 - span_of(theme::VALUE_W, dpi) - x0;
    let at: i64 = 96 * mx as i64 - x0;
    let part: i64 = if at < 0 {
        0
    } else if at > whole {
        whole
    } else {
        at
    };
    Ratio { part, whole }
}

/// Every panel is wide enough for a track, dragging right never lowers a level, and both ends of
/// the track can be reached: silence at its left end, full volume at its right.
pub proof fn law_a_slider_covers_its_range(needs: int, dpi: u32, mx: int, my: int)
    requires
        valid_dpi(dpi),
        mx <= my,
    ensures
        ({
            let w = panel_width(needs, dpi as int);
            &&& track_len(w, dpi as int) > 0
            &&& track_part(w, dpi as int, mx) <= track_part(w, dpi as int, my)
            &&& 96 * mx <= span(theme::TRACK_X0 as int, dpi as int) ==> track_part(w, dpi as int, mx)
                == 0
            &&& 96 * my >= 96 * w - span(theme::VALUE_W as int, dpi as int) ==> track_part(
                w,
                dpi as int,
                my,
            ) == track_len(w, dpi as int)
        }),
{
    let d = dpi as int;
    lemma_span_steps(theme::MIN_W as int, theme::MAX_W as int, d);
    lemma_span_steps(theme::VALUE_W as int, theme::TRACK_X0 as int, d);
    lemma_span_steps(theme::VALUE_W + theme::TRACK_X0, theme::MIN_W as int, d);
}

/// Whether a press on a slider's row is on its leading glyph, which mutes, rather than on its track.
pub open spec fn is_on_mute(dpi: int, mx: int) -> bool {
    96 * mx < span(theme::TRACK_X0 - theme::TRACK_GRIP, dpi)
}

/// Whether a press on a slider's row is on its leading glyph rather than on its track.
pub fn on_mute(dpi: u32, mx: i32) -> (r: bool)
    requires
        valid_dpi(dpi),
    ensures
        r == is_on_mute(dpi as int, mx as int),
{
    96 * (mx as i64) < span_of(theme::TRACK_X0 - theme::TRACK_GRIP, dpi)
}

/// The centre of a row's edit pencil.
pub open spec fn pencil_centre(width: int, dpi: int) -> int {
    96 * width - span(theme::PENCIL_RIGHT + theme::PENCIL_BTN / 2, dpi)
}

/// The centre of a row's edit pencil, in ninety-sixths of a pixel.
pub fn pencil_center_x(width: i32, dpi: u32) -> (r: i64)
    requires
        valid_dpi(dpi),
    ensures
        r == pencil_centre(width as int, dpi as int),
        -0x80_0000_0000 <= r <= 0x80_0000_0000,
{
    96 * width as i64 - span_of(theme::PENCIL_RIGHT + theme::PENCIL_BTN / 2, dpi)
}

/// Whether a pixel column is over a row's edit pencil.
pub open spec fn is_over_pencil(width: int, dpi: int, mx: int) -> bool {
    let r = span(theme::PENCIL_BTN as int / 2, dpi);
    -r <= 96 * mx - pencil_centre(width, dpi) <= r
}

/// Whether a pixel column is over a row's edit pencil, its hover and click target.
pub fn over_pencil(width: i32, dpi: u32, mx: i32) -> (r: bool)
    requires
        valid_dpi(dpi),
    ensures
        r == is_over_pencil(width as int, dpi as int, mx as int),
{
    let off: i64 = 96 * mx as i64 - pencil_center_x(width, dpi);
    let radius: i64 = span_of(theme::PENCIL_BTN / 2, dpi);
    -radius <= off && off <= radius
}

/// Whether a pixel column is over the picker's back button.
pub open spec fn is_over_back(dpi: int, mx: int) -> bool {
    span(theme::BACK_LEFT as int, dpi) <= 96 * mx <= span(theme::BACK_LEFT + theme::BACK_BTN, dpi)
}

/// Whether a pixel column is over the picker's back button, its hover and click target.
pub fn over_back(dpi: u32, mx: i32) -> (r: bool)
    requires
        valid_dpi(dpi),
    ensures
        r == is_over_back(dpi as int, mx as int),
{
    let x: i64 = 96 * mx as i64;
    x >= span_of(theme::BACK_LEFT, dpi) && x <= span_of(theme::BACK_LEFT + theme::BACK_BTN, dpi)
}

/// Which cell of the icon grid is at a point, the grid's element starting at `gy`.
pub open spec fn chip_at(width: int, dpi: int, mx: int, my: int, gy: int) -> Option<int> {
    let (cols, left, chip, step) = grid(width, dpi);
    let x = mx - left;
    let y = my - gy - px_of(theme::GRID_TOP_PAD as int, dpi);
    if x < 0 || y < 0 || x / step >= cols || x % step > chip || y % step > chip {
        None
    } else if (y / step) * cols + x / step < 10 {
        Some((y / step) * cols + x / step)
    } else {
        None
    }
}

/// Which cell of the icon grid is at a point, the grid's element starting at `gy`.
pub fn grid_chip_at(width: i32, dpi: u32, mx: i32, my: i32, gy: i32) -> (r: Option<usize>)
    requires
        valid_dpi(dpi),
    ensures
        match r {
            Some(k) => k < 10 && chip_at(
                width as int,
                dpi as int,
                mx as int,
                my as int,
                gy as int,
            ) == Some(k as int),
            None => chip_at(width as int, dpi as int, mx as int, my as int, gy as int) is None,
        },
{
    let (cols, left, chip, step): (i32, i32, i32, i32) = grid_metrics(width, dpi);
    let x: i64 = mx as i64 - left as i64;
    let y: i64 = my as i64 - gy as i64 - px(theme::GRID_TOP_PAD, dpi) as i64;
    if x < 0 || y < 0 {
        return None;
    }
    let col: i64 = x / (step as i64);
    let row: i64 = y / (step as i64);
    let within_x: i64 = x % (step as i64);
    let within_y: i64 = y % (step as i64);
    if col >= cols as i64 || within_x > chip as i64 || within_y > chip as i64 {
        return None;
    }
    proof {
        assert(0 <= row <= y && 0 <= col) by (nonlinear_arith)
            requires
                y >= 0,
                x >= 0,
                step > 0,
                row == y as int / step as int,
                col == x as int / step as int,
        ;
        assert(0 <= row * cols <= row * 10) by (nonlinear_arith)
            requires
                0 <= row,
                1 <= cols <= 10,
        ;
    }
    let k: i64 = row * cols as i64 + col;
    if k < 10 {
        Some(k as usize)
    } else {
        None
    }
}

/// Every icon can be picked: anywhere on its cell, from corner to corner, the point is found to be
/// over it.
pub proof fn law_every_cell_answers(width: int, dpi: u32, gy: int, k: int, a: int, b: int)
    requires
        valid_dpi(dpi),
        0 <= k < 10,
        ({
            let (cols, left, chip, step) = grid(width, dpi as int);
            0 <= a <= chip && 0 <= b <= chip
        }),
    ensures
        ({
            let (cols, left, chip, step) = grid(width, dpi as int);
            let mx = left + (k % cols) * step + a;
            let my = gy + px_of(theme::GRID_TOP_PAD as int, dpi as int) + (k / cols) * step + b;
            chip_at(width, dpi as int, mx, my, gy) == Some(k)
        }),
{
    let (cols, left, chip, step) = grid(width, dpi as int);
    lemma_grid_bounds(width, dpi as int);
    lemma_px_bounds(theme::GRID_CHIP as int, dpi as int);
    lemma_px_bounds(theme::GRID_GAP as int, dpi as int);
    let col = k % cols;
    let row = k / cols;
    let x = col * step + a;
    let y = row * step + b;
    assert(0 <= col < cols && 0 <= row && row * cols + col == k) by (nonlinear_arith)
        requires
            0 <= k,
            1 <= cols,
            col == k % cols,
            row == k / cols,
    ;
    assert(0 <= x && x / step == col && x % step == a) by (nonlinear_arith)
        requires
            0 <= col,
            0 <= a < step,
            x == col * step + a,
    ;
    assert(0 <= y && y / step == row && y % step == b) by (nonlinear_arith)
        requires
            0 <= row,
            0 <= b < step,
            y == row * step + b,
    ;
}

/// Between two columns or two rows of the grid, past a cell's own pixel border, no icon is picked;
/// nor above the grid or on its left.
pub proof fn law_gaps_answer_nothing(width: int, dpi: u32, mx: int, my: int, gy: int)
    requires
        valid_dpi(dpi),
        ({
            let (cols, left, chip, step) = grid(width, dpi as int);
            let y = my - gy - px_of(theme::GRID_TOP_PAD as int, dpi as int);
            mx < left || y < 0 || (mx - left) % step > chip || y % step > chip
        }),
    ensures
        chip_at(width, dpi as int, mx, my, gy) is None,
{
}

/// The grid sits in the middle of the panel: it is never set in by a negative amount where the panel
/// is as wide as its least, the space on both sides is the same but for one pixel, and the columns
/// and rows hold every icon.
pub proof fn law_the_grid_fits_and_is_centred(needs: int, dpi: u32)
    requires
        valid_dpi(dpi),
    ensures
        ({
            let w = panel_width(needs, dpi as int);
            let (cols, left, chip, step) = grid(w, dpi as int);
            &&& 1 <= cols <= 10
            &&& 0 <= left
            &&& w - 1 <= 2 * left + grid_width(w, dpi as int) <= w
            &&& 10 <= cols * grid_rows(w, dpi as int)
        }),
{
    let d = dpi as int;
    let w = panel_width(needs, d);
    let (cols, left, chip, step) = grid(w, d);
    let gap = px_of(theme::GRID_GAP as int, d);
    lemma_grid_bounds(w, d);
    lemma_px_bounds(theme::GRID_CHIP as int, d);
    lemma_px_bounds(theme::GRID_GAP as int, d);
    lemma_px_bounds(theme::GRID_X + theme::RIGHT_PAD, d);
    lemma_px_bounds(theme::MIN_W as int, d);
    law_width_is_within_its_limits(needs, dpi);
    let inset = px_of(theme::GRID_X + theme::RIGHT_PAD, d);
    let room = w - inset + gap;
    assert(chip <= px_of(theme::MIN_W as int, d)) by {
        lemma_span_steps(theme::GRID_CHIP as int, theme::MIN_W as int, d);
    }
    if room / step >= 1 {
        assert(cols * step <= room) by (nonlinear_arith)
            requires
                cols <= room / step,
                1 <= cols,
                step > 0,
        ;
        assert(grid_width(w, d) == cols * step - gap) by (nonlinear_arith)
            requires
                grid_width(w, d) == cols * chip + (cols - 1) * gap,
                step == chip + gap,
        ;
    } else {
        assert(cols == 1);
        assert(grid_width(w, d) == chip) by (nonlinear_arith)
            requires
                grid_width(w, d) == cols * chip + (cols - 1) * gap,
                cols == 1,
        ;
    }
    let rows = grid_rows(w, d);
    assert(cols * rows >= 10) by (nonlinear_arith)
        requires
            rows == (10 + cols - 1) / cols,
            1 <= cols <= 10,
    ;
}

/// Whether an element speaks of groups and devices that there are.
pub open spec fn elem_is_of(e: Elem, groups: Seq<Group>) -> bool {
    match e {
        Elem::Slider { group } => group < groups.len(),
        Elem::Device { group, dev } => group < groups.len() && dev
            < groups[group as int].devices@.len(),
        Elem::PickerHeader { group, dev } => group < groups.len() && dev
            < groups[group as int].devices@.len(),
        Elem::IconGrid { group, dev } => group < groups.len() && dev
            < groups[group as int].devices@.len(),
        _ => true,
    }
}

/// Whether a screen speaks of a device that there is.
pub open spec fn screen_is_of(screen: Screen, groups: Seq<Group>) -> bool {
    match screen {
        Screen::Main => true,
        Screen::IconPicker { group, dev } => group < groups.len() && dev
            < groups[group as int].devices@.len(),
    }
}

/// A screen's elements speak of nothing that is not there.
pub proof fn law_elements_name_what_is_there(groups: Seq<Group>, screen: Screen, i: int)
    requires
        screen_is_of(screen, groups),
        groups.len() <= usize::MAX,
        forall|g: int| 0 <= g < groups.len() ==> (#[trigger] groups[g]).devices@.len() <= usize::MAX,
        0 <= i < screen_elems(groups, screen).len(),
    ensures
        elem_is_of(screen_elems(groups, screen)[i], groups),
{
    if let Screen::Main = screen {
        let inner = groups_elems(groups, groups.len());
        if i < inner.len() {
            lemma_group_elems_are_of(groups, groups.len(), i);
            assert(screen_elems(groups, screen)[i] == inner[i]);
        }
    }
}

proof fn lemma_group_elems_are_of(groups: Seq<Group>, n: nat, i: int)
    requires
        n <= groups.len() <= usize::MAX,
        forall|g: int| 0 <= g < groups.len() ==> (#[trigger] groups[g]).devices@.len() <= usize::MAX,
        0 <= i < groups_elems(groups, n).len(),
    ensures
        elem_is_of(groups_elems(groups, n)[i], groups),
    decreases n,
{
    if n > 0 {
        let before = groups_elems(groups, (n - 1) as nat);
        let own = group_elems(groups[n - 1], n - 1);
        if i < before.len() {
            lemma_group_elems_are_of(groups, (n - 1) as nat, i);
            assert(groups_elems(groups, n)[i] == before[i]);
        } else {
            assert(groups_elems(groups, n)[i] == own[i - before.len()]);
            assert(groups[n - 1].devices@.len() <= usize::MAX);
        }
    }
}

/// Between the two ends of a slider's track the level is proportional to the distance from its left end: it
/// is that distance itself, of the track's whole length, and one column to the right raises it by one
/// pixel. Left of the track it is nothing, right of it the whole.
pub proof fn law_a_level_is_proportional(width: int, dpi: u32, mx: int)
    requires
        valid_dpi(dpi),
        96 * width >= (theme::TRACK_X0 + theme::VALUE_W) * dpi,
    ensures
        ({
            let d = dpi as int;
            let (x0, x1) = (theme::TRACK_X0 * d, 96 * width - theme::VALUE_W * d);
            &&& track_len(width, d) == x1 - x0
            &&& x0 <= 96 * mx <= x1 ==> track_part(width, d, mx) == 96 * mx - x0
            &&& x0 <= 96 * mx && 96 * (mx + 1) <= x1 ==> track_part(width, d, mx + 1) == track_part(
                width,
                d,
                mx,
            ) + 96
            &&& 96 * mx <= x0 ==> track_part(width, d, mx) == 0
            &&& 96 * mx >= x1 ==> track_part(width, d, mx) == x1 - x0
        }),
{
    let d = dpi as int;
    assert((theme::TRACK_X0 + theme::VALUE_W) * d == theme::TRACK_X0 * d + theme::VALUE_W * d)
        by (nonlinear_arith);
}

/// A dimension in pixels is the one nearest to it: never off by more than half a pixel.
pub proof fn law_pixels_are_the_nearest(dips: int, dpi: int)
    ensures
        -96 <= 2 * (dips * dpi - 96 * px_of(dips, dpi)) <= 96,
        span(dips, dpi) == dips * dpi,
{
}

/// Every element is as tall as its kind is, to the nearest pixel: a slider's row forty-eight units, a
/// device's forty-four, the picker's header forty-six, the footer fifty-two; a header thirty at the top and
/// thirty-six below another group. Only a footer keeps a distance from what is above it, of six.
pub proof fn law_elements_are_as_tall_as_their_kind(e: Elem, first: bool, width: int, dpi: int)
    ensures
        e is Slider ==> elem_height(e, first, width, dpi) == px_of(48, dpi),
        e is Device ==> elem_height(e, first, width, dpi) == px_of(44, dpi),
        e is PickerHeader ==> elem_height(e, first, width, dpi) == px_of(46, dpi),
        e is Footer ==> elem_height(e, first, width, dpi) == px_of(52, dpi),
        e is Header ==> elem_height(e, first, width, dpi) == px_of(
            if first {
                30
            } else {
                36
            },
            dpi,
        ),
        gap_above(e, dpi) == (if e is Footer {
            px_of(6, dpi)
        } else {
            0
        }),
{
}

/// The first element starts six units below the top edge, and each of the others where the one above it
/// ends, but for the gap above a footer.
pub proof fn law_elements_follow_each_other(elems: Seq<Elem>, i: int, width: int, dpi: u32)
    requires
        valid_dpi(dpi),
        0 <= i < elems.len(),
    ensures
        ({
            let d = dpi as int;
            let top = |k: int| elem_top(elems, k, width, d, 0);
            &&& i == 0 ==> top(0) == px_of(6, d) + gap_above(elems[0], d)
            &&& i > 0 ==> top(i) == top(i - 1) + elem_height(elems[i - 1], i == 1, width, d)
                + gap_above(elems[i], d)
        }),
{
    let d = dpi as int;
    lemma_stacked_grows(elems, 0, elems.len() as int, width, d);
    lemma_px_bounds(theme::PAD_V as int, d);
}

/// The panel is no wider than what needs the most room on it, or than its least width: a pixel less would
/// not do. What needs the most is a row, a header or the footer.
pub proof fn law_the_panel_is_no_wider_than_it_needs(needs: int, dpi: u32)
    requires
        valid_dpi(dpi),
    ensures
        ({
            let d = dpi as int;
            let w = panel_width(needs, d);
            &&& 340 * d <= needs <= 420 * d ==> 96 * (w - 1) < needs <= 96 * w
            &&& needs <= 340 * d ==> 96 * (w - 1) < 340 * d <= 96 * w
            &&& needs >= 420 * d ==> 96 * (w - 1) < 420 * d <= 96 * w
        }),
{
}

/// A row needs room for what is left of its label, for the label, and on the right for its pencil, or for its
/// battery and the pencil where it has one; a header for its title, and where there is a slider for that.
pub proof fn law_what_a_row_needs(battery: bool, label: int, g: Group, title: int, dpi: int)
    ensures
        row_needs(battery, label, dpi) == label + (if battery {
            144int
        } else {
            90
        }) * dpi,
        head_needs(g, title, dpi) >= title + 31 * dpi,
        g.default_id is Some ==> head_needs(g, title, dpi) >= 228 * dpi,
        head_needs(g, title, dpi) == title + 31 * dpi || head_needs(g, title, dpi) == 228 * dpi || head_needs(
            g,
            title,
            dpi,
        ) == 0,
{
}

/// What the main panel needs is what one thing on it needs: a row, a header with its slider, or the footer.
pub proof fn law_something_needs_the_panels_width(groups: Seq<Group>, update: bool, m: Measured, dpi: int)
    ensures
        ({
            let needs = panel_needs(groups, update, m, dpi);
            ||| needs == footer_needs(update, dpi, m.item.up as int)
            ||| needs == 0
            ||| exists|g: int| 0 <= g < groups.len() && #[trigger] group_asks(groups, m, g, dpi, needs)
        }),
{
    lemma_some_group_asks(groups, m, groups.len() as int, dpi);
}

/// Whether a group's header, or one of its rows, needs just that much.
pub open spec fn group_asks(groups: Seq<Group>, m: Measured, g: int, dpi: int, needs: int) -> bool {
    ||| needs == head_needs(groups[g], m.titles@[g] as int, dpi)
    ||| exists|i: int|
        0 <= i < groups[g].devices@.len() && needs == row_needs(
            (#[trigger] groups[g].devices@[i]).battery is Some,
            m.labels@[g]@[i] as int,
            dpi,
        )
}

proof fn lemma_some_group_asks(groups: Seq<Group>, m: Measured, n: int, dpi: int)
    requires
        n <= groups.len(),
    ensures
        ({
            let needs = groups_need(groups, m, n, dpi);
            ||| needs == 0
            ||| exists|g: int| 0 <= g < n && #[trigger] group_asks(groups, m, g, dpi, needs)
        }),
    decreases n,
{
    if n > 0 {
        lemma_some_group_asks(groups, m, n - 1, dpi);
        lemma_some_row_asks(
            groups[n - 1],
            m.labels@[n - 1]@,
            groups[n - 1].devices@.len() as int,
            dpi,
        );
        let needs = groups_need(groups, m, n, dpi);
        let before = groups_need(groups, m, n - 1, dpi);
        let rows = rows_need(
            groups[n - 1],
            m.labels@[n - 1]@,
            groups[n - 1].devices@.len() as int,
            dpi,
        );
        if needs == before && needs != 0 {
            let g = choose|g: int| 0 <= g < n - 1 && #[trigger] group_asks(groups, m, g, dpi, before);
            assert(group_asks(groups, m, g, dpi, needs));
        } else if needs != 0 {
            assert(group_asks(groups, m, n - 1, dpi, needs));
        }
    }
}

proof fn lemma_some_row_asks(g: Group, labels: Seq<u32>, n: int, dpi: int)
    requires
        n <= g.devices@.len(),
    ensures
        ({
            let needs = rows_need(g, labels, n, dpi);
            ||| needs == 0
            ||| exists|i: int|
                0 <= i < n && needs == row_needs(
                    (#[trigger] g.devices@[i]).battery is Some,
                    labels[i] as int,
                    dpi,
                )
        }),
    decreases n,
{
    if n > 0 {
        lemma_some_row_asks(g, labels, n - 1, dpi);
        assert(g.devices@[n - 1] == g.devices@[n - 1]);
    }
}

/// A pointer is on the element whose band it is in, headers excepted, which answer to nothing: a slider, a
/// device, a picker's header, a grid and a footer all do.
pub proof fn law_the_element_in_whose_band_it_is_answers(elems: Seq<LaidElem>, y: int)
    ensures
        match found_at(elems, y) {
            Some(i) => 0 <= i < elems.len() && elems[i].top <= y < elems[i].top + elems[i].height && !(
            elems[i].elem is Header),
            None => forall|j: int|
                0 <= j < elems.len() && (#[trigger] elems[j]).top <= y < elems[j].top + elems[j].height
                    ==> elems[j].elem is Header,
        },
{
    if exists|j: int| 0 <= j < elems.len() && on_elem(#[trigger] elems[j], y) {
        let j = choose|j: int| 0 <= j < elems.len() && on_elem(#[trigger] elems[j], y);
        lemma_there_is_a_first(elems, y, j);
    } else {
        assert forall|j: int|
            0 <= j < elems.len() && (#[trigger] elems[j]).top <= y < elems[j].top
                + elems[j].height implies elems[j].elem is Header by {
            assert(!on_elem(elems[j], y));
        }
    }
}

proof fn lemma_there_is_a_first(elems: Seq<LaidElem>, y: int, j: int)
    requires
        0 <= j < elems.len(),
        on_elem(elems[j], y),
    ensures
        exists|i: int| is_first_at(elems, y, i),
    decreases j,
{
    if exists|k: int| 0 <= k < j && on_elem(#[trigger] elems[k], y) {
        let k = choose|k: int| 0 <= k < j && on_elem(#[trigger] elems[k], y);
        lemma_there_is_a_first(elems, y, k);
    } else {
        assert(is_first_at(elems, y, j));
    }
}

/// On a slider's row everything left of its track mutes, but for a grip of six units; on a device's row the
/// pencil answers in a circle's width of thirty units that ends nine from the right edge; and in a picker's
/// header the way back answers from seven units to thirty-nine.
pub proof fn law_small_targets_answer_where_they_are(width: int, dpi: int, mx: int)
    ensures
        is_on_mute(dpi, mx) <==> 96 * mx < 46 * dpi,
        is_over_pencil(width, dpi, mx) <==> 96 * width - 39 * dpi <= 96 * mx <= 96 * width - 9 * dpi,
        is_over_back(dpi, mx) <==> 7 * dpi <= 96 * mx <= 39 * dpi,
{
}

/// The footer's buttons are thirty-two units across, nine from the right edge, four apart.
pub proof fn law_footer_buttons_have_their_places(width: int, dpi: int, i: int, mx: int)
    requires
        0 <= i,
    ensures
        over_button(width, dpi, i, mx) <==> 96 * width - (41 + 36 * i) * dpi <= 96 * mx <= 96 * width - (9
            + 36 * i) * dpi,
{
    assert((25 + i * 36) * dpi + 16 * dpi == (41 + 36 * i) * dpi) by (nonlinear_arith);
    assert((25 + i * 36) * dpi - 16 * dpi == (9 + 36 * i) * dpi) by (nonlinear_arith);
}

/// What wears an accent: the restart into an update always, the restart of the shell where there is a
/// reason for it, and nothing else ever. Each entry has a glyph of its own.
pub proof fn law_only_what_matters_is_accented(a: ActionKind, b: ActionKind, update: bool, strip_up: bool)
    ensures
        ActionKind::Restart.calls(update, strip_up),
        ActionKind::RestartExplorer.calls(update, strip_up) <==> update || !strip_up,
        !ActionKind::SoundSettings.calls(update, strip_up),
        !ActionKind::Quit.calls(update, strip_up),
        a != b ==> a.glyph_view() != b.glyph_view(),
{
}

/// The icon grid has as many columns as fit beside its margins, one more would not, unless that is the one it
/// has at least or the ten it has at most; and no more rows than it needs. It is as tall as its rows and the
/// space round them.
pub proof fn law_the_grid_takes_the_room_there_is(width: int, dpi: u32)
    requires
        valid_dpi(dpi),
    ensures
        ({
            let d = dpi as int;
            let (chip, gap) = (px_of(44, d), px_of(8, d));
            let cols = grid_cols(width, d);
            let rows = grid_rows(width, d);
            let avail = width - px_of(30, d);
            &&& 1 <= cols <= 10
            &&& cols > 1 ==> cols * chip + (cols - 1) * gap <= avail
            &&& cols < 10 ==> (cols + 1) * chip + cols * gap > avail
            &&& cols * rows >= 10
            &&& cols * (rows - 1) < 10
            &&& grid_width(width, d) == cols * chip + (cols - 1) * gap
            &&& grid_height(width, d) == px_of(4, d) + rows * chip + (rows - 1) * gap + px_of(10, d)
        }),
{
    let d = dpi as int;
    let (chip, gap) = (px_of(44, d), px_of(8, d));
    let step = chip + gap;
    let cols = grid_cols(width, d);
    let rows = grid_rows(width, d);
    let room = width - px_of(30, d) + gap;
    lemma_px_bounds(44, d);
    lemma_px_bounds(8, d);
    let fit = room / step;
    assert(room == step * fit + room % step && 0 <= room % step < step) by (nonlinear_arith)
        requires
            0 < step,
            fit == room / step,
    ;
    assert(cols * chip + (cols - 1) * gap == cols * step - gap) by (nonlinear_arith)
        requires
            step == chip + gap,
    ;
    assert((cols + 1) * chip + cols * gap == cols * step + step - gap) by (nonlinear_arith)
        requires
            step == chip + gap,
    ;
    if cols > 1 {
        assert(cols * step <= fit * step) by (nonlinear_arith)
            requires
                cols <= fit,
                0 < step,
        ;
    }
    if cols < 10 {
        assert(cols * step + step >= fit * step + step) by (nonlinear_arith)
            requires
                cols >= fit,
                0 < step,
        ;
    }
    assert(cols * rows >= 10 && cols * (rows - 1) < 10) by (nonlinear_arith)
        requires
            1 <= cols <= 10,
            rows == (10 + cols - 1) / cols,
    {
        let q = 10 + cols - 1;
        assert(q == cols * (q / cols) + q % cols && 0 <= q % cols < cols);
    }
}

/// The footer, column by column: over a button it is that button, over the labelled item, from four units
/// to ten behind its label, it is the item, and anywhere else nothing. Where they meet the button counts.
pub proof fn law_the_footer_column_by_column(update: bool, width: int, dpi: int, label: int, mx: int)
    ensures
        ({
            let x = 96 * mx;
            let at = |i: int| 96 * width - (41 + 36 * i) * dpi <= x <= 96 * width - (9 + 36 * i) * dpi;
            let item = 4 * dpi <= x <= 54 * dpi + label;
            footer_at(update, width, dpi, label, mx) == (if at(0) {
                Some(ActionKind::SoundSettings)
            } else if at(1) {
                Some(ActionKind::RestartExplorer)
            } else if update && at(2) {
                Some(ActionKind::Restart)
            } else if item {
                Some(ActionKind::Quit)
            } else {
                None
            })
        }),
{
    law_footer_buttons_have_their_places(width, dpi, 0, mx);
    law_footer_buttons_have_their_places(width, dpi, 1, mx);
    law_footer_buttons_have_their_places(width, dpi, 2, mx);
}

/// The footer needs room for its label with what is before and behind it, a gap, and its buttons with what is
/// right of them: three of them with an update, and otherwise two.
pub proof fn law_what_the_footer_needs(update: bool, dpi: int, label: int)
    ensures
        footer_needs(update, dpi, label) == label + (if update {
            175int
        } else {
            139
        }) * dpi,
        buttons(update).len() == (if update {
            3nat
        } else {
            2
        }),
{
    let n: int = if update {
        3
    } else {
        2
    };
    assert(54 * dpi + (8 + n * 32 + (n - 1) * 4 + 9) * dpi == (if update {
        175int
    } else {
        139
    }) * dpi) by (nonlinear_arith)
        requires
            n == (if update {
                3int
            } else {
                2
            }),
    ;
}

/// The panel is as tall as the taller of its screens: the main one, and where there is a device the picker of
/// its icons.
pub proof fn law_the_panel_is_as_tall_as_its_tallest_screen(groups: Seq<Group>, width: int, dpi: u32)
    requires
        valid_dpi(dpi),
    ensures
        ({
            let d = dpi as int;
            let h = shared_height(groups, width, d);
            let main = natural_height(screen_elems(groups, Screen::Main), width, d);
            let picker = 2 * px_of(6, d) + px_of(46, d) + grid_height(width, d);
            let any = exists|g: int| 0 <= g < groups.len() && (#[trigger] groups[g]).devices@.len() > 0;
            h == (if any && picker > main {
                picker
            } else {
                main
            })
        }),
{
    let elems = screen_elems(groups, Screen::Main);
    lemma_picker_height(groups, 0, 0, width, dpi as int);
    lemma_stacked_grows(elems, 0, elems.len() as int, width, dpi as int);
}

/// A label has the room from where it starts to where what is right of it does.
pub proof fn law_a_label_has_the_room_between(width: int, reserve: int, dpi: int)
    ensures
        room_for_label(width, reserve, dpi) == 96 * width - reserve * dpi - 96 * px_of(48, dpi),
{
}

/// The picker of a device's icons is its header and its grid, both of that device.
pub proof fn law_a_picker_is_of_its_device(groups: Seq<Group>, group: usize, dev: usize)
    ensures
        ({
            let e = screen_elems(groups, Screen::IconPicker { group, dev });
            &&& e.len() == 2
            &&& e[0] == (Elem::PickerHeader { group, dev })
            &&& e[1] == (Elem::IconGrid { group, dev })
        }),
{
}

} // verus!
