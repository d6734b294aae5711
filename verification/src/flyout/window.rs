//! Where the flyout's window stands.
use crate::flyout::Anchor;
use vstd::prelude::*;

verus! {

/// A rectangle of the desktop, in pixels; its right and bottom edges are not part of it.
#[derive(Debug, Clone, Copy, PartialEq, Eq, Structural)]
pub struct Area {
    pub left: i32,
    pub top: i32,
    pub right: i32,
    pub bottom: i32,
}

/// The smaller of two numbers.
pub open spec fn lesser(a: int, b: int) -> int {
    if b < a {
        b
    } else {
        a
    }
}

/// The greater of two numbers.
pub open spec fn greater(a: int, b: int) -> int {
    if a < b {
        b
    } else {
        a
    }
}

/// The point the panel is hung from: above the icon by the gap, or at the pointer, and never below
/// the work area less its margin.
pub open spec fn base(
    anchor: Option<Anchor>,
    cursor: (i32, i32),
    gap: int,
    work: Area,
    margin: int,
) -> (int, int) {
    let (cx, bottom) = match anchor {
        Some(a) => (a.cx as int, a.bottom - gap),
        None => (cursor.0 as int, cursor.1 as int),
    };
    (cx, lesser(bottom, work.bottom - margin))
}

/// Whether a number is one a window's place can be.
pub open spec fn placeable(v: int) -> bool {
    i32::MIN <= v <= i32::MAX
}

/// The point the panel is hung from: the centre and the bottom of where it is to stand.
pub fn anchor_point(
    anchor: Option<Anchor>,
    cursor: (i32, i32),
    gap: i32,
    work: Area,
    margin: i32,
) -> (r: (i32, i32))
    requires
        anchor matches Some(a) ==> placeable(a.bottom - gap),
        placeable(work.bottom - margin),
    ensures
        (r.0 as int, r.1 as int) == base(anchor, cursor, gap as int, work, margin as int),
{
    let (cx, bottom): (i32, i32) = match anchor {
        Some(a) => (a.cx, a.bottom - gap),
        None => (cursor.0, cursor.1),
    };
    let floor: i32 = work.bottom - margin;
    if floor < bottom {
        (cx, floor)
    } else {
        (cx, bottom)
    }
}

/// Where a panel of the given size stands: centred on the point it is hung from and above it, moved
/// in from the right edge and then from the left and the top, so that a panel larger than the work
/// area shows its top left.
pub open spec fn place(cx: int, bottom: int, width: int, height: int, work: Area, margin: int) -> (
    int,
    int,
) {
    (
        greater(
            lesser(cx - width / 2, work.right - margin - width),
            work.left + margin,
        ),
        greater(bottom - height, work.top + margin),
    )
}

/// Where a panel of the given size stands.
pub fn reposition(cx: i32, bottom: i32, width: i32, height: i32, work: Area, margin: i32) -> (r: (
    i32,
    i32,
))
    requires
        0 <= width,
        0 <= height,
        placeable(cx - width / 2),
        placeable(work.right - margin),
        placeable(work.right - margin - width),
        placeable(work.left + margin),
        placeable(bottom - height),
        placeable(work.top + margin),
    ensures
        (r.0 as int, r.1 as int) == place(
            cx as int,
            bottom as int,
            width as int,
            height as int,
            work,
            margin as int,
        ),
{
    let centred: i32 = cx - width / 2;
    let most: i32 = work.right - margin - width;
    let least: i32 = work.left + margin;
    let x: i32 = if most < centred {
        most
    } else {
        centred
    };
    let x: i32 = if x < least {
        least
    } else {
        x
    };
    let above: i32 = bottom - height;
    let top: i32 = work.top + margin;
    let y: i32 = if above < top {
        top
    } else {
        above
    };
    (x, y)
}

/// A panel that fits the work area with its margins is wholly inside it, and ends no lower than the
/// point it is hung from.
pub proof fn law_a_fitting_panel_stays_in_the_work_area(
    anchor: Option<Anchor>,
    cursor: (i32, i32),
    gap: int,
    width: int,
    height: int,
    work: Area,
    margin: int,
)
    requires
        0 <= width <= work.right - work.left - 2 * margin,
        0 <= height,
        ({
            let (cx, bottom) = base(anchor, cursor, gap, work, margin);
            work.top + margin + height <= bottom
        }),
    ensures
        ({
            let (cx, bottom) = base(anchor, cursor, gap, work, margin);
            let (x, y) = place(cx, bottom, width, height, work, margin);
            &&& work.left + margin <= x
            &&& x + width <= work.right - margin
            &&& work.top + margin <= y
            &&& y + height <= work.bottom - margin
            &&& y + height == bottom
        }),
{
}

/// The flyout hangs a gap above the icon it was opened from, or at the pointer, but never below the work
/// area's margin; it is centred there where there is room, and otherwise as near to it as the margins let
/// it be.
pub proof fn law_the_panel_is_centred_on_its_icon(
    anchor: Anchor,
    cursor: (i32, i32),
    gap: int,
    width: int,
    height: int,
    work: Area,
    margin: int,
)
    requires
        0 <= width <= work.right - work.left - 2 * margin,
    ensures
        base(Some(anchor), cursor, gap, work, margin).0 == anchor.cx,
        base(None, cursor, gap, work, margin).0 == cursor.0,
        anchor.bottom - gap <= work.bottom - margin ==> base(Some(anchor), cursor, gap, work, margin).1
            == anchor.bottom - gap,
        anchor.bottom - gap > work.bottom - margin ==> base(Some(anchor), cursor, gap, work, margin).1
            == work.bottom - margin,
        cursor.1 <= work.bottom - margin ==> base(None, cursor, gap, work, margin).1 == cursor.1,
        cursor.1 > work.bottom - margin ==> base(None, cursor, gap, work, margin).1 == work.bottom - margin,
        ({
            let x = place(anchor.cx as int, 0, width, height, work, margin).0;
            let wanted = anchor.cx - width / 2;
            &&& work.left + margin <= wanted <= work.right - margin - width ==> x == wanted
            &&& wanted < work.left + margin ==> x == work.left + margin
            &&& wanted > work.right - margin - width ==> x == work.right - margin - width
        }),
{
}

} // verus!
