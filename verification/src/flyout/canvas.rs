//! The part of the flyout's canvas that counts in whole units: sliding one screen over another, and
//! cutting a label to the room it has.
use crate::text;
use vstd::prelude::*;

verus! {

/// Frames of a slide from one screen to another.
pub const SLIDE_FRAMES: i32 = 9;

/// How far a slide has gone in its frame `i`: the whole width in the last, and ever slower towards
/// it. To the nearest pixel.
pub open spec fn slid(i: int, width: int) -> int {
    let left = SLIDE_FRAMES - i;
    (2 * (width * (81 - left * left)) + 81) / 162
}

/// How far a slide has gone in its frame `i`, counted from one.
pub fn slide_offset(i: i32, width: i32) -> (r: i32)
    requires
        1 <= i <= SLIDE_FRAMES,
        0 <= width,
    ensures
        r == slid(i as int, width as int),
        0 <= r <= width,
{
    let left: i64 = (SLIDE_FRAMES - i) as i64;
    proof {
        assert(0 <= left * left <= 64) by (nonlinear_arith)
            requires
                0 <= left <= 8,
        ;
    }
    let part: i64 = 81 - left * left;
    proof {
        assert(0 <= width * part <= width * 81) by (nonlinear_arith)
            requires
                0 <= part <= 81,
                0 <= width,
        ;
    }
    ((2 * (width as i64 * part) + 81) / 162) as i32
}

/// Where the old and the new screen stand in frame `i` of a slide: the old one leaves to the left
/// and the new one enters from the right, or the other way round.
pub fn slide_places(i: i32, width: i32, forward: bool) -> (r: (i32, i32))
    requires
        1 <= i <= SLIDE_FRAMES,
        0 <= width,
    ensures
        ({
            let off = slid(i as int, width as int);
            (r.0 as int, r.1 as int) == (if forward {
                (-off, width - off)
            } else {
                (off, off - width)
            })
        }),
{
    let off: i32 = slide_offset(i, width);
    if forward {
        (-off, width - off)
    } else {
        (off, off - width)
    }
}

/// A slide only ever goes on, and its last frame shows the new screen alone.
pub proof fn law_a_slide_arrives(i: int, j: int, width: int)
    requires
        1 <= i <= j <= SLIDE_FRAMES,
        0 <= width,
    ensures
        slid(i, width) <= slid(j, width) <= width,
        slid(SLIDE_FRAMES as int, width) == width,
{
    let (a, b) = (SLIDE_FRAMES - i, SLIDE_FRAMES - j);
    assert(81 - a * a <= 81 - b * b <= 81) by (nonlinear_arith)
        requires
            0 <= b <= a,
    ;
    let (pa, pb) = (81 - a * a, 81 - b * b);
    assert(width * pa <= width * pb <= width * 81) by (nonlinear_arith)
        requires
            pa <= pb <= 81,
            0 <= width,
    ;
    assert(width * (81 - 0 * 0) == width * 81);
}

/// The byte of a page that a frame shows at byte `k`, the page standing `dx` pixels to the right.
pub open spec fn shifted(k: int, dx: int) -> int {
    k - 4 * dx
}

/// Whether a page that stands `dx` pixels to the right covers byte `k` of a frame.
pub open spec fn covers(k: int, width: int, dx: int) -> bool {
    0 <= (k / 4) % width - dx < width
}

/// A frame with a page laid over it, `dx` pixels to the right; what falls outside is cut off.
pub open spec fn laid_over(frame: Seq<u8>, page: Seq<u8>, width: int, dx: int) -> Seq<u8> {
    Seq::new(
        frame.len(),
        |k: int|
            if covers(k, width, dx) {
                page[shifted(k, dx)]
            } else {
                frame[k]
            },
    )
}

/// Makes every pixel of a picture transparent.
pub fn clear(buf: &mut Vec<u8>)
    ensures
        final(buf)@ == Seq::new(old(buf)@.len(), |k: int| 0u8),
{
    let n: usize = buf.len();
    let mut i: usize = 0;
    while i < n
        invariant
            i <= n,
            n == buf@.len(),
            n == old(buf)@.len(),
            forall|k: int| 0 <= k < i ==> buf@[k] == 0,
        decreases n - i,
    {
        buf.set(i, 0);
        i = i + 1;
    }
    proof {
        assert(buf@ =~= Seq::new(old(buf)@.len(), |k: int| 0u8));
    }
}

/// Lays a page of the same size over a frame, `dx` pixels to the right; what falls outside is cut
/// off.
pub fn blit_shift(frame: &mut Vec<u8>, page: &[u8], width: i32, height: i32, dx: i32)
    requires
        0 <= width,
        0 <= height,
        old(frame)@.len() == 4 * (width * height),
        page@.len() == 4 * (width * height),
        4 * (width * height) <= usize::MAX,
    ensures
        final(frame)@ == laid_over(old(frame)@, page@, width as int, dx as int),
{
    let ghost was = frame@;
    let ghost goal = laid_over(was, page@, width as int, dx as int);
    let n: usize = frame.len();
    let mut k: usize = 0;
    while k < n
        invariant
            k <= n,
            0 <= width,
            0 <= height,
            n == frame@.len(),
            n == was.len(),
            n == page@.len(),
            n == 4 * (width * height),
            goal == laid_over(was, page@, width as int, dx as int),
            forall|j: int| 0 <= j < k ==> frame@[j] == goal[j],
            forall|j: int| k <= j < n ==> frame@[j] == was[j],
        decreases n - k,
    {
        proof {
            assert(width != 0) by (nonlinear_arith)
                requires
                    0 < 4 * (width * height),
            ;
        }
        let x: i64 = ((k / 4) % (width as usize)) as i64;
        let from: i64 = x - dx as i64;
        if 0 <= from && from < width as i64 {
            proof {
                let p = k as int / 4;
                let w = width as int;
                assert(p - p % w + w <= width * height && 0 <= p - p % w) by (nonlinear_arith)
                    requires
                        0 <= p < width * height,
                        w == width,
                        0 < w,
                        0 <= height,
                {
                    let q = p / w;
                    assert(p == w * q + p % w);
                    assert(q < height);
                    assert(w * (q + 1) <= w * height);
                }
            }
            let at: i128 = k as i128 - 4 * dx as i128;
            let byte: u8 = page[at as usize];
            frame.set(k, byte);
        }
        k = k + 1;
    }
    proof {
        assert(frame@ =~= goal);
    }
}

/// In every frame of a slide each pixel shows one of the two screens: what one leaves free, the
/// other covers, and they never overlap.
pub proof fn law_a_slide_leaves_no_gap(k: int, width: int, i: int, forward: bool)
    requires
        0 < width,
        0 <= k,
        1 <= i <= SLIDE_FRAMES,
    ensures
        ({
            let off = slid(i, width);
            let (a, b) = if forward {
                (-off, width - off)
            } else {
                (off, off - width)
            };
            covers(k, width, a) <==> !covers(k, width, b)
        }),
{
    let x = (k / 4) % width;
    assert(0 <= x < width) by (nonlinear_arith)
        requires
            x == (k / 4) % width,
            0 < width,
    ;
    law_a_slide_arrives(i, i, width);
    let left = SLIDE_FRAMES - i;
    assert(0 <= 81 - left * left) by (nonlinear_arith)
        requires
            0 <= left <= 8,
    ;
    let part = 81 - left * left;
    assert(0 <= width * part) by (nonlinear_arith)
        requires
            0 <= part,
            0 < width,
    ;
}

/// How wide glyphs with the given advances are.
pub open spec fn run_width(advances: Seq<u32>) -> int
    decreases advances.len(),
{
    if advances.len() == 0 {
        0
    } else {
        run_width(advances.drop_last()) + advances.last()
    }
}

/// How many glyphs, from `from` on, still fit a width: as many as come before the first that does not.
pub open spec fn fitting(advances: Seq<u32>, room: int, from: int) -> int
    decreases advances.len() - from,
{
    if from >= advances.len() || run_width(advances.take(from + 1)) > room {
        from
    } else {
        fitting(advances, room, from + 1)
    }
}

/// A label cut to its room: whole where it fits, and otherwise as much of it as fits beside an
/// ellipsis.
pub open spec fn fitted(label: Seq<char>, total: int, advances: Seq<u32>, ellipsis: int, room: int) -> Seq<
    char,
> {
    if total <= room {
        label
    } else {
        label.take(fitting(advances, room - ellipsis, 0)).push('…')
    }
}

proof fn lemma_fitting_bounds(advances: Seq<u32>, room: int, from: int)
    requires
        0 <= from <= advances.len(),
    ensures
        from <= fitting(advances, room, from) <= advances.len(),
        fitting(advances, room, from) > from ==> run_width(
            advances.take(fitting(advances, room, from)),
        ) <= room,
        fitting(advances, room, from) < advances.len() ==> run_width(
            advances.take(fitting(advances, room, from) + 1),
        ) > room,
    decreases advances.len() - from,
{
    if from < advances.len() && run_width(advances.take(from + 1)) <= room {
        lemma_fitting_bounds(advances, room, from + 1);
    }
}

/// Cuts a label to its room, given how wide it is, how wide each of its letters is, and how wide an
/// ellipsis is, all in one unit.
pub fn fit_label(label: &str, total: u32, advances: &[u32], ellipsis: u32, room: i64) -> (r: String)
    requires
        advances@.len() == label@.len(),
    ensures
        r@ == fitted(label@, total as int, advances@, ellipsis as int, room as int),
{
    if total as i64 <= room {
        return label.to_string();
    }
    let chars = text::chars_of(label);
    let budget: i128 = room as i128 - ellipsis as i128;
    let mut out = String::new();
    let mut acc: u128 = 0;
    let mut i: usize = 0;
    proof {
        assert(label@.take(0) =~= Seq::empty());
        assert(advances@.take(0) =~= Seq::empty());
    }
    while i < chars.len()
        invariant_except_break
            fitting(advances@, budget as int, 0) == fitting(advances@, budget as int, i as int),
        invariant
            i <= chars@.len(),
            chars@ == label@,
            advances@.len() == label@.len(),
            budget == room - ellipsis,
            acc == run_width(advances@.take(i as int)),
            acc <= i * u32::MAX,
            out@ == label@.take(i as int),
        ensures
            i == fitting(advances@, budget as int, 0),
        decreases chars@.len() - i,
    {
        proof {
            let t = advances@.take(i + 1);
            assert(t.drop_last() =~= advances@.take(i as int));
            assert(t.last() == advances@[i as int]);
            assert(i * u32::MAX <= u64::MAX * u32::MAX) by (nonlinear_arith)
                requires
                    i <= u64::MAX,
            ;
        }
        let wide: u128 = acc + advances[i] as u128;
        if wide as i128 > budget {
            break;
        }
        out.push(chars[i]);
        acc = wide;
        i = i + 1;
        proof {
            assert(label@.take(i as int) =~= label@.take(i - 1).push(label@[i - 1]));
        }
    }
    out.push('…');
    out
}

/// A label that is cut never exceeds its room with its ellipsis, if that has room at all, and no more
/// of the label would have fitted.
pub proof fn law_a_cut_label_fits_and_is_longest(advances: Seq<u32>, ellipsis: int, room: int)
    requires
        0 <= ellipsis <= room,
    ensures
        ({
            let n = fitting(advances, room - ellipsis, 0);
            &&& 0 <= n <= advances.len()
            &&& run_width(advances.take(n)) + ellipsis <= room
            &&& n < advances.len() ==> run_width(advances.take(n + 1)) + ellipsis > room
        }),
{
    lemma_fitting_bounds(advances, room - ellipsis, 0);
    assert(advances.take(0) =~= Seq::empty());
}

/// A slide eases out: what is left of it falls with the square of the frames that are left, to the nearest
/// pixel.
pub proof fn law_a_slide_eases_out(i: int, width: int)
    requires
        1 <= i <= 9,
        0 <= width,
    ensures
        SLIDE_FRAMES == 9,
        -81 <= 162 * slid(i, width) - 2 * (width * (81 - (9 - i) * (9 - i))) <= 81,
{
}

/// A page that is laid over a frame shows each of its pixels that many columns to the right, in the same
/// row, with all of its bytes; where it does not reach, the frame stays.
pub proof fn law_a_page_is_shifted_whole(
    frame: Seq<u8>,
    page: Seq<u8>,
    width: int,
    dx: int,
    x: int,
    y: int,
    c: int,
)
    requires
        0 <= x < width,
        0 <= y,
        0 <= c < 4,
        4 * (y * width + x) + c < frame.len(),
        page.len() == frame.len(),
    ensures
        laid_over(frame, page, width, dx).len() == frame.len(),
        0 <= x - dx < width ==> laid_over(frame, page, width, dx)[4 * (y * width + x) + c] == page[4 * (y
            * width + (x - dx)) + c],
        !(0 <= x - dx < width) ==> laid_over(frame, page, width, dx)[4 * (y * width + x) + c] == frame[4
            * (y * width + x) + c],
{
    let k = 4 * (y * width + x) + c;
    assert(0 <= y * width) by (nonlinear_arith)
        requires
            0 <= y,
            0 < width,
    ;
    assert(k / 4 == y * width + x);
    assert((y * width + x) % width == x) by (nonlinear_arith)
        requires
            0 <= x < width,
            0 <= y,
    ;
}

/// A label that fits stays as it is; one that does not is cut and ends in an ellipsis, and what is in front
/// of that is the label's beginning.
pub proof fn law_a_label_is_cut_only_where_it_must_be(
    label: Seq<char>,
    total: int,
    advances: Seq<u32>,
    ellipsis: int,
    room: int,
)
    requires
        advances.len() == label.len(),
    ensures
        total <= room ==> fitted(label, total, advances, ellipsis, room) == label,
        total > room ==> {
            let r = fitted(label, total, advances, ellipsis, room);
            &&& r.len() > 0
            &&& r.last() == '…'
            &&& r.len() - 1 <= label.len()
            &&& r.drop_last() == label.take(r.len() - 1)
        },
        run_width(Seq::empty()) == 0,
        forall|a: Seq<u32>, w: u32| #[trigger] run_width(a.push(w)) == run_width(a) + w,
{
    lemma_fitting_in_range(advances, room - ellipsis, 0);
    let n = fitting(advances, room - ellipsis, 0);
    assert(label.take(n).push('…').drop_last() =~= label.take(n));
    assert forall|a: Seq<u32>, w: u32| #[trigger] run_width(a.push(w)) == run_width(a) + w by {
        assert(a.push(w).drop_last() =~= a);
    }
}

proof fn lemma_fitting_in_range(advances: Seq<u32>, room: int, from: int)
    requires
        0 <= from <= advances.len(),
    ensures
        from <= fitting(advances, room, from) <= advances.len(),
    decreases advances.len() - from,
{
    if from < advances.len() && run_width(advances.take(from + 1)) <= room {
        lemma_fitting_in_range(advances, room, from + 1);
    }
}

} // verus!
