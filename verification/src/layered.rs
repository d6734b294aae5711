//! Pixel formats: what a hand-painted picture becomes on its way to the screen.
//!
//! Pictures are painted with straight alpha, four bytes to a pixel: red, green, blue, opacity.
use vstd::prelude::*;

verus! {

/// A channel scaled by its pixel's opacity.
pub open spec fn premultiplied(channel: u8, alpha: u8) -> int {
    channel * alpha / 255
}

/// The bytes of a picture for a layered window: blue, green and red scaled by the opacity, and the
/// opacity.
pub open spec fn layered_bytes(rgba: Seq<u8>) -> Seq<u8> {
    Seq::new(
        rgba.len(),
        |k: int|
            {
                let p = k - k % 4;
                if k % 4 == 3 {
                    rgba[k]
                } else {
                    premultiplied(rgba[p + 2 - k % 4], rgba[p + 3]) as u8
                }
            },
    )
}

proof fn lemma_premultiplied_bounds(channel: u8, alpha: u8)
    ensures
        0 <= premultiplied(channel, alpha) <= alpha,
        0 <= channel * alpha <= 255 * 255,
{
    assert(0 <= channel * alpha <= 255 * alpha && channel * alpha <= 255 * 255)
        by (nonlinear_arith)
        requires
            channel <= 255,
            alpha <= 255,
    ;
}

fn premultiply(channel: u8, alpha: u8) -> (r: u8)
    ensures
        r == premultiplied(channel, alpha),
{
    proof {
        lemma_premultiplied_bounds(channel, alpha);
    }
    ((channel as u32 * alpha as u32) / 255) as u8
}

/// Turns a straight-alpha picture into what a layered window is given.
pub fn to_layered(rgba: &[u8]) -> (r: Vec<u8>)
    requires
        rgba@.len() % 4 == 0,
    ensures
        r@ == layered_bytes(rgba@),
{
    let mut out: Vec<u8> = Vec::new();
    let n: usize = rgba.len();
    let ghost goal = layered_bytes(rgba@);
    let mut i: usize = 0;
    while i < n
        invariant
            i <= n,
            n == rgba@.len(),
            n % 4 == 0,
            i % 4 == 0,
            goal == layered_bytes(rgba@),
            out@ == goal.take(i as int),
        decreases n - i,
    {
        let a: u8 = rgba[i + 3];
        let ghost before = out@;
        out.push(premultiply(rgba[i + 2], a));
        out.push(premultiply(rgba[i + 1], a));
        out.push(premultiply(rgba[i], a));
        out.push(a);
        proof {
            let j = i as int;
            assert((j + 1) % 4 == 1 && (j + 2) % 4 == 2 && (j + 3) % 4 == 3);
            assert(out@ =~= goal.take(j + 4));
        }
        i = i + 4;
    }
    proof {
        assert(goal.take(n as int) =~= goal);
    }
    out
}

/// The bytes of a picture with red and blue exchanged.
pub open spec fn bgra_bytes(rgba: Seq<u8>) -> Seq<u8> {
    Seq::new(
        rgba.len(),
        |k: int|
            {
                let p = k - k % 4;
                if k % 4 == 3 {
                    rgba[k]
                } else {
                    rgba[p + 2 - k % 4]
                }
            },
    )
}

/// Turns a straight-alpha picture into the byte order of an icon's bitmap.
pub fn to_bgra(rgba: &[u8]) -> (r: Vec<u8>)
    requires
        rgba@.len() % 4 == 0,
    ensures
        r@ == bgra_bytes(rgba@),
{
    let mut out: Vec<u8> = Vec::new();
    let n: usize = rgba.len();
    let ghost goal = bgra_bytes(rgba@);
    let mut i: usize = 0;
    while i < n
        invariant
            i <= n,
            n == rgba@.len(),
            n % 4 == 0,
            i % 4 == 0,
            goal == bgra_bytes(rgba@),
            out@ == goal.take(i as int),
        decreases n - i,
    {
        out.push(rgba[i + 2]);
        out.push(rgba[i + 1]);
        out.push(rgba[i]);
        out.push(rgba[i + 3]);
        proof {
            let j = i as int;
            assert((j + 1) % 4 == 1 && (j + 2) % 4 == 2 && (j + 3) % 4 == 3);
            assert(out@ =~= goal.take(j + 4));
        }
        i = i + 4;
    }
    proof {
        assert(goal.take(n as int) =~= goal);
    }
    out
}

/// No channel of a layered picture exceeds its pixel's opacity, which is what makes it a valid
/// premultiplied one; an opaque pixel keeps its colours, an invisible one has none.
pub proof fn law_layered_pixels_are_premultiplied(rgba: Seq<u8>, p: int, c: int)
    requires
        rgba.len() % 4 == 0,
        0 <= p,
        4 * p + 3 < rgba.len(),
        0 <= c < 3,
    ensures
        layered_bytes(rgba)[4 * p + 3] == rgba[4 * p + 3],
        layered_bytes(rgba)[4 * p + c] <= rgba[4 * p + 3],
        rgba[4 * p + 3] == 255 ==> layered_bytes(rgba)[4 * p + c] == rgba[4 * p + 2 - c],
        rgba[4 * p + 3] == 0 ==> layered_bytes(rgba)[4 * p + c] == 0,
{
    let (k, a, ch) = (4 * p + c, rgba[4 * p + 3], rgba[4 * p + 2 - c]);
    assert(k % 4 == c && k - k % 4 == 4 * p);
    assert(layered_bytes(rgba)[k] == premultiplied(ch, a) as u8);
    assert((4 * p + 3) % 4 == 3);
    assert(layered_bytes(rgba)[4 * p + 3] == a);
    lemma_premultiplied_bounds(ch, a);
    assert(a == 255 ==> ch * a == 255 * ch) by (nonlinear_arith);
    assert(a == 0 ==> ch * a == 0) by (nonlinear_arith);
}

/// Exchanging red and blue twice gives the picture back.
pub proof fn law_swapping_twice_changes_nothing(rgba: Seq<u8>)
    requires
        rgba.len() % 4 == 0,
    ensures
        bgra_bytes(bgra_bytes(rgba)) == rgba,
{
    let once = bgra_bytes(rgba);
    assert forall|k: int| 0 <= k < rgba.len() implies bgra_bytes(once)[k] == rgba[k] by {
        let p = k - k % 4;
        let c = k % 4;
        assert(p % 4 == 0);
        assert((p + 2 - c) % 4 == 2 - c || c == 3);
    }
    assert(bgra_bytes(once) =~= rgba);
}

/// A channel of a layered picture is its colour's part by the opacity, rounded down; blue stands first, then
/// green, then red.
pub proof fn law_channels_are_scaled_by_opacity(rgba: Seq<u8>, p: int, c: int)
    requires
        rgba.len() % 4 == 0,
        0 <= p,
        4 * p + 3 < rgba.len(),
        0 <= c < 3,
    ensures
        layered_bytes(rgba).len() == rgba.len(),
        255 * layered_bytes(rgba)[4 * p + c] <= rgba[4 * p + 2 - c] * rgba[4 * p + 3] < 255 * (
        layered_bytes(rgba)[4 * p + c] + 1),
{
    let (a, b) = (rgba[4 * p + 2 - c] as int, rgba[4 * p + 3] as int);
    assert(0 <= a * b <= 255 * 255) by (nonlinear_arith)
        requires
            0 <= a <= 255,
            0 <= b <= 255,
    ;
}

/// Exchanging red and blue leaves the green and the opacity of every pixel.
pub proof fn law_swapping_exchanges_red_and_blue(rgba: Seq<u8>, p: int)
    requires
        rgba.len() % 4 == 0,
        0 <= p,
        4 * p + 3 < rgba.len(),
    ensures
        bgra_bytes(rgba).len() == rgba.len(),
        bgra_bytes(rgba)[4 * p] == rgba[4 * p + 2],
        bgra_bytes(rgba)[4 * p + 1] == rgba[4 * p + 1],
        bgra_bytes(rgba)[4 * p + 2] == rgba[4 * p],
        bgra_bytes(rgba)[4 * p + 3] == rgba[4 * p + 3],
{
}

} // verus!
