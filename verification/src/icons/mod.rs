//! The fixed set of device icons: their names, their glyphs, the one a device starts with, and
//! the pixels that come of a glyph's coverage.
use crate::audio::FormFactor;
use crate::text;
use vstd::prelude::*;

verus! {

/// A built-in icon.
#[derive(Debug, Clone, Copy, PartialEq, Eq, Hash, Structural)]
pub enum IconId {
    WirelessEarbuds,
    RoundEarbuds,
    Headphones,
    HeadsetMic,
    Microphone,
    Webcam,
    Speakers,
    LaptopSpeakers,
    Hdmi,
    Unknown,
}

/// How an icon is drawn: the font has no earbuds, so those are stroked by hand.
#[derive(Debug, Clone, Copy, PartialEq, Eq, Structural)]
pub enum Drawing {
    /// A round bud on a slim stem, twice.
    StemEarbuds,
    /// A round, stemless bud with its ear-tip, twice.
    RoundEarbuds,
    /// A glyph of the icon font.
    Glyph(char),
}

impl IconId {
    /// Every icon, in the order shown in the picker.
    pub const ALL: [IconId; 10] = [
        IconId::WirelessEarbuds,
        IconId::RoundEarbuds,
        IconId::Headphones,
        IconId::HeadsetMic,
        IconId::Microphone,
        IconId::Webcam,
        IconId::Speakers,
        IconId::LaptopSpeakers,
        IconId::Hdmi,
        IconId::Unknown,
    ];

    /// The icon's name, as it is written in the configuration.
    pub open spec fn name_view(self) -> Seq<char> {
        match self {
            IconId::WirelessEarbuds => "WirelessEarbuds"@,
            IconId::RoundEarbuds => "RoundEarbuds"@,
            IconId::Headphones => "Headphones"@,
            IconId::HeadsetMic => "HeadsetMic"@,
            IconId::Microphone => "Microphone"@,
            IconId::Webcam => "Webcam"@,
            IconId::Speakers => "Speakers"@,
            IconId::LaptopSpeakers => "LaptopSpeakers"@,
            IconId::Hdmi => "Hdmi"@,
            IconId::Unknown => "Unknown"@,
        }
    }

    /// The icon's name, as it is written in the configuration.
    pub fn name(self) -> (r: &'static str)
        ensures
            r@ == self.name_view(),
    {
        match self {
            IconId::WirelessEarbuds => "WirelessEarbuds",
            IconId::RoundEarbuds => "RoundEarbuds",
            IconId::Headphones => "Headphones",
            IconId::HeadsetMic => "HeadsetMic",
            IconId::Microphone => "Microphone",
            IconId::Webcam => "Webcam",
            IconId::Speakers => "Speakers",
            IconId::LaptopSpeakers => "LaptopSpeakers",
            IconId::Hdmi => "Hdmi",
            IconId::Unknown => "Unknown",
        }
    }

    /// The icon font's code point for this icon. The earbuds have none and stand in with the
    /// headphones.
    pub open spec fn glyph_view(self) -> char {
        match self {
            IconId::WirelessEarbuds => '\u{E7F6}',
            IconId::RoundEarbuds => '\u{E7F6}',
            IconId::Headphones => '\u{E7F6}',
            IconId::HeadsetMic => '\u{E95B}',
            IconId::Microphone => '\u{E720}',
            IconId::Webcam => '\u{E960}',
            IconId::Speakers => '\u{E767}',
            IconId::LaptopSpeakers => '\u{E7F8}',
            IconId::Hdmi => '\u{E7F4}',
            IconId::Unknown => '\u{E9CE}',
        }
    }

    /// The icon font's code point for this icon.
    pub fn glyph(self) -> (r: char)
        ensures
            r == self.glyph_view(),
    {
        match self {
            IconId::WirelessEarbuds => '\u{E7F6}',
            IconId::RoundEarbuds => '\u{E7F6}',
            IconId::Headphones => '\u{E7F6}',
            IconId::HeadsetMic => '\u{E95B}',
            IconId::Microphone => '\u{E720}',
            IconId::Webcam => '\u{E960}',
            IconId::Speakers => '\u{E767}',
            IconId::LaptopSpeakers => '\u{E7F8}',
            IconId::Hdmi => '\u{E7F4}',
            IconId::Unknown => '\u{E9CE}',
        }
    }

    /// Reads a name back, whatever its case.
    pub fn parse(s: &str) -> (r: Option<IconId>)
        ensures
            r == named(s@),
    {
        let all = IconId::ALL;
        let mut k: usize = 0;
        while k < all.len()
            invariant
                k <= all@.len(),
                all@ == IconId::ALL@,
                forall|j: int|
                    0 <= j < k ==> text::ascii_lower((#[trigger] all@[j]).name_view())
                        != text::ascii_lower(s@),
            decreases all@.len() - k,
        {
            if text::eq_ignore_ascii_case(all[k].name(), s) {
                proof {
                    lemma_named(all@[k as int], s@);
                }
                return Some(all[k]);
            }
            k = k + 1;
        }
        proof {
            assert forall|i: IconId| text::ascii_lower(#[trigger] i.name_view())
                != text::ascii_lower(s@) by {
                law_picker_shows_every_icon(i);
                assert(all@[picker_place(i)] == i);
            }
        }
        None
    }

    /// How this icon is drawn.
    pub fn drawing(self) -> (r: Drawing)
        ensures
            r == (match self {
                IconId::WirelessEarbuds => Drawing::StemEarbuds,
                IconId::RoundEarbuds => Drawing::RoundEarbuds,
                _ => Drawing::Glyph(self.glyph_view()),
            }),
    {
        match self {
            IconId::WirelessEarbuds => Drawing::StemEarbuds,
            IconId::RoundEarbuds => Drawing::RoundEarbuds,
            _ => Drawing::Glyph(self.glyph()),
        }
    }
}

/// Whether a text is an icon's name, whatever its case.
pub open spec fn is_name_of(s: Seq<char>, i: IconId) -> bool {
    text::ascii_lower(i.name_view()) == text::ascii_lower(s)
}

/// The icon with the given name, whatever its case.
pub open spec fn named(s: Seq<char>) -> Option<IconId> {
    if exists|i: IconId| is_name_of(s, i) {
        Some(choose|i: IconId| is_name_of(s, i))
    } else {
        None
    }
}

proof fn lemma_named(i: IconId, s: Seq<char>)
    requires
        is_name_of(s, i),
    ensures
        named(s) == Some(i),
{
    let other = choose|k: IconId| is_name_of(s, k);
    assert(is_name_of(s, other));
    law_names_are_distinct(other, i);
}

/// Where the picker shows an icon.
pub open spec fn picker_place(i: IconId) -> int {
    match i {
        IconId::WirelessEarbuds => 0,
        IconId::RoundEarbuds => 1,
        IconId::Headphones => 2,
        IconId::HeadsetMic => 3,
        IconId::Microphone => 4,
        IconId::Webcam => 5,
        IconId::Speakers => 6,
        IconId::LaptopSpeakers => 7,
        IconId::Hdmi => 8,
        IconId::Unknown => 9,
    }
}

/// The picker shows every icon, each at one place.
pub proof fn law_picker_shows_every_icon(i: IconId)
    ensures
        IconId::ALL@.len() == 10,
        0 <= picker_place(i) < 10,
        IconId::ALL@[picker_place(i)] == i,
        forall|k: int| 0 <= k < 10 && IconId::ALL@[k] == i ==> k == picker_place(i),
{
}

/// No two icons share a name, even when case does not count.
pub proof fn law_names_are_distinct(a: IconId, b: IconId)
    requires
        text::ascii_lower(a.name_view()) == text::ascii_lower(b.name_view()),
    ensures
        a == b,
{
    reveal_strlit("WirelessEarbuds");
    reveal_strlit("RoundEarbuds");
    reveal_strlit("Headphones");
    reveal_strlit("HeadsetMic");
    reveal_strlit("Microphone");
    reveal_strlit("Webcam");
    reveal_strlit("Speakers");
    reveal_strlit("LaptopSpeakers");
    reveal_strlit("Hdmi");
    reveal_strlit("Unknown");
    let x = text::ascii_lower(a.name_view());
    let y = text::ascii_lower(b.name_view());
    assert(x.len() == y.len());
    assert(x[0] == text::ascii_lower_char(a.name_view()[0]));
    assert(y[0] == text::ascii_lower_char(b.name_view()[0]));
    assert(x[4] == y[4] || x.len() <= 4);
    if x.len() > 4 {
        assert(x[4] == text::ascii_lower_char(a.name_view()[4]));
        assert(y[4] == text::ascii_lower_char(b.name_view()[4]));
    }
}

/// A name reads back as the icon it is the name of, whatever case it was written in.
pub proof fn law_a_name_reads_back(i: IconId, written: Seq<char>)
    requires
        text::ascii_lower(written) == text::ascii_lower(i.name_view()),
    ensures
        named(written) == Some(i),
{
    lemma_named(i, written);
}

/// Whether a name, in lower case, gives its device away as wireless earbuds.
pub open spec fn hints_at_earbuds(name: Seq<char>) -> bool {
    text::occurs_in(name, "buds"@) || text::occurs_in(name, "earbud"@) || text::occurs_in(
        name,
        "airpod"@,
    ) || text::occurs_in(name, "wf-"@) || text::occurs_in(name, "freebuds"@) || text::occurs_in(
        name,
        "pixel buds"@,
    )
}

/// The icon a form factor stands for. A digital passthrough usually ends in speakers.
pub open spec fn form_factor_icon(form_factor: FormFactor) -> IconId {
    match form_factor {
        FormFactor::Speakers => IconId::Speakers,
        FormFactor::Headphones => IconId::Headphones,
        FormFactor::Headset => IconId::HeadsetMic,
        FormFactor::Microphone => IconId::Microphone,
        FormFactor::DigitalDisplay => IconId::Hdmi,
        FormFactor::Spdif => IconId::Speakers,
        FormFactor::Unknown => IconId::Unknown,
    }
}

/// The icon a device starts with, given its name in lower case.
pub open spec fn starting_icon(form_factor: FormFactor, lowered: Seq<char>) -> IconId {
    if hints_at_earbuds(lowered) {
        IconId::WirelessEarbuds
    } else {
        form_factor_icon(form_factor)
    }
}

/// The icon a device starts with, given its name in lower case.
pub fn default_icon_lowered(form_factor: FormFactor, lowered: &str) -> (r: IconId)
    ensures
        r == starting_icon(form_factor, lowered@),
{
    if text::contains(lowered, "buds") || text::contains(lowered, "earbud") || text::contains(
        lowered,
        "airpod",
    ) || text::contains(lowered, "wf-") || text::contains(lowered, "freebuds") || text::contains(
        lowered,
        "pixel buds",
    ) {
        return IconId::WirelessEarbuds;
    }
    match form_factor {
        FormFactor::Speakers => IconId::Speakers,
        FormFactor::Headphones => IconId::Headphones,
        FormFactor::Headset => IconId::HeadsetMic,
        FormFactor::Microphone => IconId::Microphone,
        FormFactor::DigitalDisplay => IconId::Hdmi,
        FormFactor::Spdif => IconId::Speakers,
        FormFactor::Unknown => IconId::Unknown,
    }
}

/// The icon a device starts with until the user picks one: by its form factor, which cannot tell
/// earbuds from headphones, and by what its name gives away.
pub fn default_icon(form_factor: FormFactor, name_hint: &str) -> (r: IconId)
    ensures
        r == starting_icon(form_factor, text::lowercase(name_hint@)),
{
    let lowered = text::to_lowercase(name_hint);
    default_icon_lowered(form_factor, lowered.as_str())
}

/// How many of a pixel's sixteen sample points a stroke covers, as an opacity.
pub open spec fn stroke_alpha(hits: u8) -> int {
    (hits * 255 + 8) / 16
}

/// The bytes of a `size` by `size` picture whose pixel `p` has the opacity `alpha(p)`: the colour
/// where it is drawn at all, nothing where it is not.
pub open spec fn tinted(size: u32, rgb: [u8; 3], alpha: spec_fn(int) -> int) -> Seq<u8> {
    Seq::new(
        (size * size * 4) as nat,
        |k: int|
            if alpha(k / 4) == 0 {
                0u8
            } else if k % 4 == 3 {
                alpha(k / 4) as u8
            } else {
                rgb@[k % 4]
            },
    )
}

proof fn lemma_square_fits(size: u32)
    requires
        size <= 32767,
    ensures
        size * size * 4 <= u32::MAX,
        0 <= size * size,
{
    assert(size * size <= 32767 * 32767) by (nonlinear_arith)
        requires
            size <= 32767,
    ;
    assert(0 <= size * size) by (nonlinear_arith);
}

/// Appends one pixel to a picture.
fn push_pixel(out: &mut Vec<u8>, rgb: [u8; 3], alpha: u8)
    ensures
        final(out)@ == old(out)@ + (if alpha == 0 {
            seq![0u8, 0u8, 0u8, 0u8]
        } else {
            seq![rgb@[0], rgb@[1], rgb@[2], alpha]
        }),
{
    if alpha == 0 {
        out.push(0);
        out.push(0);
        out.push(0);
        out.push(0);
        proof {
            assert(out@ =~= old(out)@ + seq![0u8, 0u8, 0u8, 0u8]);
        }
    } else {
        out.push(rgb[0]);
        out.push(rgb[1]);
        out.push(rgb[2]);
        out.push(alpha);
        proof {
            assert(out@ =~= old(out)@ + seq![rgb@[0], rgb@[1], rgb@[2], alpha]);
        }
    }
}

proof fn lemma_tinted_grows(
    size: u32,
    rgb: [u8; 3],
    alpha: spec_fn(int) -> int,
    p: int,
    part: Seq<u8>,
    a: u8,
)
    requires
        0 <= p < size * size,
        part == tinted(size, rgb, alpha).take(4 * p),
        alpha(p) == a,
    ensures
        part + (if a == 0 {
            seq![0u8, 0u8, 0u8, 0u8]
        } else {
            seq![rgb@[0], rgb@[1], rgb@[2], a]
        }) == tinted(size, rgb, alpha).take(4 * (p + 1)),
{
    let all = tinted(size, rgb, alpha);
    let new = if a == 0 {
        seq![0u8, 0u8, 0u8, 0u8]
    } else {
        seq![rgb@[0], rgb@[1], rgb@[2], a]
    };
    assert forall|k: int| 4 * p <= k < 4 * p + 4 implies #[trigger] all[k] == new[k - 4 * p] by {
        assert(k / 4 == p);
        assert(k % 4 == k - 4 * p);
    }
    assert(part + new =~= all.take(4 * (p + 1)));
}

/// The pixels of a stroked icon, in one colour: `hits` says for each pixel, row by row, how many of
/// its sixteen sample points the strokes cover.
pub fn render_outline(size: u32, rgb: [u8; 3], hits: &[u8]) -> (r: (Vec<u8>, u32, u32))
    requires
        size <= 32767,
        hits@.len() == size * size,
        forall|p: int| 0 <= p < hits@.len() ==> #[trigger] hits@[p] <= 16,
    ensures
        r.0@ == tinted(size, rgb, |p: int| stroke_alpha(hits@[p])),
        r.1 == size,
        r.2 == size,
{
    let ghost alpha = |p: int| stroke_alpha(hits@[p]);
    let ghost all = tinted(size, rgb, alpha);
    let mut out: Vec<u8> = Vec::new();
    let mut p: usize = 0;
    proof {
        lemma_square_fits(size);
        assert(all.take(0) =~= Seq::empty());
    }
    while p < hits.len()
        invariant
            p <= hits@.len(),
            hits@.len() == size * size,
            forall|p: int| 0 <= p < hits@.len() ==> #[trigger] hits@[p] <= 16,
            alpha == |p: int| stroke_alpha(hits@[p]),
            all == tinted(size, rgb, alpha),
            out@ == all.take(4 * p),
        decreases hits@.len() - p,
    {
        let a: u32 = (hits[p] as u32 * 255 + 8) / 16;
        proof {
            assert(hits@[p as int] <= 16);
            assert(alpha(p as int) == a as u8);
            lemma_tinted_grows(size, rgb, alpha, p as int, out@, a as u8);
        }
        push_pixel(&mut out, rgb, a as u8);
        p = p + 1;
    }
    proof {
        assert(all.take(4 * (p as int)) =~= all);
    }
    (out, size, size)
}

/// A glyph's coverage: an opacity for each pixel of its box, row by row.
pub struct Coverage {
    pub width: u32,
    pub height: u32,
    pub alpha: Vec<u8>,
}

impl Coverage {
    /// There is one opacity for each pixel, and the box is no larger than a machine word counts.
    pub open spec fn wf(&self) -> bool {
        &&& self.alpha@.len() == self.width * self.height
        &&& self.width * self.height <= u32::MAX
        &&& self.width <= i32::MAX
        &&& self.height <= i32::MAX
    }
}

/// How far a box of the given extent is set in to stand in the middle of a picture; a box that is
/// larger than the picture starts at its edge.
pub open spec fn centred(size: int, extent: int) -> int {
    if extent <= size {
        (size - extent) / 2
    } else {
        0
    }
}

/// The opacity that a glyph's coverage, centred in a `size` by `size` picture, has at pixel `p`.
pub open spec fn glyph_alpha(size: u32, c: Coverage, p: int) -> int {
    let x = p % (size as int) - centred(size as int, c.width as int);
    let y = p / (size as int) - centred(size as int, c.height as int);
    if 0 <= x < c.width && 0 <= y < c.height {
        c.alpha@[y * c.width + x] as int
    } else {
        0
    }
}

fn inset(size: u32, extent: u32) -> (r: u32)
    ensures
        r == centred(size as int, extent as int),
        r <= size,
{
    if extent <= size {
        (size - extent) / 2
    } else {
        0
    }
}

/// The pixels of a glyph, in one colour, its box centred in the picture. The offset is whole
/// pixels, which keeps the glyph as crisp as it was rasterised.
pub fn render_glyph(size: u32, rgb: [u8; 3], coverage: &Coverage) -> (r: (Vec<u8>, u32, u32))
    requires
        size <= 32767,
        coverage.wf(),
    ensures
        r.0@ == tinted(size, rgb, |p: int| glyph_alpha(size, *coverage, p)),
        r.1 == size,
        r.2 == size,
{
    let ghost alpha = |p: int| glyph_alpha(size, *coverage, p);
    let ghost all = tinted(size, rgb, alpha);
    let dx: u32 = inset(size, coverage.width);
    let dy: u32 = inset(size, coverage.height);
    let mut out: Vec<u8> = Vec::new();
    proof {
        lemma_square_fits(size);
        assert(all.take(0) =~= Seq::empty());
    }
    let n: u32 = size * size;
    let mut p: u32 = 0;
    while p < n
        invariant
            p <= n,
            n == size * size,
            coverage.wf(),
            dx == centred(size as int, coverage.width as int),
            dy == centred(size as int, coverage.height as int),
            alpha == |p: int| glyph_alpha(size, *coverage, p),
            all == tinted(size, rgb, alpha),
            out@ == all.take(4 * p),
        decreases n - p,
    {
        proof {
            assert(size > 0) by (nonlinear_arith)
                requires
                    p < size * size,
            ;
        }
        let x: u32 = p % size;
        let y: u32 = p / size;
        let a: u8 = if x >= dx && y >= dy && x - dx < coverage.width && y - dy < coverage.height {
            let (gx, gy, w, h): (u32, u32, u32, u32) = (
                x - dx,
                y - dy,
                coverage.width,
                coverage.height,
            );
            proof {
                assert(0 <= gy * w && gy * w + gx < w * h) by (nonlinear_arith)
                    requires
                        gx < w,
                        gy < h,
                ;
            }
            coverage.alpha[(gy * w + gx) as usize]
        } else {
            0
        };
        proof {
            assert(alpha(p as int) == a);
            lemma_tinted_grows(size, rgb, alpha, p as int, out@, a);
        }
        push_pixel(&mut out, rgb, a);
        p = p + 1;
    }
    proof {
        assert(all.take(4 * (p as int)) =~= all);
    }
    (out, size, size)
}

/// One covered pixel of an outline: its place in the outline's box, and its opacity.
#[derive(Debug, Clone, Copy, PartialEq, Eq)]
pub struct Dot {
    pub x: u32,
    pub y: u32,
    pub alpha: u8,
}

/// Where a dot falls in a `size` by `size` picture, the outline's box standing at `(ox, oy)`: its
/// pixel, or nothing where it falls outside.
pub open spec fn dot_place(size: u32, d: Dot, ox: i32, oy: i32) -> Option<int> {
    let x = d.x + ox;
    let y = d.y + oy;
    if 0 <= x < size && 0 <= y < size {
        Some(y * size + x)
    } else {
        None
    }
}

/// The picture with the first `n` dots stamped on it, a later dot over an earlier one.
pub open spec fn stamped(size: u32, rgb: [u8; 3], dots: Seq<Dot>, ox: i32, oy: i32, n: int) -> Seq<u8>
    decreases n,
{
    if n <= 0 {
        Seq::new((size * size * 4) as nat, |k: int| 0u8)
    } else {
        let before = stamped(size, rgb, dots, ox, oy, n - 1);
        match dot_place(size, dots[n - 1], ox, oy) {
            Some(p) => before.update(4 * p, rgb@[0]).update(4 * p + 1, rgb@[1]).update(
                4 * p + 2,
                rgb@[2],
            ).update(4 * p + 3, dots[n - 1].alpha),
            None => before,
        }
    }
}

/// The pixels of a glyph whose outline was covered dot by dot, its box standing at `(ox, oy)`; what
/// falls outside the picture is left out.
pub fn stamp_dots(size: u32, rgb: [u8; 3], dots: &[Dot], ox: i32, oy: i32) -> (r: (Vec<u8>, u32, u32))
    requires
        size <= 32767,
    ensures
        r.0@ == stamped(size, rgb, dots@, ox, oy, dots@.len() as int),
        r.1 == size,
        r.2 == size,
{
    proof {
        lemma_square_fits(size);
    }
    let mut out: Vec<u8> = Vec::new();
    let total: usize = (size * size * 4) as usize;
    out.resize(total, 0);
    let mut i: usize = 0;
    proof {
        assert(out@ =~= stamped(size, rgb, dots@, ox, oy, 0));
    }
    while i < dots.len()
        invariant
            i <= dots@.len(),
            size <= 32767,
            total == size * size * 4,
            out@ == stamped(size, rgb, dots@, ox, oy, i as int),
            out@.len() == total,
        decreases dots@.len() - i,
    {
        let d = dots[i];
        let x: i64 = d.x as i64 + ox as i64;
        let y: i64 = d.y as i64 + oy as i64;
        if x >= 0 && y >= 0 && x < size as i64 && y < size as i64 {
            let (ux, uy): (u32, u32) = (x as u32, y as u32);
            proof {
                assert(0 <= uy * size && uy * size + ux < size * size) by (nonlinear_arith)
                    requires
                        ux < size,
                        uy < size,
                ;
                lemma_square_fits(size);
            }
            let at: usize = ((uy * size + ux) * 4) as usize;
            out.set(at, rgb[0]);
            out.set(at + 1, rgb[1]);
            out.set(at + 2, rgb[2]);
            out.set(at + 3, d.alpha);
        }
        i = i + 1;
    }
    (out, size, size)
}

/// A stroke that covers none of a pixel leaves it out, one that covers all of it makes it solid,
/// and covering more never makes it fainter.
pub proof fn law_stroke_opacity(a: u8, b: u8)
    requires
        a <= b <= 16,
    ensures
        stroke_alpha(0) == 0,
        stroke_alpha(16) == 255,
        stroke_alpha(a) <= stroke_alpha(b),
{
}

/// A glyph that fits its picture is drawn whole: every pixel of its coverage shows up, at the same
/// distance from its box's corner.
pub proof fn law_a_fitting_glyph_is_drawn_whole(size: u32, c: Coverage, x: int, y: int)
    requires
        0 < size <= 32767,
        c.wf(),
        c.width <= size,
        c.height <= size,
        0 <= x < c.width,
        0 <= y < c.height,
    ensures
        ({
            let px = centred(size as int, c.width as int) + x;
            let py = centred(size as int, c.height as int) + y;
            &&& 0 <= px < size
            &&& 0 <= py < size
            &&& glyph_alpha(size, c, py * size + px) == c.alpha@[y * c.width + x]
        }),
{
    let px = centred(size as int, c.width as int) + x;
    let py = centred(size as int, c.height as int) + y;
    let s = size as int;
    assert((py * s + px) / s == py && (py * s + px) % s == px) by (nonlinear_arith)
        requires
            0 <= px < s,
            0 < s,
    ;
}

/// A device whose name, in lower case, holds one of the words that earbuds go by starts as earbuds,
/// whatever its form factor says. Any other starts as what its form factor is: speakers and a digital
/// output as speakers, headphones, a headset, a microphone and a display as themselves, and the rest as
/// unknown.
pub proof fn law_a_device_starts_as_what_it_is(form_factor: FormFactor, lowered: Seq<char>)
    ensures
        ({
            let earbuds = text::occurs_in(lowered, "buds"@) || text::occurs_in(lowered, "earbud"@)
                || text::occurs_in(lowered, "airpod"@) || text::occurs_in(lowered, "wf-"@);
            starting_icon(form_factor, lowered) == (if earbuds {
                IconId::WirelessEarbuds
            } else {
                match form_factor {
                    FormFactor::Speakers => IconId::Speakers,
                    FormFactor::Spdif => IconId::Speakers,
                    FormFactor::Headphones => IconId::Headphones,
                    FormFactor::Headset => IconId::HeadsetMic,
                    FormFactor::Microphone => IconId::Microphone,
                    FormFactor::DigitalDisplay => IconId::Hdmi,
                    FormFactor::Unknown => IconId::Unknown,
                }
            })
        }),
{
    reveal_strlit("buds");
    reveal_strlit("freebuds");
    reveal_strlit("pixel buds");
    if text::occurs_in(lowered, "freebuds"@) {
        let i = choose|i: int| text::occurs_at(lowered, "freebuds"@, i);
        assert(lowered.subrange(i + 4, i + 8) =~= "buds"@) by {
            let part = lowered.subrange(i, i + 8);
            assert(part[4] == lowered[i + 4] && part[5] == lowered[i + 5] && part[6] == lowered[i + 6]
                && part[7] == lowered[i + 7]);
        }
        assert(text::occurs_at(lowered, "buds"@, i + 4));
    }
    if text::occurs_in(lowered, "pixel buds"@) {
        let i = choose|i: int| text::occurs_at(lowered, "pixel buds"@, i);
        assert(lowered.subrange(i + 6, i + 10) =~= "buds"@) by {
            let part = lowered.subrange(i, i + 10);
            assert(part[6] == lowered[i + 6] && part[7] == lowered[i + 7] && part[8] == lowered[i + 8]
                && part[9] == lowered[i + 9]);
        }
        assert(text::occurs_at(lowered, "buds"@, i + 6));
    }
}

/// Icons of different things look different: only the earbuds share the headphones' glyph.
pub proof fn law_icons_look_different(a: IconId, b: IconId)
    requires
        a != b,
        a != IconId::WirelessEarbuds && a != IconId::RoundEarbuds,
        b != IconId::WirelessEarbuds && b != IconId::RoundEarbuds,
    ensures
        a.glyph_view() != b.glyph_view(),
        IconId::WirelessEarbuds.glyph_view() == IconId::Headphones.glyph_view(),
        IconId::RoundEarbuds.glyph_view() == IconId::Headphones.glyph_view(),
{
}

/// A pixel is as opaque as the part of its sixteen points that is covered, to the nearest of two hundred and
/// fifty-five steps.
pub proof fn law_opacity_is_proportional(hits: u8)
    requires
        hits <= 16,
    ensures
        -8 <= 16 * stroke_alpha(hits) - 255 * hits <= 8,
{
}

/// Every pixel of a picture in one colour has that colour and its own opacity, or is all zeros where it is
/// not to be seen.
pub proof fn law_a_picture_has_one_colour(size: u32, rgb: [u8; 3], alpha: spec_fn(int) -> int, p: int)
    requires
        0 <= p < size * size,
        0 <= alpha(p) <= 255,
    ensures
        ({
            let t = tinted(size, rgb, alpha);
            &&& t.len() == size * size * 4
            &&& t[4 * p + 3] == alpha(p)
            &&& alpha(p) > 0 ==> t[4 * p] == rgb@[0] && t[4 * p + 1] == rgb@[1] && t[4 * p + 2] == rgb@[2]
            &&& alpha(p) == 0 ==> t[4 * p] == 0 && t[4 * p + 1] == 0 && t[4 * p + 2] == 0
        }),
{
    assert(0 <= size * size) by (nonlinear_arith);
}

/// A glyph's box stands in the middle of its picture, and nothing is drawn beside it; one that is too large
/// starts at the corner.
pub proof fn law_a_glyph_is_centred(size: u32, c: Coverage, px: int, py: int)
    requires
        0 < size <= 32767,
        c.wf(),
        0 <= px < size,
        0 <= py < size,
    ensures
        ({
            let (left, top) = (centred(size as int, c.width as int), centred(size as int, c.height as int));
            &&& c.width <= size ==> 0 <= size - c.width - 2 * left <= 1
            &&& c.height <= size ==> 0 <= size - c.height - 2 * top <= 1
            &&& c.width > size ==> left == 0
            &&& c.height > size ==> top == 0
            &&& !(left <= px < left + c.width && top <= py < top + c.height) ==> glyph_alpha(
                size,
                c,
                py * size + px,
            ) == 0
            &&& left <= px < left + c.width && top <= py < top + c.height ==> glyph_alpha(
                size,
                c,
                py * size + px,
            ) == c.alpha@[(py - top) * c.width + (px - left)]
        }),
{
    let p = py * size + px;
    assert(p % (size as int) == px && p / (size as int) == py) by (nonlinear_arith)
        requires
            p == py * size + px,
            0 <= px < size,
            0 <= py,
    ;
}

/// A dot that falls outside the picture changes nothing; one inside gives its own pixel the colour and its
/// opacity, and no other.
pub proof fn law_a_dot_marks_its_own_pixel(
    size: u32,
    rgb: [u8; 3],
    dots: Seq<Dot>,
    ox: i32,
    oy: i32,
    n: int,
    q: int,
)
    requires
        0 < n <= dots.len(),
        0 <= q < size * size,
    ensures
        ({
            let (was, is) = (stamped(size, rgb, dots, ox, oy, n - 1), stamped(size, rgb, dots, ox, oy, n));
            let d = dots[n - 1];
            let (x, y) = (d.x + ox, d.y + oy);
            let inside = 0 <= x < size && 0 <= y < size;
            &&& is.len() == size * size * 4
            &&& !inside ==> is == was
            &&& inside && q == y * size + x ==> is[4 * q] == rgb@[0] && is[4 * q + 1] == rgb@[1] && is[4
                * q + 2] == rgb@[2] && is[4 * q + 3] == d.alpha
            &&& inside && q != y * size + x ==> is[4 * q] == was[4 * q] && is[4 * q + 1] == was[4 * q + 1]
                && is[4 * q + 2] == was[4 * q + 2] && is[4 * q + 3] == was[4 * q + 3]
            &&& stamped(size, rgb, dots, ox, oy, 0)[4 * q + 3] == 0
        }),
{
    lemma_stamped_len(size, rgb, dots, ox, oy, n - 1);
    let d = dots[n - 1];
    let (x, y) = (d.x + ox, d.y + oy);
    if 0 <= x < size && 0 <= y < size {
        assert(0 <= y * size + x < size * size) by (nonlinear_arith)
            requires
                0 <= x < size,
                0 <= y < size,
        ;
    }
}

proof fn lemma_stamped_len(size: u32, rgb: [u8; 3], dots: Seq<Dot>, ox: i32, oy: i32, n: int)
    ensures
        stamped(size, rgb, dots, ox, oy, n).len() == size * size * 4,
        size * size >= 0,
    decreases n,
{
    assert(size * size >= 0) by (nonlinear_arith);
    if n > 0 {
        lemma_stamped_len(size, rgb, dots, ox, oy, n - 1);
        let (x, y) = (dots[n - 1].x + ox, dots[n - 1].y + oy);
        if 0 <= x < size && 0 <= y < size {
            assert(0 <= y * size + x < size * size) by (nonlinear_arith)
                requires
                    0 <= x < size,
                    0 <= y < size,
            ;
        }
    }
}

} // verus!
