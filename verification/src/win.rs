//! Small helpers for talking to the system.
use crate::text;
use vstd::prelude::*;

verus! {

/// A text as the zero-terminated UTF-16 buffer that the system's functions take.
pub fn wide(s: &str) -> (r: Vec<u16>)
    ensures
        r@ == text::utf16(s@).push(0),
{
    let mut out = text::encode_utf16(s);
    out.push(0);
    out
}

/// The size of a small icon, given what the system says of it; sixteen where it says nothing of use.
pub fn small_icon_size(reported: i32) -> (r: u32)
    ensures
        r == if reported <= 0 {
            16
        } else {
            reported as int
        },
{
    if reported <= 0 {
        16
    } else {
        reported as u32
    }
}

proof fn lemma_units_of_a_char(c: char, i: int)
    requires
        c != '\0',
        0 <= i < text::utf16_char(c).len(),
    ensures
        text::utf16_char(c)[i] != 0,
{
    let v = c as u32 as int;
    assert(0 < v <= 0x10FFFF);
    if v >= 0x10000 {
        assert(0 <= (v - 0x10000) / 0x400 < 0x400);
    }
}

/// A buffer made of a text without zeros holds one zero, at its end: the system reads the whole
/// text and nothing behind it.
pub proof fn law_a_wide_text_ends_at_its_end(s: Seq<char>, i: int)
    requires
        !s.contains('\0'),
        0 <= i < text::utf16(s).len(),
    ensures
        text::utf16(s)[i] != 0,
    decreases s.len(),
{
    let head = text::utf16(s.drop_last());
    let last = text::utf16_char(s.last());
    if i < head.len() {
        assert(!s.drop_last().contains('\0')) by {
            if s.drop_last().contains('\0') {
                let k = choose|k: int| 0 <= k < s.drop_last().len() && s.drop_last()[k] == '\0';
                assert(s[k] == '\0');
            }
        }
        law_a_wide_text_ends_at_its_end(s.drop_last(), i);
    } else {
        assert(s.contains(s.last()));
        lemma_units_of_a_char(s.last(), i - head.len());
        assert(text::utf16(s)[i] == last[i - head.len()]);
    }
}

} // verus!
