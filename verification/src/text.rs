//! Text: the string operations the rest of the library is built on, each with its meaning over
//! sequences of characters.
use vstd::prelude::*;

verus! {

/// Appends a character to a string: `String::push`, which leaves the text there was in front.
pub assume_specification[ String::push ](s: &mut String, c: char)
    ensures
        final(s)@ == old(s)@.push(c),
;

/// Whether `c` has the Unicode property `White_Space`: the controls from the tab to the carriage return,
/// the next line, and the spaces and separators.
pub open spec fn is_whitespace(c: char) -> bool {
    ||| '\u{9}' <= c <= '\u{D}'
    ||| c == ' '
    ||| c == '\u{85}'
    ||| c == '\u{A0}'
    ||| c == '\u{1680}'
    ||| '\u{2000}' <= c <= '\u{200A}'
    ||| c == '\u{2028}'
    ||| c == '\u{2029}'
    ||| c == '\u{202F}'
    ||| c == '\u{205F}'
    ||| c == '\u{3000}'
}

/// `char::is_whitespace`: whether its character has the Unicode property `White_Space`.
pub assume_specification[ char::is_whitespace ](c: char) -> (r: bool)
    ensures
        r == is_whitespace(c),
;

/// The lower-case form of a text by the Unicode rules.
pub uninterp spec fn lowercase(s: Seq<char>) -> Seq<char>;

/// `str::to_lowercase`, which depends on its text alone.
#[verifier::external_body]
pub(crate) fn to_lowercase(s: &str) -> (r: String)
    ensures
        r@ == lowercase(s@),
{
    s.to_lowercase()
}

/// `c` with an ASCII capital replaced by its small letter.
pub open spec fn ascii_lower_char(c: char) -> char {
    if 'A' <= c && c <= 'Z' {
        ((c as u32) + 32) as char
    } else {
        c
    }
}

/// `s` with every ASCII capital replaced by its small letter.
pub open spec fn ascii_lower(s: Seq<char>) -> Seq<char> {
    s.map_values(|c: char| ascii_lower_char(c))
}

/// Whether `needle` occurs in `s` from position `i` on.
pub open spec fn occurs_at(s: Seq<char>, needle: Seq<char>, i: int) -> bool {
    0 <= i <= s.len() - needle.len() && s.subrange(i, i + needle.len()) == needle
}

/// Whether `needle` occurs anywhere in `s`.
pub open spec fn occurs_in(s: Seq<char>, needle: Seq<char>) -> bool {
    exists|i: int| occurs_at(s, needle, i)
}

/// The characters of a text, in order.
pub fn chars_of(s: &str) -> (r: Vec<char>)
    ensures
        r@ == s@,
{
    let mut out: Vec<char> = Vec::new();
    for c in it: s.chars()
        invariant
            it.seq() == s@,
            out@ == s@.take(it.index() as int),
    {
        proof {
            assert(s@.take(it.index() + 1) =~= s@.take(it.index() as int).push(c));
        }
        out.push(c);
    }
    proof {
        assert(s@.take(s@.len() as int) =~= s@);
    }
    out
}

/// `c` as a small letter if it is an ASCII capital, else `c`.
pub fn lower_char(c: char) -> (r: char)
    ensures
        r == ascii_lower_char(c),
{
    if 'A' <= c && c <= 'Z' {
        ((c as u8) + 32) as char
    } else {
        c
    }
}

/// `s` with its ASCII capitals made small.
pub fn to_ascii_lowercase(s: &str) -> (r: String)
    ensures
        r@ == ascii_lower(s@),
{
    let chars = chars_of(s);
    let mut out = String::new();
    let mut i: usize = 0;
    while i < chars.len()
        invariant
            i <= chars.len(),
            out@ == ascii_lower(chars@.take(i as int)),
        decreases chars.len() - i,
    {
        out.push(lower_char(chars[i]));
        i = i + 1;
        proof {
            assert(chars@.take(i as int) =~= chars@.take(i - 1).push(chars@[i - 1]));
            assert(ascii_lower(chars@.take(i as int)) =~= ascii_lower(chars@.take(i - 1)).push(
                ascii_lower_char(chars@[i - 1]),
            ));
        }
    }
    proof {
        assert(chars@.take(chars@.len() as int) =~= chars@);
    }
    out
}

/// Whether two texts are the same.
pub fn same_text(a: &str, b: &str) -> (r: bool)
    ensures
        r == (a@ == b@),
{
    let x = chars_of(a);
    let y = chars_of(b);
    if x.len() != y.len() {
        return false;
    }
    let mut i: usize = 0;
    while i < x.len()
        invariant
            i <= x.len(),
            x.len() == y.len(),
            x@.take(i as int) == y@.take(i as int),
            x@ == a@,
            y@ == b@,
        decreases x.len() - i,
    {
        if x[i] != y[i] {
            return false;
        }
        i = i + 1;
        proof {
            assert(x@.take(i as int) =~= x@.take(i - 1).push(x@[i - 1]));
            assert(y@.take(i as int) =~= y@.take(i - 1).push(y@[i - 1]));
        }
    }
    proof {
        assert(x@.take(i as int) =~= x@);
        assert(y@.take(i as int) =~= y@);
    }
    true
}

/// Whether two texts are the same but for the case of ASCII letters.
pub fn eq_ignore_ascii_case(a: &str, b: &str) -> (r: bool)
    ensures
        r == (ascii_lower(a@) == ascii_lower(b@)),
{
    let x = to_ascii_lowercase(a);
    let y = to_ascii_lowercase(b);
    x == y
}

/// Whether `needle` stands in `hay` at `at`.
fn matches_at(hay: &Vec<char>, needle: &Vec<char>, at: usize) -> (r: bool)
    requires
        at + needle.len() <= hay.len(),
    ensures
        r == occurs_at(hay@, needle@, at as int),
{
    let mut i: usize = 0;
    while i < needle.len()
        invariant
            i <= needle.len(),
            at + needle.len() <= hay.len(),
            forall|j: int| 0 <= j < i ==> hay@[at + j] == needle@[j],
        decreases needle.len() - i,
    {
        if hay[at + i] != needle[i] {
            proof {
                assert(hay@.subrange(at as int, at + needle.len())[i as int] != needle@[i as int]);
            }
            return false;
        }
        i = i + 1;
    }
    proof {
        assert(hay@.subrange(at as int, at + needle.len()) =~= needle@);
    }
    true
}

/// Whether `needle` occurs in `hay`.
pub fn contains(hay: &str, needle: &str) -> (r: bool)
    ensures
        r == occurs_in(hay@, needle@),
{
    let h = chars_of(hay);
    let n = chars_of(needle);
    if n.len() > h.len() {
        return false;
    }
    let last: usize = h.len() - n.len();
    let mut at: usize = 0;
    while at <= last
        invariant
            at <= last + 1,
            last + n.len() == h.len(),
            h@ == hay@,
            n@ == needle@,
            forall|i: int| 0 <= i < at ==> !#[trigger] occurs_at(h@, n@, i),
        decreases last + 1 - at,
    {
        if matches_at(&h, &n, at) {
            return true;
        }
        if at == last {
            return false;
        }
        at = at + 1;
    }
    false
}

/// `s` without the white space in front.
pub open spec fn trim_start(s: Seq<char>) -> Seq<char>
    decreases s.len(),
{
    if s.len() > 0 && is_whitespace(s[0]) {
        trim_start(s.skip(1))
    } else {
        s
    }
}

/// `s` without the white space behind.
pub open spec fn trim_end(s: Seq<char>) -> Seq<char>
    decreases s.len(),
{
    if s.len() > 0 && is_whitespace(s.last()) {
        trim_end(s.drop_last())
    } else {
        s
    }
}

/// `s` without the white space at either end.
pub open spec fn trimmed(s: Seq<char>) -> Seq<char> {
    trim_end(trim_start(s))
}

/// Whether `s` holds nothing but white space.
pub open spec fn is_blank(s: Seq<char>) -> bool {
    forall|i: int| 0 <= i < s.len() ==> is_whitespace(#[trigger] s[i])
}

/// A text is blank exactly where nothing is left of it once the ends are trimmed.
pub proof fn law_a_blank_text_trims_to_nothing(s: Seq<char>)
    ensures
        is_blank(s) <==> trimmed(s).len() == 0,
{
    lemma_trim_start_blank(s);
    lemma_trim_end_nonblank(trim_start(s));
}

proof fn lemma_trim_start_blank(s: Seq<char>)
    ensures
        is_blank(s) <==> trim_start(s).len() == 0,
        trim_start(s).len() > 0 ==> !is_whitespace(trim_start(s)[0]),
    decreases s.len(),
{
    if s.len() > 0 && is_whitespace(s[0]) {
        lemma_trim_start_blank(s.skip(1));
        if is_blank(s.skip(1)) {
            assert forall|i: int| 0 <= i < s.len() implies is_whitespace(#[trigger] s[i]) by {
                if i > 0 {
                    assert(s.skip(1)[i - 1] == s[i]);
                }
            }
        } else {
            let j = choose|j: int|
                0 <= j < s.skip(1).len() && !is_whitespace(#[trigger] s.skip(1)[j]);
            assert(!is_whitespace(s[j + 1]));
        }
    }
}

proof fn lemma_trim_end_nonblank(s: Seq<char>)
    requires
        s.len() > 0 ==> !is_whitespace(s[0]),
    ensures
        trim_end(s).len() == 0 <==> s.len() == 0,
    decreases s.len(),
{
    if s.len() > 0 && is_whitespace(s.last()) {
        assert(s.len() > 1);
        lemma_trim_end_nonblank(s.drop_last());
    }
}

/// The parts of a text that trimming keeps are parts of the text.
proof fn lemma_trimmed_part(s: Seq<char>)
    ensures
        forall|i: int|
            0 <= i < trimmed(s).len() ==> s.contains(#[trigger] trimmed(s)[i]),
{
    lemma_trim_start_part(s);
    lemma_trim_end_part(trim_start(s));
    assert forall|i: int| 0 <= i < trimmed(s).len() implies s.contains(
        #[trigger] trimmed(s)[i],
    ) by {
        let t = trim_start(s);
        assert(t.contains(trim_end(t)[i]));
        let j = choose|j: int| 0 <= j < t.len() && t[j] == trim_end(t)[i];
        assert(s.contains(t[j]));
    }
}

proof fn lemma_trim_start_part(s: Seq<char>)
    ensures
        forall|i: int|
            0 <= i < trim_start(s).len() ==> s.contains(#[trigger] trim_start(s)[i]),
    decreases s.len(),
{
    if s.len() > 0 && is_whitespace(s[0]) {
        lemma_trim_start_part(s.skip(1));
        assert forall|i: int| 0 <= i < trim_start(s).len() implies s.contains(
            #[trigger] trim_start(s)[i],
        ) by {
            let t = s.skip(1);
            assert(t.contains(trim_start(t)[i]));
            let j = choose|j: int| 0 <= j < t.len() && t[j] == trim_start(t)[i];
            assert(s[j + 1] == t[j]);
        }
    }
}

proof fn lemma_trim_end_part(s: Seq<char>)
    ensures
        forall|i: int| 0 <= i < trim_end(s).len() ==> s.contains(#[trigger] trim_end(s)[i]),
    decreases s.len(),
{
    if s.len() > 0 && is_whitespace(s.last()) {
        lemma_trim_end_part(s.drop_last());
        assert forall|i: int| 0 <= i < trim_end(s).len() implies s.contains(
            #[trigger] trim_end(s)[i],
        ) by {
            let t = s.drop_last();
            assert(t.contains(trim_end(t)[i]));
            let j = choose|j: int| 0 <= j < t.len() && t[j] == trim_end(t)[i];
            assert(s[j] == t[j]);
        }
    }
}

/// Trimming brings no character into a text that was not there.
pub proof fn lemma_trimmed_brings_nothing(s: Seq<char>, c: char)
    requires
        !s.contains(c),
    ensures
        !trimmed(s).contains(c),
{
    lemma_trimmed_part(s);
    if trimmed(s).contains(c) {
        let i = choose|i: int| 0 <= i < trimmed(s).len() && trimmed(s)[i] == c;
        assert(s.contains(trimmed(s)[i]));
    }
}

/// Whether a text holds nothing but white space.
pub fn blank(s: &str) -> (r: bool)
    ensures
        r == is_blank(s@),
{
    let chars = chars_of(s);
    let mut i: usize = 0;
    while i < chars.len()
        invariant
            i <= chars.len(),
            chars@ == s@,
            forall|j: int| 0 <= j < i ==> is_whitespace(#[trigger] s@[j]),
        decreases chars.len() - i,
    {
        if !chars[i].is_whitespace() {
            proof {
                assert(!is_whitespace(s@[i as int]));
            }
            return false;
        }
        i = i + 1;
    }
    true
}

/// The text without the white space at either end.
pub fn trim(s: &str) -> (r: String)
    ensures
        r@ == trimmed(s@),
{
    let chars = chars_of(s);
    let mut from: usize = 0;
    proof {
        assert(chars@.skip(0) =~= chars@);
    }
    while from < chars.len() && chars[from].is_whitespace()
        invariant
            from <= chars.len(),
            chars@ == s@,
            trim_start(chars@.skip(from as int)) == trim_start(s@),
        decreases chars.len() - from,
    {
        proof {
            assert(chars@.skip(from as int).skip(1) =~= chars@.skip(from + 1));
        }
        from = from + 1;
    }
    let ghost rest = chars@.skip(from as int);
    proof {
        assert(from < chars.len() ==> rest[0] == chars@[from as int]);
        assert(trim_start(s@) == rest);
    }
    let mut to: usize = chars.len();
    proof {
        assert(chars@.subrange(from as int, to as int) =~= rest);
    }
    while from < to && chars[to - 1].is_whitespace()
        invariant
            from <= to <= chars.len(),
            trim_end(chars@.subrange(from as int, to as int)) == trim_end(rest),
        decreases to,
    {
        proof {
            assert(chars@.subrange(from as int, to as int).drop_last() =~= chars@.subrange(
                from as int,
                to - 1,
            ));
        }
        to = to - 1;
    }
    let mut out = String::new();
    let mut i: usize = from;
    while i < to
        invariant
            from <= i <= to <= chars.len(),
            out@ == chars@.subrange(from as int, i as int),
        decreases to - i,
    {
        out.push(chars[i]);
        i = i + 1;
        proof {
            assert(chars@.subrange(from as int, i as int) =~= chars@.subrange(
                from as int,
                i - 1,
            ).push(chars@[i - 1]));
        }
    }
    out
}

/// `s` with every `from` replaced by `to`.
pub open spec fn replaced(s: Seq<char>, from: char, to: char) -> Seq<char> {
    s.map_values(
        |c: char|
            if c == from {
                to
            } else {
                c
            },
    )
}

/// The text with every `from` replaced by `to`.
pub fn replace_char(s: &str, from: char, to: char) -> (r: String)
    ensures
        r@ == replaced(s@, from, to),
{
    let chars = chars_of(s);
    let mut out = String::new();
    let mut i: usize = 0;
    while i < chars.len()
        invariant
            i <= chars.len(),
            chars@ == s@,
            out@ == replaced(chars@.take(i as int), from, to),
        decreases chars.len() - i,
    {
        let kept = if chars[i] == from {
            to
        } else {
            chars[i]
        };
        out.push(kept);
        i = i + 1;
        proof {
            assert(chars@.take(i as int) =~= chars@.take(i - 1).push(chars@[i - 1]));
            assert(replaced(chars@.take(i as int), from, to) =~= replaced(
                chars@.take(i - 1),
                from,
                to,
            ).push(kept));
        }
    }
    proof {
        assert(chars@.take(chars@.len() as int) =~= chars@);
    }
    out
}

/// Once every `from` is replaced by another character, none is left.
pub proof fn lemma_replaced_leaves_none(s: Seq<char>, from: char, to: char)
    requires
        from != to,
    ensures
        !replaced(s, from, to).contains(from),
        forall|c: char| c != to && !s.contains(c) ==> !#[trigger] replaced(s, from, to).contains(c),
{
    let r = replaced(s, from, to);
    if r.contains(from) {
        let i = choose|i: int| 0 <= i < r.len() && r[i] == from;
        assert(r[i] != from);
    }
    assert forall|c: char| c != to && !s.contains(c) implies !#[trigger] r.contains(c) by {
        if r.contains(c) {
            let i = choose|i: int| 0 <= i < r.len() && r[i] == c;
            assert(s[i] == c);
        }
    }
}

/// `s` without the copies of `prefix` in front of it.
pub open spec fn without_prefixes(s: Seq<char>, prefix: Seq<char>) -> Seq<char>
    decreases s.len(),
{
    if 0 < prefix.len() && occurs_at(s, prefix, 0) {
        without_prefixes(s.skip(prefix.len() as int), prefix)
    } else {
        s
    }
}

/// The text without any copy of `prefix` in front.
pub fn trim_start_matches(s: &str, prefix: &str) -> (r: String)
    ensures
        r@ == without_prefixes(s@, prefix@),
{
    let chars = chars_of(s);
    let p = chars_of(prefix);
    let mut from: usize = 0;
    proof {
        assert(chars@.skip(0) =~= chars@);
    }
    while p.len() > 0 && p.len() <= chars.len() - from && matches_at(&chars, &p, from)
        invariant
            from <= chars.len(),
            p@ == prefix@,
            without_prefixes(chars@.skip(from as int), p@) == without_prefixes(s@, prefix@),
        decreases chars.len() - from,
    {
        proof {
            assert(chars@.skip(from as int).subrange(0, p@.len() as int) =~= chars@.subrange(
                from as int,
                from + p@.len(),
            ));
            assert(chars@.skip(from as int).skip(p@.len() as int) =~= chars@.skip(from + p@.len()));
        }
        from = from + p.len();
    }
    proof {
        let rest = chars@.skip(from as int);
        if p@.len() <= rest.len() {
            assert(rest.subrange(0, p@.len() as int) =~= chars@.subrange(
                from as int,
                from + p@.len(),
            ));
        }
    }
    let mut out = String::new();
    let mut i: usize = from;
    while i < chars.len()
        invariant
            from <= i <= chars.len(),
            out@ == chars@.subrange(from as int, i as int),
        decreases chars.len() - i,
    {
        out.push(chars[i]);
        i = i + 1;
        proof {
            assert(chars@.subrange(from as int, i as int) =~= chars@.subrange(
                from as int,
                i - 1,
            ).push(chars@[i - 1]));
        }
    }
    proof {
        assert(chars@.subrange(from as int, chars@.len() as int) =~= chars@.skip(from as int));
    }
    out
}

/// The UTF-16 code units of one character: itself, or a surrogate pair.
pub open spec fn utf16_char(c: char) -> Seq<u16> {
    let v = c as u32 as int;
    if v < 0x10000 {
        seq![v as u16]
    } else {
        seq![(0xD800 + (v - 0x10000) / 0x400) as u16, (0xDC00 + (v - 0x10000) % 0x400) as u16]
    }
}

/// The UTF-16 code units of a text.
pub open spec fn utf16(s: Seq<char>) -> Seq<u16>
    decreases s.len(),
{
    if s.len() == 0 {
        Seq::empty()
    } else {
        utf16(s.drop_last()) + utf16_char(s.last())
    }
}

/// The UTF-16 code units of a text.
pub fn encode_utf16(s: &str) -> (r: Vec<u16>)
    ensures
        r@ == utf16(s@),
{
    let chars = chars_of(s);
    let mut out: Vec<u16> = Vec::new();
    let mut i: usize = 0;
    while i < chars.len()
        invariant
            i <= chars.len(),
            out@ == utf16(chars@.take(i as int)),
        decreases chars.len() - i,
    {
        let v: u32 = chars[i] as u32;
        let ghost before = out@;
        if v < 0x10000 {
            out.push(v as u16);
        } else {
            let high: u32 = 0xD800 + (v - 0x10000) / 0x400;
            let low: u32 = 0xDC00 + (v - 0x10000) % 0x400;
            out.push(high as u16);
            out.push(low as u16);
        }
        i = i + 1;
        proof {
            let t = chars@.take(i as int);
            assert(t.drop_last() =~= chars@.take(i - 1));
            assert(t.last() == chars@[i - 1]);
            assert(out@ =~= before + utf16_char(t.last()));
        }
    }
    proof {
        assert(chars@.take(chars@.len() as int) =~= chars@);
    }
    out
}

/// The digit of value `d`, capitals above nine.
pub open spec fn digit(d: int) -> char {
    if d < 10 {
        (48 + d) as char
    } else {
        (55 + d) as char
    }
}

/// The last `width` hexadecimal digits of `v`.
pub open spec fn hex_digits(v: nat, width: nat) -> Seq<char>
    decreases width,
{
    if width == 0 {
        Seq::empty()
    } else {
        hex_digits(v / 16, (width - 1) as nat).push(digit((v % 16) as int))
    }
}

/// How many hexadecimal digits `v` takes without a leading zero.
pub open spec fn hex_len(v: nat) -> nat
    decreases v,
{
    if v < 16 {
        1
    } else {
        hex_len(v / 16) + 1
    }
}

/// `v` in hexadecimal, with leading zeros up to `width` digits.
pub open spec fn hex(v: nat, width: nat) -> Seq<char> {
    hex_digits(
        v,
        if hex_len(v) < width {
            width
        } else {
            hex_len(v)
        },
    )
}

/// `v` in decimal.
pub open spec fn decimal(v: nat) -> Seq<char>
    decreases v,
{
    if v < 10 {
        seq![digit(v as int)]
    } else {
        decimal(v / 10).push(digit((v % 10) as int))
    }
}

fn digit_char(d: u32) -> (r: char)
    requires
        d < 16,
    ensures
        r == digit(d as int),
{
    if d < 10 {
        (48 + d as u8) as char
    } else {
        (55 + d as u8) as char
    }
}

fn push_hex_digits(out: &mut String, v: u32, width: u32)
    ensures
        final(out)@ == old(out)@ + hex_digits(v as nat, width as nat),
    decreases width,
{
    if width > 0 {
        push_hex_digits(out, v / 16, width - 1);
        out.push(digit_char(v % 16));
        proof {
            let inner = hex_digits((v / 16) as nat, (width - 1) as nat);
            assert(out@ =~= old(out)@ + inner.push(digit((v % 16) as int)));
        }
    } else {
        proof {
            assert(old(out)@ + hex_digits(v as nat, 0) =~= old(out)@);
        }
    }
}

fn count_hex_digits(v: u32) -> (n: u32)
    ensures
        n == hex_len(v as nat),
        n as int <= 1 + v,
    decreases v,
{
    if v < 16 {
        1
    } else {
        count_hex_digits(v / 16) + 1
    }
}

/// Appends `v` in hexadecimal, with leading zeros up to `width` digits.
pub fn push_hex(out: &mut String, v: u32, width: u32)
    ensures
        final(out)@ == old(out)@ + hex(v as nat, width as nat),
{
    let n: u32 = count_hex_digits(v);
    if n < width {
        push_hex_digits(out, v, width);
    } else {
        push_hex_digits(out, v, n);
    }
}

/// Two numbers with the same digits are the same.
pub proof fn lemma_decimal_is_injective(a: nat, b: nat)
    requires
        decimal(a) == decimal(b),
    ensures
        a == b,
    decreases a,
{
    lemma_decimal_nonempty(a);
    lemma_decimal_nonempty(b);
    if a >= 10 && b >= 10 {
        assert(decimal(a).drop_last() =~= decimal(a / 10));
        assert(decimal(b).drop_last() =~= decimal(b / 10));
        lemma_decimal_is_injective(a / 10, b / 10);
        assert(decimal(a).last() == digit((a % 10) as int));
        assert(decimal(b).last() == digit((b % 10) as int));
        lemma_digit_value((a % 10) as int);
        lemma_digit_value((b % 10) as int);
        assert(a % 10 == b % 10);
        assert(a == 10 * (a / 10) + a % 10);
        assert(b == 10 * (b / 10) + b % 10);
    } else if a < 10 && b < 10 {
        assert(decimal(a)[0] == digit(a as int));
        assert(decimal(b)[0] == digit(b as int));
        lemma_digit_value(a as int);
        lemma_digit_value(b as int);
    } else if a < 10 {
        lemma_decimal_nonempty(b / 10);
        assert(decimal(b).len() >= 2);
    } else {
        lemma_decimal_nonempty(a / 10);
        assert(decimal(a).len() >= 2);
    }
}

proof fn lemma_digit_value(d: int)
    requires
        0 <= d < 10,
    ensures
        digit(d) as u32 == 48 + d,
{
}

proof fn lemma_decimal_nonempty(v: nat)
    ensures
        decimal(v).len() > 0,
    decreases v,
{
    if v >= 10 {
        lemma_decimal_nonempty(v / 10);
    }
}

/// Appends `v` in decimal.
pub fn push_decimal(out: &mut String, v: u64)
    ensures
        final(out)@ == old(out)@ + decimal(v as nat),
    decreases v,
{
    if v < 10 {
        out.push(digit_char(v as u32));
        proof {
            assert(out@ =~= old(out)@ + decimal(v as nat));
        }
    } else {
        push_decimal(out, v / 10);
        out.push(digit_char((v % 10) as u32));
        proof {
            assert(out@ =~= old(out)@ + decimal(v as nat));
        }
    }
}

/// `v` in decimal, with a sign where it is negative.
pub open spec fn signed_decimal(v: int) -> Seq<char> {
    if v < 0 {
        seq!['-'] + decimal((-v) as nat)
    } else {
        decimal(v as nat)
    }
}

/// Appends `v` in decimal, with a sign where it is negative.
pub fn push_signed(out: &mut String, v: i64)
    ensures
        final(out)@ == old(out)@ + signed_decimal(v as int),
{
    if v < 0 {
        out.push('-');
        let magnitude: u64 = if v == i64::MIN {
            0x8000_0000_0000_0000
        } else {
            (-v) as u64
        };
        push_decimal(out, magnitude);
        proof {
            assert(out@ =~= old(out)@ + signed_decimal(v as int));
        }
    } else {
        push_decimal(out, v as u64);
    }
}

/// Whether a text is made of decimal digits.
pub open spec fn all_digits(s: Seq<char>) -> bool {
    forall|i: int| 0 <= i < s.len() ==> '0' <= #[trigger] s[i] && s[i] <= '9'
}

/// The number that decimal digits stand for.
pub open spec fn digits_value(s: Seq<char>) -> int
    decreases s.len(),
{
    if s.len() == 0 {
        0
    } else {
        10 * digits_value(s.drop_last()) + (s.last() as u32 - 48)
    }
}

/// A text's digits: without the plus sign that may stand before them.
pub open spec fn unsigned_part(s: Seq<char>) -> Seq<char> {
    if s.len() > 0 && s[0] == '+' {
        s.skip(1)
    } else {
        s
    }
}

/// The whole number that a text stands for, if it does.
pub open spec fn number(s: Seq<char>) -> Option<int> {
    let d = unsigned_part(s);
    if d.len() > 0 && all_digits(d) {
        Some(digits_value(d))
    } else {
        None
    }
}

proof fn lemma_more_digits_are_no_less(s: Seq<char>, n: int)
    requires
        0 <= n <= s.len(),
        all_digits(s),
    ensures
        0 <= digits_value(s.take(n)) <= digits_value(s),
    decreases s.len(),
{
    if n < s.len() {
        let less = s.drop_last();
        assert(forall|i: int| 0 <= i < less.len() ==> less[i] == s[i]);
        lemma_more_digits_are_no_less(less, n);
        assert(less.take(n) =~= s.take(n));
    } else if s.len() > 0 {
        let less = s.drop_last();
        assert(forall|i: int| 0 <= i < less.len() ==> less[i] == s[i]);
        lemma_more_digits_are_no_less(less, less.len() as int);
        assert(less.take(less.len() as int) =~= less);
        assert(s.take(n) =~= s);
    } else {
        assert(s.take(n) =~= s);
    }
}

/// Reads a whole number that a `u64` can hold.
pub fn parse_number(s: &str) -> (r: Option<u64>)
    ensures
        match number(s@) {
            Some(v) => if v <= u64::MAX {
                r == Some(v as u64)
            } else {
                r is None
            },
            None => r is None,
        },
{
    let chars = chars_of(s);
    let from: usize = if chars.len() > 0 && chars[0] == '+' {
        1
    } else {
        0
    };
    let ghost d = unsigned_part(s@);
    proof {
        assert(d =~= s@.skip(from as int));
        assert(d.take(0) =~= Seq::empty());
    }
    if chars.len() == from {
        return None;
    }
    let mut v: u64 = 0;
    let mut i: usize = from;
    while i < chars.len()
        invariant
            from <= i <= chars@.len(),
            chars@ == s@,
            d == unsigned_part(s@),
            d == s@.skip(from as int),
            d.len() > 0,
            v == digits_value(d.take(i - from)),
            forall|k: int| 0 <= k < i - from ==> '0' <= #[trigger] d[k] && d[k] <= '9',
        decreases chars@.len() - i,
    {
        let c = chars[i];
        proof {
            assert(d[i - from] == c);
            assert(d.take(i - from + 1).drop_last() =~= d.take(i - from));
            assert(d.take(i - from + 1).last() == c);
        }
        if c < '0' || '9' < c {
            return None;
        }
        let ten: u128 = 10 * v as u128 + (c as u32 - 48) as u128;
        if ten > u64::MAX as u128 {
            proof {
                if all_digits(d) {
                    lemma_more_digits_are_no_less(d, i - from + 1);
                }
            }
            return None;
        }
        v = ten as u64;
        i = i + 1;
    }
    proof {
        assert(d.take(i - from) =~= d);
    }
    Some(v)
}

/// A number that was written in decimal is read back as it was.
pub proof fn law_a_number_reads_back(v: nat)
    ensures
        number(decimal(v)) == Some(v as int),
{
    lemma_decimal_is_digits(v);
    lemma_decimal_nonempty(v);
}

proof fn lemma_decimal_is_digits(v: nat)
    ensures
        all_digits(decimal(v)),
        digits_value(decimal(v)) == v,
    decreases v,
{
    let d = decimal(v);
    if v < 10 {
        assert(d.last() == digit(v as int));
        assert(d.drop_last() =~= Seq::empty());
        assert(digits_value(d.drop_last()) == 0);
        lemma_digit_value(v as int);
    } else {
        lemma_decimal_is_digits(v / 10);
        lemma_digit_value((v % 10) as int);
        assert(d.drop_last() =~= decimal(v / 10));
        assert(d.last() == digit((v % 10) as int));
        assert(v == 10 * (v / 10) + v % 10);
    }
}

/// The small hexadecimal digit of value `d`.
pub open spec fn small_digit(d: int) -> char {
    if d < 10 {
        (48 + d) as char
    } else {
        (87 + d) as char
    }
}

/// `v` in hexadecimal with small letters and no leading zero.
pub open spec fn small_hex(v: nat) -> Seq<char>
    decreases v,
{
    if v < 16 {
        seq![small_digit(v as int)]
    } else {
        small_hex(v / 16).push(small_digit((v % 16) as int))
    }
}

fn small_digit_char(d: u64) -> (r: char)
    requires
        d < 16,
    ensures
        r == small_digit(d as int),
{
    if d < 10 {
        (48 + d as u8) as char
    } else {
        (87 + d as u8) as char
    }
}

/// Appends `v` in hexadecimal with small letters and no leading zero.
pub fn push_small_hex(out: &mut String, v: u64)
    ensures
        final(out)@ == old(out)@ + small_hex(v as nat),
    decreases v,
{
    if v < 16 {
        out.push(small_digit_char(v));
        proof {
            assert(out@ =~= old(out)@ + small_hex(v as nat));
        }
    } else {
        push_small_hex(out, v / 16);
        out.push(small_digit_char(v % 16));
        proof {
            assert(out@ =~= old(out)@ + small_hex(v as nat));
        }
    }
}

/// Lowering changes ASCII capitals and nothing else, each to the small letter of the same place in the
/// alphabet.
pub proof fn law_lowering_changes_only_capitals(s: Seq<char>, i: int)
    requires
        0 <= i < s.len(),
    ensures
        ascii_lower(s).len() == s.len(),
        if 65 <= s[i] as u32 <= 90 {
            ascii_lower(s)[i] as u32 == s[i] as u32 + 32
        } else {
            ascii_lower(s)[i] == s[i]
        },
{
    let c = s[i];
    assert('A' as u32 == 65 && 'Z' as u32 == 90);
    if 65 <= c as u32 <= 90 {
        assert(((c as u32) + 32) as char as u32 == c as u32 + 32);
    }
}

/// A text occurs in another exactly where the other is made of it with something before and behind.
pub proof fn law_what_occurs_stands_between(s: Seq<char>, needle: Seq<char>)
    ensures
        occurs_in(s, needle) <==> exists|a: Seq<char>, b: Seq<char>| s == #[trigger] (a + needle + b),
{
    if occurs_in(s, needle) {
        let i = choose|i: int| occurs_at(s, needle, i);
        let (a, b) = (s.take(i), s.skip(i + needle.len()));
        assert(s =~= a + needle + b) by {
            assert forall|k: int| 0 <= k < s.len() implies s[k] == (a + needle + b)[k] by {
                if i <= k < i + needle.len() {
                    assert(s.subrange(i, i + needle.len())[k - i] == s[k]);
                }
            }
        }
    }
    if exists|a: Seq<char>, b: Seq<char>| s == #[trigger] (a + needle + b) {
        let (a, b) = choose|a: Seq<char>, b: Seq<char>| s == #[trigger] (a + needle + b);
        assert(s.subrange(a.len() as int, (a.len() + needle.len()) as int) =~= needle);
        assert(occurs_at(s, needle, a.len() as int));
    }
}

/// Of the ASCII characters the space and the controls from the tab to the carriage return are white space,
/// and no other; so letters, digits and marks never are.
pub proof fn law_ascii_white_space(c: char)
    requires
        c as u32 <= 127,
    ensures
        is_whitespace(c) <==> c as u32 == 32 || 9 <= c as u32 <= 13,
{
    assert(' ' as u32 == 32 && '\u{9}' as u32 == 9 && '\u{D}' as u32 == 13);
}

/// Trimming takes white space off both ends and nothing else: what is left stands in the text as it is,
/// all before and behind it is white space, and neither of its ends is.
pub proof fn law_trimming_takes_only_white_ends(s: Seq<char>) -> (k: int)
    ensures
        ({
            let t = trimmed(s);
            &&& 0 <= k <= k + t.len() <= s.len()
            &&& t == s.subrange(k, k + t.len())
            &&& forall|i: int| 0 <= i < k ==> is_whitespace(#[trigger] s[i])
            &&& forall|i: int| k + t.len() <= i < s.len() ==> is_whitespace(#[trigger] s[i])
            &&& t.len() > 0 ==> !is_whitespace(t[0]) && !is_whitespace(t.last())
        }),
{
    let k = lemma_trim_start_is_a_rest(s);
    let mid = s.skip(k);
    lemma_trim_end_is_a_beginning(mid);
    let t = trimmed(s);
    assert(t =~= s.subrange(k, k + t.len()));
    assert forall|i: int| k + t.len() <= i < s.len() implies is_whitespace(#[trigger] s[i]) by {
        assert(mid[i - k] == s[i]);
    }
    if t.len() > 0 {
        assert(t[0] == mid[0]);
    }
    k
}

proof fn lemma_trim_start_is_a_rest(s: Seq<char>) -> (k: int)
    ensures
        0 <= k <= s.len(),
        trim_start(s) == s.skip(k),
        forall|i: int| 0 <= i < k ==> is_whitespace(#[trigger] s[i]),
        k < s.len() ==> !is_whitespace(s[k]),
    decreases s.len(),
{
    if s.len() > 0 && is_whitespace(s[0]) {
        let j = lemma_trim_start_is_a_rest(s.skip(1));
        assert(s.skip(1).skip(j) =~= s.skip(j + 1));
        assert forall|i: int| 0 <= i < j + 1 implies is_whitespace(#[trigger] s[i]) by {
            if i > 0 {
                assert(s.skip(1)[i - 1] == s[i]);
            }
        }
        if j + 1 < s.len() {
            assert(s.skip(1)[j] == s[j + 1]);
        }
        j + 1
    } else {
        assert(s.skip(0) =~= s);
        0
    }
}

proof fn lemma_trim_end_is_a_beginning(s: Seq<char>)
    ensures
        trim_end(s).len() <= s.len(),
        trim_end(s) == s.take(trim_end(s).len() as int),
        forall|i: int| trim_end(s).len() <= i < s.len() ==> is_whitespace(#[trigger] s[i]),
        trim_end(s).len() > 0 ==> !is_whitespace(trim_end(s).last()),
    decreases s.len(),
{
    if s.len() > 0 && is_whitespace(s.last()) {
        let less = s.drop_last();
        lemma_trim_end_is_a_beginning(less);
        let n = trim_end(s).len() as int;
        assert(less.take(n) =~= s.take(n));
        assert forall|i: int| n <= i < s.len() implies is_whitespace(#[trigger] s[i]) by {
            if i < s.len() - 1 {
                assert(less[i] == s[i]);
            }
        }
    } else {
        assert(s.take(s.len() as int) =~= s);
    }
}

/// A text with no white space at its ends is not changed by trimming.
pub proof fn law_a_trim_text_stays(s: Seq<char>)
    requires
        s.len() > 0 ==> !is_whitespace(s[0]) && !is_whitespace(s.last()),
    ensures
        trimmed(s) == s,
{
}

/// Replacing a character leaves every other one as it is and where it is.
pub proof fn law_replacing_keeps_the_rest(s: Seq<char>, from: char, to: char, i: int)
    requires
        0 <= i < s.len(),
    ensures
        replaced(s, from, to).len() == s.len(),
        s[i] == from ==> replaced(s, from, to)[i] == to,
        s[i] != from ==> replaced(s, from, to)[i] == s[i],
{
}

/// A prefix is taken off as often as it stands there: once more in front makes no difference, and a text
/// that does not begin with it stays.
pub proof fn law_prefixes_are_taken_off(s: Seq<char>, prefix: Seq<char>)
    requires
        prefix.len() > 0,
    ensures
        without_prefixes(prefix + s, prefix) == without_prefixes(s, prefix),
        (forall|rest: Seq<char>| s != #[trigger] (prefix + rest)) ==> without_prefixes(s, prefix) == s,
{
    let n = prefix.len() as int;
    let more = prefix + s;
    assert(more.subrange(0, n) =~= prefix);
    assert(more.skip(n) =~= s);
    if occurs_at(s, prefix, 0) {
        let rest = s.skip(n);
        assert(s =~= prefix + rest) by {
            assert forall|k: int| 0 <= k < s.len() implies s[k] == (prefix + rest)[k] by {
                if k < n {
                    assert(s.subrange(0, n)[k] == s[k]);
                }
            }
        }
    }
}

/// A character is told by one code unit if it fits into one, and otherwise by a high and a low surrogate
/// that it can be had back from; the units of two texts are those of the one and then those of the other.
pub proof fn law_utf16_reads_back(c: char, a: Seq<char>, b: Seq<char>)
    ensures
        utf16(a + b) == utf16(a) + utf16(b),
        utf16(seq![c]) == utf16_char(c),
        (c as u32) < 0x10000 ==> utf16_char(c).len() == 1 && utf16_char(c)[0] == c as u32,
        c as u32 >= 0x10000 ==> {
            let u = utf16_char(c);
            &&& u.len() == 2
            &&& 0xD800 <= u[0] < 0xDC00
            &&& 0xDC00 <= u[1] < 0xE000
            &&& c as u32 == 0x10000 + (u[0] - 0xD800) * 0x400 + (u[1] - 0xDC00)
        },
    decreases b.len(),
{
    assert(seq![c].drop_last() =~= Seq::empty());
    assert(utf16(Seq::empty()) =~= Seq::empty());
    assert(utf16(seq![c]) =~= utf16_char(c));
    if b.len() == 0 {
        assert(a + b =~= a);
        assert(utf16(a) + utf16(b) =~= utf16(a));
    } else {
        law_utf16_reads_back(c, a, b.drop_last());
        assert((a + b).drop_last() =~= a + b.drop_last());
        assert((a + b).last() == b.last());
        assert(utf16(a + b) =~= utf16(a) + utf16(b));
    }
}

/// The value of a hexadecimal digit, in either case.
pub open spec fn hex_digit_value(c: char) -> int {
    if '0' <= c <= '9' {
        c as u32 - 48
    } else if 'A' <= c <= 'F' {
        c as u32 - 55
    } else if 'a' <= c <= 'f' {
        c as u32 - 87
    } else {
        -1
    }
}

/// The number that hexadecimal digits stand for.
pub open spec fn hex_value(s: Seq<char>) -> int
    decreases s.len(),
{
    if s.len() == 0 {
        0
    } else {
        16 * hex_value(s.drop_last()) + hex_digit_value(s.last())
    }
}

/// A number written in hexadecimal is read back as it was; it has the width that was asked for, or more
/// where it does not fit, and then no zero in front.
pub proof fn law_hex_reads_back(v: nat, width: nat)
    ensures
        hex_value(hex(v, width)) == v,
        hex(v, width).len() >= width,
        hex(v, width).len() > width && v > 0 ==> hex(v, width)[0] != '0',
        hex_value(small_hex(v)) == v,
        v > 0 ==> small_hex(v)[0] != '0',
{
    let n = if hex_len(v) < width {
        width
    } else {
        hex_len(v)
    };
    lemma_hex_digits_read_back(v, n);
    lemma_hex_len_suffices(v, n);
    lemma_hex_leads(v);
    lemma_small_hex_reads_back(v);
}

spec fn pow16(n: nat) -> nat
    decreases n,
{
    if n == 0 {
        1
    } else {
        16 * pow16((n - 1) as nat)
    }
}

proof fn lemma_hex_digits_read_back(v: nat, width: nat)
    ensures
        hex_digits(v, width).len() == width,
        v < pow16(width) ==> hex_value(hex_digits(v, width)) == v,
    decreases width,
{
    if width > 0 {
        let less = hex_digits(v / 16, (width - 1) as nat);
        lemma_hex_digits_read_back(v / 16, (width - 1) as nat);
        assert(hex_digits(v, width).drop_last() =~= less);
        assert(hex_digits(v, width).last() == digit((v % 16) as int));
        lemma_hex_digit((v % 16) as int);
    }
}

proof fn lemma_hex_digit(d: int)
    requires
        0 <= d < 16,
    ensures
        hex_digit_value(digit(d)) == d,
        hex_digit_value(small_digit(d)) == d,
        d > 0 ==> digit(d) != '0' && small_digit(d) != '0',
{
    assert('0' as u32 == 48 && '9' as u32 == 57 && 'A' as u32 == 65 && 'F' as u32 == 70 && 'a' as u32
        == 97 && 'f' as u32 == 102);
}

proof fn lemma_hex_len_suffices(v: nat, n: nat)
    requires
        n >= hex_len(v),
    ensures
        v < pow16(n),
        hex_len(v) >= 1,
    decreases v,
{
    if v < 16 {
        lemma_pow16_grows((n - 1) as nat);
    } else {
        lemma_hex_len_suffices(v / 16, (n - 1) as nat);
    }
}

proof fn lemma_pow16_grows(n: nat)
    ensures
        pow16(n) >= 1,
    decreases n,
{
    if n > 0 {
        lemma_pow16_grows((n - 1) as nat);
    }
}

proof fn lemma_hex_leads(v: nat)
    ensures
        hex_digits(v, hex_len(v)).len() == hex_len(v) >= 1,
        v > 0 ==> hex_digits(v, hex_len(v))[0] != '0',
    decreases v,
{
    lemma_hex_digits_read_back(v, hex_len(v));
    lemma_hex_len_suffices(v, hex_len(v));
    if v < 16 {
        assert(hex_digits(v / 16, 0) =~= Seq::empty());
        assert(hex_digits(v, 1)[0] == digit(v as int));
        lemma_hex_digit(v as int);
    } else {
        lemma_hex_leads(v / 16);
        assert(hex_digits(v, hex_len(v))[0] == hex_digits(v / 16, hex_len(v / 16))[0]);
    }
}

proof fn lemma_small_hex_reads_back(v: nat)
    ensures
        small_hex(v).len() >= 1,
        hex_value(small_hex(v)) == v,
        v > 0 ==> small_hex(v)[0] != '0',
    decreases v,
{
    lemma_hex_digit((v % 16) as int);
    if v < 16 {
        assert(small_hex(v).drop_last() =~= Seq::empty());
        assert(hex_value(Seq::empty()) == 0);
        assert(small_hex(v).last() == small_digit(v as int));
    } else {
        lemma_small_hex_reads_back(v / 16);
        assert(small_hex(v).drop_last() =~= small_hex(v / 16));
        assert(small_hex(v).last() == small_digit((v % 16) as int));
    }
}

/// A digit more makes a number ten times itself and that digit; one digit is its own value; a sign in
/// front makes no difference where there is none; and a text with anything else in it is no number.
pub proof fn law_numbers_are_read_digit_by_digit(s: Seq<char>, d: char, i: int)
    requires
        '0' <= d <= '9',
    ensures
        number(seq![d]) == Some(d as u32 - 48),
        number(s) matches Some(v) ==> number(s.push(d)) == Some(10 * v + (d as u32 - 48)),
        s.len() > 0 && s[0] != '+' ==> number(seq!['+'] + s) == number(s),
        s.len() == 0 ==> number(s) is None && number(seq!['+']) is None,
        0 <= i < s.len() && (s[i] < '0' || '9' < s[i]) && (i > 0 || s[i] != '+') ==> number(s) is None,
{
    let one = seq![d];
    assert(unsigned_part(one) =~= one);
    assert(one.drop_last() =~= Seq::empty());
    assert(digits_value(Seq::empty()) == 0);
    assert(digits_value(one) == d as u32 - 48);
    assert(number(one) == Some(d as u32 - 48));
    let u = unsigned_part(s);
    let more = unsigned_part(s.push(d));
    if number(s) is Some {
        assert(more =~= u.push(d));
        assert(u.push(d).drop_last() =~= u);
        assert(all_digits(more)) by {
            assert forall|k: int| 0 <= k < more.len() implies '0' <= #[trigger] more[k] && more[k]
                <= '9' by {
                if k < u.len() {
                    assert(more[k] == u[k]);
                }
            }
        }
    }
    let signed = seq!['+'] + s;
    assert(signed.skip(1) =~= s);
    assert(seq!['+'].skip(1) =~= Seq::empty());
    if 0 <= i < s.len() && (s[i] < '0' || '9' < s[i]) && (i > 0 || s[i] != '+') {
        if s[0] == '+' {
            assert(u[i - 1] == s[i]);
        } else {
            assert(u[i] == s[i]);
        }
    }
}

/// A byte in hexadecimal, two wide, has just two digits.
pub proof fn lemma_byte_is_two_digits(b: u8)
    ensures
        hex(b as nat, 2).len() == 2,
{
    assert(hex_len(b as nat) <= 2) by {
        if b >= 16 {
            assert((b as nat) / 16 < 16);
            assert(hex_len((b as nat) / 16) == 1);
        }
    }
    lemma_hex_digits_read_back(b as nat, 2);
}

} // verus!
