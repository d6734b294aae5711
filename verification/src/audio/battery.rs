//! Bluetooth battery levels: the device-node list they are read from, and how a container is
//! named and looked up.
use crate::text;
use vstd::prelude::*;

verus! {

/// A 128-bit identifier in its four fields.
#[derive(Debug, Clone, Copy, PartialEq, Eq)]
pub struct Guid {
    pub data1: u32,
    pub data2: u16,
    pub data3: u16,
    pub data4: [u8; 8],
}

/// The two digits of a byte.
pub open spec fn byte_text(b: u8) -> Seq<char> {
    text::hex(b as nat, 2)
}

/// The registry's way of writing an identifier: upper case, in braces, with dashes.
pub open spec fn guid_text(g: Guid) -> Seq<char> {
    seq!['{'] + text::hex(g.data1 as nat, 8) + seq!['-'] + text::hex(g.data2 as nat, 4) + seq!['-']
        + text::hex(g.data3 as nat, 4) + seq!['-'] + byte_text(g.data4@[0]) + byte_text(
        g.data4@[1],
    ) + seq!['-'] + byte_text(g.data4@[2]) + byte_text(g.data4@[3]) + byte_text(g.data4@[4])
        + byte_text(g.data4@[5]) + byte_text(g.data4@[6]) + byte_text(g.data4@[7]) + seq!['}']
}

/// Formats an identifier as an upper-case `{XXXXXXXX-XXXX-XXXX-XXXX-XXXXXXXXXXXX}` text, as the
/// endpoint's own container id is written.
pub fn guid_string(g: &Guid) -> (r: String)
    ensures
        r@ == guid_text(*g),
{
    let d = g.data4;
    let mut out = String::new();
    out.push('{');
    text::push_hex(&mut out, g.data1, 8);
    out.push('-');
    text::push_hex(&mut out, g.data2 as u32, 4);
    out.push('-');
    text::push_hex(&mut out, g.data3 as u32, 4);
    out.push('-');
    text::push_hex(&mut out, d[0] as u32, 2);
    text::push_hex(&mut out, d[1] as u32, 2);
    out.push('-');
    text::push_hex(&mut out, d[2] as u32, 2);
    text::push_hex(&mut out, d[3] as u32, 2);
    text::push_hex(&mut out, d[4] as u32, 2);
    text::push_hex(&mut out, d[5] as u32, 2);
    text::push_hex(&mut out, d[6] as u32, 2);
    text::push_hex(&mut out, d[7] as u32, 2);
    out.push('}');
    proof {
        assert(out@ =~= guid_text(*g));
    }
    out
}

/// The pieces of `s` between zeros, without the empty ones; `open` is the piece being read.
pub open spec fn pieces(s: Seq<u16>, open: Seq<u16>) -> Seq<Seq<u16>>
    decreases s.len(),
{
    if s.len() == 0 {
        if open.len() == 0 {
            Seq::empty()
        } else {
            seq![open]
        }
    } else if s[0] == 0 {
        if open.len() == 0 {
            pieces(s.skip(1), Seq::empty())
        } else {
            seq![open] + pieces(s.skip(1), Seq::empty())
        }
    } else {
        pieces(s.skip(1), open.push(s[0]))
    }
}

/// The texts of a multi-string.
pub open spec fn multi_string(s: Seq<u16>) -> Seq<Seq<u16>> {
    pieces(s, Seq::empty())
}

/// Splits a multi-string (texts that a zero ends, and a zero at the end) into its texts, each
/// with its own terminating zero.
pub fn split_multi_string(s: &[u16]) -> (r: Vec<Vec<u16>>)
    ensures
        r@.map_values(|v: Vec<u16>| v@) == multi_string(s@).map_values(
            |p: Seq<u16>| p.push(0u16),
        ),
{
    let mut out: Vec<Vec<u16>> = Vec::new();
    let mut open: Vec<u16> = Vec::new();
    let mut i: usize = 0;
    let ghost goal = multi_string(s@).map_values(|p: Seq<u16>| p.push(0u16));
    proof {
        assert(s@.skip(0) =~= s@);
        assert(Seq::<Seq<u16>>::empty() + goal =~= goal);
        assert(out@.map_values(|v: Vec<u16>| v@) =~= Seq::<Seq<u16>>::empty());
    }
    while i < s.len()
        invariant
            i <= s.len(),
            goal == multi_string(s@).map_values(|p: Seq<u16>| p.push(0u16)),
            out@.map_values(|v: Vec<u16>| v@) + pieces(s@.skip(i as int), open@).map_values(
                |p: Seq<u16>| p.push(0u16),
            ) == goal,
        decreases s.len() - i,
    {
        let ghost rest = s@.skip(i as int);
        let ghost before = out@.map_values(|v: Vec<u16>| v@);
        let ghost was = open@;
        let c: u16 = s[i];
        proof {
            assert(rest[0] == c);
            assert(rest.skip(1) =~= s@.skip(i + 1));
        }
        if c == 0 {
            if open.len() > 0 {
                open.push(0);
                let ghost done = open@;
                out.push(open);
                open = Vec::new();
                proof {
                    assert(out@.map_values(|v: Vec<u16>| v@) =~= before.push(done));
                    let tail = pieces(rest.skip(1), Seq::empty());
                    assert((seq![was] + tail).map_values(|p: Seq<u16>| p.push(0u16)) =~= seq![done]
                        + tail.map_values(|p: Seq<u16>| p.push(0u16)));
                    assert(before.push(done) + tail.map_values(|p: Seq<u16>| p.push(0u16))
                        =~= before + (seq![done] + tail.map_values(|p: Seq<u16>| p.push(0u16))));
                }
            } else {
                proof {
                    assert(open@ =~= Seq::empty());
                }
            }
        } else {
            open.push(c);
        }
        i = i + 1;
    }
    let ghost before = out@.map_values(|v: Vec<u16>| v@);
    let ghost was = open@;
    proof {
        assert(s@.skip(i as int) =~= Seq::empty());
    }
    if open.len() > 0 {
        open.push(0);
        let ghost done = open@;
        out.push(open);
        proof {
            assert(out@.map_values(|v: Vec<u16>| v@) =~= before.push(done));
            assert(seq![was].map_values(|p: Seq<u16>| p.push(0u16)) =~= seq![done]);
            assert(before.push(done) =~= before + seq![done]);
        }
    } else {
        proof {
            assert(before + Seq::<Seq<u16>>::empty().map_values(|p: Seq<u16>| p.push(0u16))
                =~= before);
        }
    }
    out
}

/// A battery level as reported, held to a percentage.
pub fn percentage(raw: u8) -> (r: u8)
    ensures
        r == held(raw),
{
    if raw <= 100 {
        raw
    } else {
        100
    }
}

/// What could be read of a device node: the battery level it reports and its container.
#[derive(Debug, Clone, Copy, PartialEq, Eq)]
pub struct Node {
    pub battery: Option<u8>,
    pub container: Option<Guid>,
}

/// A level held to a percentage.
pub open spec fn held(raw: u8) -> u8 {
    if raw <= 100 {
        raw
    } else {
        100
    }
}

/// The reports of the first `n` nodes: the container's text and the level of each that has both.
pub open spec fn reports(nodes: Seq<Node>, n: int) -> Seq<(Seq<char>, u8)>
    decreases n,
{
    if n <= 0 {
        Seq::empty()
    } else {
        match (nodes[n - 1].battery, nodes[n - 1].container) {
            (Some(raw), Some(g)) => reports(nodes, n - 1).push((guid_text(g), held(raw))),
            _ => reports(nodes, n - 1),
        }
    }
}

/// The container and the battery level, as a percentage, of every node that reports one. A node
/// without a container has nothing to be found by, and is left out.
pub fn levels(nodes: &[Node]) -> (r: Vec<(String, u8)>)
    ensures
        r@.map_values(|p: (String, u8)| (p.0@, p.1)) == reports(nodes@, nodes@.len() as int),
{
    let mut out: Vec<(String, u8)> = Vec::new();
    let mut i: usize = 0;
    proof {
        assert(out@.map_values(|p: (String, u8)| (p.0@, p.1)) =~= Seq::empty());
    }
    while i < nodes.len()
        invariant
            i <= nodes.len(),
            out@.map_values(|p: (String, u8)| (p.0@, p.1)) == reports(nodes@, i as int),
        decreases nodes.len() - i,
    {
        let ghost before = out@;
        if let Some(raw) = nodes[i].battery {
            if let Some(g) = nodes[i].container {
                out.push((guid_string(&g), percentage(raw)));
                proof {
                    assert(out@.map_values(|p: (String, u8)| (p.0@, p.1)) =~= before.map_values(
                        |p: (String, u8)| (p.0@, p.1),
                    ).push((guid_text(g), held(raw))));
                }
            }
        }
        i = i + 1;
    }
    out
}

/// What is reported for a container: the level of the first report for it, whatever the case its
/// container is written in.
pub open spec fn reported(levels: Seq<(String, u8)>, container: Seq<char>) -> Option<u8>
    decreases levels.len(),
{
    if levels.len() == 0 {
        None
    } else if text::ascii_lower(levels[0].0@) == text::ascii_lower(container) {
        Some(levels[0].1)
    } else {
        reported(levels.skip(1), container)
    }
}

/// The level of a device with the given container, if it has one and something reports for it.
pub open spec fn level_of(levels: Seq<(String, u8)>, container: Option<String>) -> Option<u8> {
    match container {
        Some(c) => reported(levels, c@),
        None => None,
    }
}

/// The battery level of a device with the given container.
pub fn battery_of(levels: &[(String, u8)], container: &Option<String>) -> (r: Option<u8>)
    ensures
        r == level_of(levels@, *container),
{
    match container {
        None => None,
        Some(c) => {
            let mut i: usize = 0;
            proof {
                assert(levels@.skip(0) =~= levels@);
            }
            while i < levels.len()
                invariant
                    i <= levels.len(),
                    *container == Some(*c),
                    reported(levels@.skip(i as int), c@) == level_of(levels@, *container),
                decreases levels.len() - i,
            {
                proof {
                    assert(levels@.skip(i as int)[0] == levels@[i as int]);
                    assert(levels@.skip(i as int).skip(1) =~= levels@.skip(i + 1));
                }
                if text::eq_ignore_ascii_case(levels[i].0.as_str(), c.as_str()) {
                    return Some(levels[i].1);
                }
                i = i + 1;
            }
            None
        },
    }
}

/// The case a container is written in makes no difference to the level found for it.
pub proof fn law_container_case_does_not_matter(levels: Seq<(String, u8)>, a: Seq<char>, b: Seq<char>)
    requires
        text::ascii_lower(a) == text::ascii_lower(b),
    ensures
        reported(levels, a) == reported(levels, b),
    decreases levels.len(),
{
    if levels.len() > 0 {
        law_container_case_does_not_matter(levels.skip(1), a, b);
    }
}

/// A level above a hundred counts as a hundred, and any other as it is.
pub proof fn law_a_level_is_at_most_a_hundred(raw: u8)
    ensures
        held(raw) <= 100,
        raw <= 100 ==> held(raw) == raw,
        raw >= 100 ==> held(raw) == 100,
{
}

/// A container's level is that of the first report for it, whatever the case it is written in, and there is
/// none exactly where nothing reports for it.
pub proof fn law_the_first_report_counts(levels: Seq<(String, u8)>, container: Seq<char>, i: int)
    ensures
        0 <= i < levels.len() && text::ascii_lower(levels[i].0@) == text::ascii_lower(container) && (forall|
            j: int,
        |
            0 <= j < i ==> text::ascii_lower((#[trigger] levels[j]).0@) != text::ascii_lower(container))
            ==> reported(levels, container) == Some(levels[i].1),
        (forall|j: int|
            0 <= j < levels.len() ==> text::ascii_lower((#[trigger] levels[j]).0@) != text::ascii_lower(
                container,
            )) ==> reported(levels, container) is None,
    decreases levels.len(),
{
    if levels.len() > 0 && text::ascii_lower(levels[0].0@) != text::ascii_lower(container) {
        let rest = levels.skip(1);
        law_the_first_report_counts(rest, container, i - 1);
        assert(forall|j: int| 0 <= j < rest.len() ==> rest[j] == #[trigger] levels[j + 1]);
        if 0 < i < levels.len() {
            assert(rest[i - 1] == levels[i]);
        }
        if 0 <= i < levels.len() && (forall|j: int|
            0 <= j < i ==> text::ascii_lower((#[trigger] levels[j]).0@) != text::ascii_lower(container)) {
            assert forall|j: int| 0 <= j < i - 1 implies text::ascii_lower((#[trigger] rest[j]).0@)
                != text::ascii_lower(container) by {
                assert(rest[j] == levels[j + 1]);
            }
        }
        if forall|j: int|
            0 <= j < levels.len() ==> text::ascii_lower((#[trigger] levels[j]).0@) != text::ascii_lower(
                container,
            ) {
            assert forall|j: int| 0 <= j < rest.len() implies text::ascii_lower((#[trigger] rest[j]).0@)
                != text::ascii_lower(container) by {
                assert(rest[j] == levels[j + 1]);
            }
        }
    }
}

/// Every node with both a battery and a container is reported, in order, and no other.
pub proof fn law_every_battery_is_reported(nodes: Seq<Node>, n: int)
    requires
        0 < n <= nodes.len(),
    ensures
        reports(nodes, 0).len() == 0,
        match (nodes[n - 1].battery, nodes[n - 1].container) {
            (Some(raw), Some(g)) => {
                let r = reports(nodes, n);
                &&& r.drop_last() == reports(nodes, n - 1)
                &&& r.last().0 == guid_text(g)
                &&& r.last().1 == (if raw <= 100 {
                    raw
                } else {
                    100
                })
            },
            _ => reports(nodes, n) == reports(nodes, n - 1),
        },
{
    if let (Some(raw), Some(g)) = (nodes[n - 1].battery, nodes[n - 1].container) {
        assert(reports(nodes, n).drop_last() =~= reports(nodes, n - 1));
    }
}

/// A list of texts that are ended by zeros is taken apart at them: a text and its zero in front of a list
/// come out as that text and then what the list holds, and a zero that ends nothing is passed over.
pub proof fn law_a_list_is_taken_apart_at_zeros(piece: Seq<u16>, rest: Seq<u16>)
    requires
        piece.len() > 0,
        !piece.contains(0),
    ensures
        multi_string(piece + seq![0u16] + rest) == seq![piece] + multi_string(rest),
        multi_string(seq![0u16] + rest) == multi_string(rest),
        multi_string(piece) == seq![piece],
        multi_string(Seq::empty()).len() == 0,
{
    let zero = seq![0u16] + rest;
    assert(zero.skip(1) =~= rest);
    assert(piece + seq![0u16] + rest =~= piece + zero);
    lemma_piece_is_gathered(piece, zero, Seq::empty());
    lemma_piece_is_gathered(piece, Seq::empty(), Seq::empty());
    assert(Seq::<u16>::empty() + piece =~= piece);
    assert(piece + Seq::<u16>::empty() =~= piece);
}

proof fn lemma_piece_is_gathered(piece: Seq<u16>, rest: Seq<u16>, open: Seq<u16>)
    requires
        !piece.contains(0),
    ensures
        pieces(piece + rest, open) == pieces(rest, open + piece),
    decreases piece.len(),
{
    if piece.len() == 0 {
        assert(piece + rest =~= rest);
        assert(open + piece =~= open);
    } else {
        assert(piece.contains(piece[0]));
        let less = piece.skip(1);
        assert(!less.contains(0)) by {
            if less.contains(0) {
                let k = choose|k: int| 0 <= k < less.len() && less[k] == 0;
                assert(piece[k + 1] == 0);
            }
        }
        assert((piece + rest).skip(1) =~= less + rest);
        lemma_piece_is_gathered(less, rest, open.push(piece[0]));
        assert(open.push(piece[0]) + less =~= open + piece);
    }
}

/// A container's id is written in braces, in five groups of hexadecimal digits from which it can be read
/// back: eight for the first part, four for each of the next two, four for the first two bytes of the last
/// and twelve for the others.
pub proof fn law_a_container_reads_back(g: Guid) -> (r: (Seq<char>, Seq<char>, Seq<char>, Seq<Seq<char>>))
    ensures
        ({
            let (a, b, c, d) = r;
            &&& d.len() == 8
            &&& guid_text(g) == seq!['{'] + a + seq!['-'] + b + seq!['-'] + c + seq!['-'] + d[0] + d[1]
                + seq!['-'] + d[2] + d[3] + d[4] + d[5] + d[6] + d[7] + seq!['}']
            &&& a.len() >= 8 && text::hex_value(a) == g.data1
            &&& b.len() >= 4 && text::hex_value(b) == g.data2
            &&& c.len() >= 4 && text::hex_value(c) == g.data3
            &&& forall|i: int|
                0 <= i < 8 ==> (#[trigger] d[i]).len() == 2 && text::hex_value(d[i]) == g.data4@[i]
        }),
{
    text::law_hex_reads_back(g.data1 as nat, 8);
    text::law_hex_reads_back(g.data2 as nat, 4);
    text::law_hex_reads_back(g.data3 as nat, 4);
    let d = Seq::new(8, |i: int| byte_text(g.data4@[i]));
    assert forall|i: int| 0 <= i < 8 implies (#[trigger] d[i]).len() == 2 && text::hex_value(d[i])
        == g.data4@[i] by {
        text::law_hex_reads_back(g.data4@[i] as nat, 2);
        text::lemma_byte_is_two_digits(g.data4@[i]);
    }
    (text::hex(g.data1 as nat, 8), text::hex(g.data2 as nat, 4), text::hex(g.data3 as nat, 4), d)
}

} // verus!
