//! Hosts that are written as addresses.
//!
//! An IPv4 address is written as four decimal octets between dots, without leading zeros. An IPv6
//! address is written as eight groups of one to four hexadecimal digits between colons; one run
//! of zero groups may be left out, which is shown by `::`, and the last two groups may be written
//! as an IPv4 address.
use crate::net::{Ipv4Addr, Ipv6Addr, SocketAddr, SocketAddrV4, SocketAddrV6};
use vstd::prelude::*;
use vstd::slice::slice_subrange;

verus! {

/// The value of a digit, decimal or hexadecimal.
pub open spec fn digit_value(c: char, hex: bool) -> Option<nat> {
    if '0' <= c && c <= '9' {
        Some((c as int - '0' as int) as nat)
    } else if hex && 'a' <= c && c <= 'f' {
        Some((c as int - 'a' as int + 10) as nat)
    } else if hex && 'A' <= c && c <= 'F' {
        Some((c as int - 'A' as int + 10) as nat)
    } else {
        None
    }
}

/// The number that the digits of `text` spell, or nothing if another character stands among them.
pub open spec fn number_value(text: Seq<char>, hex: bool) -> Option<nat>
    decreases text.len(),
{
    if text.len() == 0 {
        Some(0)
    } else {
        match (number_value(text.drop_last(), hex), digit_value(text.last(), hex)) {
            (Some(n), Some(d)) => Some(if hex {
                n * 16 + d
            } else {
                n * 10 + d
            }),
            _ => None,
        }
    }
}

/// The pieces of `text` between the occurrences of `separator`.
pub open spec fn pieces(text: Seq<char>, separator: char) -> Seq<Seq<char>>
    decreases text.len(),
{
    if text.len() == 0 {
        seq![Seq::<char>::empty()]
    } else {
        let before = pieces(text.drop_last(), separator);
        if text.last() == separator {
            before.push(Seq::<char>::empty())
        } else {
            before.drop_last().push(before.last().push(text.last()))
        }
    }
}

/// The octet that `text` spells: one to three decimal digits, without a leading zero.
pub open spec fn octet_value(text: Seq<char>) -> Option<u8> {
    if 1 <= text.len() <= 3 && (text.len() == 1 || text[0] != '0') {
        match number_value(text, false) {
            Some(n) => if n <= 255 {
                Some(n as u8)
            } else {
                None
            },
            None => None,
        }
    } else {
        None
    }
}

/// The group that `text` spells: one to four hexadecimal digits.
pub open spec fn group_value(text: Seq<char>) -> Option<u16> {
    if 1 <= text.len() <= 4 {
        match number_value(text, true) {
            Some(n) => Some(n as u16),
            None => None,
        }
    } else {
        None
    }
}

/// The octets of the IPv4 address that `text` spells.
pub open spec fn ipv4_octets(text: Seq<char>) -> Option<Seq<u8>> {
    let parts = pieces(text, '.');
    if parts.len() == 4 {
        match (
            octet_value(parts[0]),
            octet_value(parts[1]),
            octet_value(parts[2]),
            octet_value(parts[3]),
        ) {
            (Some(a), Some(b), Some(c), Some(d)) => Some(seq![a, b, c, d]),
            _ => None,
        }
    } else {
        None
    }
}

/// The values of pieces that are all hexadecimal groups.
pub open spec fn hex_groups(parts: Seq<Seq<char>>) -> Option<Seq<u16>>
    decreases parts.len(),
{
    if parts.len() == 0 {
        Some(Seq::empty())
    } else {
        match (hex_groups(parts.drop_last()), group_value(parts.last())) {
            (Some(groups), Some(group)) => Some(groups.push(group)),
            _ => None,
        }
    }
}

/// The two groups that hold the octets of an IPv4 address.
pub open spec fn octet_groups(octets: Seq<u8>) -> Seq<u16> {
    seq![(octets[0] * 256 + octets[1]) as u16, (octets[2] * 256 + octets[3]) as u16]
}

/// The groups that `text` spells between colons. Where `dotted`, the last piece may be an IPv4
/// address, which stands for two groups.
pub open spec fn colon_groups(text: Seq<char>, dotted: bool) -> Option<Seq<u16>> {
    let parts = pieces(text, ':');
    match ipv4_octets(parts.last()) {
        Some(octets) if dotted => match hex_groups(parts.drop_last()) {
            Some(groups) => Some(groups + octet_groups(octets)),
            None => None,
        },
        _ => hex_groups(parts),
    }
}

/// The groups on one side of a `::`, where there may be none.
pub open spec fn side_groups(text: Seq<char>, dotted: bool) -> Option<Seq<u16>> {
    if text.len() == 0 {
        Some(Seq::empty())
    } else {
        colon_groups(text, dotted)
    }
}

/// Whether `::` stands at `i`.
pub open spec fn gap_at(text: Seq<char>, i: int) -> bool {
    0 <= i < text.len() - 1 && text[i] == ':' && text[i + 1] == ':'
}

/// Whether the first `::` stands at `i`.
pub open spec fn first_gap(text: Seq<char>, i: int) -> bool {
    gap_at(text, i) && forall|j: int| #[trigger] gap_at(text, j) ==> i <= j
}

/// The segments of the IPv6 address that `text` spells.
pub open spec fn ipv6_segments(text: Seq<char>) -> Option<Seq<u16>> {
    if exists|i: int| first_gap(text, i) {
        let i = choose|i: int| first_gap(text, i);
        match (side_groups(text.take(i), false), side_groups(text.skip(i + 2), true)) {
            (Some(head), Some(tail)) => if head.len() + tail.len() <= 7 {
                Some(head + Seq::new((8 - head.len() - tail.len()) as nat, |k: int| 0u16) + tail)
            } else {
                None
            },
            _ => None,
        }
    } else {
        match colon_groups(text, true) {
            Some(groups) => if groups.len() == 8 {
                Some(groups)
            } else {
                None
            },
            None => None,
        }
    }
}

/// The IPv4 address that `text` spells.
pub open spec fn ipv4_literal(text: Seq<char>) -> Option<Ipv4Addr> {
    match ipv4_octets(text) {
        Some(o) => Some(Ipv4Addr { octets: [o[0], o[1], o[2], o[3]] }),
        None => None,
    }
}

/// The IPv6 address that `text` spells.
pub open spec fn ipv6_literal(text: Seq<char>) -> Option<Ipv6Addr> {
    match ipv6_segments(text) {
        Some(s) => Some(
            Ipv6Addr { segments: [s[0], s[1], s[2], s[3], s[4], s[5], s[6], s[7]] },
        ),
        None => None,
    }
}

/// The socket address of a host that is written as an address of either family.
pub open spec fn literal_addr(host: Seq<char>, port: u16) -> Option<SocketAddr> {
    match (ipv4_literal(host), ipv6_literal(host)) {
        (Some(ip), _) => Some(SocketAddr::V4(SocketAddrV4 { ip, port })),
        (None, Some(ip)) => Some(
            SocketAddr::V6(SocketAddrV6 { ip, port, flowinfo: 0, scope_id: 0 }),
        ),
        (None, None) => None,
    }
}

/// The least number that takes more than `len` hexadecimal digits.
pub open spec fn capacity(len: nat) -> nat
    decreases len,
{
    if len == 0 {
        1
    } else {
        16 * capacity((len - 1) as nat)
    }
}

/// A text of `len` digits spells a number below the capacity of `len` digits.
pub proof fn lemma_number_bound(text: Seq<char>, hex: bool)
    ensures
        number_value(text, hex) matches Some(n) ==> n < capacity(text.len()),
    decreases text.len(),
{
    if text.len() > 0 {
        lemma_number_bound(text.drop_last(), hex);
    }
}

/// A prefix that spells no number makes the whole text spell none.
proof fn lemma_number_prefix(text: Seq<char>, hex: bool, len: int)
    requires
        0 <= len <= text.len(),
        number_value(text.take(len), hex) is None,
    ensures
        number_value(text, hex) is None,
    decreases text.len() - len,
{
    if len < text.len() {
        assert(text.take(len + 1).drop_last() =~= text.take(len));
        lemma_number_prefix(text, hex, len + 1);
    } else {
        assert(text.take(len) =~= text);
    }
}

/// The value of a digit.
fn digit(c: char, hex: bool) -> (value: Option<u32>)
    ensures
        value matches Some(v) ==> digit_value(c, hex) == Some(v as nat) && v < 16,
        value is None ==> digit_value(c, hex) is None,
{
    if '0' <= c && c <= '9' {
        Some(c as u32 - '0' as u32)
    } else if hex && 'a' <= c && c <= 'f' {
        Some(c as u32 - 'a' as u32 + 10)
    } else if hex && 'A' <= c && c <= 'F' {
        Some(c as u32 - 'A' as u32 + 10)
    } else {
        None
    }
}

/// Reads a number of at most four digits.
fn read_number(text: &[char], hex: bool) -> (value: Option<u32>)
    requires
        text@.len() <= 4,
    ensures
        value matches Some(v) ==> number_value(text@, hex) == Some(v as nat) && v <= 0xffff,
        value is None ==> number_value(text@, hex) is None,
{
    reveal_with_fuel(capacity, 5);
    let mut value: u32 = 0;
    let mut i: usize = 0;
    assert(text@.take(0).len() == 0);
    while i < text.len()
        invariant
            i <= text@.len() <= 4,
            number_value(text@.take(i as int), hex) == Some(value as nat),
            value < capacity(i as nat),
        decreases text@.len() - i,
    {
        reveal_with_fuel(capacity, 5);
        let ghost next = text@.take(i + 1);
        assert(next.drop_last() =~= text@.take(i as int));
        match digit(text[i], hex) {
            Some(d) => {
                value = if hex { value * 16 + d } else { value * 10 + d };
                proof {
                    lemma_number_bound(next, hex);
                }
            },
            None => {
                proof {
                    lemma_number_prefix(text@, hex, i + 1);
                }
                return None;
            },
        }
        i = i + 1;
    }
    assert(text@.take(i as int) =~= text@);
    Some(value)
}

/// The views of a list of texts.
pub open spec fn views(parts: Seq<Vec<char>>) -> Seq<Seq<char>> {
    Seq::new(parts.len(), |i: int| parts[i]@)
}

/// Cuts `text` at each `separator`.
fn split(text: &[char], separator: char) -> (parts: Vec<Vec<char>>)
    ensures
        views(parts@) == pieces(text@, separator),
        parts@.len() >= 1,
{
    let mut parts: Vec<Vec<char>> = Vec::new();
    let mut current: Vec<char> = Vec::new();
    let mut i: usize = 0;
    assert(text@.take(0).len() == 0);
    assert(views(parts@).push(current@) =~= pieces(text@.take(0), separator));
    while i < text.len()
        invariant
            i <= text@.len(),
            views(parts@).push(current@) == pieces(text@.take(i as int), separator),
        decreases text@.len() - i,
    {
        let ghost next = text@.take(i + 1);
        let ghost before = views(parts@).push(current@);
        let ghost held = current@;
        let ghost done = views(parts@);
        assert(next.drop_last() =~= text@.take(i as int));
        let c = text[i];
        if c == separator {
            parts.push(current);
            current = Vec::new();
            assert(views(parts@) =~= before);
            assert(views(parts@).push(current@) =~= before.push(Seq::<char>::empty()));
        } else {
            current.push(c);
            assert(before.drop_last() =~= done);
            assert(before.last() == held);
        }
        i = i + 1;
    }
    assert(text@.take(i as int) =~= text@);
    let ghost before = views(parts@).push(current@);
    parts.push(current);
    assert(views(parts@) =~= before);
    parts
}

/// Reads an octet.
fn read_octet(text: &[char]) -> (octet: Option<u8>)
    ensures
        octet == octet_value(text@),
{
    if text.len() == 0 || text.len() > 3 {
        return None;
    }
    if text.len() > 1 && text[0] == '0' {
        return None;
    }
    match read_number(text, false) {
        Some(n) => if n <= 255 {
            Some(n as u8)
        } else {
            None
        },
        None => None,
    }
}

/// Reads a hexadecimal group.
fn read_group(text: &[char]) -> (group: Option<u16>)
    ensures
        group == group_value(text@),
{
    if text.len() == 0 || text.len() > 4 {
        return None;
    }
    match read_number(text, true) {
        Some(n) => Some(n as u16),
        None => None,
    }
}

/// Reads an IPv4 address.
pub fn parse_ipv4(text: &[char]) -> (addr: Option<Ipv4Addr>)
    ensures
        addr == ipv4_literal(text@),
{
    let parts = split(text, '.');
    let ghost seen = pieces(text@, '.');
    if parts.len() != 4 {
        return None;
    }
    assert(forall|i: int| 0 <= i < 4 ==> #[trigger] seen[i] == parts@[i]@);
    let a = read_octet(parts[0].as_slice());
    let b = read_octet(parts[1].as_slice());
    let c = read_octet(parts[2].as_slice());
    let d = read_octet(parts[3].as_slice());
    match (a, b, c, d) {
        (Some(a), Some(b), Some(c), Some(d)) => {
            let addr = Ipv4Addr::new(a, b, c, d);
            assert(addr.octets =~= ipv4_literal(text@).unwrap().octets);
            Some(addr)
        },
        _ => None,
    }
}

/// Pieces of which the first `len` are not all groups are not all groups.
proof fn lemma_groups_prefix(parts: Seq<Seq<char>>, len: int)
    requires
        0 <= len <= parts.len(),
        hex_groups(parts.take(len)) is None,
    ensures
        hex_groups(parts) is None,
    decreases parts.len() - len,
{
    if len < parts.len() {
        assert(parts.take(len + 1).drop_last() =~= parts.take(len));
        lemma_groups_prefix(parts, len + 1);
    } else {
        assert(parts.take(len) =~= parts);
    }
}

/// Reads the first `len` pieces as hexadecimal groups.
fn read_groups(parts: &Vec<Vec<char>>, len: usize) -> (groups: Option<Vec<u16>>)
    requires
        len <= parts@.len(),
    ensures
        groups matches Some(g) ==> hex_groups(views(parts@).take(len as int)) == Some(g@),
        groups is None ==> hex_groups(views(parts@).take(len as int)) is None,
{
    let ghost seen = views(parts@).take(len as int);
    let mut groups: Vec<u16> = Vec::new();
    let mut i: usize = 0;
    assert(seen.take(0).len() == 0);
    assert(groups@ =~= Seq::<u16>::empty());
    while i < len
        invariant
            i <= len <= parts@.len(),
            seen == views(parts@).take(len as int),
            hex_groups(seen.take(i as int)) == Some(groups@),
        decreases len - i,
    {
        let ghost next = seen.take(i + 1);
        assert(next.drop_last() =~= seen.take(i as int));
        assert(next.last() == parts@[i as int]@);
        match read_group(parts[i].as_slice()) {
            Some(group) => groups.push(group),
            None => {
                proof {
                    lemma_groups_prefix(seen, i + 1);
                }
                return None;
            },
        }
        i = i + 1;
    }
    assert(seen.take(i as int) =~= seen);
    Some(groups)
}

/// Reads the groups of a text, the last two of which may be dotted.
fn read_colon_groups(text: &[char], dotted: bool) -> (groups: Option<Vec<u16>>)
    ensures
        groups matches Some(g) ==> colon_groups(text@, dotted) == Some(g@),
        groups is None ==> colon_groups(text@, dotted) is None,
{
    let parts = split(text, ':');
    let ghost seen = pieces(text@, ':');
    let last: usize = parts.len() - 1;
    assert(seen.last() == parts@[last as int]@);
    if dotted {
        if let Some(addr) = parse_ipv4(parts[last].as_slice()) {
            assert(seen.take(last as int) =~= seen.drop_last());
            return match read_groups(&parts, last) {
                Some(mut groups) => {
                    let ghost hex = groups@;
                    groups.push(addr.octets[0] as u16 * 256 + addr.octets[1] as u16);
                    groups.push(addr.octets[2] as u16 * 256 + addr.octets[3] as u16);
                    assert(groups@ =~= hex + octet_groups(addr.octets@));
                    Some(groups)
                },
                None => None,
            };
        }
    }
    assert(seen.take(parts@.len() as int) =~= seen);
    read_groups(&parts, parts.len())
}

/// Reads the groups on one side of a `::`.
fn read_side(text: &[char], dotted: bool) -> (groups: Option<Vec<u16>>)
    ensures
        groups matches Some(g) ==> side_groups(text@, dotted) == Some(g@),
        groups is None ==> side_groups(text@, dotted) is None,
{
    if text.len() == 0 {
        let groups: Vec<u16> = Vec::new();
        assert(groups@ =~= Seq::<u16>::empty());
        Some(groups)
    } else {
        read_colon_groups(text, dotted)
    }
}

/// Finds the first `::`.
fn find_gap(text: &[char]) -> (place: Option<usize>)
    ensures
        place matches Some(i) ==> first_gap(text@, i as int),
        place is None ==> forall|i: int| !first_gap(text@, i),
{
    let mut i: usize = 0;
    while i < text.len()
        invariant
            i <= text@.len(),
            forall|j: int| j < i ==> !#[trigger] gap_at(text@, j),
        decreases text@.len() - i,
    {
        if i + 1 < text.len() && text[i] == ':' && text[i + 1] == ':' {
            assert(gap_at(text@, i as int));
            return Some(i);
        }
        assert(!gap_at(text@, i as int));
        i = i + 1;
    }
    None
}

/// Reads an IPv6 address.
pub fn parse_ipv6(text: &[char]) -> (addr: Option<Ipv6Addr>)
    ensures
        addr == ipv6_literal(text@),
{
    match find_gap(text) {
        Some(i) => {
            let ghost place = choose|k: int| first_gap(text@, k);
            assert(first_gap(text@, place));
            assert(place == i) by {
                assert(gap_at(text@, place) && gap_at(text@, i as int));
            }
            let len: usize = text.len();
            let head_text = slice_subrange(text, 0, i);
            let tail_text = slice_subrange(text, i + 2, len);
            assert(head_text@ =~= text@.take(place));
            assert(tail_text@ =~= text@.skip(place + 2));
            match (read_side(head_text, false), read_side(tail_text, true)) {
                (Some(head), Some(tail)) => {
                    if head.len() > 7 || tail.len() > 7 - head.len() {
                        return None;
                    }
                    let mut segments: [u16; 8] = [0; 8];
                    let mut k: usize = 0;
                    while k < head.len()
                        invariant
                            k <= head@.len() <= 8,
                            forall|j: int| 0 <= j < k ==> segments@[j] == head@[j],
                            forall|j: int| k <= j < 8 ==> segments@[j] == 0,
                        decreases head@.len() - k,
                    {
                        segments[k] = head[k];
                        k = k + 1;
                    }
                    let start: usize = 8 - tail.len();
                    k = 0;
                    while k < tail.len()
                        invariant
                            k <= tail@.len(),
                            start + tail@.len() == 8,
                            head@.len() < start,
                            forall|j: int| 0 <= j < head@.len() ==> segments@[j] == head@[j],
                            forall|j: int| head@.len() <= j < start ==> segments@[j] == 0,
                            forall|j: int|
                                start <= j < start + k ==> segments@[j] == tail@[j - start],
                        decreases tail@.len() - k,
                    {
                        segments[start + k] = tail[k];
                        k = k + 1;
                    }
                    assert(segments@ =~= head@ + Seq::new(
                        (8 - head@.len() - tail@.len()) as nat,
                        |j: int| 0u16,
                    ) + tail@);
                    assert(segments =~= ipv6_literal(text@).unwrap().segments);
                    Some(Ipv6Addr { segments })
                },
                _ => None,
            }
        },
        None => match read_colon_groups(text, true) {
            Some(groups) => {
                if groups.len() != 8 {
                    return None;
                }
                let segments: [u16; 8] = [
                    groups[0],
                    groups[1],
                    groups[2],
                    groups[3],
                    groups[4],
                    groups[5],
                    groups[6],
                    groups[7],
                ];
                assert(segments =~= ipv6_literal(text@).unwrap().segments);
                Some(Ipv6Addr { segments })
            },
            None => None,
        },
    }
}

/// The characters of a text.
fn chars_of(text: &str) -> (chars: Vec<char>)
    ensures
        chars@ == text@,
{
    let mut chars: Vec<char> = Vec::new();
    for c in it: text.chars()
        invariant
            it.seq() == text@,
            chars@ == text@.take(it.index()),
    {
        chars.push(c);
        assert(chars@ =~= text@.take(it.index() + 1));
    }
    chars
}

/// Reads a host that is written as an address, IPv4 before IPv6.
pub fn parse_literal(host: &str, port: u16) -> (addr: Option<SocketAddr>)
    ensures
        addr == literal_addr(host@, port),
{
    let chars = chars_of(host);
    if let Some(ip) = parse_ipv4(chars.as_slice()) {
        return Some(SocketAddr::V4(SocketAddrV4 { ip, port }));
    }
    if let Some(ip) = parse_ipv6(chars.as_slice()) {
        return Some(SocketAddr::V6(SocketAddrV6 { ip, port, flowinfo: 0, scope_id: 0 }));
    }
    None
}

/// A character of a text is a separator or stands in a piece.
proof fn lemma_pieces_cover(text: Seq<char>, separator: char, i: int)
    requires
        0 <= i < text.len(),
        text[i] != separator,
    ensures
        exists|p: int|
            0 <= p < pieces(text, separator).len() && (#[trigger] pieces(
                text,
                separator,
            )[p]).contains(text[i]),
    decreases text.len(),
{
    let before = pieces(text.drop_last(), separator);
    let after = pieces(text, separator);
    lemma_pieces_nonempty(text.drop_last(), separator);
    if i == text.len() - 1 {
        let piece = before.last().push(text.last());
        assert(piece[piece.len() - 1] == text[i]);
        assert(after[after.len() - 1].contains(text[i]));
    } else {
        lemma_pieces_cover(text.drop_last(), separator, i);
        let p = choose|p: int|
            0 <= p < before.len() && (#[trigger] before[p]).contains(text.drop_last()[i]);
        let k = choose|k: int| 0 <= k < before[p].len() && before[p][k] == text[i];
        assert(after[p][k] == text[i]);
        assert(after[p].contains(text[i]));
    }
}

/// A text has at least one piece.
pub proof fn lemma_pieces_nonempty(text: Seq<char>, separator: char)
    ensures
        pieces(text, separator).len() > 0,
    decreases text.len(),
{
    if text.len() > 0 {
        lemma_pieces_nonempty(text.drop_last(), separator);
    }
}

/// A text without a separator is one piece.
pub proof fn lemma_one_piece(text: Seq<char>, separator: char)
    requires
        !text.contains(separator),
    ensures
        pieces(text, separator) == seq![text],
    decreases text.len(),
{
    if text.len() == 0 {
        assert(text =~= Seq::<char>::empty());
        assert(pieces(text, separator) =~= seq![text]);
    } else {
        let rest = text.drop_last();
        assert(text[text.len() - 1] == text.last());
        assert(!rest.contains(separator)) by {
            if rest.contains(separator) {
                let k = choose|k: int| 0 <= k < rest.len() && rest[k] == separator;
                assert(text[k] == separator);
            }
        }
        lemma_one_piece(rest, separator);
        assert(rest.push(text.last()) =~= text);
        assert(pieces(text, separator) =~= seq![text]);
    }
}

/// What spells a number is digits.
proof fn lemma_number_digits(text: Seq<char>, hex: bool, i: int)
    requires
        number_value(text, hex) is Some,
        0 <= i < text.len(),
    ensures
        digit_value(text[i], hex) is Some,
    decreases text.len(),
{
    if i < text.len() - 1 {
        lemma_number_digits(text.drop_last(), hex, i);
    }
}

/// No colon stands in an IPv4 address.
pub proof fn lemma_ipv4_has_no_colon(host: Seq<char>)
    requires
        ipv4_octets(host) is Some,
    ensures
        !host.contains(':'),
{
    let parts = pieces(host, '.');
    if host.contains(':') {
        let i = choose|i: int| 0 <= i < host.len() && host[i] == ':';
        lemma_pieces_cover(host, '.', i);
        let p = choose|p: int| 0 <= p < parts.len() && (#[trigger] parts[p]).contains(host[i]);
        let k = choose|k: int| 0 <= k < parts[p].len() && parts[p][k] == ':';
        assert(octet_value(parts[p]) is Some);
        lemma_number_digits(parts[p], false, k);
    }
}

/// No host is an address of both families.
pub proof fn law_families_are_disjoint(host: Seq<char>)
    requires
        ipv4_literal(host) is Some,
    ensures
        ipv6_literal(host) is None,
{
    lemma_ipv4_has_no_colon(host);
    lemma_one_piece(host, ':');
    assert forall|i: int| !first_gap(host, i) by {
        if first_gap(host, i) {
            assert(host[i] == ':');
        }
    }
    assert(pieces(host, ':').last() == host);
    assert(pieces(host, ':').drop_last().len() == 0);
}

} // verus!
