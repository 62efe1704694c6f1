//! How addresses are written, and that they are read as they are written.
use crate::dns::{ip_addrs, literal, sequential, shifted};
use crate::dns::literal::{parse_ipv4, parse_ipv6, parse_literal};
use crate::net::{Ipv4Addr, Ipv6Addr, SocketAddr};
use vstd::prelude::*;

verus! {

/// Whether `c` is the digit `d` of numbers in base `base`. Letters stand in either case.
pub open spec fn writes_digit(c: char, base: int, d: int) -> bool {
    &&& 0 <= d < base
    &&& c == "0123456789abcdef"@[d] || c == "0123456789ABCDEF"@[d]
}

/// Whether the digits of `text` are those of `n`, which zeros may precede.
pub open spec fn writes_number(text: Seq<char>, base: int, n: int) -> bool
    decreases text.len(),
{
    if text.len() == 0 {
        n == 0
    } else {
        writes_digit(text.last(), base, n % base) && writes_number(
            text.drop_last(),
            base,
            n / base,
        )
    }
}

/// Whether `text` is an octet: one to three decimal digits, the first of several not being zero.
pub open spec fn writes_octet(text: Seq<char>, octet: u8) -> bool {
    &&& 1 <= text.len() <= 3
    &&& text.len() == 1 || text[0] != '0'
    &&& writes_number(text, 10, octet as int)
}

/// Whether `text` is a group: one to four hexadecimal digits.
pub open spec fn writes_group(text: Seq<char>, group: u16) -> bool {
    1 <= text.len() <= 4 && writes_number(text, 16, group as int)
}

/// The texts in their order, with `separator` between each two.
pub open spec fn joined(parts: Seq<Seq<char>>, separator: char) -> Seq<char>
    decreases parts.len(),
{
    if parts.len() == 0 {
        Seq::empty()
    } else if parts.len() == 1 {
        parts[0]
    } else {
        joined(parts.drop_last(), separator) + seq![separator] + parts.last()
    }
}

/// Whether each text is the group at its place.
pub open spec fn writes_groups(parts: Seq<Seq<char>>, groups: Seq<u16>) -> bool {
    &&& parts.len() == groups.len()
    &&& forall|i: int| 0 <= i < parts.len() ==> writes_group(#[trigger] parts[i], groups[i])
}

/// Whether `text` is the IPv4 address of the octets: they stand between dots.
pub open spec fn writes_ipv4(text: Seq<char>, octets: Seq<u8>) -> bool {
    &&& octets.len() == 4
    &&& exists|parts: Seq<Seq<char>>|
        {
            &&& parts.len() == 4
            &&& text == #[trigger] joined(parts, '.')
            &&& forall|i: int| 0 <= i < 4 ==> writes_octet(#[trigger] parts[i], octets[i])
        }
}

/// The octets of two groups.
pub open spec fn octets_of(first: u16, second: u16) -> Seq<u8> {
    seq![(first / 256) as u8, (first % 256) as u8, (second / 256) as u8, (second % 256) as u8]
}

/// Whether each text is the group at its place, but for the last text, which is the last two groups
/// as an IPv4 address.
pub open spec fn writes_dotted(parts: Seq<Seq<char>>, groups: Seq<u16>) -> bool {
    &&& parts.len() > 0
    &&& groups.len() == parts.len() + 1
    &&& writes_groups(parts.drop_last(), groups.take(groups.len() - 2))
    &&& writes_ipv4(parts.last(), octets_of(groups[groups.len() - 2], groups[groups.len() - 1]))
}

/// Whether `text` is the groups between colons. Where `dotted`, the last two may be an IPv4 address.
pub open spec fn writes_colons(text: Seq<char>, groups: Seq<u16>, dotted: bool) -> bool {
    exists|parts: Seq<Seq<char>>|
        {
            &&& parts.len() > 0
            &&& text == #[trigger] joined(parts, ':')
            &&& writes_groups(parts, groups) || (dotted && writes_dotted(parts, groups))
        }
}

/// Whether `text` is the groups on one side of a gap, where there may be none.
pub open spec fn writes_side(text: Seq<char>, groups: Seq<u16>, dotted: bool) -> bool {
    (text.len() == 0 && groups.len() == 0) || writes_colons(text, groups, dotted)
}

/// Whether `text` is `head` groups, a gap, and `tail` groups, the gap standing for zeros.
pub open spec fn writes_gap(
    text: Seq<char>,
    head: Seq<char>,
    head_len: int,
    tail: Seq<char>,
    tail_len: int,
    segments: Seq<u16>,
) -> bool {
    &&& 0 <= head_len
    &&& 0 <= tail_len
    &&& head_len + tail_len <= 7
    &&& segments.len() == 8
    &&& text == head + seq![':', ':'] + tail
    &&& writes_side(head, segments.take(head_len), false)
    &&& writes_side(tail, segments.skip(8 - tail_len), true)
    &&& forall|i: int| head_len <= i < 8 - tail_len ==> #[trigger] segments[i] == 0
}

/// Whether `text` is the IPv6 address of the segments: all eight of them, or those around a gap.
pub open spec fn writes_ipv6(text: Seq<char>, segments: Seq<u16>) -> bool {
    ||| segments.len() == 8 && writes_colons(text, segments, true)
    ||| exists|head: Seq<char>, head_len: int, tail: Seq<char>, tail_len: int|
        writes_gap(text, head, head_len, tail, tail_len, segments)
}

/// A digit is read as it is written.
pub proof fn law_digits_are_read(c: char, hex: bool, d: nat)
    ensures
        literal::digit_value(c, hex) == Some(d) <==> writes_digit(
            c,
            if hex {
                16
            } else {
                10
            },
            d as int,
        ),
{
    reveal_strlit("0123456789abcdef");
    reveal_strlit("0123456789ABCDEF");
    let lower = "0123456789abcdef"@;
    let upper = "0123456789ABCDEF"@;
    assert(lower[0] == '0' && lower[1] == '1' && lower[2] == '2' && lower[3] == '3' && lower[4]
        == '4' && lower[5] == '5' && lower[6] == '6' && lower[7] == '7' && lower[8] == '8'
        && lower[9] == '9' && lower[10] == 'a' && lower[11] == 'b' && lower[12] == 'c' && lower[13]
        == 'd' && lower[14] == 'e' && lower[15] == 'f');
    assert(upper[0] == '0' && upper[1] == '1' && upper[2] == '2' && upper[3] == '3' && upper[4]
        == '4' && upper[5] == '5' && upper[6] == '6' && upper[7] == '7' && upper[8] == '8'
        && upper[9] == '9' && upper[10] == 'A' && upper[11] == 'B' && upper[12] == 'C' && upper[13]
        == 'D' && upper[14] == 'E' && upper[15] == 'F');
    assert(d < 16 ==> d == 0 || d == 1 || d == 2 || d == 3 || d == 4 || d == 5 || d == 6 || d == 7
        || d == 8 || d == 9 || d == 10 || d == 11 || d == 12 || d == 13 || d == 14 || d == 15);
}

/// A number is read as it is written, with zeros before it or without.
pub proof fn law_numbers_are_read(text: Seq<char>, hex: bool, n: nat)
    ensures
        literal::number_value(text, hex) == Some(n) <==> writes_number(
            text,
            if hex {
                16
            } else {
                10
            },
            n as int,
        ),
    decreases text.len(),
{
    let base: int = if hex {
        16
    } else {
        10
    };
    if text.len() > 0 {
        let rest = text.drop_last();
        law_digits_are_read(text.last(), hex, (n as int % base) as nat);
        law_numbers_are_read(rest, hex, (n as int / base) as nat);
        if let Some(d) = literal::digit_value(text.last(), hex) {
            if let Some(r) = literal::number_value(rest, hex) {
                law_digits_are_read(text.last(), hex, d);
                assert((r * base + d) / base == r && (r * base + d) % base == d as int);
            }
        }
    }
}

/// An octet is read as it is written.
pub proof fn law_octets_are_read(text: Seq<char>, octet: u8)
    ensures
        literal::octet_value(text) == Some(octet) <==> writes_octet(text, octet),
{
    law_numbers_are_read(text, false, octet as nat);
}

/// A group is read as it is written.
pub proof fn law_groups_are_read(text: Seq<char>, group: u16)
    ensures
        literal::group_value(text) == Some(group) <==> writes_group(text, group),
{
    law_numbers_are_read(text, true, group as nat);
    if text.len() <= 4 {
        reveal_with_fuel(literal::capacity, 5);
        literal::lemma_number_bound(text, true);
    }
}

/// Groups are read as they are written.
proof fn lemma_groups(parts: Seq<Seq<char>>, groups: Seq<u16>)
    ensures
        literal::hex_groups(parts) == Some(groups) <==> writes_groups(parts, groups),
    decreases parts.len(),
{
    if parts.len() == 0 {
        assert(groups.len() == 0 ==> groups =~= Seq::<u16>::empty());
    } else {
        let rest = parts.drop_last();
        if writes_groups(parts, groups) {
            assert(parts[parts.len() - 1] == parts.last());
            law_groups_are_read(parts.last(), groups.last());
            assert forall|i: int| 0 <= i < rest.len() implies writes_group(
                #[trigger] rest[i],
                groups.drop_last()[i],
            ) by {
                assert(rest[i] == parts[i]);
            }
            lemma_groups(rest, groups.drop_last());
            assert(groups.drop_last().push(groups.last()) =~= groups);
        }
        if literal::hex_groups(parts) == Some(groups) {
            let before = literal::hex_groups(rest).unwrap();
            let last = literal::group_value(parts.last()).unwrap();
            lemma_groups(rest, before);
            law_groups_are_read(parts.last(), last);
            assert forall|i: int| 0 <= i < parts.len() implies writes_group(
                #[trigger] parts[i],
                groups[i],
            ) by {
                if i < rest.len() {
                    assert(rest[i] == parts[i]);
                }
            }
        }
    }
}

/// A text after a separator is a piece more.
proof fn lemma_one_more_piece(before: Seq<char>, separator: char, piece: Seq<char>)
    requires
        !piece.contains(separator),
    ensures
        literal::pieces(before + seq![separator] + piece, separator) == literal::pieces(
            before,
            separator,
        ).push(piece),
    decreases piece.len(),
{
    let text = before + seq![separator] + piece;
    let done = literal::pieces(before, separator);
    if piece.len() == 0 {
        assert(text.drop_last() =~= before);
        assert(piece =~= Seq::<char>::empty());
    } else {
        let rest = piece.drop_last();
        assert(piece[piece.len() - 1] == piece.last());
        assert(!rest.contains(separator)) by {
            if rest.contains(separator) {
                let k = choose|k: int| 0 <= k < rest.len() && rest[k] == separator;
                assert(piece[k] == separator);
            }
        }
        assert(text.drop_last() =~= before + seq![separator] + rest);
        lemma_one_more_piece(before, separator, rest);
        assert(done.push(rest).drop_last() =~= done);
        assert(rest.push(piece.last()) =~= piece);
    }
}

/// Texts that are joined are the pieces of the whole.
proof fn lemma_pieces_of_joined(parts: Seq<Seq<char>>, separator: char)
    requires
        parts.len() > 0,
        forall|i: int| 0 <= i < parts.len() ==> !(#[trigger] parts[i]).contains(separator),
    ensures
        literal::pieces(joined(parts, separator), separator) == parts,
    decreases parts.len(),
{
    if parts.len() == 1 {
        literal::lemma_one_piece(parts[0], separator);
        assert(seq![parts[0]] =~= parts);
    } else {
        let rest = parts.drop_last();
        assert forall|i: int| 0 <= i < rest.len() implies !(#[trigger] rest[i]).contains(
            separator,
        ) by {
            assert(rest[i] == parts[i]);
        }
        lemma_pieces_of_joined(rest, separator);
        assert(parts[parts.len() - 1] == parts.last());
        lemma_one_more_piece(joined(rest, separator), separator, parts.last());
        assert(rest.push(parts.last()) =~= parts);
    }
}

/// The pieces of a text, joined again, are the text, and no separator stands in them.
proof fn lemma_joined_pieces(text: Seq<char>, separator: char)
    ensures
        literal::pieces(text, separator).len() > 0,
        joined(literal::pieces(text, separator), separator) == text,
        forall|i: int|
            0 <= i < literal::pieces(text, separator).len() ==> !(#[trigger] literal::pieces(
                text,
                separator,
            )[i]).contains(separator),
    decreases text.len(),
{
    let parts = literal::pieces(text, separator);
    if text.len() == 0 {
        assert(joined(parts, separator) =~= text);
    } else {
        let rest = text.drop_last();
        let before = literal::pieces(rest, separator);
        lemma_joined_pieces(rest, separator);
        if text.last() == separator {
            assert(parts.drop_last() =~= before);
            assert(joined(parts, separator) =~= text);
        } else {
            assert(parts.drop_last() =~= before.drop_last());
            assert(parts.last() == before.last().push(text.last()));
            if before.len() == 1 {
                assert(joined(parts, separator) =~= rest.push(text.last()));
            } else {
                let most = joined(before.drop_last(), separator);
                assert(rest == most + seq![separator] + before.last());
                assert(joined(parts, separator) =~= rest.push(text.last()));
            }
            assert(rest.push(text.last()) =~= text);
            assert(!parts.last().contains(separator)) by {
                if parts.last().contains(separator) {
                    let k = choose|k: int|
                        0 <= k < parts.last().len() && parts.last()[k] == separator;
                    if k < before.last().len() {
                        assert(before.last()[k] == separator);
                        assert(before[before.len() - 1].contains(separator));
                    }
                }
            }
            assert forall|i: int| 0 <= i < parts.len() implies !(#[trigger] parts[i]).contains(
                separator,
            ) by {
                if i < parts.len() - 1 {
                    assert(parts[i] == before[i]);
                } else {
                    assert(parts[i] == parts.last());
                }
            }
        }
    }
}

/// What writes a number is made of digits.
proof fn lemma_number_chars(text: Seq<char>, base: int, n: int, i: int)
    requires
        writes_number(text, base, n),
        0 <= i < text.len(),
        base == 10 || base == 16,
        n >= 0,
    ensures
        literal::digit_value(text[i], base == 16) is Some,
    decreases text.len(),
{
    law_digits_are_read(text.last(), base == 16, (n % base) as nat);
    if i < text.len() - 1 {
        lemma_number_chars(text.drop_last(), base, n / base, i);
    }
}

/// An IPv4 address is read as it is written.
proof fn lemma_ipv4(text: Seq<char>, octets: Seq<u8>)
    ensures
        literal::ipv4_octets(text) == Some(octets) <==> writes_ipv4(text, octets),
{
    if writes_ipv4(text, octets) {
        let parts = choose|parts: Seq<Seq<char>>|
            {
                &&& parts.len() == 4
                &&& text == #[trigger] joined(parts, '.')
                &&& forall|i: int| 0 <= i < 4 ==> writes_octet(#[trigger] parts[i], octets[i])
            };
        assert forall|i: int| 0 <= i < 4 implies !(#[trigger] parts[i]).contains('.') by {
            if parts[i].contains('.') {
                let k = choose|k: int| 0 <= k < parts[i].len() && parts[i][k] == '.';
                lemma_number_chars(parts[i], 10, octets[i] as int, k);
            }
        }
        lemma_pieces_of_joined(parts, '.');
        assert forall|i: int| 0 <= i < 4 implies literal::octet_value(#[trigger] parts[i]) == Some(
            octets[i],
        ) by {
            law_octets_are_read(parts[i], octets[i]);
        }
        assert(octets =~= seq![octets[0], octets[1], octets[2], octets[3]]);
        assert(literal::octet_value(parts[0]) is Some && literal::octet_value(parts[1]) is Some
            && literal::octet_value(parts[2]) is Some && literal::octet_value(parts[3]) is Some);
    }
    if literal::ipv4_octets(text) == Some(octets) {
        let parts = literal::pieces(text, '.');
        lemma_joined_pieces(text, '.');
        assert forall|i: int| 0 <= i < 4 implies writes_octet(#[trigger] parts[i], octets[i]) by {
            law_octets_are_read(parts[i], octets[i]);
        }
        assert(text == joined(parts, '.'));
    }
}

/// A group has no separator in it.
proof fn lemma_group_chars(text: Seq<char>, group: u16)
    requires
        writes_group(text, group),
    ensures
        !text.contains(':'),
        !text.contains('.'),
{
    if text.contains(':') {
        let k = choose|k: int| 0 <= k < text.len() && text[k] == ':';
        lemma_number_chars(text, 16, group as int, k);
    }
    if text.contains('.') {
        let k = choose|k: int| 0 <= k < text.len() && text[k] == '.';
        lemma_number_chars(text, 16, group as int, k);
    }
}

/// The texts between colons are not empty and have no colon in them.
proof fn lemma_colon_parts(parts: Seq<Seq<char>>, groups: Seq<u16>)
    requires
        parts.len() > 0,
        writes_groups(parts, groups) || writes_dotted(parts, groups),
    ensures
        forall|i: int|
            0 <= i < parts.len() ==> !(#[trigger] parts[i]).contains(':') && parts[i].len() > 0,
{
    assert forall|i: int| 0 <= i < parts.len() implies !(#[trigger] parts[i]).contains(':')
        && parts[i].len() > 0 by {
        if writes_groups(parts, groups) {
            lemma_group_chars(parts[i], groups[i]);
        } else if i < parts.len() - 1 {
            assert(parts.drop_last()[i] == parts[i]);
            lemma_group_chars(parts[i], groups.take(groups.len() - 2)[i]);
        } else {
            let octets = octets_of(groups[groups.len() - 2], groups[groups.len() - 1]);
            assert(parts[i] == parts.last());
            lemma_ipv4(parts.last(), octets);
            literal::lemma_ipv4_has_no_colon(parts.last());
            if parts.last().len() == 0 {
                assert(literal::pieces(parts.last(), '.').len() == 1);
            }
        }
    }
}

/// Two groups and their octets.
proof fn lemma_octet_groups(octets: Seq<u8>, first: u16, second: u16)
    requires
        octets.len() == 4,
    ensures
        literal::octet_groups(octets) == seq![first, second] <==> octets == octets_of(
            first,
            second,
        ),
{
    let groups = literal::octet_groups(octets);
    assert((first / 256) * 256 + first % 256 == first && first / 256 < 256);
    assert((second / 256) * 256 + second % 256 == second && second / 256 < 256);
    if groups == seq![first, second] {
        assert(groups[0] == first && groups[1] == second);
        assert(octets =~= octets_of(first, second));
    }
    if octets == octets_of(first, second) {
        assert(octets[0] == (first / 256) as u8);
        assert(groups =~= seq![first, second]);
    }
}

/// Groups between colons are read as they are written.
proof fn lemma_colons(text: Seq<char>, groups: Seq<u16>, dotted: bool)
    ensures
        literal::colon_groups(text, dotted) == Some(groups) <==> writes_colons(
            text,
            groups,
            dotted,
        ),
{
    if writes_colons(text, groups, dotted) {
        let parts = choose|parts: Seq<Seq<char>>|
            {
                &&& parts.len() > 0
                &&& text == #[trigger] joined(parts, ':')
                &&& writes_groups(parts, groups) || (dotted && writes_dotted(parts, groups))
            };
        lemma_colon_parts(parts, groups);
        lemma_pieces_of_joined(parts, ':');
        if writes_groups(parts, groups) {
            assert(parts[parts.len() - 1] == parts.last());
            lemma_group_chars(parts.last(), groups[parts.len() - 1]);
            literal::lemma_one_piece(parts.last(), '.');
            lemma_groups(parts, groups);
        } else {
            let n = groups.len();
            let octets = octets_of(groups[n - 2], groups[n - 1]);
            lemma_ipv4(parts.last(), octets);
            lemma_groups(parts.drop_last(), groups.take(n - 2));
            lemma_octet_groups(octets, groups[n - 2], groups[n - 1]);
            assert(groups.take(n - 2) + seq![groups[n - 2], groups[n - 1]] =~= groups);
        }
    }
    if literal::colon_groups(text, dotted) == Some(groups) {
        let parts = literal::pieces(text, ':');
        lemma_joined_pieces(text, ':');
        assert(text == joined(parts, ':'));
        if dotted && literal::ipv4_octets(parts.last()) is Some {
            let octets = literal::ipv4_octets(parts.last()).unwrap();
            let hex = literal::hex_groups(parts.drop_last()).unwrap();
            let n = groups.len();
            lemma_groups(parts.drop_last(), hex);
            assert(groups.take(n - 2) =~= hex);
            assert(literal::octet_groups(octets) =~= seq![groups[n - 2], groups[n - 1]]);
            lemma_octet_groups(octets, groups[n - 2], groups[n - 1]);
            lemma_ipv4(parts.last(), octets);
            assert(writes_dotted(parts, groups));
        } else {
            lemma_groups(parts, groups);
        }
    }
}

/// Texts that are not empty and have no colon in them are joined without a gap, and without a colon
/// at the end.
proof fn lemma_no_gap(parts: Seq<Seq<char>>)
    requires
        parts.len() > 0,
        forall|i: int|
            0 <= i < parts.len() ==> !(#[trigger] parts[i]).contains(':') && parts[i].len() > 0,
    ensures
        joined(parts, ':').len() > 0,
        joined(parts, ':').last() != ':',
        forall|i: int| !literal::gap_at(joined(parts, ':'), i),
    decreases parts.len(),
{
    let text = joined(parts, ':');
    let last = parts.last();
    assert(parts[parts.len() - 1] == last);
    assert forall|k: int| 0 <= k < last.len() implies last[k] != ':' by {
        if last[k] == ':' {
            assert(last.contains(':'));
        }
    }
    if parts.len() > 1 {
        let rest = parts.drop_last();
        assert forall|i: int| 0 <= i < rest.len() implies !(#[trigger] rest[i]).contains(':')
            && rest[i].len() > 0 by {
            assert(rest[i] == parts[i]);
        }
        lemma_no_gap(rest);
        let before = joined(rest, ':');
        assert(text.last() == last[last.len() - 1]);
        assert forall|i: int| !literal::gap_at(text, i) by {
            if literal::gap_at(text, i) {
                if i + 1 < before.len() {
                    assert(literal::gap_at(before, i));
                } else if i + 1 == before.len() {
                    assert(text[i] == before.last());
                } else if i == before.len() {
                    assert(text[i + 1] == last[0]);
                } else {
                    assert(text[i] == last[i - before.len() - 1]);
                }
            }
        }
    }
}

/// Groups between colons have no gap in them, and no colon at the end.
proof fn lemma_colons_have_no_gap(text: Seq<char>, groups: Seq<u16>, dotted: bool)
    requires
        writes_colons(text, groups, dotted),
    ensures
        text.len() > 0,
        text.last() != ':',
        forall|i: int| !literal::gap_at(text, i),
{
    let parts = choose|parts: Seq<Seq<char>>|
        {
            &&& parts.len() > 0
            &&& text == #[trigger] joined(parts, ':')
            &&& writes_groups(parts, groups) || (dotted && writes_dotted(parts, groups))
        };
    lemma_colon_parts(parts, groups);
    lemma_no_gap(parts);
}

/// The groups on one side of a gap are read as they are written.
proof fn lemma_sides(text: Seq<char>, groups: Seq<u16>, dotted: bool)
    ensures
        literal::side_groups(text, dotted) == Some(groups) <==> writes_side(text, groups, dotted),
{
    lemma_colons(text, groups, dotted);
    if text.len() == 0 {
        assert(groups.len() == 0 ==> groups =~= Seq::<u16>::empty());
        if writes_colons(text, groups, dotted) {
            lemma_colons_have_no_gap(text, groups, dotted);
        }
    }
}

/// Where a gap is written, it is the first one.
proof fn lemma_first_gap(
    text: Seq<char>,
    head: Seq<char>,
    head_len: int,
    tail: Seq<char>,
    tail_len: int,
    segments: Seq<u16>,
)
    requires
        writes_gap(text, head, head_len, tail, tail_len, segments),
    ensures
        literal::first_gap(text, head.len() as int),
        text.take(head.len() as int) == head,
        text.skip(head.len() as int + 2) == tail,
{
    let place = head.len() as int;
    if head.len() > 0 {
        lemma_colons_have_no_gap(head, segments.take(head_len), false);
    }
    assert(literal::gap_at(text, place));
    assert forall|j: int| #[trigger] literal::gap_at(text, j) implies place <= j by {
        if j < place {
            if j + 1 < place {
                assert(literal::gap_at(head, j));
            } else {
                assert(text[j] == head.last());
            }
        }
    }
    assert(text.take(place) =~= head);
    assert(text.skip(place + 2) =~= tail);
}

/// An IPv6 address that is written around a gap is read.
proof fn lemma_gap_is_read(
    text: Seq<char>,
    head: Seq<char>,
    head_len: int,
    tail: Seq<char>,
    tail_len: int,
    segments: Seq<u16>,
)
    requires
        writes_gap(text, head, head_len, tail, tail_len, segments),
    ensures
        literal::ipv6_segments(text) == Some(segments),
{
    let place = head.len() as int;
    lemma_first_gap(text, head, head_len, tail, tail_len, segments);
    let i = choose|i: int| literal::first_gap(text, i);
    assert(literal::first_gap(text, i));
    assert(i == place) by {
        assert(literal::gap_at(text, i) && literal::gap_at(text, place));
    }
    lemma_sides(head, segments.take(head_len), false);
    lemma_sides(tail, segments.skip(8 - tail_len), true);
    let zeros = Seq::new((8 - head_len - tail_len) as nat, |k: int| 0u16);
    assert(segments =~= segments.take(head_len) + zeros + segments.skip(8 - tail_len));
}

/// An IPv6 address that is read was written.
proof fn lemma_read_was_written(text: Seq<char>, segments: Seq<u16>)
    requires
        literal::ipv6_segments(text) == Some(segments),
    ensures
        writes_ipv6(text, segments),
{
    if exists|i: int| literal::first_gap(text, i) {
        let i = choose|i: int| literal::first_gap(text, i);
        assert(literal::first_gap(text, i));
        let head = text.take(i);
        let tail = text.skip(i + 2);
        let head_groups = literal::side_groups(head, false).unwrap();
        let tail_groups = literal::side_groups(tail, true).unwrap();
        lemma_sides(head, head_groups, false);
        lemma_sides(tail, tail_groups, true);
        let head_len = head_groups.len() as int;
        let tail_len = tail_groups.len() as int;
        assert(segments.take(head_len) =~= head_groups);
        assert(segments.skip(8 - tail_len) =~= tail_groups);
        assert(text =~= head + seq![':', ':'] + tail);
        assert(writes_gap(text, head, head_len, tail, tail_len, segments));
    } else {
        lemma_colons(text, segments, true);
    }
}

/// An IPv6 address is read as it is written.
proof fn lemma_ipv6(text: Seq<char>, segments: Seq<u16>)
    ensures
        literal::ipv6_segments(text) == Some(segments) <==> writes_ipv6(text, segments),
{
    if writes_ipv6(text, segments) {
        if segments.len() == 8 && writes_colons(text, segments, true) {
            lemma_colons_have_no_gap(text, segments, true);
            lemma_colons(text, segments, true);
            assert(forall|i: int| !literal::first_gap(text, i));
        } else {
            let (head, head_len, tail, tail_len) = choose|
                head: Seq<char>,
                head_len: int,
                tail: Seq<char>,
                tail_len: int,
            | writes_gap(text, head, head_len, tail, tail_len, segments);
            lemma_gap_is_read(text, head, head_len, tail, tail_len, segments);
        }
    }
    if literal::ipv6_segments(text) == Some(segments) {
        lemma_read_was_written(text, segments);
    }
}

/// Reading a host is the inverse of writing an address: a host is taken for an address of either
/// family exactly where it is the address as it may be written, and the port is the one that was
/// asked for.
pub proof fn law_hosts_are_read_as_they_are_written(
    host: &str,
    port: u16,
    addr: Option<SocketAddr>,
)
    requires
        call_ensures(parse_literal, (host, port), addr),
    ensures
        addr matches Some(SocketAddr::V4(a)) ==> writes_ipv4(host@, a.ip.octets@) && a.port == port,
        addr matches Some(SocketAddr::V6(a)) ==> {
            &&& writes_ipv6(host@, a.ip.segments@)
            &&& a.port == port
            &&& a.flowinfo == 0
            &&& a.scope_id == 0
        },
        forall|octets: Seq<u8>| #[trigger]
            writes_ipv4(host@, octets) ==> (addr matches Some(SocketAddr::V4(a))
                && a.ip.octets@ == octets),
        forall|segments: Seq<u16>| #[trigger]
            writes_ipv6(host@, segments) ==> (addr matches Some(SocketAddr::V6(a))
                && a.ip.segments@ == segments),
{
    match addr {
        Some(SocketAddr::V4(a)) => {
            let octets = literal::ipv4_octets(host@).unwrap();
            lemma_ipv4(host@, octets);
            assert(a.ip.octets@ =~= octets);
        },
        Some(SocketAddr::V6(a)) => {
            let segments = literal::ipv6_segments(host@).unwrap();
            lemma_ipv6(host@, segments);
            assert(a.ip.segments@ =~= segments);
        },
        None => {},
    }
    assert forall|octets: Seq<u8>| #[trigger] writes_ipv4(host@, octets) implies (addr matches Some(
        SocketAddr::V4(a),
    ) && a.ip.octets@ == octets) by {
        lemma_ipv4(host@, octets);
    }
    assert forall|segments: Seq<u16>| #[trigger] writes_ipv6(host@, segments) implies (
    addr matches Some(SocketAddr::V6(a)) && a.ip.segments@ == segments) by {
        lemma_ipv6(host@, segments);
        if literal::ipv4_literal(host@) is Some {
            literal::law_families_are_disjoint(host@);
        }
    }
}

/// Four octets between dots are the IPv4 address of these octets.
pub proof fn law_ipv4_is_read_as_it_is_written(
    a: Seq<char>,
    b: Seq<char>,
    c: Seq<char>,
    d: Seq<char>,
    octets: [u8; 4],
    text: &[char],
    addr: Option<Ipv4Addr>,
)
    requires
        writes_octet(a, octets[0]),
        writes_octet(b, octets[1]),
        writes_octet(c, octets[2]),
        writes_octet(d, octets[3]),
        text@ == a + seq!['.'] + b + seq!['.'] + c + seq!['.'] + d,
        call_ensures(parse_ipv4, (text,), addr),
    ensures
        addr matches Some(ip) && ip.octets@ == octets@,
{
    let parts = seq![a, b, c, d];
    reveal_with_fuel(joined, 4);
    assert(parts.drop_last() =~= seq![a, b, c]);
    assert(seq![a, b, c].drop_last() =~= seq![a, b]);
    assert(seq![a, b].drop_last() =~= seq![a]);
    assert(joined(parts, '.') =~= text@);
    assert forall|i: int| 0 <= i < 4 implies writes_octet(#[trigger] parts[i], octets@[i]) by {
        assert(i == 0 || i == 1 || i == 2 || i == 3);
    }
    assert(writes_ipv4(text@, octets@));
    lemma_ipv4(text@, octets@);
    assert(addr.unwrap().octets@ =~= octets@);
}

/// Groups between colons, `::`, and groups between colons are the IPv6 address that begins with the
/// former, ends with the latter, and has zeros between them, wherever the gap is.
pub proof fn law_ipv6_with_a_gap_is_read_as_it_is_written(
    head: Seq<Seq<char>>,
    head_groups: Seq<u16>,
    tail: Seq<Seq<char>>,
    tail_groups: Seq<u16>,
    text: &[char],
    addr: Option<Ipv6Addr>,
)
    requires
        writes_groups(head, head_groups),
        writes_groups(tail, tail_groups),
        head.len() + tail.len() <= 7,
        text@ == joined(head, ':') + seq![':', ':'] + joined(tail, ':'),
        call_ensures(parse_ipv6, (text,), addr),
    ensures
        addr matches Some(ip) && {
            &&& forall|i: int|
                0 <= i < head.len() ==> ip.segments[i] == #[trigger] head_groups[i]
            &&& forall|i: int|
                0 <= i < tail.len() ==> ip.segments[8 - tail.len() + i] == #[trigger] tail_groups[i]
            &&& forall|i: int| head.len() <= i < 8 - tail.len() ==> #[trigger] ip.segments[i] == 0
        },
{
    let h = head.len() as int;
    let t = tail.len() as int;
    let zeros = Seq::new((8 - h - t) as nat, |k: int| 0u16);
    let segments = head_groups + zeros + tail_groups;
    assert(segments.take(h) =~= head_groups);
    assert(segments.skip(8 - t) =~= tail_groups);
    assert(head.len() > 0 ==> writes_colons(joined(head, ':'), head_groups, false));
    assert(tail.len() > 0 ==> writes_colons(joined(tail, ':'), tail_groups, true));
    assert(writes_gap(text@, joined(head, ':'), h, joined(tail, ':'), t, segments));
    lemma_gap_is_read(text@, joined(head, ':'), h, joined(tail, ':'), t, segments);
    assert(addr.unwrap().segments@ =~= segments);
    let ip = addr.unwrap();
    assert forall|i: int| 0 <= i < h implies ip.segments[i] == #[trigger] head_groups[i] by {
        assert(ip.segments@[i] == segments[i]);
    }
    assert forall|i: int| 0 <= i < t implies ip.segments[8 - t + i] == #[trigger] tail_groups[
        i
    ] by {
        assert(ip.segments@[8 - t + i] == segments[8 - t + i]);
    }
    assert forall|i: int| h <= i < 8 - t implies #[trigger] ip.segments[i] == 0 by {
        assert(ip.segments@[i] == segments[i]);
    }
}

/// Eight groups between colons are the IPv6 address of these groups.
pub proof fn law_ipv6_is_read_as_it_is_written(
    parts: Seq<Seq<char>>,
    segments: [u16; 8],
    text: &[char],
    addr: Option<Ipv6Addr>,
)
    requires
        writes_groups(parts, segments@),
        text@ == joined(parts, ':'),
        call_ensures(parse_ipv6, (text,), addr),
    ensures
        addr matches Some(ip) && ip.segments@ == segments@,
{
    assert(writes_colons(text@, segments@, true));
    lemma_ipv6(text@, segments@);
    assert(addr.unwrap().segments@ =~= segments@);
}

/// A group as four digits.
pub open spec fn four_digits(group: u16) -> Seq<char> {
    let digits = "0123456789abcdef"@;
    seq![
        digits[group as int / 4096],
        digits[group as int / 256 % 16],
        digits[group as int / 16 % 16],
        digits[group as int % 16],
    ]
}

/// Every group can be written.
pub proof fn law_every_group_can_be_written(group: u16)
    ensures
        writes_group(four_digits(group), group),
{
    let text = four_digits(group);
    let n = group as int;
    reveal_with_fuel(writes_number, 5);
    assert(text.drop_last().last() == text[2]);
    assert(text.drop_last().drop_last().last() == text[1]);
    assert(text.drop_last().drop_last().drop_last().last() == text[0]);
    assert(n / 16 / 16 == n / 256);
    assert(n / 16 / 16 / 16 == n / 4096);
    assert(n / 4096 % 16 == n / 4096);
    assert(n / 16 / 16 / 16 / 16 == 0);
}

/// An octet as decimal digits, without zeros before it.
pub open spec fn decimal(octet: u8) -> Seq<char> {
    let digits = "0123456789abcdef"@;
    let n = octet as int;
    if n < 10 {
        seq![digits[n]]
    } else if n < 100 {
        seq![digits[n / 10], digits[n % 10]]
    } else {
        seq![digits[n / 100], digits[n / 10 % 10], digits[n % 10]]
    }
}

/// Every octet can be written.
pub proof fn law_every_octet_can_be_written(octet: u8)
    ensures
        writes_octet(decimal(octet), octet),
{
    let text = decimal(octet);
    let n = octet as int;
    reveal_strlit("0123456789abcdef");
    reveal_with_fuel(writes_number, 4);
    if n >= 100 {
        assert(text.drop_last().last() == text[1]);
        assert(text.drop_last().drop_last().last() == text[0]);
        assert(n / 10 / 10 == n / 100);
    } else if n >= 10 {
        assert(text.drop_last().last() == text[0]);
    }
}

/// The addresses of a host that is written as an address are this one address, whichever way they
/// are handed out; every other host has none.
pub proof fn law_a_literal_is_its_only_address(
    host: &str,
    port: u16,
    addr: Option<SocketAddr>,
    sorted: Option<ip_addrs::IpAddrs>,
    taken: Option<shifted::IpAddrs>,
    in_order: Option<sequential::IpAddrs>,
)
    requires
        call_ensures(parse_literal, (host, port), addr),
        call_ensures(ip_addrs::IpAddrs::try_parse, (host, port), sorted),
        call_ensures(shifted::IpAddrs::try_parse, (host, port), taken),
        call_ensures(sequential::IpAddrs::try_parse, (host, port), in_order),
    ensures
        addr is None <==> sorted is None,
        addr is None <==> taken is None,
        addr is None <==> in_order is None,
        addr matches Some(a) ==> {
            &&& sorted.unwrap()@ == seq![a]
            &&& sorted.unwrap().position() == 0
            &&& taken.unwrap().inner() == shifted::SingleOrShifted::Single(Some(a))
            &&& in_order.unwrap()@ == seq![a]
        },
{
}

/// Whatever text is read as an address was written so, and every text that is written so is read.
pub proof fn law_texts_are_read_as_they_are_written(
    text: &[char],
    v4: Option<Ipv4Addr>,
    v6: Option<Ipv6Addr>,
    octets: [u8; 4],
    segments: [u16; 8],
)
    requires
        call_ensures(parse_ipv4, (text,), v4),
        call_ensures(parse_ipv6, (text,), v6),
    ensures
        writes_ipv4(text@, octets@) <==> (v4 matches Some(ip) && ip.octets@ == octets@),
        writes_ipv6(text@, segments@) <==> (v6 matches Some(ip) && ip.segments@ == segments@),
        v4 is Some ==> v6 is None,
{
    lemma_ipv4(text@, octets@);
    lemma_ipv6(text@, segments@);
    if let Some(ip) = v4 {
        let read = literal::ipv4_octets(text@).unwrap();
        lemma_ipv4(text@, read);
        assert(ip.octets@ =~= read);
        literal::law_families_are_disjoint(text@);
    }
    if let Some(ip) = v6 {
        let read = literal::ipv6_segments(text@).unwrap();
        lemma_ipv6(text@, read);
        assert(ip.segments@ =~= read);
    }
}

} // verus!
