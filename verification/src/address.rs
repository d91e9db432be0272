//! The textual forms of IP addresses.
//!
//! An IPv4 address is four decimal octets joined by dots. An IPv6 address is eight groups of
//! hexadecimal digits joined by colons; one `::` may stand for the groups that it leaves out
//! (at least one of them), and an IPv4 address may stand for the last two. Neither an IPv6 zone
//! nor a prefix length is part of an address.

use crate::text::{split, is_digit_char, is_hex_digit_char};
use vstd::prelude::*;

verus! {

/// One to three decimal digits, without a leading zero, that denote at most 255.
pub open spec fn is_octet(piece: Seq<char>) -> bool {
    &&& 1 <= piece.len() <= 3
    &&& forall|k: int| 0 <= k < piece.len() ==> crate::text::is_digit(#[trigger] piece[k])
    &&& piece.len() > 1 ==> piece[0] != '0'
    &&& crate::text::digits_value(piece) <= 255
}

/// Four octets joined by dots.
pub open spec fn is_ipv4(text: Seq<char>) -> bool {
    let pieces = crate::text::split_on(text, '.');
    &&& pieces.len() == 4
    &&& forall|i: int| 0 <= i < 4 ==> is_octet(#[trigger] pieces[i])
}

/// One to four hexadecimal digits.
pub open spec fn is_group(piece: Seq<char>) -> bool {
    &&& 1 <= piece.len() <= 4
    &&& forall|k: int| 0 <= k < piece.len() ==> crate::text::is_hex_digit(#[trigger] piece[k])
}

/// How many groups of an IPv6 address a text spells out: none if it is empty, else those that
/// it joins by colons. Where `at_end` holds the last one may be an IPv4 address, which stands
/// for two. `None` for any other text.
pub open spec fn groups_in(text: Seq<char>, at_end: bool) -> Option<nat> {
    let pieces = crate::text::split_on(text, ':');
    if text.len() == 0 {
        Some(0)
    } else if !(forall|i: int| 0 <= i < pieces.len() - 1 ==> is_group(#[trigger] pieces[i])) {
        None
    } else if is_group(pieces.last()) {
        Some(pieces.len())
    } else if at_end && is_ipv4(pieces.last()) {
        Some(pieces.len() + 1)
    } else {
        None
    }
}

/// Whether `::` stands at position `at`, with groups on both sides that leave at least one out.
pub open spec fn is_compressed_at(text: Seq<char>, at: int) -> bool {
    &&& 0 <= at <= text.len() - 2
    &&& text[at] == ':'
    &&& text[at + 1] == ':'
    &&& groups_in(text.take(at), false) is Some
    &&& groups_in(text.skip(at + 2), true) is Some
    &&& groups_in(text.take(at), false)->0 + groups_in(text.skip(at + 2), true)->0 <= 7
}

/// Eight groups, written out or with `::` for some of them.
pub open spec fn is_ipv6(text: Seq<char>) -> bool {
    ||| groups_in(text, true) == Some(8nat)
    ||| exists|at: int| is_compressed_at(text, at)
}

/// An IPv4 or an IPv6 address.
pub open spec fn is_ip_address(text: Seq<char>) -> bool {
    is_ipv4(text) || is_ipv6(text)
}

/// Whether a piece is one octet of an IPv4 address.
pub fn check_octet(piece: &Vec<char>) -> (ok: bool)
    ensures
        ok == is_octet(piece@),
{
    if piece.len() < 1 || piece.len() > 3 || (piece.len() > 1 && piece[0] == '0') {
        return false;
    }
    let mut value: u32 = 0;
    for k in 0..piece.len()
        invariant
            piece.len() <= 3,
            value == crate::text::digits_value(piece@.take(k as int)),
            value < 1000,
            k == 0 ==> value < 1,
            k == 1 ==> value < 10,
            k == 2 ==> value < 100,
            forall|j: int| 0 <= j < k ==> crate::text::is_digit(#[trigger] piece@[j]),
    {
        if !is_digit_char(piece[k]) {
            return false;
        }
        assert(piece@.take(k + 1).drop_last() == piece@.take(k as int));
        value = value * 10 + (piece[k] as u32 - '0' as u32);
    }
    assert(piece@.take(piece@.len() as int) == piece@);
    value <= 255
}

/// Whether a text is an IPv4 address.
pub fn check_ipv4(text: &[char]) -> (ok: bool)
    ensures
        ok == is_ipv4(text@),
{
    let pieces = split(text, '.');
    let ghost texts = crate::text::piece_texts(pieces@);
    if pieces.len() != 4 {
        return false;
    }
    for i in 0..pieces.len()
        invariant
            pieces.len() == 4,
            texts == crate::text::piece_texts(pieces@),
            texts == crate::text::split_on(text@, '.'),
            forall|j: int| 0 <= j < i ==> is_octet(#[trigger] texts[j]),
    {
        if !check_octet(&pieces[i]) {
            assert(!is_octet(texts[i as int]));
            return false;
        }
    }
    true
}

/// Whether a piece is one group of an IPv6 address.
pub fn check_group(piece: &Vec<char>) -> (ok: bool)
    ensures
        ok == is_group(piece@),
{
    if piece.len() < 1 || piece.len() > 4 {
        return false;
    }
    for k in 0..piece.len()
        invariant
            forall|j: int| 0 <= j < k ==> crate::text::is_hex_digit(#[trigger] piece@[j]),
    {
        if !is_hex_digit_char(piece[k]) {
            return false;
        }
    }
    true
}

/// Counts the groups of an IPv6 address that a text spells out.
pub fn count_groups(text: &[char], at_end: bool) -> (count: Option<usize>)
    ensures
        count is Some == groups_in(text@, at_end) is Some,
        count matches Some(n) ==> n == groups_in(text@, at_end)->0,
{
    if text.len() == 0 {
        return Some(0);
    }
    let pieces = split(text, ':');
    let ghost texts = crate::text::piece_texts(pieces@);
    proof {
        crate::text::lemma_split_nonempty(text@, ':');
    }
    for i in 0..pieces.len() - 1
        invariant
            1 <= pieces.len(),
            0 < text@.len(),
            texts == crate::text::piece_texts(pieces@),
            texts == crate::text::split_on(text@, ':'),
            forall|j: int| 0 <= j < i ==> is_group(#[trigger] texts[j]),
    {
        if !check_group(&pieces[i]) {
            assert(!is_group(texts[i as int]));
            return None;
        }
    }
    let last: &Vec<char> = &pieces[pieces.len() - 1];
    assert(last@ == texts.last());
    if check_group(last) {
        Some(pieces.len())
    } else if at_end && check_ipv4(last.as_slice()) {
        proof {
            crate::text::lemma_split_count(text@, ':');
            crate::text::lemma_split_count(last@, '.');
        }
        Some(pieces.len() + 1)
    } else {
        None
    }
}

/// In a text without empty groups no `::` stands, nor a colon at either end.
proof fn lemma_groups_have_no_gap(text: Seq<char>, at_end: bool)
    requires
        text.len() > 0,
        groups_in(text, at_end) is Some,
    ensures
        text[0] != ':',
        text.last() != ':',
        forall|k: int| 0 <= k < text.len() - 1 && #[trigger] text[k] == ':' ==> text[k + 1] != ':',
{
    let pieces = crate::text::split_on(text, ':');
    crate::text::lemma_split_nonempty(text, ':');
    assert forall|i: int| 0 <= i < pieces.len() implies #[trigger] pieces[i].len() > 0 by {
        if i < pieces.len() - 1 {
            assert(is_group(pieces[i]));
        } else {
            crate::text::lemma_split_count(pieces[i], '.');
        }
    }
    crate::text::lemma_split_no_empty_piece(text, ':');
}

/// Only the first `::` of a text can be the one that leaves groups out.
proof fn lemma_compressed_at_first(text: Seq<char>, first: int, at: int)
    requires
        0 <= first <= text.len() - 2,
        text[first] == ':',
        text[first + 1] == ':',
        forall|k: int| 0 <= k < first ==> !(#[trigger] text[k] == ':' && text[k + 1] == ':'),
        is_compressed_at(text, at),
    ensures
        at == first,
{
    if at != first {
        let head = text.take(at);
        assert(first < at) by {
            if at < first {
                assert(text[at] == ':' && text[at + 1] == ':');
            }
        }
        lemma_groups_have_no_gap(head, false);
        if first == at - 1 {
            assert(head.last() == text[first]);
        } else {
            assert(head[first] == ':');
            assert(head[first + 1] == ':');
        }
    }
}

/// Whether a text is an IPv6 address.
pub fn check_ipv6(text: &[char]) -> (ok: bool)
    ensures
        ok == is_ipv6(text@),
{
    if let Some(count) = count_groups(text, true) {
        if count == 8 {
            return true;
        }
    }
    assert(groups_in(text@, true) != Some(8nat));
    if text.len() < 2 {
        return false;
    }
    for at in 0..text.len() - 1
        invariant
            2 <= text@.len(),
            groups_in(text@, true) != Some(8nat),
            forall|k: int| 0 <= k < at ==> !(#[trigger] text@[k] == ':' && text@[k + 1] == ':'),
    {
        if text[at] == ':' && text[at + 1] == ':' {
            let ghost first: int = at as int;
            assert forall|other: int| is_compressed_at(text@, other) implies other == first by {
                lemma_compressed_at_first(text@, first, other);
            }
            let head = vstd::slice::slice_subrange(text, 0, at);
            let tail = vstd::slice::slice_subrange(text, at + 2, text.len());
            assert(head@ == text@.take(first));
            assert(tail@ == text@.skip(first + 2));
            return match (count_groups(head, false), count_groups(tail, true)) {
                (Some(before), Some(after)) => {
                    assert((before <= 7 && after <= 7 - before) == is_compressed_at(text@, first));
                    before <= 7 && after <= 7 - before
                },
                _ => {
                    assert(!is_compressed_at(text@, first));
                    false
                },
            };
        }
    }
    assert forall|at: int| !is_compressed_at(text@, at) by {
        if is_compressed_at(text@, at) {
            assert(text@[at] == ':' && text@[at + 1] == ':');
        }
    }
    false
}

/// Whether a text is an IP address.
pub fn check_ip_address(text: &[char]) -> (ok: bool)
    ensures
        ok == is_ip_address(text@),
{
    check_ipv4(text) || check_ipv6(text)
}

/// An IPv4 address is made of digits and dots, at most fifteen of them.
pub proof fn lemma_ipv4_shape(text: Seq<char>)
    requires
        is_ipv4(text),
    ensures
        forall|k: int|
            0 <= k < text.len() ==> crate::text::is_digit(#[trigger] text[k]) || text[k] == '.',
        text.len() <= 15,
{
    let pieces = crate::text::split_on(text, '.');
    let digit = |c: char| crate::text::is_digit(c);
    assert forall|i: int, j: int|
        #![trigger pieces[i][j]]
        0 <= i < pieces.len() && 0 <= j < pieces[i].len() implies digit(pieces[i][j]) by {
        assert(is_octet(pieces[i]));
    }
    crate::text::lemma_split_chars(text, '.', digit);
    assert forall|i: int| 0 <= i < pieces.len() implies #[trigger] pieces[i].len() <= 3 by {
        assert(is_octet(pieces[i]));
    }
    crate::text::lemma_split_length(text, '.', 3);
}

/// A character that can stand in an IPv6 address.
pub open spec fn is_ipv6_char(c: char) -> bool {
    crate::text::is_hex_digit(c) || c == ':' || c == '.'
}

/// A run of groups is made of hexadecimal digits, colons and dots, and has no more pieces than
/// groups.
proof fn lemma_groups_shape(text: Seq<char>, at_end: bool)
    requires
        groups_in(text, at_end) is Some,
    ensures
        forall|k: int| 0 <= k < text.len() ==> is_ipv6_char(#[trigger] text[k]),
        text.len() > 0 ==> crate::text::split_on(text, ':').len() <= groups_in(text, at_end)->0,
        text.len() > 0 ==> groups_in(text, at_end)->0 <= crate::text::split_on(text, ':').len() + 1,
        text.len() <= 16 * groups_in(text, at_end)->0,
{
    if text.len() > 0 {
        let pieces = crate::text::split_on(text, ':');
        let inner = |c: char| crate::text::is_hex_digit(c) || c == '.';
        crate::text::lemma_split_nonempty(text, ':');
        assert forall|i: int| 0 <= i < pieces.len() implies #[trigger] pieces[i].len() <= 15 && (
        forall|j: int| 0 <= j < pieces[i].len() ==> inner(#[trigger] pieces[i][j])) by {
            if i < pieces.len() - 1 || is_group(pieces[i]) {
                assert(is_group(pieces[i]));
            } else {
                lemma_ipv4_shape(pieces[i]);
            }
        }
        crate::text::lemma_split_chars(text, ':', inner);
        crate::text::lemma_split_length(text, ':', 15);
        assert(pieces.len() * (15 + 1) == 16 * pieces.len()) by (nonlinear_arith);
    }
}

/// An IPv6 address is made of hexadecimal digits, dots and two to eight colons.
pub proof fn lemma_ipv6_shape(text: Seq<char>)
    requires
        is_ipv6(text),
    ensures
        forall|k: int| 0 <= k < text.len() ==> is_ipv6_char(#[trigger] text[k]),
        3 <= crate::text::split_on(text, ':').len() <= 9,
        text.contains(':'),
        text.len() <= 128,
{
    if groups_in(text, true) == Some(8nat) {
        lemma_groups_shape(text, true);
        if !text.contains(':') {
            assert forall|k: int| 0 <= k < text.len() implies #[trigger] text[k] != ':' by {
                assert(text.contains(text[k]));
            }
            crate::text::lemma_split_absent(text, ':');
        }
    } else {
        let at = choose|at: int| is_compressed_at(text, at);
        let head = text.take(at);
        let tail = text.skip(at + 2);
        lemma_groups_shape(head, false);
        lemma_groups_shape(tail, true);
        let rest = Seq::<char>::empty().push(':') + tail;
        assert(text == head.push(':') + rest);
        crate::text::lemma_split_concat(head, ':', rest);
        crate::text::lemma_split_concat(Seq::empty(), ':', tail);
        crate::text::lemma_split_nonempty(head, ':');
        crate::text::lemma_split_nonempty(tail, ':');
        assert(text.contains(text[at]));
        assert forall|k: int| 0 <= k < text.len() implies is_ipv6_char(#[trigger] text[k]) by {
            if k < at {
                assert(head[k] == text[k]);
            } else if k >= at + 2 {
                assert(tail[k - at - 2] == text[k]);
            }
        }
    }
}

/// The IPv4 addresses are what four numbers up to 255 are written as, joined by dots: each such
/// text is one.
pub proof fn law_octets_make_ipv4(a: u8, b: u8, c: u8, d: u8)
    ensures
        is_ipv4(crate::text::joined(octet_texts(a, b, c, d), '.')),
        octet_texts(a, b, c, d)[0] == crate::text::natural_text(a as nat),
        octet_texts(a, b, c, d)[1] == crate::text::natural_text(b as nat),
        octet_texts(a, b, c, d)[2] == crate::text::natural_text(c as nat),
        octet_texts(a, b, c, d)[3] == crate::text::natural_text(d as nat),
{
    let pieces = octet_texts(a, b, c, d);
    lemma_octet_text(a);
    lemma_octet_text(b);
    lemma_octet_text(c);
    lemma_octet_text(d);
    assert forall|i: int| 0 <= i < pieces.len() implies is_octet(#[trigger] pieces[i])
        && !pieces[i].contains('.') by {
        assert(i == 0 || i == 1 || i == 2 || i == 3);
    }
    crate::text::law_split_undoes_join(pieces, '.');
}

/// Nothing else is an IPv4 address.
pub proof fn law_ipv4_is_made_of_octets(text: Seq<char>)
    requires
        is_ipv4(text),
    ensures
        exists|a: u8, b: u8, c: u8, d: u8|
            text == crate::text::joined(#[trigger] octet_texts(a, b, c, d), '.'),
{
    let pieces = crate::text::split_on(text, '.');
    crate::text::law_join_undoes_split(text, '.');
    assert(is_octet(pieces[0]) && is_octet(pieces[1]) && is_octet(pieces[2]) && is_octet(
        pieces[3],
    ));
    crate::text::law_natural_text_is_canonical(0, pieces[0]);
    crate::text::law_natural_text_is_canonical(0, pieces[1]);
    crate::text::law_natural_text_is_canonical(0, pieces[2]);
    crate::text::law_natural_text_is_canonical(0, pieces[3]);
    let a = crate::text::digits_value(pieces[0]) as u8;
    let b = crate::text::digits_value(pieces[1]) as u8;
    let c = crate::text::digits_value(pieces[2]) as u8;
    let d = crate::text::digits_value(pieces[3]) as u8;
    assert(octet_texts(a, b, c, d) == pieces);
}

/// Four numbers in decimal.
pub open spec fn octet_texts(a: u8, b: u8, c: u8, d: u8) -> Seq<Seq<char>> {
    seq![
        crate::text::natural_text(a as nat),
        crate::text::natural_text(b as nat),
        crate::text::natural_text(c as nat),
        crate::text::natural_text(d as nat),
    ]
}

proof fn lemma_octet_text(n: u8)
    ensures
        is_octet(crate::text::natural_text(n as nat)),
        !crate::text::natural_text(n as nat).contains('.'),
{
    let text = crate::text::natural_text(n as nat);
    crate::text::lemma_natural_text_digits(n as nat);
    crate::text::law_natural_text_reads_back(n as nat);
    crate::text::law_natural_text_is_canonical(n as nat, Seq::empty());
    crate::text::lemma_octet_length(n as nat);
}

/// A group is one to four characters, each of them a hexadecimal digit in either case.
pub proof fn law_group(piece: Seq<char>)
    ensures
        is_group(piece) <==> 1 <= piece.len() <= 4 && forall|k: int|
            0 <= k < piece.len() ==> '0' <= #[trigger] piece[k] <= '9' || 'A' <= piece[k] <= 'F'
                || 'a' <= piece[k] <= 'f',
{
}

/// Groups, and behind them perhaps an IPv4 address.
pub open spec fn are_groups(groups: Seq<Seq<char>>, embedded: Option<Seq<char>>) -> bool {
    &&& forall|i: int| 0 <= i < groups.len() ==> is_group(#[trigger] groups[i])
    &&& embedded matches Some(address) ==> is_ipv4(address)
}

/// The groups and the IPv4 address behind them, joined by colons.
pub open spec fn groups_text(groups: Seq<Seq<char>>, embedded: Option<Seq<char>>) -> Seq<char> {
    match embedded {
        Some(address) => crate::text::joined(groups.push(address), ':'),
        None => crate::text::joined(groups, ':'),
    }
}

/// How many groups that makes, an IPv4 address being two.
pub open spec fn groups_count(groups: Seq<Seq<char>>, embedded: Option<Seq<char>>) -> nat {
    groups.len() + if embedded is Some {
        2nat
    } else {
        0nat
    }
}

proof fn lemma_groups_text(groups: Seq<Seq<char>>, embedded: Option<Seq<char>>, at_end: bool)
    requires
        are_groups(groups, embedded),
        embedded is Some ==> at_end,
    ensures
        groups_in(groups_text(groups, embedded), at_end) == Some(groups_count(groups, embedded)),
{
    let pieces = match embedded {
        Some(address) => groups.push(address),
        None => groups,
    };
    let text = groups_text(groups, embedded);
    if pieces.len() > 0 {
        assert forall|i: int| 0 <= i < pieces.len() implies !(#[trigger] pieces[i]).contains(':')
            && pieces[i].len() > 0 by {
            if i < groups.len() {
                assert(is_group(groups[i]));
                if pieces[i].contains(':') {
                    let k = pieces[i].index_of(':');
                    assert(crate::text::is_hex_digit(pieces[i][k]));
                }
            } else {
                lemma_ipv4_shape(pieces[i]);
                crate::text::lemma_split_count(pieces[i], '.');
                if pieces[i].contains(':') {
                    let k = pieces[i].index_of(':');
                    assert(crate::text::is_digit(pieces[i][k]) || pieces[i][k] == '.');
                }
            }
        }
        crate::text::law_split_undoes_join(pieces, ':');
        if text.len() == 0 {
            assert(crate::text::split_on(text, ':')[0].len() == 0);
        }
        assert forall|i: int| 0 <= i < pieces.len() - 1 implies is_group(#[trigger] pieces[i]) by {
            assert(is_group(groups[i]));
        }
        match embedded {
            Some(address) => {
                assert(pieces.last() == address);
                if is_group(address) {
                    assert forall|k: int| 0 <= k < address.len() implies #[trigger] address[k]
                        != '.' by {
                        assert(crate::text::is_hex_digit(address[k]));
                    }
                    crate::text::lemma_split_absent(address, '.');
                }
            },
            None => {
                assert(is_group(groups[groups.len() - 1]));
            },
        }
    }
}

proof fn lemma_groups_of(text: Seq<char>, at_end: bool) -> (found: (
    Seq<Seq<char>>,
    Option<Seq<char>>,
))
    requires
        groups_in(text, at_end) is Some,
    ensures
        are_groups(found.0, found.1),
        found.1 is Some ==> at_end,
        groups_text(found.0, found.1) == text,
        groups_count(found.0, found.1) == groups_in(text, at_end)->0,
{
    let pieces = crate::text::split_on(text, ':');
    crate::text::law_join_undoes_split(text, ':');
    if text.len() == 0 {
        assert(text == Seq::<char>::empty());
        (Seq::empty(), None)
    } else if is_group(pieces.last()) {
        assert forall|i: int| 0 <= i < pieces.len() implies is_group(#[trigger] pieces[i]) by {
            if i == pieces.len() - 1 {
                assert(pieces[i] == pieces.last());
            }
        }
        (pieces, None)
    } else {
        let groups = pieces.drop_last();
        assert forall|i: int| 0 <= i < groups.len() implies is_group(#[trigger] groups[i]) by {
            assert(groups[i] == pieces[i]);
        }
        assert(groups.push(pieces.last()) == pieces);
        (groups, Some(pieces.last()))
    }
}

/// Eight groups written out are an IPv6 address.
pub proof fn law_eight_groups_make_ipv6(groups: Seq<Seq<char>>, embedded: Option<Seq<char>>)
    requires
        are_groups(groups, embedded),
        groups_count(groups, embedded) == 8,
    ensures
        is_ipv6(groups_text(groups, embedded)),
{
    lemma_groups_text(groups, embedded, true);
}

/// At most seven groups around `::` are an IPv6 address, wherever it stands.
pub proof fn law_compressed_groups_make_ipv6(
    front: Seq<Seq<char>>,
    back: Seq<Seq<char>>,
    embedded: Option<Seq<char>>,
)
    requires
        are_groups(front, None),
        are_groups(back, embedded),
        front.len() + groups_count(back, embedded) <= 7,
    ensures
        is_ipv6(groups_text(front, None) + seq![':', ':'] + groups_text(back, embedded)),
{
    let head = groups_text(front, None);
    let tail = groups_text(back, embedded);
    let text = head + seq![':', ':'] + tail;
    let at = head.len() as int;
    lemma_groups_text(front, None, false);
    lemma_groups_text(back, embedded, true);
    assert(text.take(at) == head);
    assert(text.skip(at + 2) == tail);
    assert(is_compressed_at(text, at));
}

/// Nothing else is an IPv6 address.
pub proof fn law_ipv6_is_made_of_groups(text: Seq<char>)
    requires
        is_ipv6(text),
    ensures
        (exists|groups: Seq<Seq<char>>, embedded: Option<Seq<char>>|
            {
                &&& are_groups(groups, embedded)
                &&& groups_count(groups, embedded) == 8
                &&& text == #[trigger] groups_text(groups, embedded)
            }) || (exists|
            front: Seq<Seq<char>>,
            back: Seq<Seq<char>>,
            embedded: Option<Seq<char>>,
        |
            {
                &&& are_groups(front, None)
                &&& are_groups(back, embedded)
                &&& front.len() + groups_count(back, embedded) <= 7
                &&& text == #[trigger] groups_text(front, None) + seq![':', ':']
                    + #[trigger] groups_text(back, embedded)
            }),
{
    if groups_in(text, true) == Some(8nat) {
        let (groups, embedded) = lemma_groups_of(text, true);
        assert(text == groups_text(groups, embedded));
    } else {
        let at = choose|at: int| is_compressed_at(text, at);
        let (front, none) = lemma_groups_of(text.take(at), false);
        let (back, embedded) = lemma_groups_of(text.skip(at + 2), true);
        assert(none == None::<Seq<char>>);
        assert(text == groups_text(front, None) + seq![':', ':'] + groups_text(back, embedded));
    }
}

/// An IP address is an IPv4 or an IPv6 address, and no text is both.
pub proof fn law_ip_address(text: Seq<char>)
    ensures
        is_ip_address(text) <==> is_ipv4(text) || is_ipv6(text),
        !(is_ipv4(text) && is_ipv6(text)),
{
    if is_ipv4(text) && is_ipv6(text) {
        lemma_ipv4_shape(text);
        lemma_ipv6_shape(text);
        let k = text.index_of(':');
        assert(crate::text::is_digit(text[k]) || text[k] == '.');
    }
}

} // verus!
