//! Internet addresses as text.

use crate::text::{decimal, hex_plain};
use vstd::prelude::*;

verus! {

/// Four bytes as a version four address.
pub open spec fn ipv4_text(bytes: Seq<u8>) -> Seq<char> {
    crate::text::decimal_text(bytes[0] as int) + seq!['.'] + crate::text::decimal_text(
        bytes[1] as int,
    ) + seq!['.'] + crate::text::decimal_text(bytes[2] as int) + seq!['.']
        + crate::text::decimal_text(bytes[3] as int)
}

/// Four bytes as a version four address.
pub fn write_ipv4(a: u8, b: u8, c: u8, d: u8) -> (text: String)
    ensures
        text@ == ipv4_text(seq![a, b, c, d]),
{
    let mut text = decimal(a as u64);
    text.push('.');
    text.append(&decimal(b as u64));
    text.push('.');
    text.append(&decimal(c as u64));
    text.push('.');
    text.append(&decimal(d as u64));
    assert(text@ =~= ipv4_text(seq![a, b, c, d]));
    text
}

/// How many groups from a place on are zero.
pub open spec fn zeroes_from(groups: Seq<u16>, from: int) -> nat
    decreases groups.len() - from,
{
    if from < 0 || from >= groups.len() || groups[from] != 0 {
        0
    } else {
        1 + zeroes_from(groups, from + 1)
    }
}

/// Where the longest run of zeroes starts among the first places. Of two that
/// are equally long it is the first.
pub open spec fn longest_zeroes(groups: Seq<u16>, count: int) -> int
    decreases count,
{
    if count <= 1 {
        0
    } else {
        let best = longest_zeroes(groups, count - 1);
        if zeroes_from(groups, count - 1) > zeroes_from(groups, best) {
            count - 1
        } else {
            best
        }
    }
}

/// Groups in hexadecimal with a colon between each two.
pub open spec fn groups_text(groups: Seq<u16>) -> Seq<char>
    decreases groups.len(),
{
    if groups.len() == 0 {
        Seq::empty()
    } else if groups.len() == 1 {
        crate::text::digits(groups[0] as nat, 16)
    } else {
        groups_text(groups.drop_last()) + seq![':'] + crate::text::digits(groups.last() as nat, 16)
    }
}

/// The last two groups of an address as a version four address.
pub open spec fn tail_text(groups: Seq<u16>) -> Seq<char> {
    ipv4_text(
        seq![
            (groups[6] / 256) as u8,
            (groups[6] % 256) as u8,
            (groups[7] / 256) as u8,
            (groups[7] % 256) as u8,
        ],
    )
}

/// Eight groups as a version six address: the longest run of at least two zero
/// groups is left out, and an address that holds one of version four ends in
/// its dotted form.
pub open spec fn ipv6_text(groups: Seq<u16>) -> Seq<char> {
    let start = longest_zeroes(groups, 8);
    let length = zeroes_from(groups, start);
    if length < 2 {
        groups_text(groups)
    } else if start == 0 && length == 6 {
        "::"@ + tail_text(groups)
    } else if start == 0 && length == 5 && groups[5] == 0xffff {
        "::ffff:"@ + tail_text(groups)
    } else {
        groups_text(groups.take(start)) + "::"@ + groups_text(groups.skip(start + length))
    }
}

fn count_zeroes(groups: &Vec<u16>, from: usize) -> (count: usize)
    requires
        from <= groups@.len(),
    ensures
        count == zeroes_from(groups@, from as int),
        from + count <= groups@.len(),
{
    let total: usize = groups.len();
    let mut count: usize = 0;
    while count < total - from && groups[from + count] == 0
        invariant
            total == groups@.len(),
            from <= total,
            from + count <= total,
            zeroes_from(groups@, from as int) == count + zeroes_from(groups@, from + count),
        decreases groups@.len() - from - count,
    {
        count = count + 1;
    }
    count
}

fn append_groups(text: &mut String, groups: &Vec<u16>, from: usize, to: usize)
    requires
        from <= to <= groups@.len(),
    ensures
        final(text)@ == old(text)@ + groups_text(groups@.subrange(from as int, to as int)),
{
    let ghost before = text@;
    for i in from..to
        invariant
            from <= to <= groups@.len(),
            text@ == before + groups_text(groups@.subrange(from as int, i as int)),
    {
        assert(groups@.subrange(from as int, i + 1).drop_last() =~= groups@.subrange(
            from as int,
            i as int,
        ));
        if i > from {
            text.push(':');
        }
        text.append(&hex_plain(groups[i] as u64));
        assert(text@ =~= before + groups_text(groups@.subrange(from as int, i + 1)));
    }
}

fn write_tail(groups: &Vec<u16>) -> (text: String)
    requires
        groups@.len() == 8,
    ensures
        text@ == tail_text(groups@),
{
    write_ipv4(
        (groups[6] / 256) as u8,
        (groups[6] % 256) as u8,
        (groups[7] / 256) as u8,
        (groups[7] % 256) as u8,
    )
}

/// Eight groups as a version six address.
pub fn write_ipv6(groups: &Vec<u16>) -> (text: String)
    requires
        groups@.len() == 8,
    ensures
        text@ == ipv6_text(groups@),
{
    let mut start: usize = 0;
    let mut length: usize = count_zeroes(groups, 0);
    for i in 1..8usize
        invariant
            groups@.len() == 8,
            start < 8,
            start == longest_zeroes(groups@, i as int),
            length == zeroes_from(groups@, start as int),
            start + length <= 8,
    {
        let count = count_zeroes(groups, i);
        if count > length {
            start = i;
            length = count;
        }
    }
    let mut text = String::new();
    if length < 2 {
        append_groups(&mut text, groups, 0, 8);
        assert(groups@.subrange(0, 8) =~= groups@);
    } else if start == 0 && length == 6 {
        text.append("::");
        text.append(&write_tail(groups));
    } else if start == 0 && length == 5 && groups[5] == 0xffff {
        text.append("::ffff:");
        text.append(&write_tail(groups));
    } else {
        append_groups(&mut text, groups, 0, start);
        assert(groups@.subrange(0, start as int) =~= groups@.take(start as int));
        text.append("::");
        append_groups(&mut text, groups, start + length, 8);
        assert(groups@.subrange(start + length, 8) =~= groups@.skip(start + length));
    }
    assert(text@ =~= ipv6_text(groups@));
    text
}

/// The groups that sixteen bytes make, the high byte of each first.
pub open spec fn groups_of(bytes: Seq<u8>) -> Seq<u16> {
    Seq::new(8, |i: int| (bytes[2 * i] * 256 + bytes[2 * i + 1]) as u16)
}

/// Sixteen bytes as a version six address.
pub fn write_ipv6_bytes(bytes: &Vec<u8>) -> (text: String)
    requires
        bytes@.len() == 16,
    ensures
        text@ == ipv6_text(groups_of(bytes@)),
{
    let mut groups: Vec<u16> = Vec::new();
    for i in 0..8usize
        invariant
            bytes@.len() == 16,
            groups@ == groups_of(bytes@).take(i as int),
    {
        groups.push(bytes[2 * i] as u16 * 256 + bytes[2 * i + 1] as u16);
    }
    assert(groups@ =~= groups_of(bytes@));
    write_ipv6(&groups)
}

} // verus!
