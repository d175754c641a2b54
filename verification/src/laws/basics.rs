//! Laws on what everything rests on: times, numbers as text, paths, lists, and searches
//! through memory.

use crate::config::ConfigValue;
use crate::context::{Context, Layer, Object, TypeId};
use crate::lists::{self, Links, ListEntry};
use crate::plugins::windows::dlllist::last_part;
use crate::plugins::{passes, pid_list, pids_in};
use crate::renderers::Cell;
use crate::text::{self, decimal_text, digits, hex_text, joined, next_index, pieces_from};
use crate::time::{unixtime_cell, wintime_cell, DateTime};
use vstd::prelude::*;

verus! {

/// A Windows time counts tenths of microseconds from 1601, which is 11644473600 seconds before
/// 1970. One behind the year 9999 makes no sense.
pub proof fn law_a_windows_time_counts_from_1601(seconds: i64, rest: u64, raw: u64)
    requires
        rest < 10_000_000,
        raw == (seconds + 11644473600) * 10_000_000 + rest,
        seconds > -11644473600,
    ensures
        seconds <= 253402300799 ==> wintime_cell(raw) == Cell::Time(
            DateTime { seconds, microseconds: 0 },
        ),
        seconds > 253402300799 ==> wintime_cell(raw) == Cell::unparsable(),
        forall|early: u64| early < 10_000_000 ==> #[trigger] wintime_cell(early)
            == Cell::not_applicable(),
{
    let count = seconds + 11644473600;
    assert(raw / 10_000_000 == count) by (nonlinear_arith)
        requires
            rest < 10_000_000,
            raw == count * 10_000_000 + rest,
    ;
}

/// A Unix time counts seconds from 1970, and makes sense behind that moment and up to the year
/// 9999.
pub proof fn law_a_unix_time_counts_from_1970(seconds: i64)
    ensures
        0 < seconds <= 253402300799 ==> unixtime_cell(seconds) == Cell::Time(
            DateTime { seconds, microseconds: 0 },
        ),
        seconds <= 0 || seconds > 253402300799 ==> unixtime_cell(seconds) == Cell::unparsable(),
{
}

/// What a digit counts.
pub open spec fn digit_value(c: char) -> int {
    if '0' <= c <= '9' {
        c as int - '0' as int
    } else if 'a' <= c <= 'f' {
        10 + c as int - 'a' as int
    } else {
        0
    }
}

/// What digits spell in a base.
pub open spec fn spelled(written: Seq<char>, base: int) -> int
    decreases written.len(),
{
    if written.len() == 0 {
        0
    } else {
        base * spelled(written.drop_last(), base) + digit_value(written.last())
    }
}

proof fn lemma_digits_spell(value: nat, base: nat)
    requires
        2 <= base <= 16,
    ensures
        spelled(digits(value, base), base as int) == value,
        digits(value, base).len() > 0,
    decreases value,
{
    let written = digits(value, base);
    if value < base {
        assert(written.drop_last() =~= Seq::empty());
        assert(written.last() == text::digit(value));
        assert(spelled(written.drop_last(), base as int) == 0);
        assert(base * 0 == 0) by (nonlinear_arith);
    } else {
        vstd::arithmetic::div_mod::lemma_div_decreases(value as int, base as int);
        lemma_digits_spell(value / base, base);
        assert(written.drop_last() =~= digits(value / base, base));
        vstd::arithmetic::div_mod::lemma_fundamental_div_mod(value as int, base as int);
        vstd::arithmetic::div_mod::lemma_mod_bound(value as int, base as int);
        assert(written.last() == text::digit(value % base));
        assert(digit_value(text::digit(value % base)) == value % base);
    }
}

/// A number in decimal spells that number, behind a minus sign where it is negative, and one in
/// hexadecimal spells it behind `0x`.
pub proof fn law_a_written_number_spells_the_number(value: int)
    ensures
        value >= 0 ==> spelled(decimal_text(value), 10) == value,
        value < 0 ==> decimal_text(value).len() > 1 && decimal_text(value)[0] == '-' && spelled(
            decimal_text(value).skip(1),
            10,
        ) == -value,
        value >= 0 ==> hex_text(value as nat).len() > 2 && hex_text(value as nat)[0] == '0'
            && hex_text(value as nat)[1] == 'x' && spelled(hex_text(value as nat).skip(2), 16)
            == value,
{
    if value >= 0 {
        lemma_digits_spell(value as nat, 10);
        lemma_digits_spell(value as nat, 16);
        assert(hex_text(value as nat).skip(2) =~= digits(value as nat, 16));
    } else {
        lemma_digits_spell((-value) as nat, 10);
        assert(decimal_text(value).skip(1) =~= digits((-value) as nat, 10));
    }
}

proof fn lemma_joined_front(first: Seq<char>, rest: Seq<Seq<char>>, between: Seq<char>)
    requires
        rest.len() > 0,
    ensures
        joined(seq![first] + rest, between) == first + between + joined(rest, between),
    decreases rest.len(),
{
    let all = seq![first] + rest;
    assert(all.drop_last() =~= seq![first] + rest.drop_last());
    assert(all.last() == rest.last());
    if rest.len() == 1 {
        assert(rest.drop_last() =~= Seq::empty());
        assert(all.drop_last() =~= seq![first]);
        assert(joined(seq![first], between) == first);
    } else {
        lemma_joined_front(first, rest.drop_last(), between);
        assert(joined(all, between) =~= first + between + joined(rest, between));
    }
}

proof fn lemma_pieces(list: Seq<char>, c: char, from: int)
    requires
        0 <= from <= list.len(),
    ensures
        pieces_from(list, c, from).len() > 0,
        joined(pieces_from(list, c, from), seq![c]) == list.subrange(from, list.len() as int),
    decreases list.len() - from,
{
    text::lemma_next_index(list, c, from);
    match next_index(list, c, from) {
        Some(at) => {
            lemma_pieces(list, c, at + 1);
            let first = list.subrange(from, at);
            lemma_joined_front(first, pieces_from(list, c, at + 1), seq![c]);
            assert(first + seq![c] + list.subrange(at + 1, list.len() as int) =~= list.subrange(
                from,
                list.len() as int,
            ));
        },
        None => {},
    }
}

/// The pieces that a text is cut into give it back when they are put together again.
pub proof fn law_pieces_give_back_the_text(list: Seq<char>, c: char)
    ensures
        joined(pieces_from(list, c, 0), seq![c]) == list,
{
    lemma_pieces(list, c, 0);
    assert(list.subrange(0, list.len() as int) =~= list);
}

/// What stands behind the last separator of a path, of either kind, is its last part.
pub proof fn law_the_last_part_of_a_path(folder: Seq<char>, separator: char, name: Seq<char>)
    requires
        separator == '\\' || separator == '/',
        forall|i: int| 0 <= i < name.len() ==> name[i] != '\\' && name[i] != '/',
    ensures
        last_part(folder + seq![separator] + name) == name,
        last_part(name) == name,
    decreases name.len(),
{
    let path = folder + seq![separator] + name;
    if name.len() > 0 {
        let less = name.drop_last();
        law_the_last_part_of_a_path(folder, separator, less);
        assert(path.drop_last() =~= folder + seq![separator] + less);
        assert(path.last() == name.last());
        assert(less.push(name.last()) =~= name);
    } else {
        assert(path.last() == separator);
        assert(name =~= Seq::empty());
    }
}

/// A chain of links is followed to its end: every place comes up once, in order, until there is
/// no next one or one that was seen.
pub proof fn law_a_chain_is_followed_to_its_end<L: Links>(
    links: L,
    places: Seq<u64>,
    seen: Seq<u64>,
    most: nat,
)
    requires
        0 < places.len() <= most,
        forall|i: int| 0 <= i < places.len() ==> !seen.contains(#[trigger] places[i]),
        forall|i: int, j: int| 0 <= i < j < places.len() ==> places[i] != places[j],
        forall|i: int|
            0 <= i < places.len() - 1 ==> links.after(#[trigger] places[i]) == Some(places[i + 1]),
        match links.after(places.last()) {
            Some(next) => seen.contains(next) || places.contains(next),
            None => true,
        },
    ensures
        lists::chain_from(links, Some(places[0]), seen, most) == places,
    decreases places.len(),
{
    let rest = places.skip(1);
    let more = seen.push(places[0]);
    assert(more[seen.len() as int] == places[0]);
    reveal_with_fuel(lists::chain_from, 2);
    if places.len() == 1 {
        assert(places.last() == places[0]);
        if let Some(next) = links.after(places[0]) {
            if places.contains(next) {
                assert(next == places[0]);
            } else {
                let k = choose|k: int| 0 <= k < seen.len() && seen[k] == next;
                assert(more[k] == next);
            }
            assert(more.contains(next));
        }
        assert(lists::chain_from(links, Some(places[0]), seen, most) =~= places);
    } else {
        assert(links.after(places[0]) == Some(places[1]));
        assert forall|i: int| 0 <= i < rest.len() implies !more.contains(#[trigger] rest[i]) by {
            assert(rest[i] == places[i + 1]);
            assert(!seen.contains(places[i + 1]));
            assert(places[0] != places[i + 1]);
        }
        assert forall|i: int| 0 <= i < rest.len() - 1 implies links.after(#[trigger] rest[i])
            == Some(rest[i + 1]) by {
            assert(rest[i] == places[i + 1]);
        }
        assert(rest.last() == places.last());
        if let Some(next) = links.after(places.last()) {
            if seen.contains(next) {
                let k = choose|k: int| 0 <= k < seen.len() && seen[k] == next;
                assert(more[k] == next);
            } else {
                let k = choose|k: int| 0 <= k < places.len() && places[k] == next;
                if k > 0 {
                    assert(rest[k - 1] == next);
                } else {
                    assert(more.contains(next));
                }
            }
        }
        law_a_chain_is_followed_to_its_end(links, rest, more, (most - 1) as nat);
        assert(seq![places[0]] + rest =~= places);
    }
}

/// A list of the kernel links its entries forward from a head and back to it, and each entry is
/// the structure that holds the link.
pub proof fn law_a_list_gives_every_entry(
    context: &Context,
    head: Object,
    kind: TypeId,
    member: &str,
    part: u64,
    of: TypeId,
    places: Seq<u64>,
)
    requires
        context.find_member(kind, member) == Some((part, of)),
        0 < places.len() <= 0x1_0000_0000,
        context.member_pointer(head, "Flink") == Some(places[0]),
        forall|i: int| 0 <= i < places.len() ==> #[trigger] places[i] != head.offset,
        forall|i: int, j: int| 0 <= i < j < places.len() ==> places[i] != places[j],
        forall|i: int|
            0 <= i < places.len() - 1 ==> (ListEntry { context, head, forward: true }).after(
                #[trigger] places[i],
            ) == Some(places[i + 1]),
        (ListEntry { context, head, forward: true }).after(places.last()) == Some(head.offset),
    ensures
        lists::listed(context, head, Some(kind), member, true) matches Some(found) && found.len()
            == places.len() && forall|i: int|
            0 <= i < places.len() ==> (#[trigger] found[i]).kind == kind && found[i].layer
                == head.native && found[i].offset == places[i].wrapping_sub(part),
        forall|place: u64| #[trigger]
            (ListEntry { context, head, forward: true }).after(place) == context.member_pointer(
                Object { layer: head.native, offset: place, ..head },
                "Flink",
            ),
{
    let links = ListEntry { context, head, forward: true };
    let seen = seq![head.offset];
    assert(seen[0] == head.offset);
    assert forall|i: int| 0 <= i < places.len() implies !seen.contains(#[trigger] places[i]) by {}
    law_a_chain_is_followed_to_its_end(links, places, seen, lists::address_count());
}

/// A search through a layer finds every place of a region at which the bytes looked for stand,
/// and no other.
pub proof fn law_a_search_finds_every_occurrence(layer: &Layer, needle: Seq<u8>, r: int, i: int)
    requires
        0 <= r < layer.regions@.len(),
        0 <= i < layer.regions@[r].bytes@.len(),
        layer.regions@[r].start + i <= u64::MAX,
        layer.spells(layer.regions@[r].start + i, needle),
    ensures
        layer.occurrences(needle).contains((layer.regions@[r].start + i) as u64),
{
    lemma_region_found(layer, needle, r, layer.regions@[r].bytes@.len() as int, i);
    lemma_layer_found(layer, needle, layer.regions@.len() as int, r, i);
}

proof fn lemma_region_found(layer: &Layer, needle: Seq<u8>, r: int, count: int, i: int)
    requires
        0 <= i < count,
        layer.regions@[r].start + i <= u64::MAX,
        layer.spells(layer.regions@[r].start + i, needle),
    ensures
        layer.found_in_region(layer.regions@[r], needle, count).contains(
            (layer.regions@[r].start + i) as u64,
        ),
    decreases count,
{
    let region = layer.regions@[r];
    let all = layer.found_in_region(region, needle, count);
    let before = layer.found_in_region(region, needle, count - 1);
    let place = (region.start + i) as u64;
    if i < count - 1 {
        lemma_region_found(layer, needle, r, count - 1, i);
        let m = choose|m: int| 0 <= m < before.len() && before[m] == place;
        assert(all[m] == place);
    } else {
        assert(region.start + count - 1 == region.start + i);
        assert(all[before.len() as int] == place);
    }
}

proof fn lemma_layer_found(layer: &Layer, needle: Seq<u8>, count: int, r: int, i: int)
    requires
        0 <= r < count <= layer.regions@.len(),
        layer.found_in_region(
            layer.regions@[r],
            needle,
            layer.regions@[r].bytes@.len() as int,
        ).contains((layer.regions@[r].start + i) as u64),
    ensures
        layer.found(needle, count).contains((layer.regions@[r].start + i) as u64),
    decreases count,
{
    let all = layer.found(needle, count);
    let before = layer.found(needle, count - 1);
    let place = (layer.regions@[r].start + i) as u64;
    if r < count - 1 {
        lemma_layer_found(layer, needle, count - 1, r, i);
        let m = choose|m: int| 0 <= m < before.len() && before[m] == place;
        assert(all[m] == place);
    } else {
        let here = layer.found_in_region(
            layer.regions@[r],
            needle,
            layer.regions@[r].bytes@.len() as int,
        );
        let m = choose|m: int| 0 <= m < here.len() && here[m] == place;
        assert(all[before.len() + m] == place);
    }
}

/// A process passes a list of numbers where its own is among them.
pub proof fn law_a_filter_passes_the_numbers_it_lists(values: Vec<ConfigValue>, i: int, number: i64)
    requires
        0 <= i < values@.len(),
        values@[i] == ConfigValue::Int(number),
        number >= 0,
    ensures
        passes(pid_list(Some(ConfigValue::List(values))), number as u64),
        pid_list(Some(ConfigValue::List(values))) is Some,
        forall|pid: u64| #[trigger]
            passes(pid_list(Some(ConfigValue::Int(number))), pid) <==> pid == number,
{
    lemma_numbers(values@, i, number);
    let one = seq![number as u64];
    assert(one[0] == number as u64);
    assert forall|pid: u64| #[trigger]
        passes(pid_list(Some(ConfigValue::Int(number))), pid) <==> pid == number by {
        assert(one.contains(pid) <==> pid == number);
    }
}

proof fn lemma_numbers(values: Seq<ConfigValue>, i: int, number: i64)
    requires
        0 <= i < values.len(),
        values[i] == ConfigValue::Int(number),
    ensures
        pids_in(values).contains(number as u64),
        pids_in(values).len() > 0,
    decreases values.len(),
{
    let less = values.drop_last();
    let before = pids_in(less);
    let all = pids_in(values);
    if i < less.len() {
        lemma_numbers(less, i, number);
        let m = choose|m: int| 0 <= m < before.len() && before[m] == number as u64;
        assert(all[m] == number as u64);
    } else {
        assert(all[before.len() as int] == number as u64);
    }
}

} // verus!
