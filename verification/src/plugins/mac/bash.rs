//! Recover bash command history from Mac process memory.
//!
//! The scan takes two passes: find every `#` on the heap, then find the pointers
//! to those addresses, each of which is a history entry's timestamp.

use crate::config::Configuration;
use crate::context::{self, find_named, Context, Layer, Object, TypeId};
use crate::error::{Failure, VolatilityError};
use crate::plugins::{self, OperatingSystem, Plugin, Requirement, RequirementView};
use crate::plugins::mac::{chosen_processes, kernel_module};
use crate::renderers::{Cell, Column, Row, Table, TreeGrid, Value};
use crate::symbols::mac::MapEntry;
use crate::text::{characters, same_text};
use crate::time::{self, unixtime_value};
use vstd::prelude::*;

verus! {

/// Recovers bash command history from process memory.
pub struct Bash;

/// Bash writes each history timestamp as `#` followed by the Unix time.
pub const TIMESTAMP_PREFIX: u8 = 0x23;

/// A command longer than this is not a real history entry.
pub const MAX_COMMAND: usize = 1024;

/// The fewest digits that a plausible date has.
pub const FEWEST_DIGITS: usize = 10;

/// A command and the moment it was given.
#[derive(Debug)]
pub struct Command {
    pub time: i64,
    pub text: String,
}

/// A command and the moment it was given, as a report sees it.
pub ghost struct CommandView {
    pub time: i64,
    pub text: Seq<char>,
}

impl View for Command {
    type V = CommandView;

    open spec fn view(&self) -> CommandView {
        CommandView { time: self.time, text: self.text@ }
    }
}

/// Commands as a report sees them.
pub open spec fn command_views(list: Seq<Command>) -> Seq<CommandView> {
    Seq::new(list.len(), |i: int| list[i]@)
}

/// The commands with one more, behind all those that were not given after it.
pub open spec fn in_place(list: Seq<CommandView>, more: CommandView) -> Seq<CommandView>
    decreases list.len(),
{
    if list.len() == 0 || list.last().time <= more.time {
        list.push(more)
    } else {
        in_place(list.drop_last(), more).push(list.last())
    }
}

/// The first of some commands, in the order they were given. Those given at the
/// same moment keep the order they were found in.
pub open spec fn by_time(found: Seq<CommandView>, count: int) -> Seq<CommandView>
    decreases count,
{
    if count <= 0 {
        Seq::empty()
    } else {
        in_place(by_time(found, count - 1), found[count - 1])
    }
}

/// Whether commands are in the order they were given.
pub open spec fn is_by_time(list: Seq<CommandView>) -> bool {
    forall|i: int, j: int|
        0 <= i <= j < list.len() ==> (#[trigger] list[i]).time <= (#[trigger] list[j]).time
}

proof fn lemma_in_place(list: Seq<CommandView>, more: CommandView)
    requires
        is_by_time(list),
    ensures
        is_by_time(in_place(list, more)),
        in_place(list, more).to_multiset() == list.to_multiset().insert(more),
        in_place(list, more).len() == list.len() + 1,
        forall|i: int|
            0 <= i < in_place(list, more).len() ==> (#[trigger] in_place(list, more)[i]).time
                <= more.time || (list.len() > 0 && in_place(list, more)[i].time
                <= list.last().time),
    decreases list.len(),
{
    broadcast use vstd::seq_lib::group_to_multiset_ensures;

    if list.len() == 0 || list.last().time <= more.time {
        let all = list.push(more);
        assert forall|i: int, j: int| 0 <= i <= j < all.len() implies (#[trigger] all[i]).time <= (
        #[trigger] all[j]).time by {
            if j == list.len() {
                if i < list.len() {
                    assert(list[i].time <= list[list.len() - 1].time);
                }
            } else {
                assert(list[i].time <= list[j].time);
            }
        }
    } else {
        let front = list.drop_last();
        assert(is_by_time(front)) by {
            assert forall|i: int, j: int| 0 <= i <= j < front.len() implies (#[trigger] front[i]).time
                <= (#[trigger] front[j]).time by {
                assert(list[i].time <= list[j].time);
            }
        }
        lemma_in_place(front, more);
        let inner = in_place(front, more);
        let all = inner.push(list.last());
        assert(front.push(list.last()) =~= list);
        assert(all.to_multiset() =~= list.to_multiset().insert(more));
        assert forall|i: int, j: int| 0 <= i <= j < all.len() implies (#[trigger] all[i]).time <= (
        #[trigger] all[j]).time by {
            if j < inner.len() {
                assert(inner[i].time <= inner[j].time);
            } else if i < inner.len() {
                assert(inner[i].time <= more.time || inner[i].time <= front.last().time);
                if front.len() > 0 {
                    assert(list[front.len() - 1].time <= list[list.len() - 1].time);
                }
            }
        }
        assert forall|i: int| 0 <= i < all.len() implies (#[trigger] all[i]).time <= more.time
            || all[i].time <= list.last().time by {
            assert(all[i].time <= all[all.len() - 1].time);
        }
    }
}

/// A history is in the order its commands were given, and holds each command that
/// was found as often as it was found.
pub proof fn law_history_is_in_order(found: Seq<CommandView>)
    ensures
        is_by_time(by_time(found, found.len() as int)),
        by_time(found, found.len() as int).to_multiset() == found.to_multiset(),
{
    lemma_by_time(found, found.len() as int);
    assert(found.take(found.len() as int) =~= found);
}

proof fn lemma_by_time(found: Seq<CommandView>, count: int)
    requires
        0 <= count <= found.len(),
    ensures
        is_by_time(by_time(found, count)),
        by_time(found, count).to_multiset() == found.take(count).to_multiset(),
    decreases count,
{
    broadcast use vstd::seq_lib::group_to_multiset_ensures;

    if count > 0 {
        lemma_by_time(found, count - 1);
        lemma_in_place(by_time(found, count - 1), found[count - 1]);
        assert(found.take(count) =~= found.take(count - 1).push(found[count - 1]));
    } else {
        assert(found.take(0) =~= Seq::<CommandView>::empty());
    }
}

fn put_in_place(list: &mut Vec<Command>, more: Command)
    ensures
        command_views(final(list)@) == in_place(command_views(old(list)@), more@),
{
    let ghost start = list@;
    let ghost added = more@;
    let mut at: usize = list.len();
    let mut going = true;
    assert(list@.take(at as int) =~= list@);
    assert(command_views(list@.skip(at as int)) =~= Seq::<CommandView>::empty());
    assert(in_place(command_views(start), added) + Seq::<CommandView>::empty() =~= in_place(
        command_views(start),
        added,
    ));
    while going
        invariant
            list@ == start,
            added == more@,
            at <= list@.len(),
            in_place(command_views(start), added) == in_place(
                command_views(start.take(at as int)),
                added,
            ) + command_views(start.skip(at as int)),
            !going ==> at == 0 || start[at - 1].time <= more.time,
        decreases
                (if going {
                    at + 1
                } else {
                    0
                }),
    {
        if at == 0 || list[at - 1].time <= more.time {
            going = false;
        } else {
            proof {
                let front = command_views(start.take(at as int));
                assert(front.last() == start[at - 1]@);
                assert(front.drop_last() =~= command_views(start.take(at - 1)));
                assert(command_views(start.skip(at - 1)) =~= seq![start[at - 1]@]
                    + command_views(start.skip(at as int)));
                assert(in_place(front, added) + command_views(start.skip(at as int)) =~= in_place(
                    command_views(start.take(at - 1)),
                    added,
                ) + command_views(start.skip(at - 1)));
            }
            at = at - 1;
        }
    }
    proof {
        let front = command_views(start.take(at as int));
        if at > 0 {
            assert(front.last() == start[at - 1]@);
        }
        assert(in_place(front, added) == front.push(added));
        assert(command_views(start.insert(at as int, more)) =~= front.push(added) + command_views(
            start.skip(at as int),
        ));
    }
    list.insert(at, more);
}

fn sort_by_time(found: Vec<Command>) -> (sorted: Vec<Command>)
    ensures
        command_views(sorted@) == by_time(command_views(found@), found@.len() as int),
{
    let mut sorted: Vec<Command> = Vec::new();
    let ghost all = command_views(found@);
    assert(command_views(sorted@) =~= Seq::<CommandView>::empty());
    for i in 0..found.len()
        invariant
            all == command_views(found@),
            command_views(sorted@) == by_time(all, i as int),
    {
        assert(all[i as int] == found@[i as int]@);
        let command = Command { time: found[i].time, text: found[i].text.clone() };
        assert(command@ == all[i as int]);
        put_in_place(&mut sorted, command);
    }
    sorted
}

/// Whether a character is a digit.
#[verifier::allow_in_spec]
pub fn is_digit(c: char) -> (digit: bool)
    returns
        ('0' <= c && c <= '9'),
{
    '0' <= c && c <= '9'
}

/// The number that the first of some digits spell.
pub open spec fn digits_value(text: Seq<char>, count: int) -> nat
    decreases count,
{
    if count <= 0 {
        0
    } else {
        digits_value(text, count - 1) * 10 + (text[count - 1] as nat - '0' as nat) as nat
    }
}

/// The moment that a stamp names: a `#` followed by the seconds since 1970, at
/// least ten digits for any plausible date, and nothing but digits.
pub open spec fn stamped(text: Seq<char>) -> Option<i64> {
    if text.len() > FEWEST_DIGITS && text[0] == '#' && (forall|i: int|
        1 <= i < text.len() ==> is_digit(#[trigger] text[i])) && digits_value(
        text.skip(1),
        text.len() - 1,
    ) <= i64::MAX {
        Some(digits_value(text.skip(1), text.len() - 1) as i64)
    } else {
        None
    }
}

proof fn lemma_digits_grow(text: Seq<char>, count: int, more: int)
    requires
        count <= more,
    ensures
        digits_value(text, count) <= digits_value(text, more),
    decreases more - count,
{
    if count < more {
        lemma_digits_grow(text, count, more - 1);
    }
}

/// The moment that a stamp names.
pub fn read_stamp(text: &str) -> (time: Option<i64>)
    ensures
        time == stamped(text@),
{
    let list = characters(text);
    if list.len() <= FEWEST_DIGITS || list[0] != '#' {
        return None;
    }
    let ghost digits = text@.skip(1);
    let total: usize = list.len();
    let mut value: i64 = 0;
    let mut at: usize = 1;
    while at < total
        invariant
            list@ == text@,
            digits == text@.skip(1),
            total == list@.len(),
            1 <= at <= total,
            0 <= value,
            value == digits_value(digits, at - 1),
            forall|i: int| 1 <= i < at ==> is_digit(#[trigger] text@[i]),
        decreases total - at,
    {
        let c = list[at];
        if !is_digit(c) {
            return None;
        }
        let digit: i64 = c as i64 - '0' as i64;
        assert(digits[at - 1] == c);
        assert(digits_value(digits, at as int) == digits_value(digits, at - 1) * 10 + digit);
        let next = match value.checked_mul(10) {
            Some(tens) => tens.checked_add(digit),
            None => None,
        };
        match next {
            Some(next) => {
                value = next;
            },
            None => {
                proof {
                    lemma_digits_grow(digits, at as int, total - 1);
                }
                return None;
            },
        }
        at = at + 1;
    }
    Some(value)
}

/// The command that an entry of a history holds, if it really is one: it points at
/// a command and at a stamp.
pub open spec fn command_of(context: &Context, entry: Object) -> Option<CommandView> {
    match (context.member(entry, "line"), context.member(entry, "timestamp")) {
        (Some(line), Some(stamp)) => match (
            context.pointed_text(line, MAX_COMMAND),
            context.pointed_text(stamp, MAX_COMMAND),
        ) {
            (Some(text), Some(stamp)) => if text.len() == 0 {
                None
            } else {
                match stamped(stamp) {
                    Some(time) => Some(CommandView { time, text }),
                    None => None,
                }
            },
            _ => None,
        },
        _ => None,
    }
}

/// Confirm a candidate really is a history entry.
pub fn validate(context: &Context, entry: Object) -> (command: Option<Command>)
    ensures
        match command {
            Some(command) => command_of(context, entry) == Some(command@),
            None => command_of(context, entry) is None,
        },
{
    match (context.member(entry, "line"), context.member(entry, "timestamp")) {
        (Some(line), Some(stamp)) => match (
            context.pointer_to_string(line, MAX_COMMAND),
            context.pointer_to_string(stamp, MAX_COMMAND),
        ) {
            (Some(text), Some(stamp)) => if text.unicode_len() == 0 {
                None
            } else {
                match read_stamp(&stamp) {
                    Some(time) => Some(Command { time, text }),
                    None => None,
                }
            },
            _ => None,
        },
        _ => None,
    }
}

/// A part of memory that is searched.
#[derive(Clone, Copy, PartialEq, Eq, Structural, Debug)]
pub struct Section {
    pub start: u64,
    pub length: u64,
}

/// The heap of a process, which is where the shell keeps its history.
pub open spec fn heap(entries: Seq<MapEntry>, count: int) -> Seq<Section>
    decreases count,
{
    if count <= 0 {
        Seq::empty()
    } else {
        let before = heap(entries, count - 1);
        match (entries[count - 1].start, entries[count - 1].end) {
            (Some(start), Some(end)) => if entries[count - 1].special@ == "[heap]"@ {
                before.push(Section { start, length: end.wrapping_sub(start) })
            } else {
                before
            },
            _ => before,
        }
    }
}

fn find_heap(entries: &Vec<MapEntry>) -> (sections: Vec<Section>)
    ensures
        sections@ == heap(entries@, entries@.len() as int),
{
    let mut sections: Vec<Section> = Vec::new();
    for i in 0..entries.len()
        invariant
            sections@ == heap(entries@, i as int),
    {
        let entry = &entries[i];
        if let (Some(start), Some(end)) = (entry.start, entry.end) {
            if same_text(&entry.special, "[heap]") {
                sections.push(Section { start, length: end.wrapping_sub(start) });
            }
        }
    }
    sections
}

/// Whether some bytes at an address lie in a section.
pub open spec fn lies_in(section: Section, address: u64, size: u64) -> bool {
    section.start <= address && address + size <= section.start + section.length
}

fn is_inside(section: Section, address: u64, size: u64) -> (inside: bool)
    ensures
        inside == lies_in(section, address, size),
{
    section.start <= address && address as u128 + size as u128 <= section.start as u128
        + section.length as u128
}

/// Those of the first of some addresses at which some bytes lie in a section.
pub open spec fn inside(section: Section, hits: Seq<u64>, size: u64, count: int) -> Seq<u64>
    decreases count,
{
    if count <= 0 {
        Seq::empty()
    } else if lies_in(section, hits[count - 1], size) {
        inside(section, hits, size, count - 1).push(hits[count - 1])
    } else {
        inside(section, hits, size, count - 1)
    }
}

/// Those of some addresses at which some bytes lie in one of the first sections,
/// section by section.
pub open spec fn sifted(sections: Seq<Section>, hits: Seq<u64>, size: u64, count: int) -> Seq<u64>
    decreases count,
{
    if count <= 0 {
        Seq::empty()
    } else {
        sifted(sections, hits, size, count - 1) + inside(
            sections[count - 1],
            hits,
            size,
            hits.len() as int,
        )
    }
}

fn sift(sections: &Vec<Section>, hits: &Vec<u64>, size: u64) -> (kept: Vec<u64>)
    ensures
        kept@ == sifted(sections@, hits@, size, sections@.len() as int),
{
    let mut kept: Vec<u64> = Vec::new();
    for i in 0..sections.len()
        invariant
            kept@ == sifted(sections@, hits@, size, i as int),
    {
        let ghost before = kept@;
        let section = sections[i];
        for j in 0..hits.len()
            invariant
                kept@ == before + inside(section, hits@, size, j as int),
        {
            if is_inside(section, hits[j], size) {
                kept.push(hits[j]);
            }
            assert(kept@ =~= before + inside(section, hits@, size, j + 1));
        }
    }
    kept
}

/// An address as it stands in memory, the lowest byte first.
pub open spec fn pointer_bytes(address: u64) -> Seq<u8> {
    seq![
        address as u8,
        (address >> 8) as u8,
        (address >> 16) as u8,
        (address >> 24) as u8,
        (address >> 32) as u8,
        (address >> 40) as u8,
        (address >> 48) as u8,
        (address >> 56) as u8,
    ]
}

/// Addresses as they stand in memory.
pub open spec fn pointers(addresses: Seq<u64>) -> Seq<Seq<u8>> {
    Seq::new(addresses.len(), |i: int| pointer_bytes(addresses[i]))
}

fn write_pointers(addresses: &Vec<u64>) -> (list: Vec<Vec<u8>>)
    ensures
        context::byte_lists(list@) == pointers(addresses@),
{
    let mut list: Vec<Vec<u8>> = Vec::new();
    for i in 0..addresses.len()
        invariant
            context::byte_lists(list@) =~= pointers(addresses@).take(i as int),
    {
        let address: u64 = addresses[i];
        let bytes = vec![
            address as u8,
            (address >> 8) as u8,
            (address >> 16) as u8,
            (address >> 24) as u8,
            (address >> 32) as u8,
            (address >> 40) as u8,
            (address >> 48) as u8,
            (address >> 56) as u8,
        ];
        assert(bytes@ =~= pointer_bytes(address));
        let ghost before = list@;
        list.push(bytes);
        assert(context::byte_lists(list@) =~= context::byte_lists(before).push(
            pointer_bytes(address),
        ));
    }
    assert(context::byte_lists(list@) =~= pointers(addresses@));
    list
}

/// Every place of the heap that points at a `#` on it.
pub open spec fn stamp_pointers(layer: Layer, sections: Seq<Section>) -> Seq<u64> {
    let candidates = sifted(
        sections,
        layer.occurrences(seq![TIMESTAMP_PREFIX]),
        1,
        sections.len() as int,
    );
    sifted(
        sections,
        layer.any_found(pointers(candidates), layer.regions@.len() as int),
        8,
        sections.len() as int,
    )
}

fn find_stamp_pointers(layer: &Layer, sections: &Vec<Section>) -> (hits: Vec<u64>)
    ensures
        hits@ == stamp_pointers(*layer, sections@),
{
    let prefix = vec![TIMESTAMP_PREFIX];
    assert(prefix@ =~= seq![TIMESTAMP_PREFIX]);
    let marks = layer.scan(prefix.as_slice());
    let candidates = sift(sections, &marks, 1);
    let needles = write_pointers(&candidates);
    let places = layer.scan_any(&needles);
    sift(sections, &places, 8)
}

/// The shell's description of an entry of its history, and how far behind its
/// start the timestamp stands.
#[derive(Clone, Copy, PartialEq, Eq, Structural, Debug)]
pub struct HistoryEntry {
    pub kind: TypeId,
    pub timestamp: u64,
}

/// The commands among the first of some candidates.
pub open spec fn commands_at(
    context: &Context,
    entry: HistoryEntry,
    layer: usize,
    hits: Seq<u64>,
    count: int,
) -> Seq<CommandView>
    decreases count,
{
    if count <= 0 {
        Seq::empty()
    } else {
        let before = commands_at(context, entry, layer, hits, count - 1);
        match command_of(
            context,
            Object {
                kind: entry.kind,
                layer,
                native: layer,
                offset: hits[count - 1].wrapping_sub(entry.timestamp),
            },
        ) {
            Some(command) => before.push(command),
            None => before,
        }
    }
}

fn read_commands(context: &Context, entry: HistoryEntry, layer: usize, hits: &Vec<u64>) -> (found: Vec<
    Command,
>)
    ensures
        command_views(found@) == commands_at(
            context,
            entry,
            layer,
            hits@,
            hits@.len() as int,
        ),
{
    let mut found: Vec<Command> = Vec::new();
    assert(command_views(found@) =~= Seq::<CommandView>::empty());
    for i in 0..hits.len()
        invariant
            command_views(found@) == commands_at(context, entry, layer, hits@, i as int),
    {
        let candidate = Object {
            kind: entry.kind,
            layer,
            native: layer,
            offset: hits[i].wrapping_sub(entry.timestamp),
        };
        if let Some(command) = validate(context, candidate) {
            let ghost before = command_views(found@);
            let ghost added = command@;
            found.push(command);
            assert(command_views(found@) =~= before.push(added));
        }
    }
    found
}

/// The history of a shell: nothing where its memory cannot be read, and an empty
/// one where it has no memory of its own. Each pointer to a `#` on the heap is a
/// candidate's timestamp, which locates the entry itself.
pub open spec fn history_of(context: &Context, entry: HistoryEntry, process: Object) -> Option<
    Seq<CommandView>,
> {
    match context.process_space(process) {
        Some(Some(layer)) => if layer < context.layers@.len() {
            match context.map_of(process) {
                Some(entries) => {
                    let hits = stamp_pointers(
                        context.layers@[layer as int],
                        heap(entries, entries.len() as int),
                    );
                    let found = commands_at(context, entry, layer, hits, hits.len() as int);
                    Some(by_time(found, found.len() as int))
                },
                None => None,
            }
        } else {
            None
        },
        Some(None) => Some(Seq::empty()),
        None => None,
    }
}

/// Scan a process's heap for history entries.
pub fn recover(context: &Context, entry: HistoryEntry, process: Object) -> (history: Option<
    Vec<Command>,
>)
    ensures
        match history {
            Some(history) => history_of(context, entry, process) == Some(
                command_views(history@),
            ),
            None => history_of(context, entry, process) is None,
        },
{
    match context.process_layer(process) {
        Some(Some(layer)) => if layer < context.layers.len() {
            match context.vm_map_entries(process) {
                Some(entries) => {
                    let sections = find_heap(entries);
                    let hits = find_stamp_pointers(&context.layers[layer], &sections);
                    let found = read_commands(context, entry, layer, &hits);
                    assert(command_views(found@).len() == found@.len());
                    Some(sort_by_time(found))
                },
                None => None,
            }
        } else {
            None
        },
        Some(None) => {
            let history: Vec<Command> = Vec::new();
            assert(command_views(history@) =~= Seq::<CommandView>::empty());
            Some(history)
        },
        None => None,
    }
}

/// Whether a process is a shell. Only a shell keeps a history.
pub open spec fn is_shell(name: Seq<char>) -> bool {
    name == "bash"@ || name == "sh"@ || name == "dash"@
}

/// The row of a command.
pub open spec fn command_row(pid: u64, name: Seq<char>, command: CommandView) -> Seq<Cell> {
    seq![
        Cell::integer(pid as i64),
        Cell::Text(name),
        time::unixtime_cell(command.time),
        Cell::Text(command.text),
    ]
}

/// A report with the first of a shell's commands.
pub open spec fn with_commands(
    table: Table,
    pid: u64,
    name: Seq<char>,
    history: Seq<CommandView>,
    count: int,
) -> Table
    decreases count,
{
    if count <= 0 {
        table
    } else {
        with_commands(table, pid, name, history, count - 1).push(
            0,
            command_row(pid, name, history[count - 1]),
        )
    }
}

/// A report with one more process, or nothing where a shell's memory cannot be
/// read.
#[verifier::opaque]
pub open spec fn with_process(
    context: &Context,
    entry: HistoryEntry,
    table: Table,
    process: Object,
) -> Option<Table> {
    match context.mac_pid(process) {
        Some(pid) => {
            let name = context.mac_name_or_empty(process);
            if is_shell(name) {
                match history_of(context, entry, process) {
                    Some(history) => Some(
                        with_commands(table, pid, name, history, history.len() as int),
                    ),
                    None => None,
                }
            } else {
                Some(table)
            }
        },
        None => Some(table),
    }
}

fn add_process(context: &Context, entry: HistoryEntry, grid: &mut TreeGrid, process: Object) -> (
    readable: bool)
    ensures
        match with_process(context, entry, old(grid)@, process) {
            Some(table) => readable && final(grid)@ == table,
            None => !readable,
        },
{
    reveal(with_process);
    let ghost before = grid@;
    if let Some(pid) = context.mac_pid(process) {
        let name = context.mac_name_or_none(process);
        if same_text(&name, "bash") || same_text(&name, "sh") || same_text(&name, "dash") {
            let history = match recover(context, entry, process) {
                Some(history) => history,
                None => return false,
            };
            let ghost all = command_views(history@);
            for i in 0..history.len()
                invariant
                    all == command_views(history@),
                    grid@ == with_commands(before, pid, name@, all, i as int),
            {
                assert(all[i as int] == history@[i as int]@);
                let row = Row::new().with(Value::integer(pid as i64)).with(
                    Value::string(&name),
                ).with(unixtime_value(history[i].time)).with(Value::string(&history[i].text));
                assert(row@ == command_row(pid, name@, all[i as int]));
                grid.push(0, row);
            }
        }
    }
    true
}

/// The report on the first of some processes, or nothing where the memory of one
/// of them cannot be read.
pub open spec fn reported(
    context: &Context,
    entry: HistoryEntry,
    headings: Seq<Column>,
    processes: Seq<Object>,
    count: int,
) -> Option<Table>
    decreases count,
{
    if count <= 0 {
        Some(Table::empty(headings))
    } else {
        match reported(context, entry, headings, processes, count - 1) {
            Some(table) => with_process(context, entry, table, processes[count - 1]),
            None => None,
        }
    }
}

proof fn lemma_unreadable(
    context: &Context,
    entry: HistoryEntry,
    headings: Seq<Column>,
    processes: Seq<Object>,
    count: int,
    more: int,
)
    requires
        reported(context, entry, headings, processes, count) is None,
        count <= more,
    ensures
        reported(context, entry, headings, processes, more) is None,
    decreases more - count,
{
    if count < more {
        lemma_unreadable(context, entry, headings, processes, count, more - 1);
    }
}

/// What the report fails with where the shell's symbols are missing.
pub open spec fn no_symbols() -> Failure {
    Failure::Other(
        "Could not find the bundled 'bash64' symbol file; bash history cannot be decoded without it"@,
    )
}

/// The description of a history entry that a table of symbols gives.
pub open spec fn spec_entry_in(context: &Context, table: usize) -> Option<HistoryEntry> {
    match context.get_type(table, "hist_entry") {
        Some(kind) => Some(
            HistoryEntry {
                kind,
                timestamp: match context.find_member(kind, "timestamp") {
                    Some((offset, _)) => offset,
                    None => 8,
                },
            },
        ),
        None => None,
    }
}

/// The description of a history entry that a table of symbols gives.
#[verifier::when_used_as_spec(spec_entry_in)]
pub fn entry_in(context: &Context, table: usize) -> (entry: Option<HistoryEntry>)
    ensures
        entry == spec_entry_in(context, table),
{
    match context.get_type(table, "hist_entry") {
        Some(kind) => Some(
            HistoryEntry {
                kind,
                timestamp: match context.find_member(kind, "timestamp") {
                    Some((offset, _)) => offset,
                    None => 8,
                },
            },
        ),
        None => None,
    }
}

impl Plugin for Bash {
    open spec fn named(&self) -> Seq<char> {
        "mac.bash.Bash"@
    }

    open spec fn described(&self) -> Seq<char> {
        "Recovers bash command history from memory."@
    }

    open spec fn needs(&self) -> Seq<RequirementView> {
        seq![RequirementView::kernel(), RequirementView::pid_filter("Filter on specific process IDs"@)]
    }

    open spec fn headings(&self) -> Seq<Column> {
        seq![
            Column::integer("PID"),
            Column::string("Process"),
            Column::datetime("CommandTime"),
            Column::string("Command"),
        ]
    }

    open spec fn system(&self) -> OperatingSystem {
        OperatingSystem::Mac
    }

    open spec fn report(&self, context: &Context, config: &Configuration) -> Result<Table, Failure> {
        match plugins::mac::kernel_of(context, config) {
            // Mac is 64-bit throughout, so only the 64-bit description applies.
            Some(_) => match context::named_from(context.tables@, "bash64"@, 0) {
                Some(table) => match (
                    entry_in(context, table as usize),
                    plugins::mac::chosen(context, config),
                ) {
                    (Some(entry), Some(processes)) => match reported(
                        context,
                        entry,
                        self.headings(),
                        processes,
                        processes.len() as int,
                    ) {
                        Some(table) => Ok(table),
                        None => Err(Failure::Unavailable),
                    },
                    _ => Err(Failure::Unavailable),
                },
                None => Err(no_symbols()),
            },
            None => Err(plugins::mac::no_kernel()),
        }
    }

    fn name(&self) -> (name: &'static str) {
        "mac.bash.Bash"
    }

    fn description(&self) -> (description: &'static str) {
        "Recovers bash command history from memory."
    }

    fn requirements(&self) -> (requirements: Vec<Requirement>) {
        vec![Requirement::kernel(), Requirement::pid_filter("Filter on specific process IDs")]
    }

    fn operating_system(&self) -> (system: OperatingSystem) {
        OperatingSystem::Mac
    }

    fn columns(&self) -> (columns: Vec<Column>) {
        vec![
            Column::integer("PID"),
            Column::string("Process"),
            Column::datetime("CommandTime"),
            Column::string("Command"),
        ]
    }

    fn epilog(&self) -> (epilog: Option<&'static str>) {
        None
    }

    fn timeline(&self, context: &Context, config: &Configuration) -> (timeline: Option<
        plugins::Timeline,
    >) {
        None
    }

    fn needs_kernel(&self) -> (needed: bool) {
        false
    }

    fn run(&self, context: &Context, config: &Configuration) -> (result: Result<TreeGrid, VolatilityError>) {
        let _kernel = kernel_module(context, config)?;
        let table: usize = match find_named(&context.tables, "bash64") {
            Some(table) => table,
            None => return Err(
                VolatilityError::other(
                    "Could not find the bundled 'bash64' symbol file; bash history cannot be decoded without it",
                ),
            ),
        };
        let entry = match entry_in(context, table) {
            Some(entry) => entry,
            None => return Err(VolatilityError::Unavailable),
        };
        let processes = chosen_processes(context, config)?;
        let mut grid = TreeGrid::new(self.columns());
        let ghost headings = self.headings();
        for i in 0..processes.len()
            invariant
                reported(context, entry, headings, processes@, i as int) == Some(grid@),
                context::named_from(context.tables@, "bash64"@, 0) == Some(table as int),
                entry_in(context, table) == Some(entry),
                plugins::mac::chosen(context, config) == Some(processes@),
                plugins::mac::kernel_of(context, config) is Some,
                headings == self.headings(),
        {
            if !add_process(context, entry, &mut grid, processes[i]) {
                proof {
                    lemma_unreadable(
                        context,
                        entry,
                        headings,
                        processes@,
                        i + 1,
                        processes@.len() as int,
                    );
                }
                return Err(VolatilityError::Unavailable);
            }
        }
        Ok(grid)
    }
}

} // verus!
