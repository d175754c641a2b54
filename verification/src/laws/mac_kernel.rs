//! Laws on what hooks into a Mac kernel: sockets, watchers, listeners, filters, timers and
//! policies.

use crate::addresses;
use crate::config::Configuration;
use crate::context::{Context, Module, Object};
use crate::laws::mac::{name_or_empty, number_of};
use crate::laws::{
    adds, cells_of, flat, lemma_adds_none, lemma_adds_one, lemma_flat_adds, names_of,
};
use crate::plugins::mac::check_sysctl::{self, CheckSysctl, KnobView};
use crate::plugins::mac::kauth_listeners::{self, KauthListeners};
use crate::plugins::mac::kevents::{self, Kevents};
use crate::plugins::mac::list_files::{self, EntryView, ListFiles};
use crate::plugins::mac::malfind::{self, Malfind};
use crate::plugins::mac::netstat::{self, NetStat};
use crate::plugins::mac::socket_filters::{self, SocketFilters};
use crate::plugins::mac::timers::{self, Timers};
use crate::plugins::mac::trustedbsd;
use crate::plugins::mac::vfsevents::{self, VfsEvents};
use crate::plugins::mac::{chosen, kernel_of};
use crate::plugins::Plugin;
use crate::renderers::{Cell, Table};
use crate::symbols::mac::{
    described, described_unshifted, descriptors_of, mounts, Descriptor, MapEntry,
};
use crate::text::{decimal_text, joined};
use vstd::prelude::*;

verus! {

/// A port is held with its high byte first.
pub proof fn law_a_port_has_its_high_byte_first(
    context: &Context,
    block: Object,
    member: &str,
    high: u64,
    low: u64,
)
    requires
        high < 256,
        low < 256,
        context.member_u64(block, member) == Some((high + 256 * low) as u64),
    ensures
        netstat::port_of(context, block, member) == 256 * high + low,
{
    let port = (high + 256 * low) as u64;
    assert(((port >> 8) | ((port & 0xff) << 8)) == 256 * high + low) by (bit_vector)
        requires
            port == high + 256 * low,
            high < 256,
            low < 256,
    ;
}

/// A member of a member of a member of a control block's address.
pub open spec fn address_part(
    context: &Context,
    block: Object,
    side: &str,
    version: &str,
    part: &str,
) -> Option<Object> {
    match context.member(block, side) {
        Some(field) => match context.member(field, version) {
            Some(address) => context.member(address, part),
            None => None,
        },
        None => None,
    }
}

/// The address of the fourth version that a connection has at this end is in the local part of
/// its block, and that of the other end in the foreign part, the lowest byte first.
#[verifier::spinoff_prover]
pub proof fn law_the_two_addresses_of_a_connection(
    context: &Context,
    block: Object,
    parts: Object,
    a: u8,
    b: u8,
    c: u8,
    d: u8,
)
    requires
        context.member_u64(parts, "s_addr") == Some(
            (a + 0x100 * b + 0x1_0000 * c + 0x100_0000 * d) as u64,
        ),
    ensures
        address_part(context, block, "inp_dependladdr", "inp46_local", "ia46_addr4") == Some(parts)
            ==> netstat::address_text(context, block, true, false) == Some(
            dotted(a, b, c, d),
        ),
        address_part(context, block, "inp_dependfaddr", "inp46_foreign", "ia46_addr4") == Some(
            parts,
        ) ==> netstat::address_text(context, block, false, false) == Some(dotted(a, b, c, d)),
{
    let number = (a + 0x100 * b + 0x1_0000 * c + 0x100_0000 * d) as u64;
    assert(number as u8 == a && (number >> 8) as u8 == b && (number >> 16) as u8 == c && (number
        >> 24) as u8 == d) by (bit_vector)
        requires
            number == a + 0x100 * b + 0x1_0000 * c + 0x100_0000 * d,
    ;
    assert(netstat::bytes_of_number(number) =~= seq![a, b, c, d]);
}

/// Four numbers with dots between them.
pub open spec fn dotted(a: u8, b: u8, c: u8, d: u8) -> Seq<char> {
    decimal_text(a as int) + seq!['.'] + decimal_text(b as int) + seq!['.'] + decimal_text(
        c as int,
    ) + seq!['.'] + decimal_text(d as int)
}

/// An address of the sixth version is the sixteen bytes where the local or the foreign part of
/// the block says.
pub proof fn law_the_two_long_addresses_of_a_connection(
    context: &Context,
    block: Object,
    parts: Object,
    words: Object,
    raw: Seq<u8>,
)
    requires
        context.member(parts, "__u6_addr32") == Some(words),
        context.bytes_of(block.layer, words.offset, 16, false) == Some(raw),
    ensures
        address_part(context, block, "inp_dependladdr", "inp6_local", "__u6_addr") == Some(parts)
            ==> netstat::address_text(context, block, true, true) == Some(
            addresses::ipv6_text(
                Seq::new(8, |i: int| (256 * raw[2 * i] + raw[2 * i + 1]) as u16),
            ),
        ),
        address_part(context, block, "inp_dependfaddr", "inp6_foreign", "__u6_addr") == Some(parts)
            ==> netstat::address_text(context, block, false, true) == Some(
            addresses::ipv6_text(
                Seq::new(8, |i: int| (256 * raw[2 * i] + raw[2 * i + 1]) as u16),
            ),
        ),
{
    assert(addresses::groups_of(raw) =~= Seq::new(
        8,
        |i: int| (256 * raw[2 * i] + raw[2 * i + 1]) as u16,
    ));
}

/// A connection is reported with what its block says of this end and of the other one, each
/// under its own heading.
pub proof fn law_a_connection_names_its_two_ends(
    context: &Context,
    kernel: &Module,
    socket: Object,
    block: Object,
    local: Seq<char>,
    remote: Seq<char>,
    owner: Seq<char>,
)
    ensures
        netstat::connection_row(context, kernel, socket, block, local, remote, owner) == seq![
            Cell::hex(socket.offset),
            Cell::Text(netstat::protocol_name(netstat::protocol_of(context, socket))@),
            Cell::Text(local),
            Cell::integer(netstat::port_of(context, block, "inp_lport")),
            Cell::Text(remote),
            Cell::integer(netstat::port_of(context, block, "inp_fport")),
            Cell::Text(netstat::connection_state(context, kernel, socket, block)),
            Cell::Text(owner),
        ],
        netstat::protocol_name(6) == "TCP",
        netstat::protocol_name(17) == "UDP",
{
}

/// A socket of either version of the protocol is a connection between the address of this end
/// and that of the other one.
#[verifier::rlimit(40)]
#[verifier::spinoff_prover]
pub proof fn law_a_socket_is_a_connection_between_its_addresses(
    context: &Context,
    kernel: &Module,
    socket: Object,
    block: Object,
    family: u64,
    local: Seq<char>,
    remote: Seq<char>,
    owner: Seq<char>,
)
    requires
        netstat::family_of(context, socket) == Some(family),
        family == 2 || family == 30,
        netstat::control_block(context, kernel, socket, socket, "so_pcb", "inpcb") == Some(block),
        netstat::address_text(context, block, true, family == 30) == Some(local),
        netstat::address_text(context, block, false, family == 30) == Some(remote),
    ensures
        netstat::socket_row(context, kernel, socket, owner) == Some(
            netstat::connection_row(context, kernel, socket, block, local, remote, owner),
        ),
{
}

/// A local socket is reported under the path it was bound to.
pub proof fn law_a_local_socket_goes_by_its_path(
    context: &Context,
    kernel: &Module,
    socket: Object,
    path: Seq<char>,
    owner: Seq<char>,
)
    requires
        netstat::family_of(context, socket) == Some(1u64),
        netstat::local_path(context, kernel, socket) == Some(path),
    ensures
        netstat::socket_row(context, kernel, socket, owner) == Some(
            seq![
                Cell::hex(socket.offset),
                Cell::Text("UNIX"@),
                Cell::Text(path),
                Cell::integer(0),
                Cell::Text(""@),
                Cell::integer(0),
                Cell::Text(""@),
                Cell::Text(owner),
            ],
        ),
{
}

/// What the states of a connection are called.
pub proof fn law_states_of_a_connection()
    ensures
        netstat::state_name(Some(0u64)) == ""@,
        netstat::state_name(Some(1u64)) == "LISTEN"@,
        netstat::state_name(Some(2u64)) == "SYN_SENT"@,
        netstat::state_name(Some(3u64)) == "SYN_RECV"@,
        netstat::state_name(Some(4u64)) == "ESTABLISHED"@,
        netstat::state_name(Some(5u64)) == "CLOSE_WAIT"@,
        netstat::state_name(Some(6u64)) == "FIN_WAIT1"@,
        netstat::state_name(Some(7u64)) == "CLOSING"@,
        netstat::state_name(Some(8u64)) == "LAST_ACK"@,
        netstat::state_name(Some(9u64)) == "FIN_WAIT2"@,
        netstat::state_name(Some(10u64)) == "TIME_WAIT"@,
{
}

/// What the row of a socket that an open file refers to says, where it has one.
#[verifier::opaque]
pub open spec fn socket_rows(
    context: &Context,
    kernel: &Module,
    process: Object,
    file: &Descriptor,
) -> Seq<Seq<Cell>> {
    match netstat::socket_of(context, kernel, process, file) {
        Some(socket) => match netstat::socket_row(
            context,
            kernel,
            socket,
            name_or_empty(context, process) + "/"@ + decimal_text(
                number_of(context, process)->0 as int,
            ),
        ) {
            Some(row) => seq![row],
            None => Seq::empty(),
        },
        None => Seq::empty(),
    }
}

proof fn lemma_socket(
    context: &Context,
    kernel: &Module,
    table: Table,
    process: Object,
    files: Seq<&Descriptor>,
    j: int,
)
    requires
        0 <= j < files.len(),
        number_of(context, process) is Some,
    ensures
        adds(
            netstat::with_sockets(
                context,
                kernel,
                table,
                process,
                netstat::owner_text(context, process, number_of(context, process)->0),
                files,
                j,
            ),
            netstat::with_sockets(
                context,
                kernel,
                table,
                process,
                netstat::owner_text(context, process, number_of(context, process)->0),
                files,
                j + 1,
            ),
            socket_rows(context, kernel, process, files[j]),
        ),
{
    reveal(socket_rows);
    let before = netstat::with_sockets(
        context,
        kernel,
        table,
        process,
        netstat::owner_text(context, process, number_of(context, process)->0),
        files,
        j,
    );
    let owner = netstat::owner_text(context, process, number_of(context, process)->0);
    assert(owner =~= name_or_empty(context, process) + "/"@ + decimal_text(
        number_of(context, process)->0 as int,
    ));
    lemma_adds_none(before);
    if let Some(socket) = netstat::socket_of(context, kernel, process, files[j]) {
        if let Some(row) = netstat::socket_row(context, kernel, socket, owner) {
            lemma_adds_one(before, 0, row);
        }
    }
}

/// The rows of the sockets that a process holds open.
pub open spec fn parts_of_sockets(
    context: &Context,
    kernel: &Module,
    process: Object,
    files: Seq<&Descriptor>,
) -> spec_fn(int) -> Seq<Seq<Cell>> {
    |j: int|
        socket_rows(context, kernel, process, files[j])
}

proof fn lemma_sockets(
    context: &Context,
    kernel: &Module,
    process: Object,
    files: Seq<&Descriptor>,
    table: Table,
)
    requires
        number_of(context, process) is Some,
    ensures
        adds(
            table,
            netstat::with_sockets(
                context,
                kernel,
                table,
                process,
                netstat::owner_text(context, process, number_of(context, process)->0),
                files,
                files.len() as int,
            ),
            flat(parts_of_sockets(context, kernel, process, files), files.len() as int),
        ),
{
    let steps = |j: int| netstat::with_sockets(
        context,
        kernel,
        table,
        process,
        netstat::owner_text(context, process, number_of(context, process)->0),
        files,
        j,
    );
    let parts = parts_of_sockets(context, kernel, process, files);
    assert forall|j: int| 0 <= j < files.len() implies adds(
        steps(j),
        steps(j + 1),
        #[trigger] parts(j),
    ) by {
        lemma_adds_none(steps(j));
        lemma_socket(context, kernel, table, process, files, j);
    }
    lemma_flat_adds(steps, parts, files.len() as int);
}

/// The rows of the sockets of a process.
#[verifier::opaque]
pub open spec fn told_in_sockets_are_reported(
    context: &Context,
    kernel: Module,
    process: Object,
) -> Seq<Seq<Cell>> {
    if number_of(context, process) is Some {
        flat(
            parts_of_sockets(
                context,
                &kernel,
                process,
                descriptors_of(context.mac.descriptors@, process.offset),
            ),
            descriptors_of(context.mac.descriptors@, process.offset).len() as int,
        )
    } else {
        Seq::empty()
    }
}

proof fn lemma_sockets_are_reported(
    context: &Context,
    kernel: Module,
    process: Object,
    table: Table,
)
    ensures
        adds(
            table,
            netstat::with_process(context, &kernel, table, process),
            told_in_sockets_are_reported(context, kernel, process),
        ),
{
    reveal(told_in_sockets_are_reported);
    lemma_adds_none(table);
    reveal(netstat::with_process);
    if number_of(context, process) is Some {
        lemma_sockets(
            context,
            &kernel,
            process,
            descriptors_of(context.mac.descriptors@, process.offset),
            table,
        );
    }
}
/// What is told of each in turn.
pub open spec fn rows_of_sockets_are_reported(
    context: &Context,
    kernel: Module,
    processes: Seq<Object>,
) -> spec_fn(int) -> Seq<Seq<Cell>> {
    |k: int|
        told_in_sockets_are_reported(context, kernel, processes[k])
}

/// Every socket that a process asked for holds open is reported, under the name and the number of
/// the process.
pub proof fn law_sockets_are_reported(
    context: &Context,
    config: &Configuration,
    kernel: Module,
    processes: Seq<Object>,
)
    requires
        kernel_of(context, config) == Some(kernel),
        chosen(context, config) == Some(processes),
    ensures
        NetStat.report(context, config) is Ok,
        names_of(NetStat.report(context, config)->Ok_0.columns) == seq![
            "Offset"@,
            "Proto"@,
            "Local IP"@,
            "Local Port"@,
            "Remote IP"@,
            "Remote Port"@,
            "State"@,
            "Process"@,
        ],
        cells_of(NetStat.report(context, config)->Ok_0) == flat(
            rows_of_sockets_are_reported(context, kernel, processes),
            processes.len() as int,
        ),
{
    let steps = |k: int| netstat::reported(context, &kernel, NetStat.headings(), processes, k);
    let rows = rows_of_sockets_are_reported(context, kernel, processes);
    assert forall|k: int| 0 <= k < processes.len() implies adds(
        steps(k),
        steps(k + 1),
        #[trigger] rows(k),
    ) by {
        lemma_adds_none(steps(k));
        lemma_sockets_are_reported(context, kernel, processes[k], steps(k));
    }
    lemma_flat_adds(steps, rows, processes.len() as int);
}


/// Whether a range of memory looks like code that was put there: it can be written and run, or
/// it can be run and no file backs it.
pub open spec fn looks_put_there(entry: MapEntry) -> bool {
    ||| entry.protection@ == "rwx"@
    ||| entry.protection@ == "r-x"@ && entry.path@.len() == 0
}

/// What is told of a range of memory, with the 64 bytes it begins with.
#[verifier::opaque]
pub open spec fn region_of(
    context: &Context,
    process: Object,
    layer: usize,
    entry: MapEntry,
) -> Seq<Cell> {
    seq![
        Cell::integer(number_of(context, process)->0 as i64),
        Cell::Text(name_or_empty(context, process)),
        Cell::hex(entry.start->0),
        Cell::hex_or_unreadable(entry.end),
        Cell::Text(entry.protection@),
        Cell::HexDump(first_bytes(context, layer, entry.start->0)),
        Cell::HexPairs(first_bytes(context, layer, entry.start->0)),
    ]
}

/// The bytes that a range of memory begins with.
pub open spec fn first_bytes(context: &Context, layer: usize, start: u64) -> Seq<u8> {
    match context.bytes_of(layer, start, 64, true) {
        Some(bytes) => bytes,
        None => Seq::empty(),
    }
}

proof fn lemma_region(context: &Context, process: Object, layer: usize, entry: MapEntry)
    requires
        number_of(context, process) is Some,
        entry.start is Some,
    ensures
        malfind::region_row(
            context,
            process,
            number_of(context, process)->0,
            layer,
            &entry,
            entry.start->0,
        ) == region_of(context, process, layer, entry),
{
    reveal(region_of);
}

/// The rows of the ranges of a process. Those that look like code that was put there are the
/// ones left out.
pub open spec fn parts_of_regions(
    context: &Context,
    process: Object,
    layer: usize,
    entries: Seq<MapEntry>,
) -> spec_fn(int) -> Seq<Seq<Cell>> {
    |j: int|
        if entries[j].start is Some && !looks_put_there(entries[j]) {
            seq![region_of(context, process, layer, entries[j])]
        } else {
            Seq::empty()
        }
}

proof fn lemma_regions(
    context: &Context,
    process: Object,
    layer: usize,
    entries: Seq<MapEntry>,
    table: Table,
)
    requires
        number_of(context, process) is Some,
    ensures
        adds(
            table,
            malfind::with_regions(
                context,
                table,
                process,
                number_of(context, process)->0,
                layer,
                entries,
                entries.len() as int,
            ),
            flat(parts_of_regions(context, process, layer, entries), entries.len() as int),
        ),
{
    let steps = |j: int| malfind::with_regions(
        context,
        table,
        process,
        number_of(context, process)->0,
        layer,
        entries,
        j,
    );
    let parts = parts_of_regions(context, process, layer, entries);
    assert forall|j: int| 0 <= j < entries.len() implies adds(
        steps(j),
        steps(j + 1),
        #[trigger] parts(j),
    ) by {
        lemma_adds_none(steps(j));
        if entries[j].start is Some {
            lemma_region(context, process, layer, entries[j]);
        }
        lemma_adds_one(steps(j), 0, region_of(context, process, layer, entries[j]));
    }
    lemma_flat_adds(steps, parts, entries.len() as int);
}

/// The rows of the ranges of a process.
#[verifier::opaque]
pub open spec fn told_in_regions_are_reported(
    context: &Context,
    process: Object,
) -> Seq<Seq<Cell>> {
    match (
        number_of(context, process),
        context.process_space(process),
        context.map_of(process),
    ) {
        (Some(_), Some(Some(layer)), Some(entries)) => flat(
            parts_of_regions(context, process, layer, entries),
            entries.len() as int,
        ),
        _ => Seq::empty(),
    }
}

proof fn lemma_regions_are_reported(context: &Context, process: Object, table: Table)
    ensures
        adds(
            table,
            malfind::with_process(context, table, process),
            told_in_regions_are_reported(context, process),
        ),
{
    reveal(told_in_regions_are_reported);
    lemma_adds_none(table);
    reveal(malfind::with_process);
    if let (Some(_), Some(Some(layer)), Some(entries)) = (
        number_of(context, process),
        context.process_space(process),
        context.map_of(process),
    ) {
        lemma_regions(context, process, layer, entries, table);
    }
}
/// What is told of each in turn.
pub open spec fn rows_of_regions_are_reported(
    context: &Context,
    processes: Seq<Object>,
) -> spec_fn(int) -> Seq<Seq<Cell>> {
    |k: int|
        told_in_regions_are_reported(context, processes[k])
}

/// The ranges of memory of each process that is asked for are reported, but for those that look
/// like code that was put there.
pub proof fn law_regions_are_reported(
    context: &Context,
    config: &Configuration,
    kernel: Module,
    processes: Seq<Object>,
)
    requires
        kernel_of(context, config) == Some(kernel),
        chosen(context, config) == Some(processes),
    ensures
        Malfind.report(context, config) is Ok,
        names_of(Malfind.report(context, config)->Ok_0.columns) == seq![
            "PID"@,
            "Process"@,
            "Start"@,
            "End"@,
            "Protection"@,
            "Hexdump"@,
            "Disasm"@,
        ],
        cells_of(Malfind.report(context, config)->Ok_0) == flat(
            rows_of_regions_are_reported(context, processes),
            processes.len() as int,
        ),
{
    let steps = |k: int| malfind::reported(context, Malfind.headings(), processes, k);
    let rows = rows_of_regions_are_reported(context, processes);
    assert forall|k: int| 0 <= k < processes.len() implies adds(
        steps(k),
        steps(k + 1),
        #[trigger] rows(k),
    ) by {
        lemma_adds_none(steps(k));
        lemma_regions_are_reported(context, processes[k], steps(k));
    }
    lemma_flat_adds(steps, rows, processes.len() as int);
}


/// What the filters of a registration are called.
pub proof fn law_filters_of_a_registration()
    ensures
        kevents::filter_name(1) == Some("EVFILT_READ"@),
        kevents::filter_name(2) == Some("EVFILT_WRITE"@),
        kevents::filter_name(3) == Some("EVFILT_AIO"@),
        kevents::filter_name(4) == Some("EVFILT_VNODE"@),
        kevents::filter_name(5) == Some("EVFILT_PROC"@),
        kevents::filter_name(6) == Some("EVFILT_SIGNAL"@),
        kevents::filter_name(7) == Some("EVFILT_TIMER"@),
        kevents::filter_name(8) == Some("EVFILT_MACHPORT"@),
        kevents::filter_name(9) == Some("EVFILT_FS"@),
        kevents::filter_name(10) == Some("EVFILT_USER"@),
        kevents::filter_name(11) is None,
        kevents::filter_name(12) == Some("EVFILT_VM"@),
{
}

/// A registration is reported with the filter that the negative of its number names, what the
/// filter watches, and the flags it carries.
pub proof fn law_a_registration_names_its_filter(
    context: &Context,
    process: Object,
    pid: u64,
    note: Object,
    event: Object,
    number: i64,
    name: Seq<char>,
    identifier: u64,
    flags: u64,
)
    requires
        context.member(note, "kn_kevent") == Some(event),
        context.member_i64(event, "filter") == Some(number),
        -100 <= number < 0,
        kevents::filter_name((0 - number) as i64) == Some(name),
        context.member_u64(event, "ident") == Some(identifier),
        context.member_u64(note, "kn_sfflags") == Some(flags),
    ensures
        names_of(Kevents.headings()) == seq!["PID"@, "Process"@, "Ident"@, "Filter"@, "Context"@],
        kevents::note_row(context, process, pid, note) == Some(
            seq![
                Cell::integer(pid as i64),
                Cell::Text(name_or_empty(context, process)),
                Cell::uint(identifier),
                Cell::Text(name),
                Cell::Text(kevents::flags_text((0 - number) as i64, flags)),
            ],
        ),
{
}

proof fn lemma_flags(list: Seq<(&'static str, u64)>, flags: u64, count: int, i: int)
    requires
        0 <= count <= list.len(),
    ensures
        0 <= i < count && flags & list[i].1 == list[i].1 ==> kevents::set_flags(
            list,
            flags,
            count,
        ).contains(list[i].0@),
    decreases count,
{
    if count > 0 {
        lemma_flags(list, flags, count - 1, i);
        let before = kevents::set_flags(list, flags, count - 1);
        let all = kevents::set_flags(list, flags, count);
        if 0 <= i < count && flags & list[i].1 == list[i].1 {
            if i < count - 1 {
                let m = choose|m: int| 0 <= m < before.len() && before[m] == list[i].0@;
                assert(all[m] == list[i].0@);
            } else {
                assert(all[before.len() as int] == list[i].0@);
            }
        }
    }
}

/// Each flag that a registration carries is named.
pub proof fn law_every_flag_that_is_set_is_named(list: Seq<(&'static str, u64)>, flags: u64, i: int)
    requires
        0 <= i < list.len(),
        flags & list[i].1 == list[i].1,
    ensures
        kevents::set_flags(list, flags, list.len() as int).contains(list[i].0@),
{
    lemma_flags(list, flags, list.len() as int, i);
}

/// The registrations of a process are those on its files, those in the hash beside them, and
/// those on the process itself.
pub proof fn law_where_the_registrations_of_a_process_are(
    context: &Context,
    kernel: &Module,
    process: Object,
    descriptors: Object,
    list: Object,
)
    requires
        context.member_target(process, "p_fd") == Some(descriptors),
        context.member(process, "p_klist") == Some(list),
    ensures
        kevents::process_notes(context, kernel, process) == kevents::array_notes(
            context,
            kernel,
            descriptors,
            "fd_knlist",
            "fd_knlistsize",
        ) + kevents::array_notes(context, kernel, descriptors, "fd_knhash", "fd_knhashmask")
            + crate::symbols::mac::single_list(
            context,
            list,
            context.get_type(kernel.table, "knote"),
            "kn_link",
        ),
{
}


/// A pointed text, or nothing.
pub open spec fn pointed_or_empty(
    context: &Context,
    object: Object,
    name: &str,
    limit: usize,
) -> Seq<char> {
    match context.member(object, name) {
        Some(pointer) => match context.pointed_text(pointer, limit) {
            Some(text) => text,
            None => Seq::empty(),
        },
        None => Seq::empty(),
    }
}

/// A pointer, unless it is null.
pub open spec fn set_pointer(context: &Context, object: Object, name: &str) -> Option<u64> {
    match context.member_pointer(object, name) {
        Some(address) => if address == 0 {
            None
        } else {
            Some(address)
        },
        None => None,
    }
}

/// What is told of a listener of a scope.
#[verifier::opaque]
pub open spec fn listener_of(
    context: &Context,
    scope: Object,
    listener: Object,
    callback: u64,
) -> Seq<Cell> {
    seq![
        Cell::Text(pointed_or_empty(context, scope, "ks_identifier", 128)),
        Cell::hex_or_unreadable(context.member_u64(listener, "kll_idata")),
        Cell::hex(callback),
        Cell::Text(described(context.mac.resolver, callback).0),
        Cell::Text(described(context.mac.resolver, callback).1),
    ]
}

proof fn lemma_listener(context: &Context, scope: Object, listener: Object, callback: u64)
    ensures
        kauth_listeners::listener_row(context, scope, listener, callback) == listener_of(
            context,
            scope,
            listener,
            callback,
        ),
{
    reveal(listener_of);
}

/// The rows of the listeners of a scope that have a callback.
pub open spec fn parts_of_listeners(
    context: &Context,
    scope: Object,
    listeners: Object,
    count: u64,
) -> spec_fn(int) -> Seq<Seq<Cell>> {
    |j: int|
        match context.index(listeners, j as u64) {
            Some(listener) => match set_pointer(context, listener, "kll_callback") {
                Some(callback) => seq![listener_of(context, scope, listener, callback)],
                None => Seq::empty(),
            },
            None => Seq::empty(),
        }
}

proof fn lemma_listeners(
    context: &Context,
    scope: Object,
    listeners: Object,
    count: u64,
    table: Table,
)
    ensures
        adds(
            table,
            kauth_listeners::with_listeners(context, table, scope, listeners, count as int),
            flat(parts_of_listeners(context, scope, listeners, count), count as int),
        ),
{
    let steps = |j: int| kauth_listeners::with_listeners(context, table, scope, listeners, j);
    let parts = parts_of_listeners(context, scope, listeners, count);
    assert forall|j: int| 0 <= j < count implies adds(
        steps(j),
        steps(j + 1),
        #[trigger] parts(j),
    ) by {
        lemma_adds_none(steps(j));
        if let Some(listener) = context.index(listeners, j as u64) {
            if let Some(callback) = set_pointer(context, listener, "kll_callback") {
                lemma_listener(context, scope, listener, callback);
                lemma_adds_one(steps(j), 0, listener_of(context, scope, listener, callback));
            }
        }
    }
    lemma_flat_adds(steps, parts, count as int);
}

/// The rows of the listeners of a scope.
#[verifier::opaque]
pub open spec fn told_in_listeners_are_reported(
    context: &Context,
    scope: Object,
) -> Seq<Seq<Cell>> {
    match context.member(scope, "ks_listeners") {
        Some(listeners) => match context.count(listeners) {
            Some(count) => flat(
                parts_of_listeners(context, scope, listeners, count),
                count as int,
            ),
            None => Seq::empty(),
        },
        None => Seq::empty(),
    }
}

proof fn lemma_listeners_are_reported(context: &Context, scope: Object, table: Table)
    ensures
        adds(
            table,
            kauth_listeners::with_scope(context, table, scope),
            told_in_listeners_are_reported(context, scope),
        ),
{
    reveal(told_in_listeners_are_reported);
    lemma_adds_none(table);
    reveal(kauth_listeners::with_scope);
    if let Some(listeners) = context.member(scope, "ks_listeners") {
        if let Some(count) = context.count(listeners) {
            lemma_listeners(context, scope, listeners, count, table);
        }
    }
}
/// What is told of each in turn.
pub open spec fn rows_of_listeners_are_reported(
    context: &Context,
    scopes: Seq<Object>,
) -> spec_fn(int) -> Seq<Seq<Cell>> {
    |k: int|
        told_in_listeners_are_reported(context, scopes[k])
}

/// Every listener of every scope that has a callback is reported.
pub proof fn law_listeners_are_reported(
    context: &Context,
    config: &Configuration,
    kernel: Module,
    scopes: Seq<Object>,
)
    requires
        kernel_of(context, config) == Some(kernel),
        kauth_listeners::scopes_of(context, &kernel) == Some(scopes),
    ensures
        KauthListeners.report(context, config) is Ok,
        names_of(KauthListeners.report(context, config)->Ok_0.columns) == seq![
            "Name"@,
            "IData"@,
            "Callback Address"@,
            "Module"@,
            "Symbol"@,
        ],
        cells_of(KauthListeners.report(context, config)->Ok_0) == flat(
            rows_of_listeners_are_reported(context, scopes),
            scopes.len() as int,
        ),
{
    let steps = |k: int| kauth_listeners::reported(context, KauthListeners.headings(), scopes, k);
    let rows = rows_of_listeners_are_reported(context, scopes);
    assert forall|k: int| 0 <= k < scopes.len() implies adds(
        steps(k),
        steps(k + 1),
        #[trigger] rows(k),
    ) by {
        lemma_adds_none(steps(k));
        lemma_listeners_are_reported(context, scopes[k], steps(k));
    }
    lemma_flat_adds(steps, rows, scopes.len() as int);
}


/// The operations that a filter can step into.
pub open spec fn operations() -> Seq<&'static str> {
    seq![
        "sf_unregistered",
        "sf_attach",
        "sf_detach",
        "sf_notify",
        "sf_getpeername",
        "sf_getsockname",
        "sf_data_in",
        "sf_data_out",
        "sf_connect_in",
        "sf_connect_out",
        "sf_bind",
        "sf_setoption",
        "sf_getoption",
        "sf_listen",
        "sf_ioctl",
    ]
}

/// The socket that a filter is attached to, or zero.
pub open spec fn attached_to(context: &Context, filter: Object) -> u64 {
    match context.member_target(filter, "sf_entry_head") {
        Some(entry) => match context.member(entry, "sfe_socket") {
            Some(socket) => socket.offset,
            None => 0,
        },
        None => 0,
    }
}

/// What is told of an operation that a filter steps into.
#[verifier::opaque]
pub open spec fn step_of(
    context: &Context,
    filter: Object,
    callbacks: Object,
    member: Seq<char>,
    handler: u64,
) -> Seq<Cell> {
    seq![
        Cell::hex(callbacks.offset),
        Cell::Text(pointed_or_empty(context, callbacks, "sf_name", 128)),
        Cell::Text(member),
        Cell::hex(attached_to(context, filter)),
        Cell::hex(handler),
        Cell::Text(described_unshifted(context.mac.resolver, handler).0),
        Cell::Text(described_unshifted(context.mac.resolver, handler).1),
    ]
}

proof fn lemma_step_of(
    context: &Context,
    filter: Object,
    callbacks: Object,
    member: Seq<char>,
    handler: u64,
)
    ensures
        socket_filters::callback_row(context, filter, callbacks, member, handler) == step_of(
            context,
            filter,
            callbacks,
            member,
            handler,
        ),
{
    reveal(step_of);
}

/// The rows of the operations that a filter steps into.
pub open spec fn parts_of_steps(
    context: &Context,
    filter: Object,
    callbacks: Object,
) -> spec_fn(int) -> Seq<Seq<Cell>> {
    |j: int|
        match set_pointer(context, callbacks, operations()[j]) {
            Some(handler) => seq![
                step_of(context, filter, callbacks, operations()[j]@, handler),
            ],
            None => Seq::empty(),
        }
}

proof fn lemma_steps(context: &Context, filter: Object, callbacks: Object, table: Table)
    ensures
        adds(
            table,
            socket_filters::with_callbacks(context, table, filter, callbacks, 15),
            flat(parts_of_steps(context, filter, callbacks), 15 as int),
        ),
{
    let steps = |j: int| socket_filters::with_callbacks(context, table, filter, callbacks, j);
    let parts = parts_of_steps(context, filter, callbacks);
    assert forall|j: int| 0 <= j < 15 implies adds(steps(j), steps(j + 1), #[trigger] parts(j)) by {
        lemma_adds_none(steps(j));
        assert(socket_filters::filter_members()[j] == operations()[j]);
        if let Some(handler) = set_pointer(context, callbacks, operations()[j]) {
            lemma_step_of(context, filter, callbacks, operations()[j]@, handler);
            lemma_adds_one(
                steps(j),
                0,
                step_of(context, filter, callbacks, operations()[j]@, handler),
            );
        }
    }
    lemma_flat_adds(steps, parts, 15 as int);
}

/// The rows of a filter.
#[verifier::opaque]
pub open spec fn told_in_filters_are_reported(context: &Context, filter: Object) -> Seq<Seq<Cell>> {
    match context.member(filter, "sf_filter") {
        Some(callbacks) => flat(parts_of_steps(context, filter, callbacks), 15),
        None => Seq::empty(),
    }
}

proof fn lemma_filters_are_reported(context: &Context, filter: Object, table: Table)
    ensures
        adds(
            table,
            socket_filters::with_filter(context, table, filter),
            told_in_filters_are_reported(context, filter),
        ),
{
    reveal(told_in_filters_are_reported);
    lemma_adds_none(table);
    reveal(socket_filters::with_filter);
    if let Some(callbacks) = context.member(filter, "sf_filter") {
        lemma_steps(context, filter, callbacks, table);
    }
}
/// What is told of each in turn.
pub open spec fn rows_of_filters_are_reported(
    context: &Context,
    filters: Seq<Object>,
) -> spec_fn(int) -> Seq<Seq<Cell>> {
    |k: int|
        told_in_filters_are_reported(context, filters[k])
}

/// Every operation that a filter steps into is reported, of all the filters that the kernel links.
pub proof fn law_filters_are_reported(
    context: &Context,
    config: &Configuration,
    kernel: Module,
    filters: Seq<Object>,
)
    requires
        kernel_of(context, config) == Some(kernel),
        socket_filters::filters_of(context, &kernel) == Some(filters),
    ensures
        SocketFilters.report(context, config) is Ok,
        names_of(SocketFilters.report(context, config)->Ok_0.columns) == seq![
            "Filter"@,
            "Name"@,
            "Member"@,
            "Socket"@,
            "Handler"@,
            "Module"@,
            "Symbol"@,
        ],
        cells_of(SocketFilters.report(context, config)->Ok_0) == flat(
            rows_of_filters_are_reported(context, filters),
            filters.len() as int,
        ),
{
    let steps = |k: int| socket_filters::reported(context, SocketFilters.headings(), filters, k);
    let rows = rows_of_filters_are_reported(context, filters);
    assert forall|k: int| 0 <= k < filters.len() implies adds(
        steps(k),
        steps(k + 1),
        #[trigger] rows(k),
    ) by {
        lemma_adds_none(steps(k));
        lemma_filters_are_reported(context, filters[k], steps(k));
    }
    lemma_flat_adds(steps, rows, filters.len() as int);
}


/// A timer is reported with the function it runs, its two arguments, and when it is due.
pub proof fn law_what_is_told_of_a_timer(context: &Context, call: Object, function: u64)
    ensures
        names_of(Timers.headings()) == seq![
            "Function"@,
            "Param 0"@,
            "Param 1"@,
            "Deadline"@,
            "Entry Time"@,
            "Module"@,
            "Symbol"@,
        ],
        timers::call_row(context, call, function) == seq![
            Cell::hex(function),
            Cell::hex_or_unreadable(context.member_u64(call, "param0")),
            Cell::hex_or_unreadable(context.member_u64(call, "param1")),
            Cell::signed_or_unreadable(context.member_i64(call, "deadline")),
            if context.has_member(call, "entry_time") {
                Cell::signed_or_unreadable(context.member_i64(call, "entry_time"))
            } else {
                Cell::integer(-1 as i64)
            },
            Cell::Text(described(context.mac.resolver, function).0),
            Cell::Text(described(context.mac.resolver, function).1),
        ],
{
}

/// The rows of the timers of a queue that have a function to run.
pub open spec fn parts_of_calls(
    context: &Context,
    calls: Seq<Object>,
) -> spec_fn(int) -> Seq<Seq<Cell>> {
    |j: int|
        match context.member_pointer(calls[j], "func") {
            Some(function) => seq![timers::call_row(context, calls[j], function)],
            None => Seq::empty(),
        }
}

/// Every timer of a queue that has a function to run is reported, in the order of the queue.
pub proof fn law_timers_are_reported(context: &Context, calls: Seq<Object>, table: Table)
    ensures
        adds(
            table,
            timers::with_calls(context, table, calls, calls.len() as int),
            flat(parts_of_calls(context, calls), calls.len() as int),
        ),
{
    let steps = |j: int| timers::with_calls(context, table, calls, j);
    let parts = parts_of_calls(context, calls);
    assert forall|j: int| 0 <= j < calls.len() implies adds(
        steps(j),
        steps(j + 1),
        #[trigger] parts(j),
    ) by {
        lemma_adds_none(steps(j));
        if let Some(function) = context.member_pointer(calls[j], "func") {
            lemma_adds_one(steps(j), 0, timers::call_row(context, calls[j], function));
        }
    }
    lemma_flat_adds(steps, parts, calls.len() as int);
}


/// The queue of a processor is part of its data, which stands one behind the other for all of
/// them.
pub proof fn law_where_the_timers_of_a_processor_are(
    context: &Context,
    kernel: &Module,
    processors: &timers::Processors,
    at: u64,
    processor: Object,
    timer: Object,
    queue: Object,
)
    requires
        processor == (Object {
            kind: processors.kind,
            layer: kernel.layer,
            native: kernel.layer,
            offset: processors.first.wrapping_add(at.wrapping_mul(processors.size)),
        }),
        context.member(processor, "rtclock_timer") == Some(timer),
        context.member(timer, "queue") == Some(queue),
    ensures
        timers::timer_queue(context, kernel, processors, at) == context.member(queue, "head"),
{
}

/// A hook of a policy is reported with the name of the decision it steps into and the name of
/// the policy.
pub proof fn law_what_is_told_of_a_hook(
    context: &Context,
    policy: Object,
    member: Seq<char>,
    handler: u64,
    pointer: Object,
    name: Seq<char>,
)
    requires
        context.member(policy, "mpc_name") == Some(pointer),
        context.pointed_text(pointer, 255) == Some(name),
    ensures
        names_of(trustedbsd::TrustedBsd.headings()) == seq![
            "Member"@,
            "Policy Name"@,
            "Handler Address"@,
            "Handler Module"@,
            "Handler Symbol"@,
        ],
        trustedbsd::hook_row(context, policy, member, handler) == seq![
            Cell::Text(member),
            Cell::Text(name),
            Cell::hex(handler),
            Cell::Text(described(context.mac.resolver, handler).0),
            Cell::Text(described(context.mac.resolver, handler).1),
        ],
{
}


/// The kinds of event, in the order of a watcher's bytes.
pub open spec fn kinds_of_event() -> Seq<Seq<char>> {
    seq![
        "CREATE_FILE"@,
        "DELETE"@,
        "STAT_CHANGED"@,
        "RENAME"@,
        "CONTENT_MODIFIED"@,
        "EXCHANGE"@,
        "FINDER_INFO_CHANGED"@,
        "CREATE_DIR"@,
        "CHOWN"@,
        "XATTR_MODIFIED"@,
        "XATTR_REMOVED"@,
        "DOCID_CREATED"@,
        "DOCID_CHANGED"@,
    ]
}

/// A watcher hears of the events whose byte is one, and of no others.
pub proof fn law_a_watcher_hears_what_it_asked_for(raw: Seq<u8>, count: int, i: int)
    requires
        0 <= count <= 13,
        raw.len() >= 13,
    ensures
        0 <= i < count && raw[i] == 1 ==> vfsevents::subscribed(raw, count).contains(
            kinds_of_event()[i],
        ),
        0 <= i < vfsevents::subscribed(raw, count).len() ==> exists|k: int|
            0 <= k < count && #[trigger] raw[k] == 1 && vfsevents::subscribed(raw, count)[i]
                == kinds_of_event()[k],
    decreases count,
{
    if count > 0 {
        law_a_watcher_hears_what_it_asked_for(raw, count - 1, i);
        let before = vfsevents::subscribed(raw, count - 1);
        let all = vfsevents::subscribed(raw, count);
        assert(vfsevents::event_kinds()[count - 1]@ == kinds_of_event()[count - 1]);
        if 0 <= i < count && raw[i] == 1 {
            if i < count - 1 {
                let m = choose|m: int| 0 <= m < before.len() && before[m] == kinds_of_event()[i];
                assert(all[m] == kinds_of_event()[i]);
            } else {
                assert(all[before.len() as int] == kinds_of_event()[i]);
            }
        }
        if 0 <= i < all.len() {
            if i < before.len() {
                assert(all[i] == before[i]);
            } else {
                assert(raw[count - 1] == 1);
            }
        }
    }
}

/// A watcher is reported under its own name and number, with the events it hears of.
pub proof fn law_what_is_told_of_a_watcher(
    context: &Context,
    watcher: Object,
    events: Seq<Seq<char>>,
    name: Object,
    text: Seq<char>,
)
    requires
        context.member(watcher, "proc_name") == Some(name),
        context.string_of(name) == Some(text),
    ensures
        names_of(VfsEvents.headings()) == seq!["Name"@, "PID"@, "Events"@],
        vfsevents::watcher_row(context, watcher, events) == seq![
            Cell::Text(text),
            Cell::signed_or_unreadable(context.member_i64(watcher, "pid")),
            Cell::Text(joined(events, ","@)),
        ],
{
}

/// The permissions of a knob: the top bit of its kind says that it can be read, the next one
/// that it can be written, and the twenty-fourth that it is locked.
pub proof fn law_the_permissions_of_a_knob(kind: u64)
    requires
        kind <= 0xffff_ffff,
    ensures
        check_sysctl::permission_text(kind).len() == 3,
        check_sysctl::permission_text(kind)[0] == (if kind >= 0x8000_0000 {
            'R'
        } else {
            '-'
        }),
        check_sysctl::permission_text(kind)[1] == (if (kind / 0x4000_0000) % 2 == 1 {
            'W'
        } else {
            '-'
        }),
        check_sysctl::permission_text(kind)[2] == (if (kind / 0x80_0000) % 2 == 1 {
            'L'
        } else {
            '-'
        }),
{
    assert((kind & 0x8000_0000 != 0 <==> kind >= 0x8000_0000) && (kind & 0x4000_0000 != 0 <==> (kind
        / 0x4000_0000) % 2 == 1) && (kind & 0x0080_0000 != 0 <==> (kind / 0x80_0000) % 2 == 1))
        by (bit_vector)
        requires
            kind <= 0xffff_ffff,
    ;
}


/// What is told of a knob.
#[verifier::opaque]
pub open spec fn knob_cells(context: &Context, knob: KnobView) -> Seq<Cell> {
    seq![
        Cell::Text(knob.name),
        Cell::signed_or_unreadable(context.member_i64(knob.entry, "oid_number")),
        Cell::Text(
            check_sysctl::permission_text(or_zero(context.member_u64(knob.entry, "oid_kind"))),
        ),
        Cell::hex(or_zero(context.member_pointer(knob.entry, "oid_handler"))),
        Cell::Text(knob.value),
        Cell::Text(
            described(
                context.mac.resolver,
                or_zero(context.member_pointer(knob.entry, "oid_handler")),
            ).0,
        ),
        Cell::Text(
            described(
                context.mac.resolver,
                or_zero(context.member_pointer(knob.entry, "oid_handler")),
            ).1,
        ),
    ]
}

/// A number, or zero.
pub open spec fn or_zero(number: Option<u64>) -> u64 {
    match number {
        Some(number) => number,
        None => 0,
    }
}

proof fn lemma_knob(context: &Context, knob: KnobView)
    ensures
        check_sysctl::knob_row(context, knob) == knob_cells(context, knob),
{
    reveal(knob_cells);
}

/// The rows of some knobs.
pub open spec fn rows_of_knobs_are_reported(
    context: &Context,
    knobs: Seq<KnobView>,
) -> spec_fn(int) -> Seq<Seq<Cell>> {
    |k: int|
        seq![knob_cells(context, knobs[k])]
}

/// Every knob that the kernel has is reported.
pub proof fn law_knobs_are_reported(
    context: &Context,
    config: &Configuration,
    kernel: Module,
    knobs: Seq<KnobView>,
)
    requires
        kernel_of(context, config) == Some(kernel),
        check_sysctl::knobs_of(context, &kernel) == Some(knobs),
    ensures
        CheckSysctl.report(context, config) is Ok,
        names_of(CheckSysctl.report(context, config)->Ok_0.columns) == seq![
            "Name"@,
            "Number"@,
            "Perms"@,
            "Handler Address"@,
            "Value"@,
            "Handler Module"@,
            "Handler Symbol"@,
        ],
        cells_of(CheckSysctl.report(context, config)->Ok_0) == flat(
            rows_of_knobs_are_reported(context, knobs),
            knobs.len() as int,
        ),
{
    let steps = |k: int| check_sysctl::reported(context, CheckSysctl.headings(), knobs, k);
    let rows = rows_of_knobs_are_reported(context, knobs);
    assert forall|k: int| 0 <= k < knobs.len() implies adds(
        steps(k),
        steps(k + 1),
        #[trigger] rows(k),
    ) by {
        lemma_adds_none(steps(k));
        lemma_knob(context, knobs[k]);
        lemma_adds_one(steps(k), 0, knob_cells(context, knobs[k]));
    }
    lemma_flat_adds(steps, rows, knobs.len() as int);
}

/// The rows of some files.
pub open spec fn rows_of_found_files_are_reported(
    found: Seq<EntryView>,
) -> spec_fn(int) -> Seq<Seq<Cell>> {
    |k: int|
        seq![
            seq![
                Cell::hex(found[k].address),
                Cell::Text(list_files::path_text(found, found[k].name, found[k].parent)),
            ]
        ]
}

/// Every file that is found in the mounted file systems is reported, by where it is known and its
/// path.
pub proof fn law_found_files_are_reported(
    context: &Context,
    config: &Configuration,
    kernel: Module,
    list: Seq<Object>,
    found: Seq<EntryView>,
)
    requires
        kernel_of(context, config) == Some(kernel),
        mounts(context, &kernel) == Some(list),
        list_files::found_in(context, &kernel, list, list.len() as int) == found,
    ensures
        ListFiles.report(context, config) is Ok,
        names_of(ListFiles.report(context, config)->Ok_0.columns) == seq!["Address"@, "File Path"@],
        cells_of(ListFiles.report(context, config)->Ok_0) == flat(
            rows_of_found_files_are_reported(found),
            found.len() as int,
        ),
{
    let steps = |k: int| list_files::reported(ListFiles.headings(), found, k);
    let rows = rows_of_found_files_are_reported(found);
    assert forall|k: int| 0 <= k < found.len() implies adds(
        steps(k),
        steps(k + 1),
        #[trigger] rows(k),
    ) by {
        lemma_adds_none(steps(k));
        lemma_adds_one(
            steps(k),
            0,
            seq![
                Cell::hex(found[k].address),
                Cell::Text(list_files::path_text(found, found[k].name, found[k].parent)),
            ],
        );
    }
    lemma_flat_adds(steps, rows, found.len() as int);
}


/// A mounted file system is searched through its three lists and the three files it names.
pub proof fn law_where_files_are_looked_for(
    context: &Context,
    kernel: &Module,
    found: Seq<EntryView>,
    mounted: Object,
)
    ensures
        ({
            let first = list_files::with_list(context, kernel, found, mounted, "mnt_vnodelist");
            let second = list_files::with_list(context, kernel, first, mounted, "mnt_workerqueue");
            let third = list_files::with_list(context, kernel, second, mounted, "mnt_newvnodes");
            let fourth = list_files::with_named(context, third, mounted, "mnt_vnodecovered");
            let fifth = list_files::with_named(context, fourth, mounted, "mnt_realrootvp");
            list_files::with_mount(context, kernel, found, mounted) == list_files::with_named(
                context,
                fifth,
                mounted,
                "mnt_devvp",
            )
        }),
{
    reveal(list_files::with_mount);
}


} // verus!
