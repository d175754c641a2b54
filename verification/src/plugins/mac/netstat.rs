//! List the network connections open on the system.
//!
//! Sockets are reached through each process's file descriptors, so a connection
//! is reported alongside the process that owns it.

use crate::addresses::{self, write_ipv4, write_ipv6_bytes};
use crate::config::Configuration;
use crate::context::{Context, Module, Object};
use crate::error::{Failure, VolatilityError};
use crate::plugins::{self, OperatingSystem, Plugin, Requirement, RequirementView};
use crate::plugins::mac::{chosen_processes, kernel_module};
use crate::renderers::{Cell, Column, ColumnType, Row, Table, TreeGrid, Value};
use crate::symbols;
use crate::symbols::mac::{find_note, Descriptor};
use crate::text::{self, decimal, same_text};
use vstd::prelude::*;

verus! {

/// Lists the network connections open on the system.
pub struct NetStat;

/// Address families, as the socket layer records them.
pub const AF_UNIX: u64 = 1;

pub const AF_INET: u64 = 2;

pub const AF_INET6: u64 = 30;

/// The number of the transmission control protocol.
pub const TCP: u64 = 6;

/// The number of the user datagram protocol.
pub const UDP: u64 = 17;

/// States of a connection, indexed by the control block's state field.
pub open spec fn state_names() -> Seq<&'static str> {
    seq![
        "CLOSED",
        "LISTEN",
        "SYN_SENT",
        "SYN_RECV",
        "ESTABLISHED",
        "CLOSE_WAIT",
        "FIN_WAIT1",
        "CLOSING",
        "LAST_ACK",
        "FIN_WAIT2",
        "TIME_WAIT",
    ]
}

/// What a state of a connection is called. A socket in the first state is one that
/// has none, which is left unnamed.
pub open spec fn state_name(state: Option<u64>) -> Seq<char> {
    match state {
        Some(state) => if 0 < state < state_names().len() {
            state_names()[state as int]@
        } else {
            ""@
        },
        None => ""@,
    }
}

/// What a state of a connection is called.
pub fn name_state(state: Option<u64>) -> (name: &'static str)
    ensures
        name@ == state_name(state),
{
    let names = vec![
        "CLOSED",
        "LISTEN",
        "SYN_SENT",
        "SYN_RECV",
        "ESTABLISHED",
        "CLOSE_WAIT",
        "FIN_WAIT1",
        "CLOSING",
        "LAST_ACK",
        "FIN_WAIT2",
        "TIME_WAIT",
    ];
    assert(names@ =~= state_names());
    match state {
        Some(state) => if 0 < state && state < names.len() as u64 {
            names[state as usize]
        } else {
            ""
        },
        None => "",
    }
}

pub open spec fn spec_control_block(
    context: &Context,
    kernel: &Module,
    socket: Object,
    holder: Object,
    member: &str,
    kind: &str,
) -> Option<Object> {
    match context.member_pointer(holder, member) {
        Some(address) => match context.get_type(kernel.table, kind) {
            Some(kind) => Some(
                Object { kind, layer: socket.layer, native: socket.native, offset: address },
            ),
            None => None,
        },
        None => None,
    }
}

/// A control block that a member names, next to a socket.
#[verifier::when_used_as_spec(spec_control_block)]
pub fn control_block(
    context: &Context,
    kernel: &Module,
    socket: Object,
    holder: Object,
    member: &str,
    kind: &str,
) -> (block: Option<Object>)
    ensures
        block == spec_control_block(context, kernel, socket, holder, member, kind),
{
    match context.member_pointer(holder, member) {
        Some(address) => match context.get_type(kernel.table, kind) {
            Some(kind) => Some(
                Object { kind, layer: socket.layer, native: socket.native, offset: address },
            ),
            None => None,
        },
        None => None,
    }
}

/// The socket that an open file refers to. Only a descriptor that refers to a
/// socket has a connection, and a socket that is not wholly in memory says nothing
/// reliable.
pub open spec fn socket_of(
    context: &Context,
    kernel: &Module,
    process: Object,
    descriptor: &Descriptor,
) -> Option<Object> {
    match context.member_target(descriptor.file, "f_fglob") {
        Some(glob) => if symbols::mac::note_from(
            context.mac.descriptor_kinds@,
            glob.offset,
            0,
        ) == Some("SOCKET"@) {
            match control_block(context, kernel, process, glob, "fg_data", "socket") {
                Some(socket) => if context.is_readable(socket) {
                    Some(socket)
                } else {
                    None
                },
                None => None,
            }
        } else {
            None
        },
        None => None,
    }
}

fn find_socket(context: &Context, kernel: &Module, process: Object, descriptor: &Descriptor) -> (
    socket: Option<Object>)
    ensures
        socket == socket_of(context, kernel, process, descriptor),
{
    match context.member_target(descriptor.file, "f_fglob") {
        Some(glob) => {
            let is_socket = match find_note(&context.mac.descriptor_kinds, glob.offset) {
                Some(kind) => same_text(&kind, "SOCKET"),
                None => false,
            };
            if is_socket {
                match control_block(context, kernel, process, glob, "fg_data", "socket") {
                    Some(socket) => if context.is_readable(socket) {
                        Some(socket)
                    } else {
                        None
                    },
                    None => None,
                }
            } else {
                None
            }
        },
        None => None,
    }
}

pub open spec fn spec_family_of(context: &Context, socket: Object) -> Option<u64> {
    match context.member_target(socket, "so_proto") {
        Some(protocol) => match context.member_target(protocol, "pr_domain") {
            Some(domain) => context.member_u64(domain, "dom_family"),
            None => None,
        },
        None => None,
    }
}

/// The family of addresses that a socket uses.
#[verifier::when_used_as_spec(spec_family_of)]
pub fn family_of(context: &Context, socket: Object) -> (family: Option<u64>)
    ensures
        family == spec_family_of(context, socket),
{
    match context.member_target(socket, "so_proto") {
        Some(protocol) => match context.member_target(protocol, "pr_domain") {
            Some(domain) => context.member_u64(domain, "dom_family"),
            None => None,
        },
        None => None,
    }
}

pub open spec fn spec_protocol_of(context: &Context, socket: Object) -> u64 {
    match context.member_target(socket, "so_proto") {
        Some(protocol) => match context.member_u64(protocol, "pr_protocol") {
            Some(number) => number,
            None => 0,
        },
        None => 0,
    }
}

/// The number of the protocol that a socket speaks.
#[verifier::when_used_as_spec(spec_protocol_of)]
pub fn protocol_of(context: &Context, socket: Object) -> (number: u64)
    ensures
        number == spec_protocol_of(context, socket),
{
    match context.member_target(socket, "so_proto") {
        Some(protocol) => match context.member_u64(protocol, "pr_protocol") {
            Some(number) => number,
            None => 0,
        },
        None => 0,
    }
}

/// What a protocol is called. One that is neither of the two has no name to give.
#[verifier::allow_in_spec]
pub fn protocol_name(number: u64) -> (name: &'static str)
    returns
        (if number == TCP {
            "TCP"
        } else if number == UDP {
            "UDP"
        } else {
            ""
        }),
{
    if number == TCP {
        "TCP"
    } else if number == UDP {
        "UDP"
    } else {
        ""
    }
}

/// A port, which is held the way it travels on the wire: the high byte first.
#[verifier::allow_in_spec]
pub fn swap_port(port: u64) -> (swapped: u64)
    returns
        ((port >> 8) | ((port & 0xff) << 8)),
{
    (port >> 8) | ((port & 0xff) << 8)
}

/// Swapping the bytes of a port twice gives the port back.
pub proof fn law_swapping_twice(port: u64)
    requires
        port <= 0xffff,
    ensures
        swap_port(port) <= 0xffff,
        swap_port(swap_port(port)) == port,
{
    assert(((port >> 8) | ((port & 0xff) << 8)) <= 0xffff && ((((port >> 8) | ((port & 0xff)
        << 8)) >> 8) | ((((port >> 8) | ((port & 0xff) << 8)) & 0xff) << 8)) == port)
        by (bit_vector)
        requires
            port <= 0xffff,
    ;
}

pub open spec fn spec_port_of(context: &Context, block: Object, member: &str) -> i64 {
    match context.member_u64(block, member) {
        Some(port) => swap_port(port) as i64,
        None => swap_port(0) as i64,
    }
}

/// A port of a control block.
#[verifier::when_used_as_spec(spec_port_of)]
pub fn port_of(context: &Context, block: Object, member: &str) -> (port: i64)
    ensures
        port == spec_port_of(context, block, member),
{
    match context.member_u64(block, member) {
        Some(port) => swap_port(port) as i64,
        None => swap_port(0) as i64,
    }
}

/// The four bytes of a number, the lowest first.
pub open spec fn bytes_of_number(number: u64) -> Seq<u8> {
    seq![
        number as u8,
        (number >> 8) as u8,
        (number >> 16) as u8,
        (number >> 24) as u8,
    ]
}

/// Where an address of the sixth version stands in a control block.
pub open spec fn spec_six_of(context: &Context, block: Object, local: bool) -> Option<Object> {
    let field = if local {
        context.member(block, "inp_dependladdr")
    } else {
        context.member(block, "inp_dependfaddr")
    };
    match field {
        Some(field) => {
            let address = if local {
                context.member(field, "inp6_local")
            } else {
                context.member(field, "inp6_foreign")
            };
            match address {
                Some(address) => match context.member(address, "__u6_addr") {
                    Some(parts) => context.member(parts, "__u6_addr32"),
                    None => None,
                },
                None => None,
            }
        },
        None => None,
    }
}

/// Where an address of the sixth version stands in a control block.
#[verifier::when_used_as_spec(spec_six_of)]
pub fn six_of(context: &Context, block: Object, local: bool) -> (address: Option<Object>)
    ensures
        address == spec_six_of(context, block, local),
{
    let field = if local {
        context.member(block, "inp_dependladdr")
    } else {
        context.member(block, "inp_dependfaddr")
    };
    match field {
        Some(field) => {
            let address = if local {
                context.member(field, "inp6_local")
            } else {
                context.member(field, "inp6_foreign")
            };
            match address {
                Some(address) => match context.member(address, "__u6_addr") {
                    Some(parts) => context.member(parts, "__u6_addr32"),
                    None => None,
                },
                None => None,
            }
        },
        None => None,
    }
}

/// An address of the fourth version in a control block, as a number.
pub open spec fn spec_four_of(context: &Context, block: Object, local: bool) -> Option<u64> {
    let field = if local {
        context.member(block, "inp_dependladdr")
    } else {
        context.member(block, "inp_dependfaddr")
    };
    match field {
        Some(field) => {
            let address = if local {
                context.member(field, "inp46_local")
            } else {
                context.member(field, "inp46_foreign")
            };
            match address {
                Some(address) => match context.member(address, "ia46_addr4") {
                    Some(parts) => context.member_u64(parts, "s_addr"),
                    None => None,
                },
                None => None,
            }
        },
        None => None,
    }
}

/// An address of the fourth version in a control block, as a number.
#[verifier::when_used_as_spec(spec_four_of)]
pub fn four_of(context: &Context, block: Object, local: bool) -> (address: Option<u64>)
    ensures
        address == spec_four_of(context, block, local),
{
    let field = if local {
        context.member(block, "inp_dependladdr")
    } else {
        context.member(block, "inp_dependfaddr")
    };
    match field {
        Some(field) => {
            let address = if local {
                context.member(field, "inp46_local")
            } else {
                context.member(field, "inp46_foreign")
            };
            match address {
                Some(address) => match context.member(address, "ia46_addr4") {
                    Some(parts) => context.member_u64(parts, "s_addr"),
                    None => None,
                },
                None => None,
            }
        },
        None => None,
    }
}

/// One of a control block's addresses as text. The block holds a union able to
/// carry either kind of address, so which member to read depends on the socket's
/// family.
pub open spec fn address_text(context: &Context, block: Object, local: bool, is_v6: bool) -> Option<
    Seq<char>,
> {
    if is_v6 {
        match six_of(context, block, local) {
            Some(address) => match context.bytes_of(block.layer, address.offset, 16, false) {
                Some(raw) => Some(addresses::ipv6_text(addresses::groups_of(raw))),
                None => None,
            },
            None => None,
        }
    } else {
        match four_of(context, block, local) {
            Some(number) => Some(addresses::ipv4_text(bytes_of_number(number))),
            None => None,
        }
    }
}

/// Read and format one of a control block's addresses.
pub fn address_of(context: &Context, block: Object, local: bool, is_v6: bool) -> (text: Option<
    String,
>)
    ensures
        text::maybe_text(text) == address_text(context, block, local, is_v6),
{
    if is_v6 {
        match six_of(context, block, local) {
            Some(address) => match context.read(block.layer, address.offset, 16, false) {
                Some(raw) => Some(write_ipv6_bytes(&raw)),
                None => None,
            },
            None => None,
        }
    } else {
        match four_of(context, block, local) {
            Some(number) => Some(
                write_ipv4(
                    number as u8,
                    (number >> 8) as u8,
                    (number >> 16) as u8,
                    (number >> 24) as u8,
                ),
            ),
            None => None,
        }
    }
}

/// The path that a local socket was bound to.
pub open spec fn local_path(context: &Context, kernel: &Module, socket: Object) -> Option<Seq<char>> {
    match control_block(context, kernel, socket, socket, "so_pcb", "unpcb") {
        Some(block) => match context.member_target(block, "unp_addr") {
            Some(address) => match context.member(address, "sun_path") {
                Some(path) => context.string_of(path),
                None => None,
            },
            None => None,
        },
        None => None,
    }
}

fn read_local_path(context: &Context, kernel: &Module, socket: Object) -> (path: Option<String>)
    ensures
        text::maybe_text(path) == local_path(context, kernel, socket),
{
    match control_block(context, kernel, socket, socket, "so_pcb", "unpcb") {
        Some(block) => match context.member_target(block, "unp_addr") {
            Some(address) => match context.member(address, "sun_path") {
                Some(path) => context.as_string(path),
                None => None,
            },
            None => None,
        },
        None => None,
    }
}

/// The state of a connection. Only a connection-based protocol has one to be in.
pub open spec fn connection_state(
    context: &Context,
    kernel: &Module,
    socket: Object,
    block: Object,
) -> Seq<char> {
    if protocol_of(context, socket) == TCP {
        state_name(
            match control_block(context, kernel, socket, block, "inp_ppcb", "tcpcb") {
                Some(inner) => context.member_u64(inner, "t_state"),
                None => None,
            },
        )
    } else {
        ""@
    }
}

fn read_state(context: &Context, kernel: &Module, socket: Object, block: Object) -> (state:
    &'static str)
    ensures
        state@ == connection_state(context, kernel, socket, block),
{
    if protocol_of(context, socket) == TCP {
        name_state(
            match control_block(context, kernel, socket, block, "inp_ppcb", "tcpcb") {
                Some(inner) => context.member_u64(inner, "t_state"),
                None => None,
            },
        )
    } else {
        ""
    }
}

/// The row of a local socket, which is named by the path it was bound to rather
/// than by an address and port.
pub open spec fn local_row(socket: Object, path: Seq<char>, owner: Seq<char>) -> Seq<Cell> {
    seq![
        Cell::hex(socket.offset),
        Cell::Text("UNIX"@),
        Cell::Text(path),
        Cell::integer(0),
        Cell::Text(""@),
        Cell::integer(0),
        Cell::Text(""@),
        Cell::Text(owner),
    ]
}

/// The row of a connection.
pub open spec fn connection_row(
    context: &Context,
    kernel: &Module,
    socket: Object,
    block: Object,
    local: Seq<char>,
    remote: Seq<char>,
    owner: Seq<char>,
) -> Seq<Cell> {
    seq![
        Cell::hex(socket.offset),
        Cell::Text(protocol_name(protocol_of(context, socket))@),
        Cell::Text(local),
        Cell::integer(port_of(context, block, "inp_lport")),
        Cell::Text(remote),
        Cell::integer(port_of(context, block, "inp_fport")),
        Cell::Text(connection_state(context, kernel, socket, block)),
        Cell::Text(owner),
    ]
}

/// The row of a socket, unless it has no address to report.
pub open spec fn socket_row(context: &Context, kernel: &Module, socket: Object, owner: Seq<char>) -> Option<
    Seq<Cell>,
> {
    match family_of(context, socket) {
        Some(family) => if family == AF_UNIX {
            match local_path(context, kernel, socket) {
                Some(path) => Some(local_row(socket, path, owner)),
                None => None,
            }
        } else if family != AF_INET && family != AF_INET6 {
            None
        } else {
            match control_block(context, kernel, socket, socket, "so_pcb", "inpcb") {
                Some(block) => match (
                    address_text(context, block, true, family == AF_INET6),
                    address_text(context, block, false, family == AF_INET6),
                ) {
                    (Some(local), Some(remote)) => Some(
                        connection_row(context, kernel, socket, block, local, remote, owner),
                    ),
                    _ => None,
                },
                None => None,
            }
        },
        None => None,
    }
}

fn make_local_row(socket: Object, path: String, owner: &str) -> (row: Row)
    ensures
        row@ == local_row(socket, path@, owner@),
{
    Row::new().with(Value::hex(socket.offset)).with(Value::string("UNIX")).with(
        Value::String(path),
    ).with(Value::integer(0)).with(Value::string("")).with(Value::integer(0)).with(
        Value::string(""),
    ).with(Value::string(owner))
}

fn make_connection_row(
    context: &Context,
    kernel: &Module,
    socket: Object,
    block: Object,
    local: String,
    remote: String,
    owner: &str,
) -> (row: Row)
    ensures
        row@ == connection_row(context, kernel, socket, block, local@, remote@, owner@),
{
    Row::new().with(Value::hex(socket.offset)).with(
        Value::string(protocol_name(protocol_of(context, socket))),
    ).with(Value::String(local)).with(
        Value::integer(port_of(context, block, "inp_lport")),
    ).with(Value::String(remote)).with(
        Value::integer(port_of(context, block, "inp_fport")),
    ).with(Value::string(read_state(context, kernel, socket, block))).with(
        Value::string(owner),
    )
}

/// Build a row for one socket, unless it has no address to report.
pub fn describe(context: &Context, kernel: &Module, socket: Object, owner: &str) -> (row: Option<Row>)
    ensures
        match row {
            Some(row) => socket_row(context, kernel, socket, owner@) == Some(row@),
            None => socket_row(context, kernel, socket, owner@) is None,
        },
{
    match family_of(context, socket) {
        Some(family) => if family == AF_UNIX {
            match read_local_path(context, kernel, socket) {
                Some(path) => Some(make_local_row(socket, path, owner)),
                None => None,
            }
        } else if family != AF_INET && family != AF_INET6 {
            None
        } else {
            match control_block(context, kernel, socket, socket, "so_pcb", "inpcb") {
                Some(block) => match (
                    address_of(context, block, true, family == AF_INET6),
                    address_of(context, block, false, family == AF_INET6),
                ) {
                    (Some(local), Some(remote)) => Some(
                        make_connection_row(
                            context,
                            kernel,
                            socket,
                            block,
                            local,
                            remote,
                            owner,
                        ),
                    ),
                    _ => None,
                },
                None => None,
            }
        },
        None => None,
    }
}

/// A report with the first of the sockets that a process holds open.
pub open spec fn with_sockets(
    context: &Context,
    kernel: &Module,
    table: Table,
    process: Object,
    owner: Seq<char>,
    descriptors: Seq<&Descriptor>,
    count: int,
) -> Table
    decreases count,
{
    if count <= 0 {
        table
    } else {
        let before = with_sockets(
            context,
            kernel,
            table,
            process,
            owner,
            descriptors,
            count - 1,
        );
        match socket_of(context, kernel, process, descriptors[count - 1]) {
            Some(socket) => match socket_row(context, kernel, socket, owner) {
                Some(row) => before.push(0, row),
                None => before,
            },
            None => before,
        }
    }
}

/// What a process is called: its name and its number.
pub open spec fn owner_text(context: &Context, process: Object, pid: u64) -> Seq<char> {
    context.mac_name_or_empty(process) + "/"@ + text::decimal_text(pid as int)
}

/// A report with the sockets of one more process.
#[verifier::opaque]
pub open spec fn with_process(
    context: &Context,
    kernel: &Module,
    table: Table,
    process: Object,
) -> Table {
    match context.mac_pid(process) {
        Some(pid) => {
            let list = symbols::mac::descriptors_of(context.mac.descriptors@, process.offset);
            with_sockets(
                context,
                kernel,
                table,
                process,
                owner_text(context, process, pid),
                list,
                list.len() as int,
            )
        },
        None => table,
    }
}

#[verifier::rlimit(30)]
fn add_process(context: &Context, kernel: &Module, grid: &mut TreeGrid, process: Object)
    ensures
        final(grid)@ == with_process(context, kernel, old(grid)@, process),
{
    reveal(with_process);
    let ghost before = grid@;
    if let Some(pid) = context.mac_pid(process) {
        let mut owner = context.mac_name_or_none(process);
        owner.append("/");
        owner.append(&decimal(pid));
        assert(owner@ =~= owner_text(context, process, pid));
        let list = context.file_descriptors(process);
        for i in 0..list.len()
            invariant
                grid@ == with_sockets(
                    context,
                    kernel,
                    before,
                    process,
                    owner@,
                    list@,
                    i as int,
                ),
        {
            if let Some(socket) = find_socket(context, kernel, process, list[i]) {
                if let Some(row) = describe(context, kernel, socket, &owner) {
                    grid.push(0, row);
                }
            }
        }
    }
}

/// The report on the first of some processes.
pub open spec fn reported(
    context: &Context,
    kernel: &Module,
    headings: Seq<Column>,
    processes: Seq<Object>,
    count: int,
) -> Table
    decreases count,
{
    if count <= 0 {
        Table::empty(headings)
    } else {
        with_process(
            context,
            kernel,
            reported(context, kernel, headings, processes, count - 1),
            processes[count - 1],
        )
    }
}

impl Plugin for NetStat {
    open spec fn named(&self) -> Seq<char> {
        "mac.netstat.Netstat"@
    }

    open spec fn described(&self) -> Seq<char> {
        "Lists all network connections for all processes."@
    }

    open spec fn needs(&self) -> Seq<RequirementView> {
        seq![RequirementView::kernel(), RequirementView::pid_filter("Filter on specific process IDs"@)]
    }

    open spec fn headings(&self) -> Seq<Column> {
        seq![
            Column::new("Offset", ColumnType::UInt),
            Column::string("Proto"),
            Column::string("Local IP"),
            Column::integer("Local Port"),
            Column::string("Remote IP"),
            Column::integer("Remote Port"),
            Column::string("State"),
            Column::string("Process"),
        ]
    }

    open spec fn system(&self) -> OperatingSystem {
        OperatingSystem::Mac
    }

    open spec fn report(&self, context: &Context, config: &Configuration) -> Result<Table, Failure> {
        match plugins::mac::kernel_of(context, config) {
            Some(kernel) => match plugins::mac::chosen(context, config) {
                Some(processes) => Ok(
                    reported(context, &kernel, self.headings(), processes, processes.len() as int),
                ),
                None => Err(Failure::Unavailable),
            },
            None => Err(plugins::mac::no_kernel()),
        }
    }

    fn name(&self) -> (name: &'static str) {
        "mac.netstat.Netstat"
    }

    fn description(&self) -> (description: &'static str) {
        "Lists all network connections for all processes."
    }

    fn requirements(&self) -> (requirements: Vec<Requirement>) {
        vec![Requirement::kernel(), Requirement::pid_filter("Filter on specific process IDs")]
    }

    fn operating_system(&self) -> (system: OperatingSystem) {
        OperatingSystem::Mac
    }

    fn columns(&self) -> (columns: Vec<Column>) {
        vec![
            Column::new("Offset", ColumnType::UInt),
            Column::string("Proto"),
            Column::string("Local IP"),
            Column::integer("Local Port"),
            Column::string("Remote IP"),
            Column::integer("Remote Port"),
            Column::string("State"),
            Column::string("Process"),
        ]
    }

    fn epilog(&self) -> (epilog: Option<&'static str>) {
        None
    }

    fn timeline(&self, context: &Context, config: &Configuration) -> (timeline: Option<
        plugins::Timeline,
    >) {
        None
    }

    fn needs_kernel(&self) -> (needed: bool) {
        false
    }

    fn run(&self, context: &Context, config: &Configuration) -> (result: Result<TreeGrid, VolatilityError>) {
        let kernel = kernel_module(context, config)?;
        let processes = chosen_processes(context, config)?;
        let mut grid = TreeGrid::new(self.columns());
        let ghost headings = self.headings();
        for i in 0..processes.len()
            invariant
                grid@ == reported(context, kernel, headings, processes@, i as int),
        {
            add_process(context, kernel, &mut grid, processes[i]);
        }
        Ok(grid)
    }
}

} // verus!
