//! Laws on network connections and listening sockets.

use crate::addresses;
use crate::config::Configuration;
use crate::context::{Context, Object};
use crate::laws::{self, has_row};
use crate::plugins::windows::netscan::{
    four_text, local_text, network_objects, remote_text, reported, rows_of, six_text,
    socket_cells, stack_rows, stacks_of, NetScan,
    StackView,
};
use crate::plugins::windows::netstat::NetStat;
use crate::plugins::Plugin;
use crate::renderers::{Cell, Column, ColumnType};
use crate::text;
use vstd::prelude::*;

verus! {

/// The family of addresses that a socket says it belongs to.
pub open spec fn family_is(context: &Context, socket: Object, family: u64) -> bool {
    context.member_target(socket, "InetAF") matches Some(inet) && context.member_u64(
        inet,
        "AddressFamily",
    ) == Some(family)
}

/// One of the bytes that an address holds, or zero where it cannot be read.
pub open spec fn byte_of(context: &Context, address: Object, name: &str, at: u64) -> u8 {
    match context.member(address, name) {
        Some(array) => match context.index(array, at) {
            Some(place) => match context.as_u64(place) {
                Some(value) => value as u8,
                None => 0,
            },
            None => 0,
        },
        None => 0,
    }
}

/// Four numbers with dots between them: the bytes of a version four address.
pub open spec fn dotted(context: &Context, address: Object) -> Seq<char> {
    text::decimal_text(byte_of(context, address, "addr4", 0) as int) + seq!['.']
        + text::decimal_text(byte_of(context, address, "addr4", 1) as int) + seq!['.']
        + text::decimal_text(byte_of(context, address, "addr4", 2) as int) + seq!['.']
        + text::decimal_text(byte_of(context, address, "addr4", 3) as int)
}

/// The sixteen bytes of a version six address as text.
pub open spec fn coloned(context: &Context, address: Object) -> Seq<char> {
    addresses::ipv6_text(
        Seq::new(
            8,
            |i: int|
                (256 * byte_of(context, address, "addr6", (2 * i) as u64) + byte_of(
                    context,
                    address,
                    "addr6",
                    (2 * i + 1) as u64,
                )) as u16,
        ),
    )
}

/// A dotted address is the text of a version four address.
proof fn lemma_dotted(context: &Context, address: Object)
    ensures
        four_text(context, address) == dotted(context, address),
        dotted(context, address).len() > 0,
{
    reveal(four_text);
    assert(four_text(context, address) =~= dotted(context, address));
}

proof fn lemma_coloned(context: &Context, address: Object)
    ensures
        six_text(context, address) == coloned(context, address),
{
    reveal(six_text);
    let bytes = crate::plugins::windows::netscan::bytes_of_address(context, address, "addr6", 16);
    assert(addresses::groups_of(bytes) =~= Seq::new(
        8,
        |i: int|
            (256 * byte_of(context, address, "addr6", (2 * i) as u64) + byte_of(
                context,
                address,
                "addr6",
                (2 * i + 1) as u64,
            )) as u16,
    ));
}

/// The ten columns of both listings of sockets.
pub proof fn law_columns_of_sockets()
    ensures
        NetScan.headings().len() == 10,
        NetScan.headings()[0] == Column::new("Offset", ColumnType::UInt),
        NetScan.headings()[1] == Column::string("Proto"),
        NetScan.headings()[2] == Column::string("LocalAddr"),
        NetScan.headings()[3] == Column::integer("LocalPort"),
        NetScan.headings()[4] == Column::string("ForeignAddr"),
        NetScan.headings()[5] == Column::integer("ForeignPort"),
        NetScan.headings()[6] == Column::string("State"),
        NetScan.headings()[7] == Column::integer("PID"),
        NetScan.headings()[8] == Column::string("Owner"),
        NetScan.headings()[9] == Column::datetime("Created"),
        NetStat.headings() == NetScan.headings(),
{
    assert(NetStat.headings() =~= NetScan.headings());
}

/// What a row of sockets says of the socket itself, whatever its kind.
pub open spec fn names_socket(context: &Context, socket: Object, row: Seq<Cell>) -> bool {
    &&& row.len() == 10
    &&& row[0] == Cell::hex(socket.offset)
    &&& match context.member_target(socket, "Owner") {
        Some(process) => if context.windows.sound_processes@.contains(process.offset) {
            &&& context.member_pointer(process, "UniqueProcessId") matches Some(pid) ==> row[7]
                == Cell::integer(pid as i64)
            &&& context.image_name_of(process) matches Some(name) ==> row[8] == Cell::Text(name)
        } else {
            row[7] == Cell::unreadable() && row[8] == Cell::unreadable()
        },
        None => row[7] == Cell::unreadable() && row[8] == Cell::unreadable(),
    }
}

proof fn lemma_row(
    context: &Context,
    socket: Object,
    protocol: Seq<char>,
    local: Seq<char>,
    local_port: u64,
    remote: Seq<char>,
    remote_port: u64,
    state: Cell,
)
    requires
        local.len() > 0,
        remote.len() > 0,
    ensures
        ({
            let row = socket_cells(
                context,
                socket,
                protocol,
                local,
                local_port,
                remote,
                remote_port,
                state,
            );
            &&& names_socket(context, socket, row)
            &&& row[1] == Cell::Text(protocol)
            &&& row[2] == Cell::Text(local)
            &&& row[3] == Cell::integer(local_port as i64)
            &&& row[4] == Cell::Text(remote)
            &&& row[5] == Cell::integer(remote_port as i64)
            &&& row[6] == state
        }),
{
}

proof fn lemma_ends(
    context: &Context,
    socket: Object,
    info: Object,
    local: Object,
    near: Object,
    far: Object,
)
    requires
        context.member_target(socket, "AddrInfo") == Some(info),
        context.member_target(info, "Local") == Some(local),
        context.member_target(local, "pData") matches Some(pointer) && context.dereference(pointer)
            == Some(near),
        context.member_target(info, "Remote") == Some(far),
    ensures
        family_is(context, socket, 2) ==> local_text(context, socket) == Some(
            dotted(context, near),
        ) && remote_text(context, socket) == Some(dotted(context, far)),
        family_is(context, socket, 23) ==> local_text(context, socket) == Some(
            coloned(context, near),
        ) && remote_text(context, socket) == Some(coloned(context, far)),
{
    lemma_dotted(context, near);
    lemma_dotted(context, far);
    lemma_coloned(context, near);
    lemma_coloned(context, far);
}

/// A connection of version four has one row, with its near end under the local columns
/// and its far end under the foreign ones: `LocalAddr` and `LocalPort` are what
/// `AddrInfo.Local` and `LocalPort` hold, `ForeignAddr` and `ForeignPort` are what
/// `AddrInfo.Remote` and `RemotePort` hold.
pub proof fn law_a_connection_names_its_two_ends(
    context: &Context,
    socket: Object,
    corrupt: bool,
    info: Object,
    local: Object,
    near: Object,
    far: Object,
    near_port: u64,
    far_port: u64,
    state: Seq<char>,
)
    requires
        context.kind_text(socket.kind) == "_TCP_ENDPOINT"@,
        family_is(context, socket, 2),
        context.member_target(socket, "AddrInfo") == Some(info),
        context.member_target(info, "Local") == Some(local),
        context.member_target(local, "pData") matches Some(pointer) && context.dereference(pointer)
            == Some(near),
        context.member_target(info, "Remote") == Some(far),
        context.member_u64(socket, "LocalPort") == Some(near_port),
        context.member_u64(socket, "RemotePort") == Some(far_port),
        context.member(socket, "State") matches Some(part) && context.choice_of(part) == Some(state),
    ensures
        rows_of(context, socket, corrupt).len() == 1,
        ({
            let row = rows_of(context, socket, corrupt)[0];
            &&& names_socket(context, socket, row)
            &&& row[1] == Cell::Text("TCPv4"@)
            &&& row[2] == Cell::Text(dotted(context, near))
            &&& row[3] == Cell::integer(near_port as i64)
            &&& row[4] == Cell::Text(dotted(context, far))
            &&& row[5] == Cell::integer(far_port as i64)
            &&& row[6] == Cell::Text(state)
        }),
{
    lemma_socket_words();
    lemma_ends(context, socket, info, local, near, far);
    lemma_dotted(context, near);
    lemma_dotted(context, far);
    lemma_row(
        context,
        socket,
        "TCPv4"@,
        dotted(context, near),
        near_port,
        dotted(context, far),
        far_port,
        Cell::Text(state),
    );
    let row = rows_of(context, socket, corrupt)[0];
    assert(rows_of(context, socket, corrupt) == seq![
        crate::plugins::windows::netscan::endpoint_cells(context, socket),
    ]);
    assert(row == socket_cells(
        context,
        socket,
        "TCPv4"@,
        dotted(context, near),
        near_port,
        dotted(context, far),
        far_port,
        Cell::Text(state),
    ));
}

/// A connection of version six names its ends in the same columns.
pub proof fn law_a_version_six_connection_names_its_two_ends(
    context: &Context,
    socket: Object,
    corrupt: bool,
    info: Object,
    local: Object,
    near: Object,
    far: Object,
    near_port: u64,
    far_port: u64,
    state: Seq<char>,
)
    requires
        context.kind_text(socket.kind) == "_TCP_ENDPOINT"@,
        family_is(context, socket, 23),
        context.member_target(socket, "AddrInfo") == Some(info),
        context.member_target(info, "Local") == Some(local),
        context.member_target(local, "pData") matches Some(pointer) && context.dereference(pointer)
            == Some(near),
        context.member_target(info, "Remote") == Some(far),
        context.member_u64(socket, "LocalPort") == Some(near_port),
        context.member_u64(socket, "RemotePort") == Some(far_port),
        context.member(socket, "State") matches Some(part) && context.choice_of(part) == Some(state),
        coloned(context, near).len() > 0,
        coloned(context, far).len() > 0,
    ensures
        rows_of(context, socket, corrupt).len() == 1,
        ({
            let row = rows_of(context, socket, corrupt)[0];
            &&& names_socket(context, socket, row)
            &&& row[1] == Cell::Text("TCPv6"@)
            &&& row[2] == Cell::Text(coloned(context, near))
            &&& row[3] == Cell::integer(near_port as i64)
            &&& row[4] == Cell::Text(coloned(context, far))
            &&& row[5] == Cell::integer(far_port as i64)
            &&& row[6] == Cell::Text(state)
        }),
{
    lemma_socket_words();
    lemma_ends(context, socket, info, local, near, far);
    assert(coloned(context, near).len() > 0);
    lemma_row(
        context,
        socket,
        "TCPv6"@,
        coloned(context, near),
        near_port,
        coloned(context, far),
        far_port,
        Cell::Text(state),
    );
    let row = rows_of(context, socket, corrupt)[0];
    assert(rows_of(context, socket, corrupt) == seq![
        crate::plugins::windows::netscan::endpoint_cells(context, socket),
    ]);
    assert(row == socket_cells(
        context,
        socket,
        "TCPv6"@,
        coloned(context, near),
        near_port,
        coloned(context, far),
        far_port,
        Cell::Text(state),
    ));
}

/// Whether an address is the one that a socket is bound to: what `LocalAddr` leads to
/// holds a pointer to it in the later structure, and a pointer to a pointer in the
/// earlier one.
pub open spec fn is_bound_to(context: &Context, socket: Object, address: Object) -> bool {
    &&& context.member_target(socket, "LocalAddr") matches Some(local) && if text::ends(
        context.kind_text(local.kind),
        "_LOCAL_ADDRESS_WIN10_UDP"@,
    ) {
        context.member_target(local, "pData") == Some(address)
    } else {
        context.member_target(local, "pData") matches Some(pointer) && context.dereference(pointer)
            == Some(address)
    }
    &&& context.member(address, "addr4") matches Some(array) && (context.index(array, 0) matches Some(
        place,
    ) && context.as_u64(place) is Some)
}

/// A socket that waits for connections of version four at an address has one row: that
/// address and its port, nothing at the far end, and the word for waiting. One for
/// datagrams has an asterisk at the far end and no state.
pub proof fn law_a_bound_socket_names_its_address(
    context: &Context,
    socket: Object,
    corrupt: bool,
    datagrams: bool,
    address: Object,
    port: u64,
)
    requires
        context.kind_text(socket.kind) == if datagrams {
            "_UDP_ENDPOINT"@
        } else {
            "_TCP_LISTENER"@
        },
        family_is(context, socket, 2),
        is_bound_to(context, socket, address),
        context.member_u64(socket, "Port") == Some(port),
    ensures
        rows_of(context, socket, corrupt).len() == 1,
        ({
            let row = rows_of(context, socket, corrupt)[0];
            &&& names_socket(context, socket, row)
            &&& row[1] == Cell::Text(
                if datagrams {
                    "UDPv4"@
                } else {
                    "TCPv4"@
                },
            )
            &&& row[2] == Cell::Text(dotted(context, address))
            &&& row[3] == Cell::integer(port as i64)
            &&& row[4] == Cell::Text(
                if datagrams {
                    "*"@
                } else {
                    "0.0.0.0"@
                },
            )
            &&& row[5] == Cell::integer(0)
            &&& row[6] == Cell::Text(
                if datagrams {
                    Seq::empty()
                } else {
                    "LISTENING"@
                },
            )
        }),
{
    lemma_socket_words();
    lemma_dotted(context, address);
    lemma_stack(context, socket, address);
    let stacks = stacks_of(context, socket);
    let (prefix, protocol, remote, state) = if datagrams {
        ("UDP"@, "UDPv4"@, "*"@, Seq::<char>::empty())
    } else {
        ("TCP"@, "TCPv4"@, "0.0.0.0"@, "LISTENING"@)
    };
    lemma_row(
        context,
        socket,
        protocol,
        dotted(context, address),
        port,
        remote,
        0,
        Cell::Text(state),
    );
    lemma_one_stack(context, socket, prefix, stacks, datagrams);
    assert(rows_of(context, socket, corrupt) == stack_rows(
        context,
        socket,
        prefix,
        stacks,
        datagrams,
        1,
    ));
}

proof fn lemma_stack(context: &Context, socket: Object, address: Object)
    requires
        family_is(context, socket, 2),
        is_bound_to(context, socket, address),
    ensures
        stacks_of(context, socket).len() == 1,
        stacks_of(context, socket)[0].version == "v4"@,
        stacks_of(context, socket)[0].local == dotted(context, address),
        stacks_of(context, socket)[0].remote == "0.0.0.0"@,
{
    lemma_dotted(context, address);
}

proof fn lemma_one_stack(
    context: &Context,
    socket: Object,
    prefix: Seq<char>,
    stacks: Seq<StackView>,
    datagrams: bool,
)
    requires
        stacks.len() == 1,
    ensures
        stack_rows(context, socket, prefix, stacks, datagrams, 1) == seq![
            socket_cells(
                context,
                socket,
                prefix + stacks[0].version,
                stacks[0].local,
                match context.member_u64(socket, "Port") {
                    Some(port) => port,
                    None => 0,
                },
                if datagrams {
                    "*"@
                } else {
                    stacks[0].remote
                },
                0,
                Cell::Text(
                    if datagrams {
                        Seq::empty()
                    } else {
                        "LISTENING"@
                    },
                ),
            ),
        ],
{
    reveal_with_fuel(stack_rows, 2);
    assert(stack_rows(context, socket, prefix, stacks, datagrams, 0) == Seq::<Seq<Cell>>::empty());
}

proof fn lemma_socket_words()
    ensures
        "_UDP_ENDPOINT"@ != "_TCP_ENDPOINT"@,
        "_TCP_LISTENER"@ != "_UDP_ENDPOINT"@,
        "_TCP_LISTENER"@ != "_TCP_ENDPOINT"@,
        "UDP"@ + "v4"@ =~= "UDPv4"@,
        "TCP"@ + "v4"@ =~= "TCPv4"@,
        "UDP"@ + "v6"@ =~= "UDPv6"@,
        "TCP"@ + "v6"@ =~= "TCPv6"@,
        "*"@.len() > 0,
        "0.0.0.0"@.len() > 0,
        "::"@.len() > 0,
{
    reveal_strlit("_UDP_ENDPOINT");
    reveal_strlit("_TCP_ENDPOINT");
    reveal_strlit("_TCP_LISTENER");
    reveal_strlit("UDP");
    reveal_strlit("TCP");
    reveal_strlit("v4");
    reveal_strlit("v6");
    reveal_strlit("UDPv4");
    reveal_strlit("TCPv4");
    reveal_strlit("UDPv6");
    reveal_strlit("TCPv6");
    reveal_strlit("*");
    reveal_strlit("0.0.0.0");
    reveal_strlit("::");
    assert("_UDP_ENDPOINT"@[1] == 'U');
    assert("_TCP_ENDPOINT"@[1] == 'T');
    assert("_TCP_LISTENER"@[1] == 'T');
    assert("_TCP_LISTENER"@[5] == 'L');
    assert("_TCP_ENDPOINT"@[5] == 'E');
}

/// A socket that is bound to no address of its own serves every address: one of version
/// six has a row for each of the two families, and any other a row for version four.
pub proof fn law_a_socket_without_an_address_serves_both_families(
    context: &Context,
    socket: Object,
    corrupt: bool,
    port: u64,
)
    requires
        context.kind_text(socket.kind) == "_TCP_LISTENER"@,
        context.member_target(socket, "LocalAddr") is None,
        context.member_u64(socket, "Port") == Some(port),
    ensures
        family_is(context, socket, 2) ==> rows_of(context, socket, corrupt).len() == 1,
        family_is(context, socket, 23) ==> rows_of(context, socket, corrupt).len() == 2 && ({
            let row = rows_of(context, socket, corrupt)[1];
            &&& row[1] == Cell::Text("TCPv6"@)
            &&& row[2] == Cell::Text("::"@)
            &&& row[3] == Cell::integer(port as i64)
            &&& row[4] == Cell::Text("::"@)
        }),
        family_is(context, socket, 2) || family_is(context, socket, 23) ==> ({
            let row = rows_of(context, socket, corrupt)[0];
            &&& row[1] == Cell::Text("TCPv4"@)
            &&& row[2] == Cell::Text("0.0.0.0"@)
            &&& row[3] == Cell::integer(port as i64)
            &&& row[4] == Cell::Text("0.0.0.0"@)
        }),
{
    lemma_socket_words();
    reveal_with_fuel(stack_rows, 3);
    assert("TCP"@ + "v4"@ == "TCPv4"@);
    assert("TCP"@ + "v6"@ == "TCPv6"@);
}

/// A socket of neither family says nothing reliable, and is left out unless what could
/// not be read is asked for too.
pub proof fn law_a_broken_socket_is_left_out(context: &Context, socket: Object)
    requires
        !family_is(context, socket, 2),
        !family_is(context, socket, 23),
    ensures
        rows_of(context, socket, false).len() == 0,
        context.kind_text(socket.kind) == "_TCP_ENDPOINT"@ ==> rows_of(context, socket, true).len() == 1,
{
    lemma_socket_words();
}

proof fn lemma_reported(
    context: &Context,
    corrupt: bool,
    headings: Seq<Column>,
    objects: Seq<Object>,
    count: int,
    i: int,
    k: int,
)
    requires
        0 <= i < count <= objects.len(),
        0 <= k < rows_of(context, objects[i], corrupt).len(),
    ensures
        has_row(
            reported(context, corrupt, headings, objects, count),
            rows_of(context, objects[i], corrupt)[k],
        ),
    decreases count,
{
    let before = reported(context, corrupt, headings, objects, count - 1);
    let rows = rows_of(context, objects[count - 1], corrupt);
    if i == count - 1 {
        laws::lemma_all_pushed(before, rows, k);
    } else {
        lemma_reported(context, corrupt, headings, objects, count - 1, i, k);
        assert(laws::grows(before, before.push_all(rows)));
        laws::lemma_kept(before, before.push_all(rows), rows_of(context, objects[i], corrupt)[k]);
    }
}

/// Every row of every network object that the scan finds is in the report, under the
/// columns of the report.
pub proof fn law_every_network_object_is_reported(
    context: &Context,
    config: &Configuration,
    table: &'static str,
    i: int,
    k: int,
)
    requires
        NetScan.report(context, config) is Ok,
        crate::plugins::windows::kernel_of(context, config) matches Some(kernel)
            && crate::plugins::windows::netscan::described_by(context, &kernel) == Ok::<
            &'static str,
            crate::error::Failure,
        >(table),
        network_objects(context, table) matches Some(objects) && 0 <= i < objects.len() && 0 <= k
            < rows_of(context, objects[i], config.flag("include-corrupt"@)).len(),
    ensures
        NetScan.report(context, config)->Ok_0.columns == NetScan.headings(),
        has_row(
            NetScan.report(context, config)->Ok_0,
            rows_of(
                context,
                network_objects(context, table)->0[i],
                config.flag("include-corrupt"@),
            )[k],
        ),
{
    let objects = network_objects(context, table)->0;
    let corrupt = config.flag("include-corrupt"@);
    lemma_reported(
        context,
        corrupt,
        NetScan.headings(),
        objects,
        objects.len() as int,
        i,
        k,
    );
    lemma_columns(context, corrupt, NetScan.headings(), objects, objects.len() as int);
}

proof fn lemma_columns(
    context: &Context,
    corrupt: bool,
    headings: Seq<Column>,
    objects: Seq<Object>,
    count: int,
)
    ensures
        reported(context, corrupt, headings, objects, count).columns == headings,
    decreases count,
{
    if count > 0 {
        lemma_columns(context, corrupt, headings, objects, count - 1);
    }
}

} // verus!
