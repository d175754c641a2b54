//! List the network connections the stack is still tracking.
//!
//! Where scanning finds every endpoint structure the pools ever held, this
//! walks the tables the network driver keeps: the partitions holding
//! established connections, and the port pools holding listeners and datagram
//! sockets. What it reports is what the machine believed was open.

use crate::config::Configuration;
use crate::context::{Context, Module, Object, TypeId};
use crate::error::{Failure, VolatilityError};
use crate::lists::{self, follow, hold, is_among, Links};
use crate::plugins::{
    self, KindView, OperatingSystem, Plugin, Requirement, RequirementKind, RequirementView,
    Timeline, TimelineView,
};
use crate::plugins::windows::kernel_module;
use crate::plugins::windows::modules::list_modules;
use crate::plugins::windows::netscan::{connection_timeline, netscan_table, rows_for};
use crate::plugins::windows::pe_symbols::{resolve_across_instances, ModuleInstance, Resolved};
use crate::renderers::{Column, ColumnType, Table, TreeGrid};
use crate::text::{self, same_text};
use vstd::prelude::*;

verus! {

/// Lists the network connections the stack is still tracking.
pub struct NetStat;

/// The driver that tracks the connections.
pub const DRIVER: &'static str = "tcpip.sys";

/// A bitmap of ports is one page and a half at most. Anything larger means the
/// size was smeared.
pub const MAXIMUM_BITMAP: u64 = 81920;

/// A hash table larger than this has been smeared rather than grown.
pub const MAXIMUM_TABLE: u64 = 4096;

/// Where a module is loaded, and how large it is, if it is the network driver.
pub open spec fn driver_entry(context: &Context, entry: Object) -> Option<(u64, u64)> {
    match (
        context.member_unicode_of(entry, "BaseDllName"),
        context.member_pointer(entry, "DllBase"),
        context.member_u64(entry, "SizeOfImage"),
    ) {
        (Some(name), Some(base), Some(size)) => if name == DRIVER@ {
            Some((base, size))
        } else {
            None
        },
        _ => None,
    }
}

/// Where the network driver is loaded, from a place of the list on.
pub open spec fn driver_from(context: &Context, entries: Seq<Object>, from: int) -> Option<(u64, u64)>
    decreases entries.len() - from,
{
    if from < 0 || from >= entries.len() {
        None
    } else {
        match driver_entry(context, entries[from]) {
            Some(place) => Some(place),
            None => driver_from(context, entries, from + 1),
        }
    }
}

/// Where the network driver is loaded.
pub open spec fn driver_place(context: &Context, kernel: &Module) -> Option<(u64, u64)> {
    match plugins::windows::modules::listed_modules(context, kernel) {
        Some(entries) => driver_from(context, entries, 0),
        None => None,
    }
}

fn read_driver_entry(context: &Context, entry: Object) -> (place: Option<(u64, u64)>)
    ensures
        place == driver_entry(context, entry),
{
    match (
        context.member_unicode(entry, "BaseDllName"),
        context.member_pointer(entry, "DllBase"),
        context.member_u64(entry, "SizeOfImage"),
    ) {
        (Some(name), Some(base), Some(size)) => if same_text(&name, DRIVER) {
            Some((base, size))
        } else {
            None
        },
        _ => None,
    }
}

/// Where the network driver is loaded.
#[verifier::loop_isolation(false)]
pub fn driver_image(context: &Context, kernel: &Module) -> (place: Option<(u64, u64)>)
    ensures
        place == driver_place(context, kernel),
{
    let entries = match list_modules(context, kernel) {
        Ok(entries) => entries,
        Err(_) => return None,
    };
    let mut i: usize = 0;
    while i < entries.len()
        invariant
            i <= entries@.len(),
            driver_from(context, entries@, 0) == driver_from(context, entries@, i as int),
        decreases entries@.len() - i,
    {
        if let Some(place) = read_driver_entry(context, entries[i]) {
            return Some(place);
        }
        i = i + 1;
    }
    None
}

/// The address that was found for a name, from a place on.
pub open spec fn found_from(found: Seq<(Seq<char>, u64)>, name: Seq<char>, from: int) -> Option<u64>
    decreases found.len() - from,
{
    if from < 0 || from >= found.len() {
        None
    } else if found[from].0 == name {
        Some(found[from].1)
    } else {
        found_from(found, name, from + 1)
    }
}

fn address_of(found: &Vec<Resolved>, name: &str) -> (address: Option<u64>)
    ensures
        address == found_from(plugins::windows::pe_symbols::resolved_views(found@), name@, 0),
{
    let mut i: usize = 0;
    while i < found.len()
        invariant
            i <= found@.len(),
            found_from(plugins::windows::pe_symbols::resolved_views(found@), name@, 0)
                == found_from(
                plugins::windows::pe_symbols::resolved_views(found@),
                name@,
                i as int,
            ),
        decreases found@.len() - i,
    {
        if same_text(&found[i].name, name) {
            return Some(found[i].address);
        }
        i = i + 1;
    }
    None
}

/// The addresses of the driver's own tables, as far as they were found.
#[derive(Clone, Copy, PartialEq, Eq, Structural, Debug)]
pub struct Tables {
    pub partition_table: Option<u64>,
    pub partition_count: Option<u64>,
    pub udp_pool: Option<u64>,
    pub tcp_pool: Option<u64>,
    pub udp_compartments: Option<u64>,
    pub tcp_compartments: Option<u64>,
}

/// The names that the driver's own database gives its tables.
pub open spec fn table_names() -> Seq<Seq<char>> {
    seq![
        "PartitionTable"@,
        "PartitionCount"@,
        "UdpPortPool"@,
        "TcpPortPool"@,
        "UdpCompartmentSet"@,
        "TcpCompartmentSet"@,
    ]
}

/// The addresses of the driver's own tables among what was found.
pub open spec fn tables_among(found: Seq<(Seq<char>, u64)>) -> Tables {
    Tables {
        partition_table: found_from(found, "PartitionTable"@, 0),
        partition_count: found_from(found, "PartitionCount"@, 0),
        udp_pool: found_from(found, "UdpPortPool"@, 0),
        tcp_pool: found_from(found, "TcpPortPool"@, 0),
        udp_compartments: found_from(found, "UdpCompartmentSet"@, 0),
        tcp_compartments: found_from(found, "TcpCompartmentSet"@, 0),
    }
}

/// The endpoint that a bucket of a table holds, where it holds one. Each bucket
/// holds a pointer into a connection, and one that names itself is empty.
pub open spec fn bucket_endpoint(
    context: &Context,
    layer: usize,
    kind: TypeId,
    link: u64,
    at: u64,
) -> Option<Object> {
    match context.number_at(layer, at, 8) {
        Some(pointer) => if pointer == at || pointer == 0 || pointer < link {
            None
        } else {
            Some(Object { kind, layer, native: layer, offset: (pointer - link) as u64 })
        },
        None => None,
    }
}

fn read_bucket(context: &Context, layer: usize, kind: TypeId, link: u64, at: u64) -> (endpoint: Option<
    Object,
>)
    ensures
        endpoint == bucket_endpoint(context, layer, kind, link, at),
{
    match context.number_at(layer, at, 8) {
        Some(pointer) => if pointer == at || pointer == 0 || pointer < link {
            None
        } else {
            Some(Object { kind, layer, native: layer, offset: pointer - link })
        },
        None => None,
    }
}

/// The endpoints that the first buckets of a table hold.
pub open spec fn bucket_endpoints(
    context: &Context,
    layer: usize,
    kind: TypeId,
    link: u64,
    directory: u64,
    count: nat,
) -> Seq<Object>
    decreases count,
{
    if count == 0 {
        Seq::empty()
    } else {
        let before = bucket_endpoints(context, layer, kind, link, directory, (count - 1) as nat);
        match bucket_endpoint(
            context,
            layer,
            kind,
            link,
            directory.wrapping_add(((count - 1) as u64).wrapping_mul(0x10)),
        ) {
            Some(endpoint) => before.push(endpoint),
            None => before,
        }
    }
}

fn add_buckets(
    context: &Context,
    layer: usize,
    kind: TypeId,
    link: u64,
    directory: u64,
    size: u64,
    found: &mut Vec<Object>,
)
    ensures
        final(found)@ == old(found)@ + bucket_endpoints(
            context,
            layer,
            kind,
            link,
            directory,
            size as nat,
        ),
{
    let ghost before = found@;
    assert(before =~= before + Seq::<Object>::empty());
    for bucket in 0..size
        invariant
            found@ == before + bucket_endpoints(
                context,
                layer,
                kind,
                link,
                directory,
                bucket as nat,
            ),
    {
        if let Some(endpoint) = read_bucket(
            context,
            layer,
            kind,
            link,
            directory.wrapping_add(bucket.wrapping_mul(0x10)),
        ) {
            found.push(endpoint);
        }
        assert(found@ =~= before + bucket_endpoints(
            context,
            layer,
            kind,
            link,
            directory,
            (bucket + 1) as nat,
        ));
    }
}

/// The table of endpoints that a partition keeps: where it stands and how many
/// buckets it has, where it holds any and was not smeared.
pub open spec fn partition_table(context: &Context, partition: Object) -> Option<(u64, u64)> {
    match context.member_target(partition, "Endpoints") {
        Some(endpoints) => match (
            context.member_u64(endpoints, "NumEntries"),
            context.member_pointer(endpoints, "Directory"),
            context.member_u64(endpoints, "TableSize"),
        ) {
            (Some(entries), Some(directory), Some(size)) => if entries == 0 || size
                > MAXIMUM_TABLE {
                None
            } else {
                Some((directory, size))
            },
            _ => None,
        },
        None => None,
    }
}

fn read_partition(context: &Context, partition: Object) -> (table: Option<(u64, u64)>)
    ensures
        table == partition_table(context, partition),
{
    match context.member_target(partition, "Endpoints") {
        Some(endpoints) => match (
            context.member_u64(endpoints, "NumEntries"),
            context.member_pointer(endpoints, "Directory"),
            context.member_u64(endpoints, "TableSize"),
        ) {
            (Some(entries), Some(directory), Some(size)) => if entries == 0 || size
                > MAXIMUM_TABLE {
                None
            } else {
                Some((directory, size))
            },
            _ => None,
        },
        None => None,
    }
}

/// What a walk of the partitions needs.
#[derive(Clone, Copy, PartialEq, Eq, Structural, Debug)]
pub struct PartitionWalk {
    pub layer: usize,
    /// Where the partitions stand.
    pub table: u64,
    pub partition: TypeId,
    pub partition_size: u64,
    pub endpoint: TypeId,
    /// Where in an endpoint its link stands.
    pub link: u64,
}

/// The endpoints of the first partitions.
pub open spec fn partition_endpoints(context: &Context, walk: PartitionWalk, count: nat) -> Seq<Object>
    decreases count,
{
    if count == 0 {
        Seq::empty()
    } else {
        let before = partition_endpoints(context, walk, (count - 1) as nat);
        match partition_table(
            context,
            Object {
                kind: walk.partition,
                layer: walk.layer,
                native: walk.layer,
                offset: walk.table.wrapping_add(
                    ((count - 1) as u64).wrapping_mul(walk.partition_size),
                ),
            },
        ) {
            Some((directory, size)) => before + bucket_endpoints(
                context,
                walk.layer,
                walk.endpoint,
                walk.link,
                directory,
                size as nat,
            ),
            None => before,
        }
    }
}

/// What a walk of the partitions needs, and how many there are.
pub open spec fn partition_walk(context: &Context, kernel: &Module, table: &str, tables: Tables) -> Option<
    (PartitionWalk, u64),
> {
    match (
        tables.partition_table,
        tables.partition_count,
        context.table_type(table, "_PARTITION"),
        context.table_type(table, "_TCP_ENDPOINT"),
    ) {
        (Some(place), Some(count_place), Some(partition), Some(endpoint)) => match (
            context.number_at(kernel.layer, place, 8),
            context.number_at(kernel.layer, count_place, 1),
            context.size_of(partition),
            context.find_member(endpoint, "ListEntry"),
        ) {
            (Some(start), Some(count), Some(partition_size), Some((link, _))) => Some(
                (
                    PartitionWalk {
                        layer: kernel.layer,
                        table: start,
                        partition,
                        partition_size,
                        endpoint,
                        link,
                    },
                    count,
                ),
            ),
            _ => None,
        },
        _ => None,
    }
}

fn plan_walk(context: &Context, kernel: &Module, table: &str, tables: Tables) -> (walk: Option<
    (PartitionWalk, u64),
>)
    ensures
        walk == partition_walk(context, kernel, table, tables),
{
    match (
        tables.partition_table,
        tables.partition_count,
        context.table_type(table, "_PARTITION"),
        context.table_type(table, "_TCP_ENDPOINT"),
    ) {
        (Some(place), Some(count_place), Some(partition), Some(endpoint)) => match (
            context.number_at(kernel.layer, place, 8),
            context.number_at(kernel.layer, count_place, 1),
            context.size_of(partition),
            context.find_member(endpoint, "ListEntry"),
        ) {
            (Some(start), Some(count), Some(partition_size), Some((link, _))) => Some(
                (
                    PartitionWalk {
                        layer: kernel.layer,
                        table: start,
                        partition,
                        partition_size,
                        endpoint,
                        link,
                    },
                    count,
                ),
            ),
            _ => None,
        },
        _ => None,
    }
}

/// The established connections.
pub open spec fn connections(context: &Context, kernel: &Module, table: &str, tables: Tables) -> Seq<
    Object,
> {
    match partition_walk(context, kernel, table, tables) {
        Some((walk, count)) => partition_endpoints(context, walk, count as nat),
        None => Seq::empty(),
    }
}

/// The established connections, which the driver keeps one table of per
/// processor group.
pub fn partitions(context: &Context, kernel: &Module, table: &str, tables: Tables) -> (found: Vec<
    Object,
>)
    ensures
        found@ == connections(context, kernel, table, tables),
{
    let mut found: Vec<Object> = Vec::new();
    if let Some((walk, count)) = plan_walk(context, kernel, table, tables) {
        for index in 0..count
            invariant
                found@ == partition_endpoints(context, walk, index as nat),
        {
            let partition = Object {
                kind: walk.partition,
                layer: walk.layer,
                native: walk.layer,
                offset: walk.table.wrapping_add(index.wrapping_mul(walk.partition_size)),
            };
            if let Some((directory, size)) = read_partition(context, partition) {
                add_buckets(
                    context,
                    walk.layer,
                    walk.endpoint,
                    walk.link,
                    directory,
                    size,
                    &mut found,
                );
            }
        }
    }
    found
}

pub open spec fn spec_compartment_pool(
    context: &Context,
    kernel: &Module,
    table: &str,
    symbol: u64,
) -> Option<u64> {
    match context.number_at(kernel.layer, symbol, 8) {
        Some(set) => match context.object(
            context.table_type(table, "_INET_COMPARTMENT_SET"),
            kernel.layer,
            set,
        ) {
            Some(set) => match context.member_target(set, "InetCompartment") {
                Some(compartment) => match context.member_target(
                    compartment,
                    "ProtocolCompartment",
                ) {
                    Some(protocol) => context.member_pointer(protocol, "PortPool"),
                    None => None,
                },
                None => None,
            },
            None => None,
        },
        None => None,
    }
}

/// The pool of a compartment that a symbol names.
#[verifier::when_used_as_spec(spec_compartment_pool)]
pub fn compartment_pool(context: &Context, kernel: &Module, table: &str, symbol: u64) -> (pool: Option<
    u64,
>)
    ensures
        pool == spec_compartment_pool(context, kernel, table, symbol),
{
    match context.number_at(kernel.layer, symbol, 8) {
        Some(set) => match context.object(
            context.table_type(table, "_INET_COMPARTMENT_SET"),
            kernel.layer,
            set,
        ) {
            Some(set) => match context.member_target(set, "InetCompartment") {
                Some(compartment) => match context.member_target(
                    compartment,
                    "ProtocolCompartment",
                ) {
                    Some(protocol) => context.member_pointer(protocol, "PortPool"),
                    None => None,
                },
                None => None,
            },
            None => None,
        },
        None => None,
    }
}

/// The pools of datagram sockets and of listeners. Older drivers name the pools
/// directly. Newer ones name the compartment holding each.
pub open spec fn pools_of(context: &Context, kernel: &Module, table: &str, tables: Tables) -> Option<
    (u64, u64),
> {
    match (tables.udp_pool, tables.tcp_pool) {
        (Some(udp), Some(tcp)) => match (
            context.number_at(kernel.layer, udp, 8),
            context.number_at(kernel.layer, tcp, 8),
        ) {
            (Some(udp), Some(tcp)) => Some((udp, tcp)),
            _ => None,
        },
        _ => match (tables.udp_compartments, tables.tcp_compartments) {
            (Some(udp), Some(tcp)) => match (
                compartment_pool(context, kernel, table, udp),
                compartment_pool(context, kernel, table, tcp),
            ) {
                (Some(udp), Some(tcp)) => Some((udp, tcp)),
                _ => None,
            },
            _ => None,
        },
    }
}

fn find_pools(context: &Context, kernel: &Module, table: &str, tables: Tables) -> (pools: Option<
    (u64, u64),
>)
    ensures
        pools == pools_of(context, kernel, table, tables),
{
    match (tables.udp_pool, tables.tcp_pool) {
        (Some(udp), Some(tcp)) => match (
            context.number_at(kernel.layer, udp, 8),
            context.number_at(kernel.layer, tcp, 8),
        ) {
            (Some(udp), Some(tcp)) => Some((udp, tcp)),
            _ => None,
        },
        _ => match (tables.udp_compartments, tables.tcp_compartments) {
            (Some(udp), Some(tcp)) => match (
                compartment_pool(context, kernel, table, udp),
                compartment_pool(context, kernel, table, tcp),
            ) {
                (Some(udp), Some(tcp)) => Some((udp, tcp)),
                _ => None,
            },
            _ => None,
        },
    }
}

/// The numbers of the first bits of a byte that are set, counted from a start.
pub open spec fn set_bits(byte: u8, start: u64, count: nat) -> Seq<u64>
    decreases count,
{
    if count == 0 {
        Seq::empty()
    } else {
        let before = set_bits(byte, start, (count - 1) as nat);
        if byte & (1u8 << (count - 1) as u8) != 0 {
            before.push(start.wrapping_add((count - 1) as u64))
        } else {
            before
        }
    }
}

fn add_bits(byte: u8, start: u64, ports: &mut Vec<u64>)
    ensures
        final(ports)@ == old(ports)@ + set_bits(byte, start, 8),
{
    let ghost before = ports@;
    assert(before =~= before + Seq::<u64>::empty());
    for bit in 0..8u8
        invariant
            ports@ == before + set_bits(byte, start, bit as nat),
    {
        if byte & (1u8 << bit) != 0 {
            ports.push(start.wrapping_add(bit as u64));
        }
        assert(ports@ =~= before + set_bits(byte, start, (bit + 1) as nat));
    }
}

/// The ports that the first bytes of a bitmap record as in use. A byte that
/// cannot be read records none.
pub open spec fn bitmap_ports(context: &Context, layer: usize, buffer: u64, count: nat) -> Seq<u64>
    decreases count,
{
    if count == 0 {
        Seq::empty()
    } else {
        let before = bitmap_ports(context, layer, buffer, (count - 1) as nat);
        match context.number_at(layer, buffer.wrapping_add((count - 1) as u64), 1) {
            Some(byte) => before + set_bits(
                byte as u8,
                ((count - 1) as u64).wrapping_mul(8),
                8,
            ),
            None => before,
        }
    }
}

/// The bitmap of a pool: where it stands and how many bytes it has, where it was
/// not smeared.
pub open spec fn pool_bitmap(context: &Context, kernel: &Module, table: &str, pool: u64) -> Option<
    (u64, u64),
> {
    match context.object(context.table_type(table, "_INET_PORT_POOL"), kernel.layer, pool) {
        Some(pool) => match context.member(pool, "PortBitMap") {
            Some(bitmap) => match (
                context.member_pointer(bitmap, "Buffer"),
                context.member_u64(bitmap, "SizeOfBitMap"),
            ) {
                (Some(buffer), Some(bits)) => if bits / 8 > MAXIMUM_BITMAP {
                    None
                } else {
                    Some((buffer, bits / 8))
                },
                _ => None,
            },
            None => None,
        },
        None => None,
    }
}

/// The ports a pool records as in use.
pub open spec fn ports_of(context: &Context, kernel: &Module, table: &str, pool: u64) -> Seq<u64> {
    match pool_bitmap(context, kernel, table, pool) {
        Some((buffer, bytes)) => bitmap_ports(context, kernel.layer, buffer, bytes as nat),
        None => Seq::empty(),
    }
}

fn find_bitmap(context: &Context, kernel: &Module, table: &str, pool: u64) -> (bitmap: Option<
    (u64, u64),
>)
    ensures
        bitmap == pool_bitmap(context, kernel, table, pool),
{
    match context.object(context.table_type(table, "_INET_PORT_POOL"), kernel.layer, pool) {
        Some(pool) => match context.member(pool, "PortBitMap") {
            Some(bitmap) => match (
                context.member_pointer(bitmap, "Buffer"),
                context.member_u64(bitmap, "SizeOfBitMap"),
            ) {
                (Some(buffer), Some(bits)) => if bits / 8 > MAXIMUM_BITMAP {
                    None
                } else {
                    Some((buffer, bits / 8))
                },
                _ => None,
            },
            None => None,
        },
        None => None,
    }
}

/// The ports a pool records as in use.
pub fn pool_ports(context: &Context, kernel: &Module, table: &str, pool: u64) -> (ports: Vec<u64>)
    ensures
        ports@ == ports_of(context, kernel, table, pool),
{
    let mut ports: Vec<u64> = Vec::new();
    if let Some((buffer, bytes)) = find_bitmap(context, kernel, table, pool) {
        for index in 0..bytes
            invariant
                ports@ == bitmap_ports(context, kernel.layer, buffer, index as nat),
        {
            if let Some(byte) = context.number_at(kernel.layer, buffer.wrapping_add(index), 1) {
                add_bits(byte as u8, index.wrapping_mul(8), &mut ports);
            }
        }
    }
    ports
}

/// The address a recorded pointer names, with the bits the driver keeps for
/// itself removed.
#[verifier::allow_in_spec]
pub fn decode_pointer(value: u64) -> (address: u64)
    returns
        value & 0xffff_ffff_ffff_fffcu64,
{
    value & 0xffff_ffff_ffff_fffcu64
}

/// A decoded pointer stays as it is when it is decoded again, and never lies
/// behind the recorded one.
pub proof fn law_decode_pointer(value: u64)
    ensures
        decode_pointer(decode_pointer(value)) == decode_pointer(value),
        decode_pointer(value) <= value,
{
    assert((value & 0xffff_ffff_ffff_fffcu64) & 0xffff_ffff_ffff_fffcu64 == value
        & 0xffff_ffff_ffff_fffcu64) by (bit_vector);
    assert(value & 0xffff_ffff_ffff_fffcu64 <= value) by (bit_vector);
}

/// The sockets on one port, each linked from the one before it.
pub struct SocketChain<'a> {
    pub context: &'a Context,
    pub kind: TypeId,
    pub layer: usize,
    /// Where in a socket its link stands.
    pub link: u64,
}

impl<'a> SocketChain<'a> {
    /// The place that a recorded pointer names, where it names one: the pointer
    /// names a place inside the socket rather than its start.
    pub open spec fn named(&self, recorded: Option<u64>) -> Option<u64> {
        match recorded {
            Some(recorded) => if decode_pointer(recorded) == 0 || decode_pointer(recorded)
                < self.link {
                None
            } else {
                Some(decode_pointer(recorded))
            },
            None => None,
        }
    }

    fn name(&self, recorded: Option<u64>) -> (place: Option<u64>)
        ensures
            place == self.named(recorded),
    {
        match recorded {
            Some(recorded) => {
                let address: u64 = decode_pointer(recorded);
                if address == 0 || address < self.link {
                    None
                } else {
                    Some(address)
                }
            },
            None => None,
        }
    }
}

impl<'a> Links for SocketChain<'a> {
    open spec fn after(&self, at: u64) -> Option<u64> {
        self.named(
            self.context.member_pointer(
                Object {
                    kind: self.kind,
                    layer: self.layer,
                    native: self.layer,
                    offset: at.wrapping_sub(self.link),
                },
                "Next",
            ),
        )
    }

    fn next(&self, at: u64) -> (next: Option<u64>) {
        self.name(
            self.context.member_pointer(
                Object {
                    kind: self.kind,
                    layer: self.layer,
                    native: self.layer,
                    offset: at.wrapping_sub(self.link),
                },
                "Next",
            ),
        )
    }
}

pub open spec fn spec_assignment(
    context: &Context,
    kernel: &Module,
    table: &str,
    pool: u64,
    port: u64,
) -> Option<u64> {
    match context.object(context.table_type(table, "_INET_PORT_POOL"), kernel.layer, pool) {
        Some(pool) => match indexed(context, pool, "PortAssignments", port >> 8u64) {
            Some(slot) => match context.dereference(slot) {
                Some(list) => match context.member_target(list, "InPaBigPoolBase") {
                    Some(base) => match indexed(context, base, "Assignments", port & 0xff) {
                        Some(entry) => context.member_pointer(entry, "Entry"),
                        None => None,
                    },
                    None => None,
                },
                None => None,
            },
            None => None,
        },
        None => None,
    }
}

/// The pointer that a pool records for a port. A port is an index into the pool:
/// the high byte selects a list, the low byte an entry within it.
#[verifier::when_used_as_spec(spec_assignment)]
pub fn assignment(context: &Context, kernel: &Module, table: &str, pool: u64, port: u64) -> (pointer:
    Option<u64>)
    ensures
        pointer == spec_assignment(context, kernel, table, pool, port),
{
    match context.object(context.table_type(table, "_INET_PORT_POOL"), kernel.layer, pool) {
        Some(pool) => match indexed(context, pool, "PortAssignments", port >> 8u64) {
            Some(slot) => match context.dereference(slot) {
                Some(list) => match context.member_target(list, "InPaBigPoolBase") {
                    Some(base) => match indexed(context, base, "Assignments", port & 0xff) {
                        Some(entry) => context.member_pointer(entry, "Entry"),
                        None => None,
                    },
                    None => None,
                },
                None => None,
            },
            None => None,
        },
        None => None,
    }
}

pub open spec fn spec_indexed(context: &Context, object: Object, name: &str, at: u64) -> Option<Object> {
    match context.member(object, name) {
        Some(array) => context.index(array, at),
        None => None,
    }
}

/// An element of a member that is an array.
#[verifier::when_used_as_spec(spec_indexed)]
pub fn indexed(context: &Context, object: Object, name: &str, at: u64) -> (element: Option<Object>)
    ensures
        element == spec_indexed(context, object, name, at),
{
    match context.member(object, name) {
        Some(array) => context.index(array, at),
        None => None,
    }
}

/// The sockets bound to one port. The same port on another interface is another
/// socket, linked from the first. A chain that comes back to a socket ends there.
#[verifier::opaque]
pub open spec fn sockets_of(
    context: &Context,
    kernel: &Module,
    table: &str,
    pool: u64,
    port: u64,
    tcp: bool,
) -> Seq<Object> {
    match if tcp {
        context.table_type(table, "_TCP_LISTENER")
    } else {
        context.table_type(table, "_UDP_ENDPOINT")
    } {
        Some(kind) => match context.find_member(kind, "Next") {
            Some((link, _)) => {
                let chain = SocketChain { context, kind, layer: kernel.layer, link };
                lists::holders(
                    lists::chain(
                        chain,
                        chain.named(assignment(context, kernel, table, pool, port)),
                        Seq::empty(),
                    ),
                    kind,
                    link,
                    kernel.layer,
                )
            },
            None => Seq::empty(),
        },
        None => Seq::empty(),
    }
}

/// The sockets bound to one port.
pub fn sockets_on_port(
    context: &Context,
    kernel: &Module,
    table: &str,
    pool: u64,
    port: u64,
    tcp: bool,
) -> (found: Vec<Object>)
    ensures
        found@ == sockets_of(context, kernel, table, pool, port, tcp),
{
    reveal(sockets_of);
    let kind = if tcp {
        context.table_type(table, "_TCP_LISTENER")
    } else {
        context.table_type(table, "_UDP_ENDPOINT")
    };
    match kind {
        Some(kind) => match context.find_member(kind, "Next") {
            Some((link, _)) => {
                let chain = SocketChain { context, kind, layer: kernel.layer, link };
                let first = chain.name(assignment(context, kernel, table, pool, port));
                let places = follow(&chain, first, None);
                hold(&places, kind, link, kernel.layer)
            },
            None => Vec::new(),
        },
        None => Vec::new(),
    }
}

/// The sockets on the first of some ports.
pub open spec fn port_sockets(
    context: &Context,
    kernel: &Module,
    table: &str,
    pool: u64,
    tcp: bool,
    ports: Seq<u64>,
    count: int,
) -> Seq<Object>
    decreases count,
{
    if count <= 0 {
        Seq::empty()
    } else {
        let before = port_sockets(context, kernel, table, pool, tcp, ports, count - 1);
        if ports[count - 1] == 0 {
            before
        } else {
            before + sockets_of(context, kernel, table, pool, ports[count - 1], tcp)
        }
    }
}

/// The sockets of one pool.
pub open spec fn pool_sockets(
    context: &Context,
    kernel: &Module,
    table: &str,
    pool: u64,
    tcp: bool,
) -> Seq<Object> {
    let ports = ports_of(context, kernel, table, pool);
    port_sockets(context, kernel, table, pool, tcp, ports, ports.len() as int)
}

fn add_pool(
    context: &Context,
    kernel: &Module,
    table: &str,
    pool: u64,
    tcp: bool,
    found: &mut Vec<Object>,
)
    ensures
        final(found)@ == old(found)@ + pool_sockets(context, kernel, table, pool, tcp),
{
    let ports = pool_ports(context, kernel, table, pool);
    let ghost before = found@;
    assert(before =~= before + Seq::<Object>::empty());
    for i in 0..ports.len()
        invariant
            found@ == before + port_sockets(context, kernel, table, pool, tcp, ports@, i as int),
    {
        if ports[i] != 0 {
            let mut sockets = sockets_on_port(context, kernel, table, pool, ports[i], tcp);
            found.append(&mut sockets);
        }
        assert(found@ =~= before + port_sockets(
            context,
            kernel,
            table,
            pool,
            tcp,
            ports@,
            i + 1,
        ));
    }
}

/// The listeners and then the datagram sockets.
pub open spec fn pooled(context: &Context, kernel: &Module, table: &str, tables: Tables) -> Seq<Object> {
    match pools_of(context, kernel, table, tables) {
        Some((udp, tcp)) => pool_sockets(context, kernel, table, tcp, true) + pool_sockets(
            context,
            kernel,
            table,
            udp,
            false,
        ),
        None => Seq::empty(),
    }
}

/// The listeners and datagram sockets, which the driver keeps by port.
pub fn port_pools(context: &Context, kernel: &Module, table: &str, tables: Tables) -> (found: Vec<
    Object,
>)
    ensures
        found@ == pooled(context, kernel, table, tables),
{
    let mut found: Vec<Object> = Vec::new();
    if let Some((udp, tcp)) = find_pools(context, kernel, table, tables) {
        add_pool(context, kernel, table, tcp, true, &mut found);
        add_pool(context, kernel, table, udp, false, &mut found);
        assert(found@ =~= pooled(context, kernel, table, tables));
    }
    found
}

/// A report and the endpoints that are already in it.
#[verifier::ext_equal]
pub struct Progress {
    pub table: Table,
    pub seen: Seq<u64>,
}

/// How far the report is once the first of some endpoints are dealt with, each
/// of them once.
pub open spec fn after_endpoints(
    context: &Context,
    corrupt: bool,
    headings: Seq<Column>,
    endpoints: Seq<Object>,
    count: int,
) -> Progress
    decreases count,
{
    if count <= 0 {
        Progress { table: Table::empty(headings), seen: Seq::empty() }
    } else {
        let before = after_endpoints(context, corrupt, headings, endpoints, count - 1);
        let endpoint = endpoints[count - 1];
        if before.seen.contains(endpoint.offset) {
            before
        } else {
            Progress {
                table: before.table.push_all(
                    plugins::windows::netscan::rows_of(context, endpoint, corrupt),
                ),
                seen: before.seen.push(endpoint.offset),
            }
        }
    }
}

/// What the driver's tables resolve to, in the image of the driver.
pub open spec fn resolved_tables(context: &Context, kernel: &Module, place: (u64, u64)) -> Seq<
    (Seq<char>, u64),
> {
    plugins::windows::pe_symbols::resolved(
        context,
        seq![ModuleInstance { layer: kernel.layer, base: place.0, size: place.1 }],
        DRIVER@,
        plugins::windows::pe_symbols::WantedView::Names(table_names()),
    )
}

fn resolve_tables(context: &Context, kernel: &Module, place: (u64, u64)) -> (found: Vec<Resolved>)
    ensures
        plugins::windows::pe_symbols::resolved_views(found@) == resolved_tables(
            context,
            kernel,
            place,
        ),
{
    let instances = vec![ModuleInstance { layer: kernel.layer, base: place.0, size: place.1 }];
    assert(instances@ =~= seq![
        ModuleInstance { layer: kernel.layer, base: place.0, size: place.1 },
    ]);
    let names = vec![
        "PartitionTable".to_owned(),
        "PartitionCount".to_owned(),
        "UdpPortPool".to_owned(),
        "TcpPortPool".to_owned(),
        "UdpCompartmentSet".to_owned(),
        "TcpCompartmentSet".to_owned(),
    ];
    assert(text::texts(names@) =~= table_names());
    resolve_across_instances(context, &instances, DRIVER, names)
}

/// The endpoints that the driver's tables lead to: the established connections,
/// then the listeners and datagram sockets.
pub open spec fn endpoints_of(
    context: &Context,
    kernel: &Module,
    table: &str,
    found: Seq<(Seq<char>, u64)>,
) -> Seq<Object> {
    connections(context, kernel, table, tables_among(found)) + pooled(
        context,
        kernel,
        table,
        tables_among(found),
    )
}

fn collect_endpoints(context: &Context, kernel: &Module, table: &str, found: &Vec<Resolved>) -> (
    endpoints: Vec<Object>)
    ensures
        endpoints@ == endpoints_of(
            context,
            kernel,
            table,
            plugins::windows::pe_symbols::resolved_views(found@),
        ),
{
    let tables = Tables {
        partition_table: address_of(found, "PartitionTable"),
        partition_count: address_of(found, "PartitionCount"),
        udp_pool: address_of(found, "UdpPortPool"),
        tcp_pool: address_of(found, "TcpPortPool"),
        udp_compartments: address_of(found, "UdpCompartmentSet"),
        tcp_compartments: address_of(found, "TcpCompartmentSet"),
    };
    let mut endpoints = partitions(context, kernel, table, tables);
    let mut more = port_pools(context, kernel, table, tables);
    endpoints.append(&mut more);
    endpoints
}

impl Plugin for NetStat {
    open spec fn named(&self) -> Seq<char> {
        "windows.netstat.NetStat"@
    }

    open spec fn described(&self) -> Seq<char> {
        "Traverses network tracking structures present in a particular windows memory image."@
    }

    open spec fn needs(&self) -> Seq<RequirementView> {
        seq![
            RequirementView::kernel(),
            RequirementView::new(
                "include-corrupt"@,
                "Radically eases result validation. This will show partially overwritten data. WARNING: the results are likely to include garbage and/or corrupt data. Be cautious!"@,
                KindView::Bool,
            ),
        ]
    }

    open spec fn headings(&self) -> Seq<Column> {
        seq![
            Column::new("Offset", ColumnType::UInt),
            Column::string("Proto"),
            Column::string("LocalAddr"),
            Column::integer("LocalPort"),
            Column::string("ForeignAddr"),
            Column::integer("ForeignPort"),
            Column::string("State"),
            Column::integer("PID"),
            Column::string("Owner"),
            Column::datetime("Created"),
        ]
    }

    open spec fn system(&self) -> OperatingSystem {
        OperatingSystem::Windows
    }

    open spec fn report(&self, context: &Context, config: &Configuration) -> Result<Table, Failure> {
        match plugins::windows::kernel_of(context, config) {
            Some(kernel) => match plugins::windows::netscan::described_by(context, &kernel) {
                Ok(table) => match driver_place(context, &kernel) {
                    Some(place) => {
                        let found = resolved_tables(context, &kernel, place);
                        if found.len() == 0 {
                            Err(
                                Failure::Other(
                                    "Unable to locate symbols for the memory image's tcpip module"@,
                                ),
                            )
                        } else {
                            let endpoints = endpoints_of(context, &kernel, table, found);
                            Ok(
                                after_endpoints(
                                    context,
                                    config.flag("include-corrupt"@),
                                    self.headings(),
                                    endpoints,
                                    endpoints.len() as int,
                                ).table,
                            )
                        }
                    },
                    None => Err(
                        Failure::Other("Unable to locate the network driver in this image"@),
                    ),
                },
                Err(failure) => Err(failure),
            },
            None => Err(plugins::windows::no_kernel()),
        }
    }

    open spec fn moments(&self, context: &Context, config: &Configuration) -> Option<TimelineView> {
        match self.report(context, config) {
            Ok(table) => Some(
                TimelineView {
                    entries: plugins::windows::netscan::connection_moments(
                        table.lines,
                        false,
                        table.lines.len() as int,
                    ),
                    failed: false,
                },
            ),
            Err(_) => None,
        }
    }

    fn name(&self) -> (name: &'static str) {
        "windows.netstat.NetStat"
    }

    fn description(&self) -> (description: &'static str) {
        "Traverses network tracking structures present in a particular windows memory image."
    }

    fn requirements(&self) -> (requirements: Vec<Requirement>) {
        vec![
            Requirement::kernel(),
            Requirement::new(
                "include-corrupt",
                "Radically eases result validation. This will show partially overwritten data. WARNING: the results are likely to include garbage and/or corrupt data. Be cautious!",
                RequirementKind::Bool,
            ),
        ]
    }

    fn operating_system(&self) -> (system: OperatingSystem) {
        OperatingSystem::Windows
    }

    fn columns(&self) -> (columns: Vec<Column>) {
        vec![
            Column::new("Offset", ColumnType::UInt),
            Column::string("Proto"),
            Column::string("LocalAddr"),
            Column::integer("LocalPort"),
            Column::string("ForeignAddr"),
            Column::integer("ForeignPort"),
            Column::string("State"),
            Column::integer("PID"),
            Column::string("Owner"),
            Column::datetime("Created"),
        ]
    }

    fn timeline(&self, context: &Context, config: &Configuration) -> (timeline: Option<Timeline>) {
        match self.run(context, config) {
            Ok(grid) => Some(connection_timeline(&grid, false)),
            Err(_) => None,
        }
    }

    fn epilog(&self) -> (epilog: Option<&'static str>) {
        None
    }

    fn needs_kernel(&self) -> (needed: bool) {
        false
    }

    fn run(&self, context: &Context, config: &Configuration) -> (result: Result<TreeGrid, VolatilityError>) {
        let kernel = kernel_module(context, config)?;
        let corrupt = config.is_set("include-corrupt");
        let table = netscan_table(context, kernel)?;
        // The tables belong to the driver, and are found by the names its own
        // database gives them.
        let place = match driver_image(context, kernel) {
            Some(place) => place,
            None => return Err(
                VolatilityError::other("Unable to locate the network driver in this image"),
            ),
        };
        let found = resolve_tables(context, kernel, place);
        assert(found@.len() == plugins::windows::pe_symbols::resolved_views(found@).len());
        if found.is_empty() {
            return Err(
                VolatilityError::other(
                    "Unable to locate symbols for the memory image's tcpip module",
                ),
            );
        }
        let endpoints = collect_endpoints(context, kernel, table, &found);
        let mut grid = TreeGrid::new(self.columns());
        let mut seen: Vec<u64> = Vec::new();
        let ghost headings = self.headings();
        for i in 0..endpoints.len()
            invariant
                (Progress { table: grid@, seen: seen@ }) == after_endpoints(
                    context,
                    corrupt,
                    headings,
                    endpoints@,
                    i as int,
                ),
        {
            if !is_among(&seen, endpoints[i].offset) {
                seen.push(endpoints[i].offset);
                // The rows are the same the scanning plugin produces, so the two
                // report identically for the endpoints both find.
                grid.push_all(rows_for(context, endpoints[i], corrupt));
            }
        }
        Ok(grid)
    }
}

} // verus!
