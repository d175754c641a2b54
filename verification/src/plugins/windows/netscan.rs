//! Scan memory for network connections and listening sockets.
//!
//! The network stack allocates its endpoint structures from the pools, so
//! searching for their tags finds connections that have already been torn down
//! as well as live ones.

use crate::addresses::{self, write_ipv4, write_ipv6_bytes};
use crate::config::Configuration;
use crate::context::{Context, Module, Object};
use crate::error::{Failure, VolatilityError};
use crate::plugins::{
    self, KindView, MomentView, OperatingSystem, Plugin, Requirement, RequirementKind,
    RequirementView, TimeKind, Timeline, TimelineView,
};
use crate::plugins::timeline_helpers::{self, is_time, number};
use crate::plugins::windows::kernel_module;
use crate::plugins::windows::mbrscan::{element, field};
use crate::renderers::{
    self, push_row, Cell, Column, ColumnType, LineView, Row, Table, TreeGrid, Value,
};
use crate::symbols;
use crate::symbols::windows::{generate_pool_scan, FREE, NONPAGED, PoolConstraint};
use crate::text::{self, decimal, ends_with, push_text, same_text, starts_with};
use crate::time::{self, wintime_value, year_of};
use vstd::prelude::*;

verus! {

/// Scans for network connections and listening sockets.
pub struct NetScan;

/// Address families, as the network stack records them. The stack's own value
/// for the sixth version is not the one the C library uses.
pub const AF_INET: u64 = 2;

pub const AF_INET6: u64 = 0x17;

/// The years outside which a recorded time is not believable.
pub const EARLIEST_YEAR: i32 = 1950;

pub const LATEST_YEAR: i32 = 2200;

/// The pool tags of the stack's structures: `TcpL`, `TcpE`, `UdpA`, and `TTcb`.
pub const LISTENER_TAG: u32 = 0x4c706354;

pub const ENDPOINT_TAG: u32 = 0x45706354;

pub const DATAGRAM_TAG: u32 = 0x41706455;

pub const LATER_ENDPOINT_TAG: u32 = 0x62635454;

/// A build of Windows and the table that describes its network structures.
#[derive(Clone, Copy, Debug)]
pub struct Build {
    pub major: u64,
    pub minor: u64,
    pub build: u64,
    pub table: &'static str,
}

/// The builds whose network structures are described.
pub open spec fn known_builds(sixty_four_bit: bool) -> Seq<Build> {
    if sixty_four_bit {
        seq![
        Build { major: 6, minor: 0, build: 6000, table: "netscan-vista-x64" },
        Build { major: 6, minor: 0, build: 6001, table: "netscan-vista-sp12-x64" },
        Build { major: 6, minor: 0, build: 6002, table: "netscan-vista-sp12-x64" },
        Build { major: 6, minor: 0, build: 6003, table: "netscan-vista-sp12-x64" },
        Build { major: 6, minor: 1, build: 7600, table: "netscan-win7-x64" },
        Build { major: 6, minor: 1, build: 7601, table: "netscan-win7-x64" },
        Build { major: 6, minor: 1, build: 8400, table: "netscan-win7-x64" },
        Build { major: 6, minor: 2, build: 9200, table: "netscan-win8-x64" },
        Build { major: 6, minor: 3, build: 9600, table: "netscan-win81-x64" },
        Build { major: 10, minor: 0, build: 10240, table: "netscan-win10-x64" },
        Build { major: 10, minor: 0, build: 10586, table: "netscan-win10-x64" },
        Build { major: 10, minor: 0, build: 14393, table: "netscan-win10-x64" },
        Build { major: 10, minor: 0, build: 15063, table: "netscan-win10-15063-x64" },
        Build { major: 10, minor: 0, build: 16299, table: "netscan-win10-16299-x64" },
        Build { major: 10, minor: 0, build: 17134, table: "netscan-win10-17134-x64" },
        Build { major: 10, minor: 0, build: 17763, table: "netscan-win10-17763-x64" },
        Build { major: 10, minor: 0, build: 18362, table: "netscan-win10-18362-x64" },
        Build { major: 10, minor: 0, build: 18363, table: "netscan-win10-18363-x64" },
        Build { major: 10, minor: 0, build: 19041, table: "netscan-win10-19041-x64" },
        Build { major: 10, minor: 0, build: 20348, table: "netscan-win10-20348-x64" },
        ]
    } else {
        seq![
        Build { major: 6, minor: 0, build: 6000, table: "netscan-vista-x86" },
        Build { major: 6, minor: 0, build: 6001, table: "netscan-vista-x86" },
        Build { major: 6, minor: 0, build: 6002, table: "netscan-vista-x86" },
        Build { major: 6, minor: 0, build: 6003, table: "netscan-vista-x86" },
        Build { major: 6, minor: 1, build: 7600, table: "netscan-win7-x86" },
        Build { major: 6, minor: 1, build: 7601, table: "netscan-win7-x86" },
        Build { major: 6, minor: 1, build: 8400, table: "netscan-win7-x86" },
        Build { major: 6, minor: 2, build: 9200, table: "netscan-win8-x86" },
        Build { major: 6, minor: 3, build: 9600, table: "netscan-win81-x86" },
        Build { major: 10, minor: 0, build: 10240, table: "netscan-win10-10240-x86" },
        Build { major: 10, minor: 0, build: 10586, table: "netscan-win10-10586-x86" },
        Build { major: 10, minor: 0, build: 14393, table: "netscan-win10-14393-x86" },
        Build { major: 10, minor: 0, build: 15063, table: "netscan-win10-15063-x86" },
        Build { major: 10, minor: 0, build: 16299, table: "netscan-win10-15063-x86" },
        Build { major: 10, minor: 0, build: 17134, table: "netscan-win10-17134-x86" },
        Build { major: 10, minor: 0, build: 17763, table: "netscan-win10-17134-x86" },
        Build { major: 10, minor: 0, build: 18362, table: "netscan-win10-17134-x86" },
        Build { major: 10, minor: 0, build: 18363, table: "netscan-win10-17134-x86" },
        ]
    }
}

fn list_builds(sixty_four_bit: bool) -> (builds: Vec<Build>)
    ensures
        builds@ == known_builds(sixty_four_bit),
{
    if sixty_four_bit {
        vec![
        Build { major: 6, minor: 0, build: 6000, table: "netscan-vista-x64" },
        Build { major: 6, minor: 0, build: 6001, table: "netscan-vista-sp12-x64" },
        Build { major: 6, minor: 0, build: 6002, table: "netscan-vista-sp12-x64" },
        Build { major: 6, minor: 0, build: 6003, table: "netscan-vista-sp12-x64" },
        Build { major: 6, minor: 1, build: 7600, table: "netscan-win7-x64" },
        Build { major: 6, minor: 1, build: 7601, table: "netscan-win7-x64" },
        Build { major: 6, minor: 1, build: 8400, table: "netscan-win7-x64" },
        Build { major: 6, minor: 2, build: 9200, table: "netscan-win8-x64" },
        Build { major: 6, minor: 3, build: 9600, table: "netscan-win81-x64" },
        Build { major: 10, minor: 0, build: 10240, table: "netscan-win10-x64" },
        Build { major: 10, minor: 0, build: 10586, table: "netscan-win10-x64" },
        Build { major: 10, minor: 0, build: 14393, table: "netscan-win10-x64" },
        Build { major: 10, minor: 0, build: 15063, table: "netscan-win10-15063-x64" },
        Build { major: 10, minor: 0, build: 16299, table: "netscan-win10-16299-x64" },
        Build { major: 10, minor: 0, build: 17134, table: "netscan-win10-17134-x64" },
        Build { major: 10, minor: 0, build: 17763, table: "netscan-win10-17763-x64" },
        Build { major: 10, minor: 0, build: 18362, table: "netscan-win10-18362-x64" },
        Build { major: 10, minor: 0, build: 18363, table: "netscan-win10-18363-x64" },
        Build { major: 10, minor: 0, build: 19041, table: "netscan-win10-19041-x64" },
        Build { major: 10, minor: 0, build: 20348, table: "netscan-win10-20348-x64" },
        ]
    } else {
        vec![
        Build { major: 6, minor: 0, build: 6000, table: "netscan-vista-x86" },
        Build { major: 6, minor: 0, build: 6001, table: "netscan-vista-x86" },
        Build { major: 6, minor: 0, build: 6002, table: "netscan-vista-x86" },
        Build { major: 6, minor: 0, build: 6003, table: "netscan-vista-x86" },
        Build { major: 6, minor: 1, build: 7600, table: "netscan-win7-x86" },
        Build { major: 6, minor: 1, build: 7601, table: "netscan-win7-x86" },
        Build { major: 6, minor: 1, build: 8400, table: "netscan-win7-x86" },
        Build { major: 6, minor: 2, build: 9200, table: "netscan-win8-x86" },
        Build { major: 6, minor: 3, build: 9600, table: "netscan-win81-x86" },
        Build { major: 10, minor: 0, build: 10240, table: "netscan-win10-10240-x86" },
        Build { major: 10, minor: 0, build: 10586, table: "netscan-win10-10586-x86" },
        Build { major: 10, minor: 0, build: 14393, table: "netscan-win10-14393-x86" },
        Build { major: 10, minor: 0, build: 15063, table: "netscan-win10-15063-x86" },
        Build { major: 10, minor: 0, build: 16299, table: "netscan-win10-15063-x86" },
        Build { major: 10, minor: 0, build: 17134, table: "netscan-win10-17134-x86" },
        Build { major: 10, minor: 0, build: 17763, table: "netscan-win10-17134-x86" },
        Build { major: 10, minor: 0, build: 18362, table: "netscan-win10-17134-x86" },
        Build { major: 10, minor: 0, build: 18363, table: "netscan-win10-17134-x86" },
        ]
    }
}

/// The table of the first build, from a place on, that is exactly the one asked
/// for.
pub open spec fn exact_table(builds: Seq<Build>, major: u64, minor: u64, build: u64, from: int) -> Option<
    &'static str,
>
    decreases builds.len() - from,
{
    if from < 0 || from >= builds.len() {
        None
    } else if builds[from].major == major && builds[from].minor == minor && builds[from].build
        == build {
        Some(builds[from].table)
    } else {
        exact_table(builds, major, minor, build, from + 1)
    }
}

/// The table of the last of some builds that belongs to a release.
pub open spec fn newest_table(builds: Seq<Build>, major: u64, minor: u64) -> Option<&'static str>
    decreases builds.len(),
{
    if builds.len() == 0 {
        None
    } else if builds.last().major == major && builds.last().minor == minor {
        Some(builds.last().table)
    } else {
        newest_table(builds.drop_last(), major, minor)
    }
}

/// The table describing the network structures of one build of Windows. A build
/// newer than any listed uses the newest that is, since the structures change
/// rarely once a release has settled.
pub open spec fn table_for(sixty_four_bit: bool, major: u64, minor: u64, build: u64) -> Option<
    &'static str,
> {
    let builds = known_builds(sixty_four_bit);
    match exact_table(builds, major, minor, build, 0) {
        Some(table) => Some(table),
        None => newest_table(builds, major, minor),
    }
}

proof fn lemma_newest_table(builds: Seq<Build>, major: u64, minor: u64, at: int)
    requires
        0 <= at < builds.len(),
        builds[at].major == major,
        builds[at].minor == minor,
    ensures
        newest_table(builds, major, minor) is Some,
    decreases builds.len(),
{
    if at < builds.len() - 1 {
        lemma_newest_table(builds.drop_last(), major, minor, at);
    }
}

/// No build of a release that is listed is left without a table, however new it is.
pub proof fn law_every_build_of_a_release_has_a_table(
    sixty_four_bit: bool,
    known: int,
    build: u64,
)
    requires
        0 <= known < known_builds(sixty_four_bit).len(),
    ensures
        ({
            let release = known_builds(sixty_four_bit)[known];
            table_for(sixty_four_bit, release.major, release.minor, build) is Some
        }),
{
    let builds = known_builds(sixty_four_bit);
    lemma_newest_table(builds, builds[known].major, builds[known].minor, known);
}

/// The table describing the network structures of one build of Windows.
///
/// A build newer than any listed uses the newest that is, since the structures
/// change rarely once a release has settled.
#[verifier::loop_isolation(false)]
pub fn choose_table(sixty_four_bit: bool, major: u64, minor: u64, build: u64) -> (table: Option<
    &'static str,
>)
    ensures
        table == table_for(sixty_four_bit, major, minor, build),
{
    let builds = list_builds(sixty_four_bit);
    let mut i: usize = 0;
    while i < builds.len()
        invariant
            i <= builds@.len(),
            exact_table(builds@, major, minor, build, 0) == exact_table(
                builds@,
                major,
                minor,
                build,
                i as int,
            ),
        decreases builds@.len() - i,
    {
        if builds[i].major == major && builds[i].minor == minor && builds[i].build == build {
            return Some(builds[i].table);
        }
        i = i + 1;
    }
    // Nothing matched exactly, so the newest description for this release of
    // Windows stands in.
    let mut left: usize = builds.len();
    assert(builds@.take(left as int) =~= builds@);
    while left > 0
        invariant
            left <= builds@.len(),
            newest_table(builds@, major, minor) == newest_table(
                builds@.take(left as int),
                major,
                minor,
            ),
        decreases left,
    {
        assert(builds@.take(left as int).drop_last() =~= builds@.take(left - 1));
        if builds[left - 1].major == major && builds[left - 1].minor == minor {
            return Some(builds[left - 1].table);
        }
        left = left - 1;
    }
    None
}

/// The version of Windows that the kernel's own records name: the major and
/// minor version, and the build.
pub open spec fn version_of(context: &Context, kernel: &Module) -> Option<(u64, u64, u64)> {
    match context.typed_symbol(kernel, "KdVersionBlock", "_DBGKD_GET_VERSION64") {
        Some(version) => match (
            context.member_u64(version, "MinorVersion"),
            context.object(
                context.get_type(kernel.table, "_KUSER_SHARED_DATA"),
                kernel.layer,
                shared_address(context, kernel),
            ),
        ) {
            (Some(build), Some(shared)) => match (
                context.member_u64(shared, "NtMajorVersion"),
                context.member_u64(shared, "NtMinorVersion"),
            ) {
                (Some(major), Some(minor)) => Some((major, minor, build)),
                _ => None,
            },
            _ => None,
        },
        None => None,
    }
}

pub open spec fn spec_shared_address(context: &Context, kernel: &Module) -> u64 {
    (if context.pointer_size(kernel) == 8 {
        0xffff_f780_0000_0000u64
    } else {
        0xffdf_0000u64
    }) & context.address_mask(kernel.layer)
}

/// Where the page shared with every process stands, which is fixed on every
/// build.
#[verifier::when_used_as_spec(spec_shared_address)]
pub fn shared_address(context: &Context, kernel: &Module) -> (address: u64)
    ensures
        address == spec_shared_address(context, kernel),
{
    (if context.pointer_size(kernel) == 8 {
        0xffff_f780_0000_0000u64
    } else {
        0xffdf_0000u64
    }) & context.address_mask(kernel.layer)
}

fn read_version(context: &Context, kernel: &Module) -> (version: Option<(u64, u64, u64)>)
    ensures
        version == version_of(context, kernel),
{
    match context.typed_symbol(kernel, "KdVersionBlock", "_DBGKD_GET_VERSION64") {
        Some(version) => match (
            context.member_u64(version, "MinorVersion"),
            context.object(
                context.get_type(kernel.table, "_KUSER_SHARED_DATA"),
                kernel.layer,
                shared_address(context, kernel),
            ),
        ) {
            (Some(build), Some(shared)) => match (
                context.member_u64(shared, "NtMajorVersion"),
                context.member_u64(shared, "NtMinorVersion"),
            ) {
                (Some(major), Some(minor)) => Some((major, minor, build)),
                _ => None,
            },
            _ => None,
        },
        None => None,
    }
}

/// What a version without a description fails with.
pub open spec fn unsupported(major: u64, minor: u64, build: u64) -> Failure {
    Failure::Other(
        "This version of Windows is not supported: "@ + text::decimal_text(major as int)
            + seq!['.'] + text::decimal_text(minor as int) + seq![' '] + text::decimal_text(
            build as int,
        ),
    )
}

/// The description of the network structures for this build of Windows, where
/// there is one and it can be had.
pub open spec fn described_by(context: &Context, kernel: &Module) -> Result<&'static str, Failure> {
    match version_of(context, kernel) {
        Some((major, minor, build)) => match table_for(
            context.pointer_size(kernel) == 8,
            major,
            minor,
            build,
        ) {
            Some(table) => if context.table_named(table) is Some {
                Ok(table)
            } else {
                Err(Failure::Unavailable)
            },
            None => Err(unsupported(major, minor, build)),
        },
        None => Err(Failure::Unavailable),
    }
}

/// What a result that holds a name says.
pub open spec fn named_outcome(result: Result<&'static str, VolatilityError>) -> Result<
    &'static str,
    Failure,
> {
    match result {
        Ok(name) => Ok(name),
        Err(error) => Err(error@),
    }
}

/// Find the description of the network structures for this build of Windows.
///
/// The structures belong to the network driver, whose layout changed often
/// enough that a table is kept for each build. The build is read from the
/// kernel's own version records rather than from the driver.
pub fn netscan_table(context: &Context, kernel: &Module) -> (table: Result<
    &'static str,
    VolatilityError,
>)
    ensures
        named_outcome(table) == described_by(context, kernel),
{
    let (major, minor, build) = match read_version(context, kernel) {
        Some(version) => version,
        None => return Err(VolatilityError::Unavailable),
    };
    match choose_table(context.pointer_size(kernel) == 8, major, minor, build) {
        Some(table) => if context.table_named(table).is_some() {
            Ok(table)
        } else {
            Err(VolatilityError::Unavailable)
        },
        None => {
            let mut words = "This version of Windows is not supported: ".to_owned();
            words.append(&decimal(major));
            words.push('.');
            words.append(&decimal(minor));
            words.push(' ');
            words.append(&decimal(build));
            assert(Failure::Other(words@) == unsupported(major, minor, build)) by {
                assert(words@ =~= "This version of Windows is not supported: "@
                    + text::decimal_text(major as int) + seq!['.'] + text::decimal_text(
                    minor as int,
                ) + seq![' '] + text::decimal_text(build as int));
            }
            Err(VolatilityError::Other(words))
        },
    }
}

pub open spec fn spec_family(context: &Context, object: Object) -> Option<u64> {
    match context.member_target(object, "InetAF") {
        Some(family) => context.member_u64(family, "AddressFamily"),
        None => None,
    }
}

/// The address family a socket belongs to.
#[verifier::when_used_as_spec(spec_family)]
pub fn address_family(context: &Context, object: Object) -> (family: Option<u64>)
    ensures
        family == spec_family(context, object),
{
    match context.member_target(object, "InetAF") {
        Some(family) => context.member_u64(family, "AddressFamily"),
        None => None,
    }
}

/// One byte of an address, treating anything unreadable as zero.
pub open spec fn address_byte(context: &Context, address: Object, member: &str, at: int) -> u8 {
    plugins::windows::mbrscan::element(context, address, member, at as u64) as u8
}

/// The bytes of an address.
pub open spec fn bytes_of_address(context: &Context, address: Object, member: &str, length: nat) -> Seq<
    u8,
> {
    Seq::new(length, |i: int| address_byte(context, address, member, i))
}

/// Read an address's bytes, treating anything unreadable as zero.
pub fn address_bytes(context: &Context, address: Object, member: &str, length: usize) -> (bytes: Vec<
    u8,
>)
    ensures
        bytes@ == bytes_of_address(context, address, member, length as nat),
{
    let mut bytes: Vec<u8> = Vec::new();
    for i in 0..length
        invariant
            bytes@ == bytes_of_address(context, address, member, i as nat),
    {
        bytes.push(element(context, address, member, i as u64) as u8);
        assert(bytes@ =~= bytes_of_address(context, address, member, (i + 1) as nat));
    }
    bytes
}

/// The four bytes of a version four address.
#[verifier::opaque]
pub open spec fn four_text(context: &Context, address: Object) -> Seq<char> {
    addresses::ipv4_text(bytes_of_address(context, address, "addr4", 4))
}

/// The sixteen bytes of a version six address, written the way the C library
/// writes one.
#[verifier::opaque]
pub open spec fn six_text(context: &Context, address: Object) -> Seq<char> {
    addresses::ipv6_text(addresses::groups_of(bytes_of_address(context, address, "addr6", 16)))
}

/// The four bytes of a version four address.
pub fn ipv4(context: &Context, address: Object) -> (text: String)
    ensures
        text@ == four_text(context, address),
{
    reveal(four_text);
    let bytes = address_bytes(context, address, "addr4", 4);
    assert(bytes@ =~= seq![bytes@[0], bytes@[1], bytes@[2], bytes@[3]]);
    write_ipv4(bytes[0], bytes[1], bytes[2], bytes[3])
}

/// The sixteen bytes of a version six address, written the way the C library
/// writes one.
pub fn ipv6(context: &Context, address: Object) -> (text: String)
    ensures
        text@ == six_text(context, address),
{
    reveal(six_text);
    let bytes = address_bytes(context, address, "addr6", 16);
    write_ipv6_bytes(&bytes)
}

pub open spec fn spec_target_of(context: &Context, object: Option<Object>) -> Option<Object> {
    match object {
        Some(object) => context.dereference(object),
        None => None,
    }
}

/// What a pointer, where there is one, leads to.
#[verifier::when_used_as_spec(spec_target_of)]
pub fn target_of(context: &Context, object: Option<Object>) -> (target: Option<Object>)
    ensures
        target == spec_target_of(context, object),
{
    match object {
        Some(object) => context.dereference(object),
        None => None,
    }
}

/// The address a listening socket is bound to, if it is bound to one at all.
///
/// The later structure points straight at the address. The earlier one points
/// at a pointer to it. A pointer to address zero reads without error but names
/// nothing.
pub open spec fn bound_to(context: &Context, object: Object) -> Option<Object> {
    match context.member_target(object, "LocalAddr") {
        Some(local) => match if text::ends(
            context.kind_text(local.kind),
            "_LOCAL_ADDRESS_WIN10_UDP"@,
        ) {
            context.member_target(local, "pData")
        } else {
            target_of(context, context.member_target(local, "pData"))
        } {
            Some(address) => if first_byte(context, address) is Some {
                Some(address)
            } else {
                None
            },
            None => None,
        },
        None => None,
    }
}

pub open spec fn spec_first_byte(context: &Context, address: Object) -> Option<u64> {
    match context.member(address, "addr4") {
        Some(array) => match context.index(array, 0) {
            Some(place) => context.as_u64(place),
            None => None,
        },
        None => None,
    }
}

/// The first byte of an address.
#[verifier::when_used_as_spec(spec_first_byte)]
pub fn first_byte(context: &Context, address: Object) -> (byte: Option<u64>)
    ensures
        byte == spec_first_byte(context, address),
{
    match context.member(address, "addr4") {
        Some(array) => match context.index(array, 0) {
            Some(place) => context.as_u64(place),
            None => None,
        },
        None => None,
    }
}

/// The address a listening socket is bound to, if it is bound to one at all.
pub fn bound_address(context: &Context, object: Object) -> (address: Option<Object>)
    ensures
        address == bound_to(context, object),
{
    match context.member_target(object, "LocalAddr") {
        Some(local) => {
            let address = if ends_with(
                &context.kind_name(local.kind),
                "_LOCAL_ADDRESS_WIN10_UDP",
            ) {
                context.member_target(local, "pData")
            } else {
                target_of(context, context.member_target(local, "pData"))
            };
            match address {
                Some(address) => if first_byte(context, address).is_some() {
                    Some(address)
                } else {
                    None
                },
                None => None,
            }
        },
        None => None,
    }
}

/// One end of a socket: the version of its address, its own address, and the
/// address of whatever reaches it.
#[derive(Debug)]
pub struct Stack {
    pub version: &'static str,
    pub local: String,
    pub remote: String,
}

/// What one end of a socket says.
#[verifier::ext_equal]
pub struct StackView {
    pub version: Seq<char>,
    pub local: Seq<char>,
    pub remote: Seq<char>,
}

/// What the ends of a socket say.
pub open spec fn stack_views(stacks: Seq<Stack>) -> Seq<StackView> {
    Seq::new(
        stacks.len(),
        |i: int|
            StackView {
                version: stacks[i].version@,
                local: stacks[i].local@,
                remote: stacks[i].remote@,
            },
    )
}

/// The addresses a socket reports, which for a dual-stack socket is one per
/// family.
pub open spec fn stacks_of(context: &Context, object: Object) -> Seq<StackView> {
    let family = address_family(context, object);
    match bound_to(context, object) {
        Some(address) => if family == Some(AF_INET) {
            seq![
                StackView {
                    version: "v4"@,
                    local: four_text(context, address),
                    remote: "0.0.0.0"@,
                },
            ]
        } else if family == Some(AF_INET6) {
            seq![StackView { version: "v6"@, local: six_text(context, address), remote: "::"@ }]
        } else {
            Seq::empty()
        },
        None => {
            let four = StackView { version: "v4"@, local: "0.0.0.0"@, remote: "0.0.0.0"@ };
            if family == Some(AF_INET6) {
                seq![four, StackView { version: "v6"@, local: "::"@, remote: "::"@ }]
            } else {
                seq![four]
            }
        },
    }
}

fn add_stack(stacks: &mut Vec<Stack>, version: &'static str, local: String, remote: &str)
    ensures
        stack_views(final(stacks)@) == stack_views(old(stacks)@).push(
            StackView { version: version@, local: local@, remote: remote@ },
        ),
{
    let ghost before = stack_views(stacks@);
    let ghost added = StackView { version: version@, local: local@, remote: remote@ };
    stacks.push(Stack { version, local, remote: remote.to_owned() });
    assert(stack_views(stacks@) =~= before.push(added));
}

/// The addresses a socket reports, which for a dual-stack socket is one per
/// family.
pub fn dual_stack(context: &Context, object: Object) -> (stacks: Vec<Stack>)
    ensures
        stack_views(stacks@) == stacks_of(context, object),
{
    let mut stacks: Vec<Stack> = Vec::new();
    assert(stack_views(stacks@) =~= Seq::<StackView>::empty());
    let family = address_family(context, object);
    let is_v4 = match family {
        Some(family) => family == AF_INET,
        None => false,
    };
    let is_v6 = match family {
        Some(family) => family == AF_INET6,
        None => false,
    };
    match bound_address(context, object) {
        Some(address) => {
            if is_v4 {
                add_stack(&mut stacks, "v4", ipv4(context, address), "0.0.0.0");
            } else if is_v6 {
                add_stack(&mut stacks, "v6", ipv6(context, address), "::");
            }
        },
        None => {
            add_stack(&mut stacks, "v4", "0.0.0.0".to_owned(), "0.0.0.0");
            if is_v6 {
                add_stack(&mut stacks, "v6", "::".to_owned(), "::");
            }
        },
    }
    stacks
}

/// An address in the form its family calls for.
pub open spec fn family_text(context: &Context, object: Object, address: Object) -> Seq<char> {
    if address_family(context, object) == Some(AF_INET) {
        four_text(context, address)
    } else {
        six_text(context, address)
    }
}

fn family_address(context: &Context, object: Object, address: Object) -> (text: String)
    ensures
        text@ == family_text(context, object, address),
{
    match address_family(context, object) {
        Some(family) => if family == AF_INET {
            ipv4(context, address)
        } else {
            ipv6(context, address)
        },
        None => ipv6(context, address),
    }
}

/// The near end of a connection.
pub open spec fn local_text(context: &Context, object: Object) -> Option<Seq<char>> {
    match context.member_target(object, "AddrInfo") {
        Some(info) => match context.member_target(info, "Local") {
            Some(local) => match target_of(context, context.member_target(local, "pData")) {
                Some(address) => Some(family_text(context, object, address)),
                None => None,
            },
            None => None,
        },
        None => None,
    }
}

/// The far end of a connection.
pub open spec fn remote_text(context: &Context, object: Object) -> Option<Seq<char>> {
    match context.member_target(object, "AddrInfo") {
        Some(info) => match context.member_target(info, "Remote") {
            Some(address) => Some(family_text(context, object, address)),
            None => None,
        },
        None => None,
    }
}

/// The near end of a connection.
pub fn local_address(context: &Context, object: Object) -> (address: Option<String>)
    ensures
        text::maybe_text(address) == local_text(context, object),
{
    match context.member_target(object, "AddrInfo") {
        Some(info) => match context.member_target(info, "Local") {
            Some(local) => match target_of(context, context.member_target(local, "pData")) {
                Some(address) => Some(family_address(context, object, address)),
                None => None,
            },
            None => None,
        },
        None => None,
    }
}

/// The far end of a connection.
pub fn remote_address(context: &Context, object: Object) -> (address: Option<String>)
    ensures
        text::maybe_text(address) == remote_text(context, object),
{
    match context.member_target(object, "AddrInfo") {
        Some(info) => match context.member_target(info, "Remote") {
            Some(address) => Some(family_address(context, object, address)),
            None => None,
        },
        None => None,
    }
}

pub open spec fn spec_owner(context: &Context, object: Object) -> Option<Object> {
    match context.member_target(object, "Owner") {
        Some(process) => if context.process_is_valid(process) {
            Some(process)
        } else {
            None
        },
        None => None,
    }
}

/// The process that opened a socket, where it can still be read. A process that
/// no longer looks like one says nothing about the socket.
#[verifier::when_used_as_spec(spec_owner)]
pub fn owner(context: &Context, object: Object) -> (process: Option<Object>)
    ensures
        process == spec_owner(context, object),
{
    match context.member_target(object, "Owner") {
        Some(process) => if context.process_is_valid(process) {
            Some(process)
        } else {
            None
        },
        None => None,
    }
}

pub open spec fn spec_owner_pid(context: &Context, object: Object) -> Option<u64> {
    match owner(context, object) {
        Some(process) => context.pid(process),
        None => None,
    }
}

/// The number of the process that opened a socket.
#[verifier::when_used_as_spec(spec_owner_pid)]
pub fn owner_pid(context: &Context, object: Object) -> (pid: Option<u64>)
    ensures
        pid == spec_owner_pid(context, object),
{
    match owner(context, object) {
        Some(process) => context.pid(process),
        None => None,
    }
}

/// The name of the process that opened a socket.
pub open spec fn owner_name(context: &Context, object: Object) -> Option<Seq<char>> {
    match owner(context, object) {
        Some(process) => context.image_name_of(process),
        None => None,
    }
}

fn read_owner_name(context: &Context, object: Object) -> (name: Option<String>)
    ensures
        text::maybe_text(name) == owner_name(context, object),
{
    match owner(context, object) {
        Some(process) => context.image_file_name(process),
        None => None,
    }
}

/// When a socket was opened, where the recorded moment is believable, given what
/// the recorded time shows as.
pub open spec fn believable(shown: Cell, year: Option<i32>) -> Cell {
    match shown {
        Cell::Time(moment) => match year {
            Some(year) => if EARLIEST_YEAR <= year <= LATEST_YEAR {
                Cell::Time(moment)
            } else {
                Cell::unreadable()
            },
            None => Cell::unreadable(),
        },
        other => other,
    }
}

/// When a socket was opened, where the recorded moment is believable, given what
/// the recorded time shows as and the year it lies in.
pub fn believable_time(shown: Value, year: Option<i32>) -> (value: Value)
    ensures
        value@ == believable(shown@, year),
{
    match shown {
        Value::DateTime(moment) => match year {
            Some(year) => if EARLIEST_YEAR <= year && year <= LATEST_YEAR {
                Value::DateTime(moment)
            } else {
                Value::unreadable()
            },
            None => Value::unreadable(),
        },
        other => other,
    }
}

/// When a socket was opened, where the recorded moment is believable.
pub open spec fn create_cell(context: &Context, object: Object) -> Cell {
    match context.quad(object, "CreateTime") {
        Some(raw) => match time::wintime_cell(raw) {
            Cell::Time(moment) => believable(
                Cell::Time(moment),
                time::calendar_year(moment.seconds),
            ),
            other => other,
        },
        None => Cell::unreadable(),
    }
}

/// When a socket was opened, where the recorded moment is believable.
pub fn create_time(context: &Context, object: Object) -> (value: Value)
    ensures
        value@ == create_cell(context, object),
{
    match context.quad(object, "CreateTime") {
        Some(raw) => match wintime_value(raw) {
            Value::DateTime(moment) => believable_time(
                Value::DateTime(moment),
                year_of(moment.seconds),
            ),
            other => other,
        },
        None => Value::unreadable(),
    }
}

/// An address, or that it could not be read.
pub open spec fn address_cell(address: Seq<char>) -> Cell {
    if address.len() == 0 {
        Cell::unreadable()
    } else {
        Cell::Text(address)
    }
}

fn address_value(address: String) -> (value: Value)
    ensures
        value@ == address_cell(address@),
{
    if address.as_str().is_empty() {
        Value::unreadable()
    } else {
        Value::String(address)
    }
}

/// What a row says, given the parts that differ between kinds of sockets.
pub open spec fn socket_cells(
    context: &Context,
    object: Object,
    protocol: Seq<char>,
    local: Seq<char>,
    local_port: u64,
    remote: Seq<char>,
    remote_port: u64,
    state: Cell,
) -> Seq<Cell> {
    seq![
        Cell::hex(object.offset),
        Cell::Text(protocol),
        address_cell(local),
        Cell::integer(local_port as i64),
        address_cell(remote),
        Cell::integer(remote_port as i64),
        state,
        Cell::integer_or_unreadable(owner_pid(context, object)),
        Cell::text_or_unreadable(owner_name(context, object)),
        create_cell(context, object),
    ]
}

fn socket_row(
    context: &Context,
    object: Object,
    protocol: String,
    local: String,
    local_port: u64,
    remote: String,
    remote_port: u64,
    state: Value,
) -> (row: Row)
    ensures
        row@ == socket_cells(
            context,
            object,
            protocol@,
            local@,
            local_port,
            remote@,
            remote_port,
            state@,
        ),
{
    Row::new().with(Value::hex(object.offset)).with(Value::String(protocol)).with(
        address_value(local),
    ).with(Value::integer(local_port as i64)).with(address_value(remote)).with(
        Value::integer(remote_port as i64),
    ).with(state).with(Value::integer_or_unreadable(owner_pid(context, object))).with(
        Value::text_or_unreadable(&read_owner_name(context, object)),
    ).with(create_time(context, object))
}

pub open spec fn spec_listener_is_valid(context: &Context, object: Object) -> bool {
    address_family(context, object) == Some(AF_INET) || address_family(context, object) == Some(
        AF_INET6,
    )
}

/// Whether a socket is coherent enough to report.
#[verifier::when_used_as_spec(spec_listener_is_valid)]
pub fn listener_is_valid(context: &Context, object: Object) -> (valid: bool)
    ensures
        valid == spec_listener_is_valid(context, object),
{
    match address_family(context, object) {
        Some(family) => family == AF_INET || family == AF_INET6,
        None => false,
    }
}

/// Whether a connection is coherent enough to report: its state is one the
/// stack defines, it belongs to a family, and without a local address its owner
/// is believable instead.
pub open spec fn is_valid_endpoint(context: &Context, object: Object) -> bool {
    &&& match context.member(object, "State") {
        Some(state) => context.choice_of(state) is Some,
        None => false,
    }
    &&& listener_is_valid(context, object)
    &&& local_text(context, object) is None ==> match owner_pid(context, object) {
        Some(pid) => 0 < pid <= 65535,
        None => false,
    }
}

/// Whether a connection is coherent enough to report.
pub fn endpoint_is_valid(context: &Context, object: Object) -> (valid: bool)
    ensures
        valid == is_valid_endpoint(context, object),
{
    let known = match context.member(object, "State") {
        Some(state) => context.enum_name(state).is_some(),
        None => false,
    };
    if !known || !listener_is_valid(context, object) {
        return false;
    }
    if local_address(context, object).is_none() {
        match owner_pid(context, object) {
            Some(pid) => 0 < pid && pid <= 65535,
            None => false,
        }
    } else {
        true
    }
}

/// The rows of the first ends of a socket.
pub open spec fn stack_rows(
    context: &Context,
    object: Object,
    prefix: Seq<char>,
    stacks: Seq<StackView>,
    datagram: bool,
    count: int,
) -> Seq<Seq<Cell>>
    decreases count,
{
    if count <= 0 {
        Seq::empty()
    } else {
        let stack = stacks[count - 1];
        stack_rows(context, object, prefix, stacks, datagram, count - 1).push(
            socket_cells(
                context,
                object,
                prefix + stack.version,
                stack.local,
                plugins::windows::mbrscan::field(context, object, "Port"),
                if datagram {
                    "*"@
                } else {
                    stack.remote
                },
                0,
                Cell::Text(
                    if datagram {
                        Seq::empty()
                    } else {
                        "LISTENING"@
                    },
                ),
            ),
        )
    }
}

fn add_stack_rows(
    context: &Context,
    object: Object,
    prefix: &str,
    datagram: bool,
    rows: &mut Vec<Row>,
)
    requires
        old(rows)@.len() == 0,
    ensures
        renderers::row_views(final(rows)@) == stack_rows(
            context,
            object,
            prefix@,
            stacks_of(context, object),
            datagram,
            stacks_of(context, object).len() as int,
        ),
{
    let stacks = dual_stack(context, object);
    let ghost views = stack_views(stacks@);
    assert(renderers::row_views(rows@) =~= Seq::<Seq<Cell>>::empty());
    for i in 0..stacks.len()
        invariant
            views == stack_views(stacks@),
            renderers::row_views(rows@) == stack_rows(
                context,
                object,
                prefix@,
                views,
                datagram,
                i as int,
            ),
    {
        assert(views[i as int].version == stacks@[i as int].version@);
        let mut protocol = prefix.to_owned();
        protocol.append(stacks[i].version);
        // A datagram socket has no far end and no state at all. A listener is
        // listening, and the far end is whatever reaches it.
        let remote = if datagram {
            "*".to_owned()
        } else {
            stacks[i].remote.clone()
        };
        let state = if datagram {
            Value::String(String::new())
        } else {
            Value::string("LISTENING")
        };
        let row = socket_row(
            context,
            object,
            protocol,
            stacks[i].local.clone(),
            field(context, object, "Port"),
            remote,
            0,
            state,
        );
        push_row(rows, row);
    }
}

/// A text, or none at all.
pub open spec fn text_or_empty(text: Option<Seq<char>>) -> Seq<char> {
    match text {
        Some(text) => text,
        None => Seq::empty(),
    }
}

fn or_empty(text: Option<String>) -> (given: String)
    ensures
        given@ == text_or_empty(text::maybe_text(text)),
{
    match text {
        Some(text) => text,
        None => String::new(),
    }
}

/// The row of a connection.
pub open spec fn endpoint_cells(context: &Context, object: Object) -> Seq<Cell> {
    let family = address_family(context, object);
    socket_cells(
        context,
        object,
        if family == Some(AF_INET) {
            "TCPv4"@
        } else if family == Some(AF_INET6) {
            "TCPv6"@
        } else {
            "TCPv?"@
        },
        text_or_empty(local_text(context, object)),
        plugins::windows::mbrscan::field(context, object, "LocalPort"),
        text_or_empty(remote_text(context, object)),
        plugins::windows::mbrscan::field(context, object, "RemotePort"),
        Cell::text_or_unreadable(
            match context.member(object, "State") {
                Some(state) => context.choice_of(state),
                None => None,
            },
        ),
    )
}

fn endpoint_row(context: &Context, object: Object) -> (row: Row)
    ensures
        row@ == endpoint_cells(context, object),
{
    let family: u64 = match address_family(context, object) {
        Some(family) => family,
        None => 0,
    };
    let protocol = if family == AF_INET {
        "TCPv4".to_owned()
    } else if family == AF_INET6 {
        "TCPv6".to_owned()
    } else {
        "TCPv?".to_owned()
    };
    let state = match context.member(object, "State") {
        Some(state) => context.enum_name(state),
        None => None,
    };
    socket_row(
        context,
        object,
        protocol,
        or_empty(local_address(context, object)),
        field(context, object, "LocalPort"),
        or_empty(remote_address(context, object)),
        field(context, object, "RemotePort"),
        Value::text_or_unreadable(&state),
    )
}

/// The rows one network object produces, which is more than one for a socket
/// that is bound to both address families.
///
/// An object that does not hold together is reported only when the caller asks
/// for what could not be read as well.
pub open spec fn rows_of(context: &Context, object: Object, corrupt: bool) -> Seq<Seq<Cell>> {
    let kind = context.kind_text(object.kind);
    let stacks = stacks_of(context, object);
    if kind == "_UDP_ENDPOINT"@ {
        if corrupt || listener_is_valid(context, object) {
            stack_rows(context, object, "UDP"@, stacks, true, stacks.len() as int)
        } else {
            Seq::empty()
        }
    } else if kind == "_TCP_ENDPOINT"@ {
        if corrupt || is_valid_endpoint(context, object) {
            seq![endpoint_cells(context, object)]
        } else {
            Seq::empty()
        }
    } else if kind == "_TCP_LISTENER"@ {
        if corrupt || listener_is_valid(context, object) {
            stack_rows(context, object, "TCP"@, stacks, false, stacks.len() as int)
        } else {
            Seq::empty()
        }
    } else {
        Seq::empty()
    }
}

/// The rows one network object produces, which is more than one for a socket
/// that is bound to both address families.
///
/// An object that does not hold together is reported only when the caller asks
/// for what could not be read as well.
pub fn rows_for(context: &Context, object: Object, corrupt: bool) -> (rows: Vec<Row>)
    ensures
        renderers::row_views(rows@) == rows_of(context, object, corrupt),
{
    let kind = context.kind_name(object.kind);
    let mut rows: Vec<Row> = Vec::new();
    assert(renderers::row_views(rows@) =~= Seq::<Seq<Cell>>::empty());
    if same_text(&kind, "_UDP_ENDPOINT") {
        if corrupt || listener_is_valid(context, object) {
            add_stack_rows(context, object, "UDP", true, &mut rows);
        }
    } else if same_text(&kind, "_TCP_ENDPOINT") {
        if corrupt || endpoint_is_valid(context, object) {
            push_row(&mut rows, endpoint_row(context, object));
        }
    } else if same_text(&kind, "_TCP_LISTENER") {
        if corrupt || listener_is_valid(context, object) {
            add_stack_rows(context, object, "TCP", false, &mut rows);
        }
    }
    rows
}

pub open spec fn spec_type_size(context: &Context, table: &str, name: &str) -> u64 {
    match context.table_type(table, name) {
        Some(kind) => match context.size_of(kind) {
            Some(size) => size,
            None => 0,
        },
        None => 0,
    }
}

/// How many bytes a type of a table covers, or zero where there is none.
#[verifier::when_used_as_spec(spec_type_size)]
pub fn type_size(context: &Context, table: &str, name: &str) -> (size: u64)
    ensures
        size == spec_type_size(context, table, name),
{
    match context.table_type(table, name) {
        Some(kind) => match context.size_of(kind) {
            Some(size) => size,
            None => 0,
        },
        None => 0,
    }
}

/// The allocations that hold one kind of network object.
pub open spec fn network_constraint(
    context: &Context,
    table: &str,
    index: usize,
    tag: u32,
    structure: &'static str,
) -> PoolConstraint {
    PoolConstraint {
        tag,
        structure,
        pool: NONPAGED | FREE,
        table: index,
        least: Some(type_size(context, table, structure)),
        most: None,
        least_index: None,
        most_index: None,
    }
}

fn make_constraint(
    context: &Context,
    table: &str,
    index: usize,
    tag: u32,
    structure: &'static str,
) -> (constraint: PoolConstraint)
    ensures
        constraint == network_constraint(context, table, index, tag, structure),
{
    PoolConstraint {
        tag,
        structure,
        pool: NONPAGED | FREE,
        table: index,
        least: Some(type_size(context, table, structure)),
        most: None,
        least_index: None,
        most_index: None,
    }
}

/// What a scan for network objects looks for. One build of Windows tags its
/// connections differently.
pub open spec fn network_constraints(context: &Context, table: &str, index: usize) -> Seq<
    PoolConstraint,
> {
    let common = seq![
        network_constraint(context, table, index, LISTENER_TAG, "_TCP_LISTENER"),
        network_constraint(context, table, index, ENDPOINT_TAG, "_TCP_ENDPOINT"),
        network_constraint(context, table, index, DATAGRAM_TAG, "_UDP_ENDPOINT"),
    ];
    if text::begins(table@, "netscan-win10-20348"@) {
        common.push(
            network_constraint(context, table, index, LATER_ENDPOINT_TAG, "_TCP_ENDPOINT"),
        )
    } else {
        common
    }
}

/// The network objects the pools hold.
pub open spec fn network_objects(context: &Context, table: &str) -> Option<Seq<Object>> {
    match context.table_named(table) {
        Some(index) => match symbols::windows::scanned(
            context,
            network_constraints(context, table, index),
        ) {
            Some(hits) => Some(plugins::windows::psscan::objects_of(hits)),
            None => None,
        },
        None => None,
    }
}

/// Scan for every kind of network object the stack allocates.
pub fn scan(context: &Context, table: &str) -> (found: Result<Vec<Object>, VolatilityError>)
    ensures
        match found {
            Ok(objects) => network_objects(context, table) == Some(objects@),
            Err(error) => network_objects(context, table) is None && error@
                == Failure::Unavailable,
        },
{
    let index = match context.table_named(table) {
        Some(index) => index,
        None => return Err(VolatilityError::Unavailable),
    };
    let mut constraints = vec![
        make_constraint(context, table, index, LISTENER_TAG, "_TCP_LISTENER"),
        make_constraint(context, table, index, ENDPOINT_TAG, "_TCP_ENDPOINT"),
        make_constraint(context, table, index, DATAGRAM_TAG, "_UDP_ENDPOINT"),
    ];
    if starts_with(table, "netscan-win10-20348") {
        constraints.push(
            make_constraint(context, table, index, LATER_ENDPOINT_TAG, "_TCP_ENDPOINT"),
        );
    }
    assert(constraints@ =~= network_constraints(context, table, index));
    match generate_pool_scan(context, &constraints) {
        Some(hits) => {
            let mut objects: Vec<Object> = Vec::new();
            for i in 0..hits.len()
                invariant
                    objects@ == plugins::windows::psscan::objects_of(hits@).take(i as int),
            {
                objects.push(hits[i].object);
            }
            assert(objects@ =~= plugins::windows::psscan::objects_of(hits@));
            Ok(objects)
        },
        None => Err(VolatilityError::Unavailable),
    }
}

/// The report once the first of some network objects are in it.
pub open spec fn reported(
    context: &Context,
    corrupt: bool,
    headings: Seq<Column>,
    objects: Seq<Object>,
    count: int,
) -> Table
    decreases count,
{
    if count <= 0 {
        Table::empty(headings)
    } else {
        reported(context, corrupt, headings, objects, count - 1).push_all(
            rows_of(context, objects[count - 1], corrupt),
        )
    }
}

/// A value of a row as a timeline names it: one that could not be read is named
/// rather than left blank.
pub open spec fn field_words(cell: Cell) -> Seq<char> {
    if cell is Absent {
        "N/A"@
    } else {
        timeline_helpers::plain_number(cell)
    }
}

fn field_text(value: &Value) -> (words: String)
    ensures
        words@ == field_words(value@),
{
    if value.is_absent() {
        "N/A".to_owned()
    } else {
        number(value)
    }
}

/// What a row of sockets says in a timeline, given how its values are named.
pub open spec fn connection_words(fields: Seq<Seq<char>>) -> Seq<char> {
    "Network connection: Process "@ + fields[7] + seq![' '] + fields[8] + " Local Address "@
        + fields[2] + seq![':'] + fields[3] + " Remote Address "@ + fields[4] + seq![':']
        + fields[5] + " State "@ + fields[6] + " Protocol "@ + fields[1] + seq![' ']
}

/// What a row of sockets says in a timeline.
pub fn describe_connection(fields: &Vec<String>) -> (words: String)
    requires
        fields@.len() == 10,
    ensures
        words@ == connection_words(text::texts(fields@)),
{
    let mut words = "Network connection: Process ".to_owned();
    words.append(&fields[7]);
    words.push(' ');
    words.append(&fields[8]);
    words.append(" Local Address ");
    words.append(&fields[2]);
    words.push(':');
    words.append(&fields[3]);
    words.append(" Remote Address ");
    words.append(&fields[4]);
    words.push(':');
    words.append(&fields[5]);
    words.append(" State ");
    words.append(&fields[6]);
    words.append(" Protocol ");
    words.append(&fields[1]);
    words.push(' ');
    assert(words@ =~= connection_words(text::texts(fields@)));
    words
}

/// The values of a row of sockets as a timeline names them. With `named`, one
/// that could not be read is named rather than left blank.
pub open spec fn row_fields(cells: Seq<Cell>, named: bool) -> Seq<Seq<char>> {
    Seq::new(
        cells.len(),
        |i: int|
            if named {
                field_words(cells[i])
            } else {
                timeline_helpers::plain_number(cells[i])
            },
    )
}

fn name_fields(values: &Vec<Value>, named: bool) -> (fields: Vec<String>)
    ensures
        text::texts(fields@) == row_fields(renderers::cells(values@), named),
{
    let mut fields: Vec<String> = Vec::new();
    let ghost all = row_fields(renderers::cells(values@), named);
    for i in 0..values.len()
        invariant
            all == row_fields(renderers::cells(values@), named),
            text::texts(fields@) =~= all.take(i as int),
    {
        let field = if named {
            field_text(&values[i])
        } else {
            number(&values[i])
        };
        push_text(&mut fields, field);
    }
    assert(text::texts(fields@) =~= all);
    fields
}

/// The moments that the first rows of a report of sockets contribute.
pub open spec fn connection_moments(lines: Seq<LineView>, named: bool, count: int) -> Seq<MomentView>
    decreases count,
{
    if count <= 0 {
        Seq::empty()
    } else {
        let before = connection_moments(lines, named, count - 1);
        let cells = lines[count - 1].cells;
        if cells.len() == 10 && cells[9] is Time {
            before.push(
                MomentView {
                    description: connection_words(row_fields(cells, named)),
                    kind: TimeKind::Created,
                    time: cells[9],
                },
            )
        } else {
            before
        }
    }
}

/// The timeline that a report of sockets contributes.
pub fn connection_timeline(grid: &TreeGrid, named: bool) -> (timeline: Timeline)
    ensures
        timeline@ == (TimelineView {
            entries: connection_moments(grid@.lines, named, grid@.lines.len() as int),
            failed: false,
        }),
{
    let mut timeline = Timeline::new();
    for i in 0..grid.lines.len()
        invariant
            timeline@ == (TimelineView {
                entries: connection_moments(grid@.lines, named, i as int),
                failed: false,
            }),
    {
        let values = &grid.lines[i].row.values;
        let ghost cells = renderers::cells(values@);
        assert(grid@.lines[i as int].cells == cells);
        if values.len() == 10 && is_time(&values[9]) {
            let fields = name_fields(values, named);
            assert(fields@.len() == text::texts(fields@).len());
            timeline.push(
                &describe_connection(&fields),
                TimeKind::Created,
                values[9].copy(),
            );
        }
    }
    timeline
}

impl Plugin for NetScan {
    open spec fn named(&self) -> Seq<char> {
        "windows.netscan.NetScan"@
    }

    open spec fn described(&self) -> Seq<char> {
        "Scans for network objects present in a particular windows memory image."@
    }

    open spec fn needs(&self) -> Seq<RequirementView> {
        seq![
            RequirementView::kernel(),
            RequirementView::new(
                "include-corrupt"@,
                "Radically eases result validation. This will show partially overwritten data. WARNING: the results are likely to include garbage and/or corrupt data. Be cautious!"@,
                KindView::Bool,
            ),
        ]
    }

    open spec fn headings(&self) -> Seq<Column> {
        seq![
            Column::new("Offset", ColumnType::UInt),
            Column::string("Proto"),
            Column::string("LocalAddr"),
            Column::integer("LocalPort"),
            Column::string("ForeignAddr"),
            Column::integer("ForeignPort"),
            Column::string("State"),
            Column::integer("PID"),
            Column::string("Owner"),
            Column::datetime("Created"),
        ]
    }

    open spec fn system(&self) -> OperatingSystem {
        OperatingSystem::Windows
    }

    open spec fn report(&self, context: &Context, config: &Configuration) -> Result<Table, Failure> {
        match plugins::windows::kernel_of(context, config) {
            Some(kernel) => match described_by(context, &kernel) {
                Ok(table) => match network_objects(context, table) {
                    Some(objects) => Ok(
                        reported(
                            context,
                            config.flag("include-corrupt"@),
                            self.headings(),
                            objects,
                            objects.len() as int,
                        ),
                    ),
                    None => Err(Failure::Unavailable),
                },
                Err(failure) => Err(failure),
            },
            None => Err(plugins::windows::no_kernel()),
        }
    }

    open spec fn moments(&self, context: &Context, config: &Configuration) -> Option<TimelineView> {
        match self.report(context, config) {
            Ok(table) => Some(
                TimelineView {
                    entries: connection_moments(
                        table.lines,
                        true,
                        table.lines.len() as int,
                    ),
                    failed: false,
                },
            ),
            Err(_) => None,
        }
    }

    fn name(&self) -> (name: &'static str) {
        "windows.netscan.NetScan"
    }

    fn description(&self) -> (description: &'static str) {
        "Scans for network objects present in a particular windows memory image."
    }

    fn requirements(&self) -> (requirements: Vec<Requirement>) {
        vec![
            Requirement::kernel(),
            Requirement::new(
                "include-corrupt",
                "Radically eases result validation. This will show partially overwritten data. WARNING: the results are likely to include garbage and/or corrupt data. Be cautious!",
                RequirementKind::Bool,
            ),
        ]
    }

    fn operating_system(&self) -> (system: OperatingSystem) {
        OperatingSystem::Windows
    }

    fn columns(&self) -> (columns: Vec<Column>) {
        vec![
            Column::new("Offset", ColumnType::UInt),
            Column::string("Proto"),
            Column::string("LocalAddr"),
            Column::integer("LocalPort"),
            Column::string("ForeignAddr"),
            Column::integer("ForeignPort"),
            Column::string("State"),
            Column::integer("PID"),
            Column::string("Owner"),
            Column::datetime("Created"),
        ]
    }

    fn timeline(&self, context: &Context, config: &Configuration) -> (timeline: Option<Timeline>) {
        match self.run(context, config) {
            Ok(grid) => Some(connection_timeline(&grid, true)),
            Err(_) => None,
        }
    }

    fn epilog(&self) -> (epilog: Option<&'static str>) {
        None
    }

    fn needs_kernel(&self) -> (needed: bool) {
        false
    }

    fn run(&self, context: &Context, config: &Configuration) -> (result: Result<TreeGrid, VolatilityError>) {
        let kernel = kernel_module(context, config)?;
        let corrupt = config.is_set("include-corrupt");
        // The network structures belong to the network driver, not the kernel,
        // and are described by a table chosen for this build of Windows.
        let table = netscan_table(context, kernel)?;
        let objects = scan(context, table)?;
        let mut grid = TreeGrid::new(self.columns());
        let ghost headings = self.headings();
        for i in 0..objects.len()
            invariant
                grid@ == reported(context, corrupt, headings, objects@, i as int),
        {
            grid.push_all(rows_for(context, objects[i], corrupt));
        }
        Ok(grid)
    }
}

} // verus!
