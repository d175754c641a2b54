//! Report the network interfaces and their addresses.

use crate::config::Configuration;
use crate::context::{Context, Module, Object};
use crate::error::{Failure, VolatilityError};
use crate::plugins::{self, OperatingSystem, Plugin, Requirement, RequirementView};
use crate::plugins::mac::kernel_module;
use crate::renderers::{Cell, Column, Row, Table, TreeGrid, Value};
use crate::symbols;
use crate::symbols::mac::{read_note, walk_tailq};
use crate::text::{self, decimal};
use vstd::prelude::*;

verus! {

/// Reports the network interfaces and their addresses.
pub struct IfConfig;

/// The interface is capturing all traffic, not just its own.
pub const IFF_PROMISC: u64 = 0x100;

/// The list of interfaces, which is named differently depending on how the kernel
/// was built.
pub open spec fn interface_head(context: &Context, kernel: &Module) -> Option<Object> {
    match context.object_from_symbol(kernel, "ifnet_head") {
        Some(head) => Some(head),
        None => context.object_from_symbol(kernel, "dlil_ifnet_head"),
    }
}

/// What the report fails with where there is no list of interfaces.
pub open spec fn no_interfaces() -> Failure {
    Failure::Other("Could not find the interface list; the kernel symbols may not match"@)
}

/// What an interface is called: the driver's name and the unit's number.
pub open spec fn label_of(context: &Context, interface: Object) -> Seq<char> {
    let name = match context.member(interface, "if_name") {
        Some(name) => match context.pointed_text(name, 32) {
            Some(text) => text,
            None => Seq::empty(),
        },
        None => Seq::empty(),
    };
    let unit = match context.member_u64(interface, "if_unit") {
        Some(unit) => unit,
        None => 0,
    };
    name + text::decimal_text(unit as int)
}

fn read_label(context: &Context, interface: Object) -> (label: String)
    ensures
        label@ == label_of(context, interface),
{
    let mut label = match context.member(interface, "if_name") {
        Some(name) => match context.pointer_to_string(name, 32) {
            Some(text) => text,
            None => String::new(),
        },
        None => String::new(),
    };
    let unit: u64 = match context.member_u64(interface, "if_unit") {
        Some(unit) => unit,
        None => 0,
    };
    label.append(&decimal(unit));
    label
}

pub open spec fn spec_is_promiscuous(context: &Context, interface: Object) -> bool {
    match context.member_u64(interface, "if_flags") {
        Some(flags) => flags & IFF_PROMISC == IFF_PROMISC,
        None => false,
    }
}

/// Whether an interface captures all traffic.
#[verifier::when_used_as_spec(spec_is_promiscuous)]
pub fn is_promiscuous(context: &Context, interface: Object) -> (promiscuous: bool)
    ensures
        promiscuous == spec_is_promiscuous(context, interface),
{
    match context.member_u64(interface, "if_flags") {
        Some(flags) => flags & IFF_PROMISC == IFF_PROMISC,
        None => false,
    }
}

/// The address that one of an interface's addresses points at.
pub open spec fn spec_sockaddr_of(context: &Context, entry: Option<Object>) -> Option<Object> {
    match entry {
        Some(entry) => context.member_target(entry, "ifa_addr"),
        None => None,
    }
}

/// The address that one of an interface's addresses points at.
#[verifier::when_used_as_spec(spec_sockaddr_of)]
pub fn sockaddr_of(context: &Context, entry: Option<Object>) -> (address: Option<Object>)
    ensures
        address == spec_sockaddr_of(context, entry),
{
    match entry {
        Some(entry) => context.member_target(entry, "ifa_addr"),
        None => None,
    }
}

/// The first of an interface's addresses.
pub open spec fn spec_first_address(context: &Context, interface: Object) -> Option<Object> {
    match context.member(interface, "if_addrhead") {
        Some(head) => context.member_target(head, "tqh_first"),
        None => None,
    }
}

/// The first of an interface's addresses.
#[verifier::when_used_as_spec(spec_first_address)]
pub fn first_address(context: &Context, interface: Object) -> (first: Option<Object>)
    ensures
        first == spec_first_address(context, interface),
{
    match context.member(interface, "if_addrhead") {
        Some(head) => context.member_target(head, "tqh_first"),
        None => None,
    }
}

/// Where an interface's hardware address stands: the link-level address where the
/// kernel records one, and otherwise the first address in the list. Either way it
/// is read as a link-level address whatever the family says.
pub open spec fn link_address(context: &Context, kernel: &Module, interface: Object) -> Option<
    Object,
> {
    let address = if context.has_member(interface, "if_lladdr") {
        sockaddr_of(context, context.member_target(interface, "if_lladdr"))
    } else {
        sockaddr_of(context, first_address(context, interface))
    };
    match address {
        Some(address) => context.cast(address, context.get_type(kernel.table, "sockaddr_dl")),
        None => None,
    }
}

/// An interface's hardware address.
pub open spec fn hardware_cell(context: &Context, kernel: &Module, interface: Object) -> Cell {
    match link_address(context, kernel, interface) {
        Some(address) => Cell::Text(
            symbols::mac::note_or_empty(context.mac.link_addresses@, address.offset),
        ),
        None => Cell::not_available(),
    }
}

fn hardware_value(context: &Context, kernel: &Module, interface: Object) -> (value: Value)
    ensures
        value@ == hardware_cell(context, kernel, interface),
{
    let address = if context.has_member(interface, "if_lladdr") {
        sockaddr_of(context, context.member_target(interface, "if_lladdr"))
    } else {
        sockaddr_of(context, first_address(context, interface))
    };
    let linked = match address {
        Some(address) => context.cast(address, context.get_type(kernel.table, "sockaddr_dl")),
        None => None,
    };
    match linked {
        Some(address) => Value::String(read_note(&context.mac.link_addresses, address.offset)),
        None => Value::not_available(),
    }
}

/// An address as text, or nothing where it cannot be reached.
pub open spec fn address_text(context: &Context, entry: Object) -> Seq<char> {
    match context.member_target(entry, "ifa_addr") {
        Some(address) => symbols::mac::note_or_empty(context.mac.addresses@, address.offset),
        None => Seq::empty(),
    }
}

fn write_address(context: &Context, entry: Object) -> (text: String)
    ensures
        text@ == address_text(context, entry),
{
    match context.member_target(entry, "ifa_addr") {
        Some(address) => read_note(&context.mac.addresses, address.offset),
        None => String::new(),
    }
}

/// The addresses of an interface.
pub open spec fn addresses_of(context: &Context, kernel: &Module, interface: Object) -> Seq<Object> {
    match context.member(interface, "if_addrhead") {
        Some(head) => match symbols::mac::tail_queue(
            context,
            head,
            context.get_type(kernel.table, "ifaddr"),
            "ifa_link",
        ) {
            Some(list) => list,
            None => Seq::empty(),
        },
        None => Seq::empty(),
    }
}

fn list_addresses(context: &Context, kernel: &Module, interface: Object) -> (list: Vec<Object>)
    ensures
        list@ == addresses_of(context, kernel, interface),
{
    match context.member(interface, "if_addrhead") {
        Some(head) => match walk_tailq(
            context,
            head,
            context.get_type(kernel.table, "ifaddr"),
            "ifa_link",
        ) {
            Some(list) => list,
            None => Vec::new(),
        },
        None => Vec::new(),
    }
}

/// The row of an address.
pub open spec fn address_row(context: &Context, kernel: &Module, interface: Object, entry: Object) -> Seq<
    Cell,
> {
    seq![
        Cell::Text(label_of(context, interface)),
        Cell::Text(address_text(context, entry)),
        hardware_cell(context, kernel, interface),
        Cell::Bool(is_promiscuous(context, interface)),
    ]
}

/// A report with the first of an interface's addresses, each on its own.
pub open spec fn with_addresses(
    context: &Context,
    kernel: &Module,
    table: Table,
    interface: Object,
    entries: Seq<Object>,
    count: int,
) -> Table
    decreases count,
{
    if count <= 0 {
        table
    } else {
        with_addresses(context, kernel, table, interface, entries, count - 1).push(
            0,
            address_row(context, kernel, interface, entries[count - 1]),
        )
    }
}

/// A report with one more interface.
#[verifier::opaque]
pub open spec fn with_interface(
    context: &Context,
    kernel: &Module,
    table: Table,
    interface: Object,
) -> Table {
    let entries = addresses_of(context, kernel, interface);
    with_addresses(context, kernel, table, interface, entries, entries.len() as int)
}

fn add_interface(context: &Context, kernel: &Module, grid: &mut TreeGrid, interface: Object)
    ensures
        final(grid)@ == with_interface(context, kernel, old(grid)@, interface),
{
    reveal(with_interface);
    let ghost before = grid@;
    let entries = list_addresses(context, kernel, interface);
    for i in 0..entries.len()
        invariant
            grid@ == with_addresses(context, kernel, before, interface, entries@, i as int),
    {
        let row = Row::new().with(Value::String(read_label(context, interface))).with(
            Value::String(write_address(context, entries[i])),
        ).with(hardware_value(context, kernel, interface)).with(
            Value::Bool(is_promiscuous(context, interface)),
        );
        assert(row@ == address_row(context, kernel, interface, entries@[i as int]));
        grid.push(0, row);
    }
}

/// The report on the first of some interfaces.
pub open spec fn reported(
    context: &Context,
    kernel: &Module,
    headings: Seq<Column>,
    interfaces: Seq<Object>,
    count: int,
) -> Table
    decreases count,
{
    if count <= 0 {
        Table::empty(headings)
    } else {
        with_interface(
            context,
            kernel,
            reported(context, kernel, headings, interfaces, count - 1),
            interfaces[count - 1],
        )
    }
}

impl Plugin for IfConfig {
    open spec fn named(&self) -> Seq<char> {
        "mac.ifconfig.Ifconfig"@
    }

    open spec fn described(&self) -> Seq<char> {
        "Lists network interface information for all devices"@
    }

    open spec fn needs(&self) -> Seq<RequirementView> {
        seq![RequirementView::kernel()]
    }

    open spec fn headings(&self) -> Seq<Column> {
        seq![
            Column::string("Interface"),
            Column::string("IP Address"),
            Column::string("Mac Address"),
            Column::boolean("Promiscuous"),
        ]
    }

    open spec fn system(&self) -> OperatingSystem {
        OperatingSystem::Mac
    }

    open spec fn report(&self, context: &Context, config: &Configuration) -> Result<Table, Failure> {
        match plugins::mac::kernel_of(context, config) {
            Some(kernel) => match interface_head(context, &kernel) {
                Some(head) => match symbols::mac::tail_queue(
                    context,
                    head,
                    context.get_type(kernel.table, "ifnet"),
                    "if_link",
                ) {
                    Some(list) => Ok(
                        reported(context, &kernel, self.headings(), list, list.len() as int),
                    ),
                    None => Err(Failure::Unavailable),
                },
                None => Err(no_interfaces()),
            },
            None => Err(plugins::mac::no_kernel()),
        }
    }

    fn name(&self) -> (name: &'static str) {
        "mac.ifconfig.Ifconfig"
    }

    fn description(&self) -> (description: &'static str) {
        "Lists network interface information for all devices"
    }

    fn requirements(&self) -> (requirements: Vec<Requirement>) {
        vec![Requirement::kernel()]
    }

    fn operating_system(&self) -> (system: OperatingSystem) {
        OperatingSystem::Mac
    }

    fn columns(&self) -> (columns: Vec<Column>) {
        vec![
            Column::string("Interface"),
            Column::string("IP Address"),
            Column::string("Mac Address"),
            Column::boolean("Promiscuous"),
        ]
    }

    fn epilog(&self) -> (epilog: Option<&'static str>) {
        None
    }

    fn timeline(&self, context: &Context, config: &Configuration) -> (timeline: Option<
        plugins::Timeline,
    >) {
        None
    }

    fn needs_kernel(&self) -> (needed: bool) {
        false
    }

    fn run(&self, context: &Context, config: &Configuration) -> (result: Result<TreeGrid, VolatilityError>) {
        let kernel = kernel_module(context, config)?;
        let found = match context.object_from_symbol(kernel, "ifnet_head") {
            Some(head) => Some(head),
            None => context.object_from_symbol(kernel, "dlil_ifnet_head"),
        };
        let head = match found {
            Some(head) => head,
            None => return Err(
                VolatilityError::other(
                    "Could not find the interface list; the kernel symbols may not match",
                ),
            ),
        };
        let interfaces = match walk_tailq(
            context,
            head,
            context.get_type(kernel.table, "ifnet"),
            "if_link",
        ) {
            Some(list) => list,
            None => return Err(VolatilityError::Unavailable),
        };
        let mut grid = TreeGrid::new(self.columns());
        let ghost headings = self.headings();
        for i in 0..interfaces.len()
            invariant
                grid@ == reported(context, kernel, headings, interfaces@, i as int),
        {
            add_interface(context, kernel, &mut grid, interfaces[i]);
        }
        Ok(grid)
    }
}

} // verus!
