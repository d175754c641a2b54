//! List the registered socket filters.
//!
//! A socket filter sees, and can rewrite, traffic passing through any socket it
//! attaches to. Legitimate firewalls use them. So does anything wanting to
//! intercept network traffic from inside the kernel.

use crate::config::Configuration;
use crate::context::{Context, Module, Object};
use crate::error::{Failure, VolatilityError};
use crate::plugins::{self, OperatingSystem, Plugin, Requirement, RequirementView};
use crate::plugins::mac::kernel_module;
use crate::renderers::{Cell, Column, ColumnType, Row, Table, TreeGrid, Value};
use crate::symbols;
use crate::symbols::mac::{describe_unshifted, drop_null, walk_tailq};
use vstd::prelude::*;

verus! {

/// Lists the registered socket filters.
pub struct SocketFilters;

/// The callbacks a filter can install, each intercepting a different operation.
pub open spec fn filter_members() -> Seq<&'static str> {
    seq![
        "sf_unregistered",
        "sf_attach",
        "sf_detach",
        "sf_notify",
        "sf_getpeername",
        "sf_getsockname",
        "sf_data_in",
        "sf_data_out",
        "sf_connect_in",
        "sf_connect_out",
        "sf_bind",
        "sf_setoption",
        "sf_getoption",
        "sf_listen",
        "sf_ioctl",
    ]
}

fn filter_names() -> (names: Vec<&'static str>)
    ensures
        names@ == filter_members(),
{
    vec![
        "sf_unregistered",
        "sf_attach",
        "sf_detach",
        "sf_notify",
        "sf_getpeername",
        "sf_getsockname",
        "sf_data_in",
        "sf_data_out",
        "sf_connect_in",
        "sf_connect_out",
        "sf_bind",
        "sf_setoption",
        "sf_getoption",
        "sf_listen",
        "sf_ioctl",
    ]
}

/// What a filter is called, or nothing.
pub open spec fn filter_name(context: &Context, callbacks: Object) -> Seq<char> {
    match context.member(callbacks, "sf_name") {
        Some(name) => match context.pointed_text(name, 128) {
            Some(text) => text,
            None => Seq::empty(),
        },
        None => Seq::empty(),
    }
}

fn read_filter_name(context: &Context, callbacks: Object) -> (name: String)
    ensures
        name@ == filter_name(context, callbacks),
{
    match context.member(callbacks, "sf_name") {
        Some(name) => match context.pointer_to_string(name, 128) {
            Some(text) => text,
            None => String::new(),
        },
        None => String::new(),
    }
}

pub open spec fn spec_socket_of(context: &Context, filter: Object) -> u64 {
    match context.member_target(filter, "sf_entry_head") {
        Some(entry) => match context.member(entry, "sfe_socket") {
            Some(socket) => socket.offset,
            None => 0,
        },
        None => 0,
    }
}

/// The socket a filter was attached to, where it was attached to one rather than
/// registered for every socket.
#[verifier::when_used_as_spec(spec_socket_of)]
pub fn socket_of(context: &Context, filter: Object) -> (socket: u64)
    ensures
        socket == spec_socket_of(context, filter),
{
    match context.member_target(filter, "sf_entry_head") {
        Some(entry) => match context.member(entry, "sfe_socket") {
            Some(socket) => socket.offset,
            None => 0,
        },
        None => 0,
    }
}

/// The row of a callback.
pub open spec fn callback_row(
    context: &Context,
    filter: Object,
    callbacks: Object,
    member: Seq<char>,
    handler: u64,
) -> Seq<Cell> {
    let owner = symbols::mac::described_unshifted(context.mac.resolver, handler);
    seq![
        Cell::hex(callbacks.offset),
        Cell::Text(filter_name(context, callbacks)),
        Cell::Text(member),
        Cell::hex(socket_of(context, filter)),
        Cell::hex(handler),
        Cell::Text(owner.0),
        Cell::Text(owner.1),
    ]
}

fn make_row(context: &Context, filter: Object, callbacks: Object, member: &str, handler: u64) -> (row:
    Row)
    ensures
        row@ == callback_row(context, filter, callbacks, member@, handler),
{
    let owner = describe_unshifted(&context.mac.resolver, handler);
    Row::new().with(Value::hex(callbacks.offset)).with(
        Value::String(read_filter_name(context, callbacks)),
    ).with(Value::string(member)).with(Value::hex(socket_of(context, filter))).with(
        Value::hex(handler),
    ).with(Value::String(owner.0)).with(Value::String(owner.1))
}

/// A report with the first of a filter's callbacks. An absent one is simply not
/// intercepted by this filter.
pub open spec fn with_callbacks(
    context: &Context,
    table: Table,
    filter: Object,
    callbacks: Object,
    count: int,
) -> Table
    decreases count,
{
    if count <= 0 {
        table
    } else {
        let before = with_callbacks(context, table, filter, callbacks, count - 1);
        let member = filter_members()[count - 1];
        match symbols::mac::unless_null(context.member_pointer(callbacks, member)) {
            Some(handler) => before.push(
                0,
                callback_row(context, filter, callbacks, member@, handler),
            ),
            None => before,
        }
    }
}

/// A report with one more filter.
#[verifier::opaque]
pub open spec fn with_filter(context: &Context, table: Table, filter: Object) -> Table {
    match context.member(filter, "sf_filter") {
        Some(callbacks) => with_callbacks(
            context,
            table,
            filter,
            callbacks,
            filter_members().len() as int,
        ),
        None => table,
    }
}

fn add_filter(context: &Context, grid: &mut TreeGrid, filter: Object)
    ensures
        final(grid)@ == with_filter(context, old(grid)@, filter),
{
    reveal(with_filter);
    let ghost before = grid@;
    if let Some(callbacks) = context.member(filter, "sf_filter") {
        let names = filter_names();
        for i in 0..names.len()
            invariant
                names@ == filter_members(),
                grid@ == with_callbacks(context, before, filter, callbacks, i as int),
        {
            let member = names[i];
            let handler = drop_null(context.member_pointer(callbacks, member));
            if let Some(handler) = handler {
                grid.push(0, make_row(context, filter, callbacks, member, handler));
            }
        }
    }
}

/// The report on the first of some filters.
pub open spec fn reported(
    context: &Context,
    headings: Seq<Column>,
    filters: Seq<Object>,
    count: int,
) -> Table
    decreases count,
{
    if count <= 0 {
        Table::empty(headings)
    } else {
        with_filter(
            context,
            reported(context, headings, filters, count - 1),
            filters[count - 1],
        )
    }
}

/// The filters that are registered.
pub open spec fn filters_of(context: &Context, kernel: &Module) -> Option<Seq<Object>> {
    match context.object_from_symbol(kernel, "sock_filter_head") {
        Some(head) => symbols::mac::tail_queue(
            context,
            head,
            context.get_type(kernel.table, "socket_filter"),
            "sf_global_next",
        ),
        None => None,
    }
}

impl Plugin for SocketFilters {
    open spec fn named(&self) -> Seq<char> {
        "mac.socket_filters.Socket_filters"@
    }

    open spec fn described(&self) -> Seq<char> {
        "Enumerates kernel socket filters."@
    }

    open spec fn needs(&self) -> Seq<RequirementView> {
        seq![RequirementView::kernel()]
    }

    open spec fn headings(&self) -> Seq<Column> {
        seq![
            Column::new("Filter", ColumnType::UInt),
            Column::string("Name"),
            Column::string("Member"),
            Column::new("Socket", ColumnType::UInt),
            Column::new("Handler", ColumnType::UInt),
            Column::string("Module"),
            Column::string("Symbol"),
        ]
    }

    open spec fn system(&self) -> OperatingSystem {
        OperatingSystem::Mac
    }

    open spec fn report(&self, context: &Context, config: &Configuration) -> Result<Table, Failure> {
        match plugins::mac::kernel_of(context, config) {
            Some(kernel) => match filters_of(context, &kernel) {
                Some(filters) => Ok(
                    reported(context, self.headings(), filters, filters.len() as int),
                ),
                None => Err(Failure::Unavailable),
            },
            None => Err(plugins::mac::no_kernel()),
        }
    }

    fn name(&self) -> (name: &'static str) {
        "mac.socket_filters.Socket_filters"
    }

    fn description(&self) -> (description: &'static str) {
        "Enumerates kernel socket filters."
    }

    fn requirements(&self) -> (requirements: Vec<Requirement>) {
        vec![Requirement::kernel()]
    }

    fn operating_system(&self) -> (system: OperatingSystem) {
        OperatingSystem::Mac
    }

    fn columns(&self) -> (columns: Vec<Column>) {
        vec![
            Column::new("Filter", ColumnType::UInt),
            Column::string("Name"),
            Column::string("Member"),
            Column::new("Socket", ColumnType::UInt),
            Column::new("Handler", ColumnType::UInt),
            Column::string("Module"),
            Column::string("Symbol"),
        ]
    }

    fn epilog(&self) -> (epilog: Option<&'static str>) {
        None
    }

    fn timeline(&self, context: &Context, config: &Configuration) -> (timeline: Option<
        plugins::Timeline,
    >) {
        None
    }

    fn needs_kernel(&self) -> (needed: bool) {
        false
    }

    fn run(&self, context: &Context, config: &Configuration) -> (result: Result<TreeGrid, VolatilityError>) {
        let kernel = kernel_module(context, config)?;
        let found = match context.object_from_symbol(kernel, "sock_filter_head") {
            Some(head) => walk_tailq(
                context,
                head,
                context.get_type(kernel.table, "socket_filter"),
                "sf_global_next",
            ),
            None => None,
        };
        let filters = match found {
            Some(filters) => filters,
            None => return Err(VolatilityError::Unavailable),
        };
        let mut grid = TreeGrid::new(self.columns());
        let ghost headings = self.headings();
        for i in 0..filters.len()
            invariant
                grid@ == reported(context, headings, filters@, i as int),
        {
            add_filter(context, &mut grid, filters[i]);
        }
        Ok(grid)
    }
}

} // verus!
