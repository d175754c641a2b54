//! List the handlers that drivers register for requests.
//!
//! Each driver has a table of functions, one for each kind of request. A handler
//! in no loaded module is what a hooked driver looks like.

use crate::config::Configuration;
use crate::context::{Context, Module, Object};
use crate::error::{Failure, VolatilityError};
use crate::plugins::{self, OperatingSystem, Plugin, Requirement, RequirementView};
use crate::plugins::windows::{attribute, kernel_module, AttributionView};
use crate::plugins::windows::driverscan::scan_drivers;
use crate::plugins::windows::modules::kernel_space_start;
use crate::renderers::{Cell, Column, ColumnType, Row, Table, TreeGrid, Value};
use crate::symbols::windows::CodeModule;
use vstd::prelude::*;

verus! {

/// Lists the handlers that drivers register for requests.
pub struct DriverIrp;

/// The kinds of request, in table order.
pub open spec fn request_kinds() -> Seq<&'static str> {
    seq![
        "IRP_MJ_CREATE",
        "IRP_MJ_CREATE_NAMED_PIPE",
        "IRP_MJ_CLOSE",
        "IRP_MJ_READ",
        "IRP_MJ_WRITE",
        "IRP_MJ_QUERY_INFORMATION",
        "IRP_MJ_SET_INFORMATION",
        "IRP_MJ_QUERY_EA",
        "IRP_MJ_SET_EA",
        "IRP_MJ_FLUSH_BUFFERS",
        "IRP_MJ_QUERY_VOLUME_INFORMATION",
        "IRP_MJ_SET_VOLUME_INFORMATION",
        "IRP_MJ_DIRECTORY_CONTROL",
        "IRP_MJ_FILE_SYSTEM_CONTROL",
        "IRP_MJ_DEVICE_CONTROL",
        "IRP_MJ_INTERNAL_DEVICE_CONTROL",
        "IRP_MJ_SHUTDOWN",
        "IRP_MJ_LOCK_CONTROL",
        "IRP_MJ_CLEANUP",
        "IRP_MJ_CREATE_MAILSLOT",
        "IRP_MJ_QUERY_SECURITY",
        "IRP_MJ_SET_SECURITY",
        "IRP_MJ_POWER",
        "IRP_MJ_SYSTEM_CONTROL",
        "IRP_MJ_DEVICE_CHANGE",
        "IRP_MJ_QUERY_QUOTA",
        "IRP_MJ_SET_QUOTA",
        "IRP_MJ_PNP",
    ]
}

/// The kinds of request, in table order.
pub fn irp_names() -> (names: Vec<&'static str>)
    ensures
        names@ == request_kinds(),
{
    vec![
        "IRP_MJ_CREATE",
        "IRP_MJ_CREATE_NAMED_PIPE",
        "IRP_MJ_CLOSE",
        "IRP_MJ_READ",
        "IRP_MJ_WRITE",
        "IRP_MJ_QUERY_INFORMATION",
        "IRP_MJ_SET_INFORMATION",
        "IRP_MJ_QUERY_EA",
        "IRP_MJ_SET_EA",
        "IRP_MJ_FLUSH_BUFFERS",
        "IRP_MJ_QUERY_VOLUME_INFORMATION",
        "IRP_MJ_SET_VOLUME_INFORMATION",
        "IRP_MJ_DIRECTORY_CONTROL",
        "IRP_MJ_FILE_SYSTEM_CONTROL",
        "IRP_MJ_DEVICE_CONTROL",
        "IRP_MJ_INTERNAL_DEVICE_CONTROL",
        "IRP_MJ_SHUTDOWN",
        "IRP_MJ_LOCK_CONTROL",
        "IRP_MJ_CLEANUP",
        "IRP_MJ_CREATE_MAILSLOT",
        "IRP_MJ_QUERY_SECURITY",
        "IRP_MJ_SET_SECURITY",
        "IRP_MJ_POWER",
        "IRP_MJ_SYSTEM_CONTROL",
        "IRP_MJ_DEVICE_CHANGE",
        "IRP_MJ_QUERY_QUOTA",
        "IRP_MJ_SET_QUOTA",
        "IRP_MJ_PNP",
    ]
}

/// A row for a handler.
pub open spec fn handler_row(
    driver: Object,
    name: Cell,
    kind: Seq<char>,
    address: u64,
    owner: AttributionView,
) -> Seq<Cell> {
    seq![
        Cell::hex(driver.offset),
        name,
        Cell::Text(kind),
        Cell::hex(address),
        owner.module,
        owner.symbol,
    ]
}

/// A report with the first of the attributions of a handler.
pub open spec fn with_owners(
    table: Table,
    driver: Object,
    name: Cell,
    kind: Seq<char>,
    address: u64,
    owners: Seq<AttributionView>,
    count: int,
) -> Table
    decreases count,
{
    if count <= 0 {
        table
    } else {
        with_owners(table, driver, name, kind, address, owners, count - 1).push(
            0,
            handler_row(driver, name, kind, address, owners[count - 1]),
        )
    }
}

fn add_owners(
    modules: &Vec<CodeModule>,
    grid: &mut TreeGrid,
    driver: Object,
    name: &Value,
    kind: &str,
    address: u64,
)
    ensures
        final(grid)@ == with_owners(
            old(grid)@,
            driver,
            name@,
            kind@,
            address,
            plugins::windows::attributed(modules@, address),
            plugins::windows::attributed(modules@, address).len() as int,
        ),
{
    let ghost start = grid@;
    let owners = attribute(modules, address);
    let ghost said = plugins::windows::attribution_views(owners@);
    for i in 0..owners.len()
        invariant
            said == plugins::windows::attribution_views(owners@),
            grid@ == with_owners(start, driver, name@, kind@, address, said, i as int),
    {
        let row = Row::new().with(Value::hex(driver.offset)).with(name.copy()).with(
            Value::string(kind),
        ).with(Value::hex(address)).with(owners[i].module.copy()).with(owners[i].symbol.copy());
        assert(row@ == handler_row(driver, name@, kind@, address, said[i as int]));
        grid.push(0, row);
    }
}

pub open spec fn spec_handler_at(
    context: &Context,
    kernel: &Module,
    table: Object,
    index: u64,
) -> Option<u64> {
    match context.index(table, index) {
        Some(entry) => match context.pointer_value(entry) {
            Some(address) => if address < kernel_space_start(context, kernel) {
                None
            } else {
                Some(address)
            },
            None => None,
        },
        None => None,
    }
}

/// The handler in a place of a driver's table. One below kernel space is smear
/// rather than a hook.
#[verifier::when_used_as_spec(spec_handler_at)]
pub fn handler_at(context: &Context, kernel: &Module, table: Object, index: u64) -> (address: Option<
    u64,
>)
    ensures
        address == spec_handler_at(context, kernel, table, index),
{
    match context.index(table, index) {
        Some(entry) => match context.pointer_value(entry) {
            Some(address) => if address < kernel_space_start(context, kernel) {
                None
            } else {
                Some(address)
            },
            None => None,
        },
        None => None,
    }
}

/// A report with the first handlers of a driver.
pub open spec fn with_handlers(
    context: &Context,
    kernel: &Module,
    modules: Seq<CodeModule>,
    before: Table,
    driver: Object,
    name: Cell,
    table: Object,
    count: int,
) -> Table
    decreases count,
{
    if count <= 0 {
        before
    } else {
        let earlier = with_handlers(
            context,
            kernel,
            modules,
            before,
            driver,
            name,
            table,
            count - 1,
        );
        match handler_at(context, kernel, table, (count - 1) as u64) {
            Some(address) => with_owners(
                earlier,
                driver,
                name,
                request_kinds()[count - 1]@,
                address,
                plugins::windows::attributed(modules, address),
                plugins::windows::attributed(modules, address).len() as int,
            ),
            None => earlier,
        }
    }
}

/// A report with the handlers of one driver. Its name is the short one on its
/// object header.
#[verifier::opaque]
pub open spec fn with_driver(
    context: &Context,
    kernel: &Module,
    modules: Seq<CodeModule>,
    before: Table,
    driver: Object,
) -> Table {
    match context.member(driver, "MajorFunction") {
        Some(table) => with_handlers(
            context,
            kernel,
            modules,
            before,
            driver,
            match context.object_name_of(driver, kernel) {
                Some(name) => Cell::Text(name),
                None => Cell::not_applicable(),
            },
            table,
            request_kinds().len() as int,
        ),
        None => before,
    }
}

fn add_driver(
    context: &Context,
    kernel: &Module,
    modules: &Vec<CodeModule>,
    grid: &mut TreeGrid,
    driver: Object,
)
    ensures
        final(grid)@ == with_driver(context, kernel, modules@, old(grid)@, driver),
{
    reveal(with_driver);
    let ghost before = grid@;
    let name = match context.object_name(driver, kernel) {
        Some(name) => Value::String(name),
        None => Value::not_applicable(),
    };
    if let Some(table) = context.member(driver, "MajorFunction") {
        let kinds = irp_names();
        for i in 0..kinds.len()
            invariant
                kinds@ == request_kinds(),
                grid@ == with_handlers(
                    context,
                    kernel,
                    modules@,
                    before,
                    driver,
                    name@,
                    table,
                    i as int,
                ),
        {
            if let Some(address) = handler_at(context, kernel, table, i as u64) {
                add_owners(modules, grid, driver, &name, kinds[i], address);
            }
        }
    }
}

/// The report on the first of some drivers.
pub open spec fn reported(
    context: &Context,
    kernel: &Module,
    modules: Seq<CodeModule>,
    headings: Seq<Column>,
    list: Seq<Object>,
    count: int,
) -> Table
    decreases count,
{
    if count <= 0 {
        Table::empty(headings)
    } else {
        with_driver(
            context,
            kernel,
            modules,
            reported(context, kernel, modules, headings, list, count - 1),
            list[count - 1],
        )
    }
}

impl Plugin for DriverIrp {
    open spec fn named(&self) -> Seq<char> {
        "windows.driverirp.DriverIrp"@
    }

    open spec fn described(&self) -> Seq<char> {
        "List IRPs for drivers in a particular windows memory image."@
    }

    open spec fn needs(&self) -> Seq<RequirementView> {
        seq![RequirementView::kernel()]
    }

    open spec fn headings(&self) -> Seq<Column> {
        seq![
            Column::new("Offset", ColumnType::UInt),
            Column::string("Driver Name"),
            Column::string("IRP"),
            Column::new("Address", ColumnType::UInt),
            Column::string("Module"),
            Column::string("Symbol"),
        ]
    }

    open spec fn system(&self) -> OperatingSystem {
        OperatingSystem::Windows
    }

    open spec fn report(&self, context: &Context, config: &Configuration) -> Result<Table, Failure> {
        match plugins::windows::kernel_of(context, config) {
            Some(kernel) => match (
                context.windows.code,
                plugins::windows::driverscan::drivers(context, &kernel),
            ) {
                (Some(modules), Some(list)) => Ok(
                    reported(
                        context,
                        &kernel,
                        modules@,
                        self.headings(),
                        list,
                        list.len() as int,
                    ),
                ),
                _ => Err(Failure::Unavailable),
            },
            None => Err(plugins::windows::no_kernel()),
        }
    }

    fn name(&self) -> (name: &'static str) {
        "windows.driverirp.DriverIrp"
    }

    fn description(&self) -> (description: &'static str) {
        "List IRPs for drivers in a particular windows memory image."
    }

    fn requirements(&self) -> (requirements: Vec<Requirement>) {
        vec![Requirement::kernel()]
    }

    fn operating_system(&self) -> (system: OperatingSystem) {
        OperatingSystem::Windows
    }

    fn columns(&self) -> (columns: Vec<Column>) {
        vec![
            Column::new("Offset", ColumnType::UInt),
            Column::string("Driver Name"),
            Column::string("IRP"),
            Column::new("Address", ColumnType::UInt),
            Column::string("Module"),
            Column::string("Symbol"),
        ]
    }

    fn epilog(&self) -> (epilog: Option<&'static str>) {
        None
    }

    fn timeline(&self, context: &Context, config: &Configuration) -> (timeline: Option<
        plugins::Timeline,
    >) {
        None
    }

    fn needs_kernel(&self) -> (needed: bool) {
        false
    }

    fn run(&self, context: &Context, config: &Configuration) -> (result: Result<TreeGrid, VolatilityError>) {
        let kernel = kernel_module(context, config)?;
        // Attributing each handler to its owning module is what makes a hooked
        // driver visible.
        let modules = match &context.windows.code {
            Some(modules) => modules,
            None => return Err(VolatilityError::Unavailable),
        };
        let list = scan_drivers(context, kernel)?;
        let mut grid = TreeGrid::new(self.columns());
        let ghost headings = self.headings();
        for i in 0..list.len()
            invariant
                grid@ == reported(context, kernel, modules@, headings, list@, i as int),
        {
            add_driver(context, kernel, modules, &mut grid, list[i]);
        }
        Ok(grid)
    }
}

} // verus!
