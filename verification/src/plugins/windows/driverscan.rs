//! Find driver objects by scanning the kernel's pools.

use crate::config::Configuration;
use crate::context::{Context, Module, Object};
use crate::error::{Failure, VolatilityError};
use crate::plugins::{self, OperatingSystem, Plugin, Requirement, RequirementView};
use crate::plugins::windows::kernel_module;
use crate::plugins::windows::modules::kernel_space_start;
use crate::plugins::windows::psscan::scan_objects;
use crate::renderers::{Cell, Column, ColumnType, Row, Table, TreeGrid, Value};
use crate::symbols;
use crate::text;
use vstd::prelude::*;

verus! {

/// Finds driver objects by scanning the kernel's pools.
pub struct DriverScan;

/// The pool tag of a driver object: `Driv`.
pub const DRIVER_TAG: u32 = 0x76697244;

/// The same tag with the high bit of its last byte set.
pub const PROTECTED_DRIVER_TAG: u32 = 0xf6697244;

/// Whether an object found in the pools is a driver.
///
/// A great many allocations end a page with the driver tag, so a candidate is
/// only a driver if the field every caller reads first can be read at all, and
/// if the image it names is either kernel memory or has been zeroed, which is
/// what a driver hiding itself does.
pub open spec fn is_driver(context: &Context, kernel: &Module, field: u64, object: Object) -> bool {
    context.is_valid(object.layer, object.offset.wrapping_add(field), 8) && match context.member_pointer(
        object,
        "DriverStart",
    ) {
        Some(start) => start == 0 || start > kernel_space_start(context, kernel),
        None => false,
    }
}

fn looks_like_driver(context: &Context, kernel: &Module, field: u64, object: Object) -> (driver: bool)
    ensures
        driver == is_driver(context, kernel, field, object),
{
    context.is_valid(object.layer, object.offset.wrapping_add(field), 8) && match context.member_pointer(
        object,
        "DriverStart",
    ) {
        Some(start) => start == 0 || start > kernel_space_start(context, kernel),
        None => false,
    }
}

/// The drivers among some objects, in order.
pub open spec fn drivers_among(
    context: &Context,
    kernel: &Module,
    field: u64,
    objects: Seq<Object>,
) -> Seq<Object>
    decreases objects.len(),
{
    if objects.len() == 0 {
        Seq::empty()
    } else {
        let before = drivers_among(context, kernel, field, objects.drop_last());
        if is_driver(context, kernel, field, objects.last()) {
            before.push(objects.last())
        } else {
            before
        }
    }
}

/// Where in a driver object the address of its image stands.
pub open spec fn start_field(context: &Context, kernel: &Module) -> Option<u64> {
    match context.get_type(kernel.table, "_DRIVER_OBJECT") {
        Some(kind) => match context.find_member(kind, "DriverStart") {
            Some((offset, _)) => Some(offset),
            None => Some(0),
        },
        None => None,
    }
}

/// The driver objects the pools still hold.
pub open spec fn drivers(context: &Context, kernel: &Module) -> Option<Seq<Object>> {
    match (
        start_field(context, kernel),
        symbols::windows::scanned_tags(context, seq![PROTECTED_DRIVER_TAG, DRIVER_TAG]),
    ) {
        (Some(field), Some(hits)) => Some(
            drivers_among(
                context,
                kernel,
                field,
                plugins::windows::psscan::objects_of(hits),
            ),
        ),
        _ => None,
    }
}

/// The driver objects the pools still hold.
pub fn scan_drivers(context: &Context, kernel: &Module) -> (found: Result<
    Vec<Object>,
    VolatilityError,
>)
    ensures
        match found {
            Ok(list) => drivers(context, kernel) == Some(list@),
            Err(error) => drivers(context, kernel) is None && error@ == Failure::Unavailable,
        },
{
    let field: u64 = match context.get_type(kernel.table, "_DRIVER_OBJECT") {
        Some(kind) => match context.find_member(kind, "DriverStart") {
            Some((offset, _)) => offset,
            None => 0,
        },
        None => return Err(VolatilityError::Unavailable),
    };
    let tags: [u32; 2] = [PROTECTED_DRIVER_TAG, DRIVER_TAG];
    assert(tags@ =~= seq![PROTECTED_DRIVER_TAG, DRIVER_TAG]);
    let objects = scan_objects(context, &tags)?;
    let mut found: Vec<Object> = Vec::new();
    for i in 0..objects.len()
        invariant
            found@ == drivers_among(context, kernel, field, objects@.take(i as int)),
    {
        assert(objects@.take(i + 1).drop_last() =~= objects@.take(i as int));
        if looks_like_driver(context, kernel, field, objects[i]) {
            found.push(objects[i]);
        }
    }
    assert(objects@.take(objects@.len() as int) =~= objects@);
    Ok(found)
}

/// A name, unless it is empty.
pub open spec fn unless_empty(name: Option<Seq<char>>) -> Option<Seq<char>> {
    match name {
        Some(name) if name.len() > 0 => Some(name),
        _ => None,
    }
}

fn drop_empty(name: Option<String>) -> (kept: Option<String>)
    ensures
        text::maybe_text(kept) == unless_empty(text::maybe_text(name)),
{
    match name {
        Some(name) => if name.unicode_len() > 0 {
            Some(name)
        } else {
            None
        },
        None => None,
    }
}

/// The name on a driver's object header.
#[verifier::opaque]
pub open spec fn header_name_of(context: &Context, driver: Object, kernel: &Module) -> Option<
    Seq<char>,
> {
    unless_empty(context.object_name_of(driver, kernel))
}

/// The key a driver's service is registered under.
#[verifier::opaque]
pub open spec fn service_key_of(context: &Context, driver: Object) -> Option<Seq<char>> {
    match context.member_target(driver, "DriverExtension") {
        Some(extension) => unless_empty(context.member_unicode_of(extension, "ServiceKeyName")),
        None => None,
    }
}

/// The name a driver object carries.
#[verifier::opaque]
pub open spec fn own_name_of(context: &Context, driver: Object) -> Option<Seq<char>> {
    unless_empty(context.member_unicode_of(driver, "DriverName"))
}

/// The three names a driver goes by: the name on its object header, the key
/// its service is registered under, and the name the driver object carries.
///
/// A name that cannot be read, or that is empty, is reported as absent.
pub fn driver_names(context: &Context, driver: Object, kernel: &Module) -> (names: (
    Option<String>,
    Option<String>,
    Option<String>,
))
    ensures
        text::maybe_text(names.0) == header_name_of(context, driver, kernel),
        text::maybe_text(names.1) == service_key_of(context, driver),
        text::maybe_text(names.2) == own_name_of(context, driver),
{
    reveal(header_name_of);
    reveal(service_key_of);
    reveal(own_name_of);
    let service_key = match context.member_target(driver, "DriverExtension") {
        Some(extension) => context.member_unicode(extension, "ServiceKeyName"),
        None => None,
    };
    (
        drop_empty(context.object_name(driver, kernel)),
        drop_empty(service_key),
        drop_empty(context.member_unicode(driver, "DriverName")),
    )
}

/// A name, or that there is none.
pub open spec fn name_cell(name: Option<Seq<char>>) -> Cell {
    match name {
        Some(name) => Cell::Text(name),
        None => Cell::not_available(),
    }
}

fn name_value(name: Option<String>) -> (value: Value)
    ensures
        value@ == name_cell(text::maybe_text(name)),
{
    match name {
        Some(name) => Value::String(name),
        None => Value::not_available(),
    }
}

/// The row of a driver. One with none of the three names is one of the many
/// allocations that merely happen to carry the tag.
pub open spec fn driver_row(context: &Context, kernel: &Module, driver: Object) -> Option<
    Seq<Cell>,
> {
    if service_key_of(context, driver) is None && header_name_of(context, driver, kernel) is None
        && own_name_of(context, driver) is None {
        None
    } else {
        Some(
            seq![
                Cell::hex(driver.offset),
                Cell::hex_or_unreadable(context.member_pointer(driver, "DriverStart")),
                Cell::hex_or_unreadable(context.member_u64(driver, "DriverSize")),
                name_cell(service_key_of(context, driver)),
                name_cell(header_name_of(context, driver, kernel)),
                name_cell(own_name_of(context, driver)),
            ],
        )
    }
}

fn make_row(context: &Context, kernel: &Module, driver: Object) -> (row: Option<Row>)
    ensures
        match row {
            Some(row) => driver_row(context, kernel, driver) == Some(row@),
            None => driver_row(context, kernel, driver) is None,
        },
{
    let names = driver_names(context, driver, kernel);
    if names.1.is_none() && names.0.is_none() && names.2.is_none() {
        return None;
    }
    let row = Row::new().with(Value::hex(driver.offset)).with(
        Value::hex_or_unreadable(context.member_pointer(driver, "DriverStart")),
    ).with(Value::hex_or_unreadable(context.member_u64(driver, "DriverSize"))).with(
        name_value(names.1),
    ).with(name_value(names.0)).with(name_value(names.2));
    assert(driver_row(context, kernel, driver) == Some(row@));
    Some(row)
}

/// The report on the first of some drivers.
pub open spec fn reported(
    context: &Context,
    kernel: &Module,
    headings: Seq<Column>,
    list: Seq<Object>,
    count: int,
) -> Table
    decreases count,
{
    if count <= 0 {
        Table::empty(headings)
    } else {
        let before = reported(context, kernel, headings, list, count - 1);
        match driver_row(context, kernel, list[count - 1]) {
            Some(row) => before.push(0, row),
            None => before,
        }
    }
}

impl Plugin for DriverScan {
    open spec fn named(&self) -> Seq<char> {
        "windows.driverscan.DriverScan"@
    }

    open spec fn described(&self) -> Seq<char> {
        "Scans for drivers present in a particular windows memory image."@
    }

    open spec fn needs(&self) -> Seq<RequirementView> {
        seq![RequirementView::kernel()]
    }

    open spec fn headings(&self) -> Seq<Column> {
        seq![
            Column::new("Offset", ColumnType::UInt),
            Column::new("Start", ColumnType::UInt),
            Column::new("Size", ColumnType::UInt),
            Column::string("Service Key"),
            Column::string("Driver Name"),
            Column::string("Name"),
        ]
    }

    open spec fn system(&self) -> OperatingSystem {
        OperatingSystem::Windows
    }

    open spec fn report(&self, context: &Context, config: &Configuration) -> Result<Table, Failure> {
        match plugins::windows::kernel_of(context, config) {
            Some(kernel) => match drivers(context, &kernel) {
                Some(list) => Ok(
                    reported(context, &kernel, self.headings(), list, list.len() as int),
                ),
                None => Err(Failure::Unavailable),
            },
            None => Err(plugins::windows::no_kernel()),
        }
    }

    fn name(&self) -> (name: &'static str) {
        "windows.driverscan.DriverScan"
    }

    fn description(&self) -> (description: &'static str) {
        "Scans for drivers present in a particular windows memory image."
    }

    fn requirements(&self) -> (requirements: Vec<Requirement>) {
        vec![Requirement::kernel()]
    }

    fn operating_system(&self) -> (system: OperatingSystem) {
        OperatingSystem::Windows
    }

    fn columns(&self) -> (columns: Vec<Column>) {
        vec![
            Column::new("Offset", ColumnType::UInt),
            Column::new("Start", ColumnType::UInt),
            Column::new("Size", ColumnType::UInt),
            Column::string("Service Key"),
            Column::string("Driver Name"),
            Column::string("Name"),
        ]
    }

    fn epilog(&self) -> (epilog: Option<&'static str>) {
        None
    }

    fn timeline(&self, context: &Context, config: &Configuration) -> (timeline: Option<
        plugins::Timeline,
    >) {
        None
    }

    fn needs_kernel(&self) -> (needed: bool) {
        false
    }

    fn run(&self, context: &Context, config: &Configuration) -> (result: Result<TreeGrid, VolatilityError>) {
        let kernel = kernel_module(context, config)?;
        let list = scan_drivers(context, kernel)?;
        let mut grid = TreeGrid::new(self.columns());
        let ghost headings = self.headings();
        for i in 0..list.len()
            invariant
                grid@ == reported(context, kernel, headings, list@, i as int),
        {
            if let Some(row) = make_row(context, kernel, list[i]) {
                grid.push(0, row);
            }
        }
        Ok(grid)
    }
}

} // verus!
