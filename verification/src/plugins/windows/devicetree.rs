//! List drivers, the devices they own and the devices attached above those.
//!
//! A device can have others attached above it, each of which sees the requests
//! that go to it first. Malware that filters what a disk or a keyboard says sits
//! in such a stack.

use crate::config::Configuration;
use crate::context::{Context, Module, Object};
use crate::error::{Failure, VolatilityError};
use crate::lists::is_among;
use crate::plugins::{self, OperatingSystem, Plugin, Requirement, RequirementView};
use crate::plugins::windows::kernel_module;
use crate::plugins::windows::driverscan::scan_drivers;
use crate::renderers::{Cell, Column, ColumnType, Row, Table, TreeGrid, Value};
use vstd::prelude::*;

verus! {

/// Lists drivers, the devices they own and the devices attached above those.
pub struct DeviceTree;

/// The most devices that are followed from a driver.
pub const MOST_DEVICES: usize = 4096;

/// The most devices that are followed above a device.
pub const MOST_ATTACHED: usize = 64;

/// The device type codes, by their numeric value. These are the FILE_DEVICE_*
/// constants. A code that has none is reported plainly, without the number.
#[verifier::allow_in_spec]
pub fn device_type_name(code: u64) -> (name: &'static str)
    returns
        (match code {
            0x1 => "FILE_DEVICE_BEEP",
            0x2 => "FILE_DEVICE_CD_ROM",
            0x3 => "FILE_DEVICE_CD_ROM_FILE_SYSTEM",
            0x4 => "FILE_DEVICE_CONTROLLER",
            0x5 => "FILE_DEVICE_DATALINK",
            0x6 => "FILE_DEVICE_DFS",
            0x7 => "FILE_DEVICE_DISK",
            0x8 => "FILE_DEVICE_DISK_FILE_SYSTEM",
            0x9 => "FILE_DEVICE_FILE_SYSTEM",
            0xa => "FILE_DEVICE_INPORT_PORT",
            0xb => "FILE_DEVICE_KEYBOARD",
            0xc => "FILE_DEVICE_MAILSLOT",
            0xd => "FILE_DEVICE_MIDI_IN",
            0xe => "FILE_DEVICE_MIDI_OUT",
            0xf => "FILE_DEVICE_MOUSE",
            0x10 => "FILE_DEVICE_MULTI_UNC_PROVIDER",
            0x11 => "FILE_DEVICE_NAMED_PIPE",
            0x12 => "FILE_DEVICE_NETWORK",
            0x13 => "FILE_DEVICE_NETWORK_BROWSER",
            0x14 => "FILE_DEVICE_NETWORK_FILE_SYSTEM",
            0x15 => "FILE_DEVICE_NULL",
            0x16 => "FILE_DEVICE_PARALLEL_PORT",
            0x17 => "FILE_DEVICE_PHYSICAL_NETCARD",
            0x18 => "FILE_DEVICE_PRINTER",
            0x19 => "FILE_DEVICE_SCANNER",
            0x1a => "FILE_DEVICE_SERIAL_MOUSE_PORT",
            0x1b => "FILE_DEVICE_SERIAL_PORT",
            0x1c => "FILE_DEVICE_SCREEN",
            0x1d => "FILE_DEVICE_SOUND",
            0x1e => "FILE_DEVICE_STREAMS",
            0x1f => "FILE_DEVICE_TAPE",
            0x20 => "FILE_DEVICE_TAPE_FILE_SYSTEM",
            0x21 => "FILE_DEVICE_TRANSPORT",
            0x22 => "FILE_DEVICE_UNKNOWN",
            0x23 => "FILE_DEVICE_VIDEO",
            0x24 => "FILE_DEVICE_VIRTUAL_DISK",
            0x25 => "FILE_DEVICE_WAVE_IN",
            0x26 => "FILE_DEVICE_WAVE_OUT",
            0x27 => "FILE_DEVICE_8042_PORT",
            0x28 => "FILE_DEVICE_NETWORK_REDIRECTOR",
            0x29 => "FILE_DEVICE_BATTERY",
            0x2a => "FILE_DEVICE_BUS_EXTENDER",
            0x2b => "FILE_DEVICE_MODEM",
            0x2c => "FILE_DEVICE_VDM",
            0x2d => "FILE_DEVICE_MASS_STORAGE",
            0x2e => "FILE_DEVICE_SMB",
            0x2f => "FILE_DEVICE_KS",
            0x30 => "FILE_DEVICE_CHANGER",
            0x31 => "FILE_DEVICE_SMARTCARD",
            0x32 => "FILE_DEVICE_ACPI",
            0x33 => "FILE_DEVICE_DVD",
            0x34 => "FILE_DEVICE_FULLSCREEN_VIDEO",
            0x35 => "FILE_DEVICE_DFS_FILE_SYSTEM",
            0x36 => "FILE_DEVICE_DFS_VOLUME",
            0x37 => "FILE_DEVICE_SERENUM",
            0x38 => "FILE_DEVICE_TERMSRV",
            0x39 => "FILE_DEVICE_KSEC",
            _ => "UNKNOWN",
        }),
{
    match code {
        0x1 => "FILE_DEVICE_BEEP",
        0x2 => "FILE_DEVICE_CD_ROM",
        0x3 => "FILE_DEVICE_CD_ROM_FILE_SYSTEM",
        0x4 => "FILE_DEVICE_CONTROLLER",
        0x5 => "FILE_DEVICE_DATALINK",
        0x6 => "FILE_DEVICE_DFS",
        0x7 => "FILE_DEVICE_DISK",
        0x8 => "FILE_DEVICE_DISK_FILE_SYSTEM",
        0x9 => "FILE_DEVICE_FILE_SYSTEM",
        0xa => "FILE_DEVICE_INPORT_PORT",
        0xb => "FILE_DEVICE_KEYBOARD",
        0xc => "FILE_DEVICE_MAILSLOT",
        0xd => "FILE_DEVICE_MIDI_IN",
        0xe => "FILE_DEVICE_MIDI_OUT",
        0xf => "FILE_DEVICE_MOUSE",
        0x10 => "FILE_DEVICE_MULTI_UNC_PROVIDER",
        0x11 => "FILE_DEVICE_NAMED_PIPE",
        0x12 => "FILE_DEVICE_NETWORK",
        0x13 => "FILE_DEVICE_NETWORK_BROWSER",
        0x14 => "FILE_DEVICE_NETWORK_FILE_SYSTEM",
        0x15 => "FILE_DEVICE_NULL",
        0x16 => "FILE_DEVICE_PARALLEL_PORT",
        0x17 => "FILE_DEVICE_PHYSICAL_NETCARD",
        0x18 => "FILE_DEVICE_PRINTER",
        0x19 => "FILE_DEVICE_SCANNER",
        0x1a => "FILE_DEVICE_SERIAL_MOUSE_PORT",
        0x1b => "FILE_DEVICE_SERIAL_PORT",
        0x1c => "FILE_DEVICE_SCREEN",
        0x1d => "FILE_DEVICE_SOUND",
        0x1e => "FILE_DEVICE_STREAMS",
        0x1f => "FILE_DEVICE_TAPE",
        0x20 => "FILE_DEVICE_TAPE_FILE_SYSTEM",
        0x21 => "FILE_DEVICE_TRANSPORT",
        0x22 => "FILE_DEVICE_UNKNOWN",
        0x23 => "FILE_DEVICE_VIDEO",
        0x24 => "FILE_DEVICE_VIRTUAL_DISK",
        0x25 => "FILE_DEVICE_WAVE_IN",
        0x26 => "FILE_DEVICE_WAVE_OUT",
        0x27 => "FILE_DEVICE_8042_PORT",
        0x28 => "FILE_DEVICE_NETWORK_REDIRECTOR",
        0x29 => "FILE_DEVICE_BATTERY",
        0x2a => "FILE_DEVICE_BUS_EXTENDER",
        0x2b => "FILE_DEVICE_MODEM",
        0x2c => "FILE_DEVICE_VDM",
        0x2d => "FILE_DEVICE_MASS_STORAGE",
        0x2e => "FILE_DEVICE_SMB",
        0x2f => "FILE_DEVICE_KS",
        0x30 => "FILE_DEVICE_CHANGER",
        0x31 => "FILE_DEVICE_SMARTCARD",
        0x32 => "FILE_DEVICE_ACPI",
        0x33 => "FILE_DEVICE_DVD",
        0x34 => "FILE_DEVICE_FULLSCREEN_VIDEO",
        0x35 => "FILE_DEVICE_DFS_FILE_SYSTEM",
        0x36 => "FILE_DEVICE_DFS_VOLUME",
        0x37 => "FILE_DEVICE_SERENUM",
        0x38 => "FILE_DEVICE_TERMSRV",
        0x39 => "FILE_DEVICE_KSEC",
        _ => "UNKNOWN",
    }
}

/// The object of the same type at another place.
pub open spec fn moved(object: Object, offset: u64) -> Object {
    Object { offset, ..object }
}

fn move_to(object: Object, offset: u64) -> (other: Object)
    ensures
        other == moved(object, offset),
{
    Object { kind: object.kind, layer: object.layer, native: object.native, offset }
}

/// The devices of a driver from one on, at most `left` of them and the last.
///
/// Following a null pointer costs nothing until something is read through it, so
/// the walk ends on one more device, at address zero, whose fields cannot be read.
pub open spec fn devices_from(context: &Context, current: Object, seen: Seq<u64>, left: nat) -> Seq<
    Object,
>
    decreases left,
{
    if left == 0 || seen.contains(current.offset) {
        Seq::empty()
    } else {
        match context.member_pointer(current, "NextDevice") {
            Some(address) => if address == 0 {
                seq![current, moved(current, 0)]
            } else {
                seq![current] + devices_from(
                    context,
                    moved(current, address),
                    seen.push(current.offset),
                    (left - 1) as nat,
                )
            },
            None => seq![current],
        }
    }
}

/// The devices a driver owns.
pub open spec fn devices_of(context: &Context, driver: Object) -> Seq<Object> {
    match context.member_target(driver, "DeviceObject") {
        Some(first) => devices_from(context, first, Seq::empty(), MOST_DEVICES as nat),
        None => Seq::empty(),
    }
}

/// The devices a driver owns, linked through `NextDevice`.
pub fn device_chain(context: &Context, driver: Object) -> (results: Vec<Object>)
    ensures
        results@ == devices_of(context, driver),
{
    let mut results: Vec<Object> = Vec::new();
    let first = match context.member_target(driver, "DeviceObject") {
        Some(first) => first,
        None => return results,
    };
    let mut seen: Vec<u64> = Vec::new();
    let mut current: Object = first;
    let mut left: usize = MOST_DEVICES;
    let mut going = true;
    let ghost whole = devices_of(context, driver);
    assert(results@ + whole =~= whole);
    while going
        invariant
            going ==> whole == results@ + devices_from(context, current, seen@, left as nat),
            !going ==> whole == results@,
        decreases
                (if going {
                    left + 1
                } else {
                    0
                }),
    {
        let ghost before = results@;
        if left == 0 || is_among(&seen, current.offset) {
            going = false;
            assert(before + Seq::<Object>::empty() =~= results@);
        } else {
            results.push(current);
            match context.member_pointer(current, "NextDevice") {
                Some(address) => {
                    if address == 0 {
                        results.push(move_to(current, 0));
                        going = false;
                        assert(before + seq![current, moved(current, 0)] =~= results@);
                    } else {
                        seen.push(current.offset);
                        let ghost rest = devices_from(
                            context,
                            moved(current, address),
                            seen@,
                            (left - 1) as nat,
                        );
                        assert(before + (seq![current] + rest) =~= results@ + rest);
                        current = move_to(current, address);
                        left = left - 1;
                    }
                },
                None => {
                    going = false;
                    assert(before + seq![current] =~= results@);
                },
            }
        }
    }
    results
}

/// The devices attached above one, at most `left` of them. The chain ends with a
/// device at address zero, which is where reading stops being possible.
pub open spec fn attached_from(context: &Context, current: Object, seen: Seq<u64>, left: nat) -> Seq<
    Object,
>
    decreases left,
{
    if left == 0 {
        Seq::empty()
    } else {
        match context.member_pointer(current, "AttachedDevice") {
            Some(address) => if address == 0 {
                seq![moved(current, 0)]
            } else if seen.contains(address) {
                Seq::empty()
            } else {
                seq![moved(current, address)] + attached_from(
                    context,
                    moved(current, address),
                    seen.push(address),
                    (left - 1) as nat,
                )
            },
            None => Seq::empty(),
        }
    }
}

/// The devices attached above one, each above the one before.
pub fn attached_chain(context: &Context, device: Object) -> (results: Vec<Object>)
    ensures
        results@ == attached_from(context, device, Seq::empty(), MOST_ATTACHED as nat),
{
    let mut results: Vec<Object> = Vec::new();
    let mut seen: Vec<u64> = Vec::new();
    let mut current: Object = device;
    let mut left: usize = MOST_ATTACHED;
    let mut going = true;
    let ghost whole = attached_from(context, device, Seq::empty(), MOST_ATTACHED as nat);
    assert(results@ + whole =~= whole);
    while going
        invariant
            going ==> whole == results@ + attached_from(context, current, seen@, left as nat),
            !going ==> whole == results@,
        decreases
                (if going {
                    left + 1
                } else {
                    0
                }),
    {
        let ghost before = results@;
        if left == 0 {
            going = false;
            assert(before + Seq::<Object>::empty() =~= results@);
        } else {
            match context.member_pointer(current, "AttachedDevice") {
                Some(address) => {
                    if address == 0 {
                        results.push(move_to(current, 0));
                        going = false;
                        assert(before + seq![moved(current, 0)] =~= results@);
                    } else if is_among(&seen, address) {
                        going = false;
                        assert(before + Seq::<Object>::empty() =~= results@);
                    } else {
                        current = move_to(current, address);
                        results.push(current);
                        seen.push(address);
                        left = left - 1;
                        let ghost rest = attached_from(context, current, seen@, left as nat);
                        assert(before + (seq![current] + rest) =~= results@ + rest);
                    }
                },
                None => {
                    going = false;
                    assert(before + Seq::<Object>::empty() =~= results@);
                },
            }
        }
    }
    results
}

/// The name on an object's header, or that it makes no sense.
pub open spec fn header_cell(context: &Context, kernel: &Module, object: Object) -> Cell {
    match context.object_name_of(object, kernel) {
        Some(name) => Cell::Text(name),
        None => Cell::unparsable(),
    }
}

fn header_value(context: &Context, kernel: &Module, object: Object) -> (value: Value)
    ensures
        value@ == header_cell(context, kernel, object),
{
    match context.object_name(object, kernel) {
        Some(name) => Value::String(name),
        None => Value::unparsable(),
    }
}

/// A row of the report. Every row of a driver's subtree reports the driver's own
/// address and the short name on its header.
pub open spec fn tree_row(
    context: &Context,
    kernel: &Module,
    driver: Object,
    sort: Seq<char>,
    device: Cell,
    attached: Cell,
    kind: Cell,
) -> Seq<Cell> {
    seq![
        Cell::hex(driver.offset),
        Cell::Text(sort),
        header_cell(context, kernel, driver),
        device,
        attached,
        kind,
    ]
}

fn make_row(
    context: &Context,
    kernel: &Module,
    driver: Object,
    sort: &str,
    device: Value,
    attached: Value,
    kind: Value,
) -> (row: Row)
    ensures
        row@ == tree_row(context, kernel, driver, sort@, device@, attached@, kind@),
{
    Row::new().with(Value::hex(driver.offset)).with(Value::string(sort)).with(
        header_value(context, kernel, driver),
    ).with(device).with(attached).with(kind)
}

/// The row of a device that is attached above another.
pub open spec fn attached_row(
    context: &Context,
    kernel: &Module,
    driver: Object,
    attached: Object,
) -> Option<Seq<Cell>> {
    match (
        context.member_target(attached, "DriverObject"),
        context.member_u64(attached, "DeviceType"),
    ) {
        (Some(other), Some(kind)) => match context.member_unicode_of(other, "DriverName") {
            Some(name) => Some(
                tree_row(
                    context,
                    kernel,
                    driver,
                    "ATT"@,
                    header_cell(context, kernel, attached),
                    Cell::Text(name),
                    Cell::Text(device_type_name(kind)@),
                ),
            ),
            None => None,
        },
        _ => None,
    }
}

fn make_attached(context: &Context, kernel: &Module, driver: Object, attached: Object) -> (row:
    Option<Row>)
    ensures
        match row {
            Some(row) => attached_row(context, kernel, driver, attached) == Some(row@),
            None => attached_row(context, kernel, driver, attached) is None,
        },
{
    match (
        context.member_target(attached, "DriverObject"),
        context.member_u64(attached, "DeviceType"),
    ) {
        (Some(other), Some(kind)) => match context.member_unicode(other, "DriverName") {
            Some(name) => Some(
                make_row(
                    context,
                    kernel,
                    driver,
                    "ATT",
                    header_value(context, kernel, attached),
                    Value::String(name),
                    Value::string(device_type_name(kind)),
                ),
            ),
            None => None,
        },
        _ => None,
    }
}

/// A report, and whether a read failed. A read that fails abandons the rest of
/// its driver, not just the device it failed on.
#[verifier::ext_equal]
pub struct Progress {
    pub table: Table,
    pub failed: bool,
}

/// How far the report is behind the attached devices from one on. Each sits a
/// level deeper than the one below it: a stack of filters in the same I/O path.
pub open spec fn after_attached(
    context: &Context,
    kernel: &Module,
    driver: Object,
    table: Table,
    list: Seq<Object>,
    from: int,
) -> Progress
    decreases list.len() - from,
{
    if from < 0 || from >= list.len() {
        Progress { table, failed: false }
    } else {
        match attached_row(context, kernel, driver, list[from]) {
            Some(row) => after_attached(
                context,
                kernel,
                driver,
                table.push(from + 2, row),
                list,
                from + 1,
            ),
            None => Progress { table, failed: true },
        }
    }
}

#[verifier::loop_isolation(false)]
fn add_attached(
    context: &Context,
    kernel: &Module,
    driver: Object,
    grid: &mut TreeGrid,
    list: &Vec<Object>,
) -> (failed: bool)
    requires
        list@.len() <= MOST_ATTACHED,
    ensures
        (Progress { table: final(grid)@, failed }) == after_attached(
            context,
            kernel,
            driver,
            old(grid)@,
            list@,
            0,
        ),
{
    let ghost whole = after_attached(context, kernel, driver, grid@, list@, 0);
    for i in 0..list.len()
        invariant
            whole == after_attached(context, kernel, driver, grid@, list@, i as int),
    {
        match make_attached(context, kernel, driver, list[i]) {
            Some(row) => {
                grid.push(i + 2, row);
            },
            None => {
                return true;
            },
        }
    }
    false
}

proof fn lemma_attached_count(context: &Context, current: Object, seen: Seq<u64>, left: nat)
    ensures
        attached_from(context, current, seen, left).len() <= left,
    decreases left,
{
    if left > 0 {
        if let Some(address) = context.member_pointer(current, "AttachedDevice") {
            if address != 0 && !seen.contains(address) {
                lemma_attached_count(
                    context,
                    moved(current, address),
                    seen.push(address),
                    (left - 1) as nat,
                );
            }
        }
    }
}

/// How far the report is behind the devices of a driver from one on.
pub open spec fn after_devices(
    context: &Context,
    kernel: &Module,
    driver: Object,
    table: Table,
    list: Seq<Object>,
    from: int,
) -> Table
    decreases list.len() - from,
{
    if from < 0 || from >= list.len() {
        table
    } else {
        match context.member_u64(list[from], "DeviceType") {
            Some(kind) => {
                let progress = after_attached(
                    context,
                    kernel,
                    driver,
                    table.push(
                        1,
                        tree_row(
                            context,
                            kernel,
                            driver,
                            "DEV"@,
                            header_cell(context, kernel, list[from]),
                            Cell::not_applicable(),
                            Cell::Text(device_type_name(kind)@),
                        ),
                    ),
                    attached_from(context, list[from], Seq::empty(), MOST_ATTACHED as nat),
                    0,
                );
                if progress.failed {
                    progress.table
                } else {
                    after_devices(context, kernel, driver, progress.table, list, from + 1)
                }
            },
            None => table,
        }
    }
}

#[verifier::loop_isolation(false)]
fn add_devices(
    context: &Context,
    kernel: &Module,
    driver: Object,
    grid: &mut TreeGrid,
    list: &Vec<Object>,
)
    ensures
        final(grid)@ == after_devices(context, kernel, driver, old(grid)@, list@, 0),
{
    let ghost whole = after_devices(context, kernel, driver, grid@, list@, 0);
    for i in 0..list.len()
        invariant
            whole == after_devices(context, kernel, driver, grid@, list@, i as int),
    {
        match context.member_u64(list[i], "DeviceType") {
            Some(kind) => {
                let row = make_row(
                    context,
                    kernel,
                    driver,
                    "DEV",
                    header_value(context, kernel, list[i]),
                    Value::not_applicable(),
                    Value::string(device_type_name(kind)),
                );
                grid.push(1, row);
                proof {
                    lemma_attached_count(
                        context,
                        list@[i as int],
                        Seq::empty(),
                        MOST_ATTACHED as nat,
                    );
                }
                let attached = attached_chain(context, list[i]);
                if add_attached(context, kernel, driver, grid, &attached) {
                    return;
                }
            },
            None => {
                return;
            },
        }
    }
}

/// A report with one more driver and what hangs off it.
#[verifier::opaque]
pub open spec fn with_driver(context: &Context, kernel: &Module, table: Table, driver: Object) -> Table {
    after_devices(
        context,
        kernel,
        driver,
        table.push(
            0,
            tree_row(
                context,
                kernel,
                driver,
                "DRV"@,
                Cell::not_applicable(),
                Cell::not_applicable(),
                Cell::not_applicable(),
            ),
        ),
        devices_of(context, driver),
        0,
    )
}

fn add_driver(context: &Context, kernel: &Module, grid: &mut TreeGrid, driver: Object)
    ensures
        final(grid)@ == with_driver(context, kernel, old(grid)@, driver),
{
    reveal(with_driver);
    let row = make_row(
        context,
        kernel,
        driver,
        "DRV",
        Value::not_applicable(),
        Value::not_applicable(),
        Value::not_applicable(),
    );
    grid.push(0, row);
    let list = device_chain(context, driver);
    add_devices(context, kernel, driver, grid, &list);
}

/// The report on the first of some drivers.
pub open spec fn reported(
    context: &Context,
    kernel: &Module,
    headings: Seq<Column>,
    list: Seq<Object>,
    count: int,
) -> Table
    decreases count,
{
    if count <= 0 {
        Table::empty(headings)
    } else {
        with_driver(
            context,
            kernel,
            reported(context, kernel, headings, list, count - 1),
            list[count - 1],
        )
    }
}

impl Plugin for DeviceTree {
    open spec fn named(&self) -> Seq<char> {
        "windows.devicetree.DeviceTree"@
    }

    open spec fn described(&self) -> Seq<char> {
        "Listing tree based on drivers and attached devices in a particular windows memory image."@
    }

    open spec fn needs(&self) -> Seq<RequirementView> {
        seq![RequirementView::kernel()]
    }

    open spec fn headings(&self) -> Seq<Column> {
        seq![
            Column::new("Offset", ColumnType::UInt),
            Column::string("Type"),
            Column::string("DriverName"),
            Column::string("DeviceName"),
            Column::string("DriverNameOfAttDevice"),
            Column::string("DeviceType"),
        ]
    }

    open spec fn system(&self) -> OperatingSystem {
        OperatingSystem::Windows
    }

    open spec fn report(&self, context: &Context, config: &Configuration) -> Result<Table, Failure> {
        match plugins::windows::kernel_of(context, config) {
            Some(kernel) => match plugins::windows::driverscan::drivers(context, &kernel) {
                Some(list) => Ok(
                    reported(context, &kernel, self.headings(), list, list.len() as int),
                ),
                None => Err(Failure::Unavailable),
            },
            None => Err(plugins::windows::no_kernel()),
        }
    }

    fn name(&self) -> (name: &'static str) {
        "windows.devicetree.DeviceTree"
    }

    fn description(&self) -> (description: &'static str) {
        "Listing tree based on drivers and attached devices in a particular windows memory image."
    }

    fn requirements(&self) -> (requirements: Vec<Requirement>) {
        vec![Requirement::kernel()]
    }

    fn operating_system(&self) -> (system: OperatingSystem) {
        OperatingSystem::Windows
    }

    fn columns(&self) -> (columns: Vec<Column>) {
        vec![
            Column::new("Offset", ColumnType::UInt),
            Column::string("Type"),
            Column::string("DriverName"),
            Column::string("DeviceName"),
            Column::string("DriverNameOfAttDevice"),
            Column::string("DeviceType"),
        ]
    }

    fn epilog(&self) -> (epilog: Option<&'static str>) {
        None
    }

    fn timeline(&self, context: &Context, config: &Configuration) -> (timeline: Option<
        plugins::Timeline,
    >) {
        None
    }

    fn needs_kernel(&self) -> (needed: bool) {
        false
    }

    fn run(&self, context: &Context, config: &Configuration) -> (result: Result<TreeGrid, VolatilityError>) {
        let kernel = kernel_module(context, config)?;
        let list = scan_drivers(context, kernel)?;
        let mut grid = TreeGrid::new(self.columns());
        let ghost headings = self.headings();
        for i in 0..list.len()
            invariant
                grid@ == reported(context, kernel, headings, list@, i as int),
        {
            add_driver(context, kernel, &mut grid, list[i]);
        }
        Ok(grid)
    }
}

} // verus!
