//! Show the start of Mac memory regions, to look for injected code.
//!
//! Code is normally mapped from a file. A region that is both writable and
//! executable, or executable with nothing backing it, was written at runtime.

use crate::config::Configuration;
use crate::context::{Context, Object};
use crate::error::{Failure, VolatilityError};
use crate::plugins::{self, OperatingSystem, Plugin, Requirement, RequirementView};
use crate::plugins::mac::{chosen_processes, kernel_module};
use crate::renderers::{Cell, Column, ColumnType, Row, Table, TreeGrid, Value};
use crate::symbols::mac::MapEntry;
use crate::text::same_text;
use vstd::prelude::*;

verus! {

/// Shows the start of memory regions.
pub struct Malfind;

/// How many bytes of each region to show.
pub const PREVIEW_BYTES: usize = 64;

/// Whether a region looks like injected code. Writable and executable together is
/// the pattern, as is executable memory that no file backs.
pub open spec fn looks_injected(entry: &MapEntry) -> bool {
    entry.protection@ == "rwx"@ || (entry.protection@ == "r-x"@ && entry.path@.len() == 0)
}

/// Whether a region looks like injected code.
pub fn is_suspicious(entry: &MapEntry) -> (suspicious: bool)
    ensures
        suspicious == looks_injected(entry),
{
    same_text(&entry.protection, "rwx") || (same_text(&entry.protection, "r-x")
        && entry.path.unicode_len() == 0)
}

/// The bytes at the start of a region, or none.
pub open spec fn preview(context: &Context, layer: usize, start: u64) -> Seq<u8> {
    match context.bytes_of(layer, start, PREVIEW_BYTES, true) {
        Some(data) => data,
        None => Seq::empty(),
    }
}

fn read_preview(context: &Context, layer: usize, start: u64) -> (data: Vec<u8>)
    ensures
        data@ == preview(context, layer, start),
{
    match context.read(layer, start, PREVIEW_BYTES, true) {
        Some(data) => data,
        None => Vec::new(),
    }
}

/// The row of a region. No decoder is at hand, so its code is shown as bytes.
pub open spec fn region_row(
    context: &Context,
    process: Object,
    pid: u64,
    layer: usize,
    entry: &MapEntry,
    start: u64,
) -> Seq<Cell> {
    seq![
        Cell::integer(pid as i64),
        Cell::Text(context.mac_name_or_empty(process)),
        Cell::hex(start),
        Cell::hex_or_unreadable(entry.end),
        Cell::Text(entry.protection@),
        Cell::HexDump(preview(context, layer, start)),
        Cell::HexPairs(preview(context, layer, start)),
    ]
}

fn make_row(
    context: &Context,
    process: Object,
    pid: u64,
    layer: usize,
    entry: &MapEntry,
    start: u64,
) -> (row: Row)
    ensures
        row@ == region_row(context, process, pid, layer, entry, start),
{
    Row::new().with(Value::integer(pid as i64)).with(
        Value::String(context.mac_name_or_none(process)),
    ).with(Value::hex(start)).with(Value::hex_or_unreadable(entry.end)).with(
        Value::string(&entry.protection),
    ).with(Value::HexDump(read_preview(context, layer, start))).with(
        Value::HexPairs(read_preview(context, layer, start)),
    )
}

/// A report with the first of a process's regions. The regions that look like
/// injected code are the ones left out.
pub open spec fn with_regions(
    context: &Context,
    table: Table,
    process: Object,
    pid: u64,
    layer: usize,
    entries: Seq<MapEntry>,
    count: int,
) -> Table
    decreases count,
{
    if count <= 0 {
        table
    } else {
        let before = with_regions(context, table, process, pid, layer, entries, count - 1);
        let entry = &entries[count - 1];
        match entry.start {
            Some(start) if !looks_injected(entry) => before.push(
                0,
                region_row(context, process, pid, layer, entry, start),
            ),
            _ => before,
        }
    }
}

/// A report with one more process.
#[verifier::opaque]
pub open spec fn with_process(context: &Context, table: Table, process: Object) -> Table {
    match (context.mac_pid(process), context.process_space(process), context.map_of(process)) {
        (Some(pid), Some(Some(layer)), Some(entries)) => with_regions(
            context,
            table,
            process,
            pid,
            layer,
            entries,
            entries.len() as int,
        ),
        _ => table,
    }
}

fn add_process(context: &Context, grid: &mut TreeGrid, process: Object)
    ensures
        final(grid)@ == with_process(context, old(grid)@, process),
{
    reveal(with_process);
    let ghost before = grid@;
    if let (Some(pid), Some(Some(layer)), Some(entries)) = (
        context.mac_pid(process),
        context.process_layer(process),
        context.vm_map_entries(process),
    ) {
        for i in 0..entries.len()
            invariant
                grid@ == with_regions(
                    context,
                    before,
                    process,
                    pid,
                    layer,
                    entries@,
                    i as int,
                ),
        {
            let entry = &entries[i];
            if let Some(start) = entry.start {
                if !is_suspicious(entry) {
                    grid.push(0, make_row(context, process, pid, layer, entry, start));
                }
            }
        }
    }
}

/// The report on the first of some processes.
pub open spec fn reported(
    context: &Context,
    headings: Seq<Column>,
    processes: Seq<Object>,
    count: int,
) -> Table
    decreases count,
{
    if count <= 0 {
        Table::empty(headings)
    } else {
        with_process(
            context,
            reported(context, headings, processes, count - 1),
            processes[count - 1],
        )
    }
}

impl Plugin for Malfind {
    open spec fn named(&self) -> Seq<char> {
        "mac.malfind.Malfind"@
    }

    open spec fn described(&self) -> Seq<char> {
        "Lists process memory ranges that potentially contain injected code."@
    }

    open spec fn needs(&self) -> Seq<RequirementView> {
        seq![RequirementView::kernel(), RequirementView::pid_filter("Filter on specific process IDs"@)]
    }

    open spec fn headings(&self) -> Seq<Column> {
        seq![
            Column::integer("PID"),
            Column::string("Process"),
            Column::new("Start", ColumnType::UInt),
            Column::new("End", ColumnType::UInt),
            Column::string("Protection"),
            Column::bytes("Hexdump"),
            Column::string("Disasm"),
        ]
    }

    open spec fn system(&self) -> OperatingSystem {
        OperatingSystem::Mac
    }

    open spec fn report(&self, context: &Context, config: &Configuration) -> Result<Table, Failure> {
        match plugins::mac::kernel_of(context, config) {
            Some(_) => match plugins::mac::chosen(context, config) {
                Some(processes) => Ok(
                    reported(context, self.headings(), processes, processes.len() as int),
                ),
                None => Err(Failure::Unavailable),
            },
            None => Err(plugins::mac::no_kernel()),
        }
    }

    fn name(&self) -> (name: &'static str) {
        "mac.malfind.Malfind"
    }

    fn description(&self) -> (description: &'static str) {
        "Lists process memory ranges that potentially contain injected code."
    }

    fn requirements(&self) -> (requirements: Vec<Requirement>) {
        vec![Requirement::kernel(), Requirement::pid_filter("Filter on specific process IDs")]
    }

    fn operating_system(&self) -> (system: OperatingSystem) {
        OperatingSystem::Mac
    }

    fn columns(&self) -> (columns: Vec<Column>) {
        vec![
            Column::integer("PID"),
            Column::string("Process"),
            Column::new("Start", ColumnType::UInt),
            Column::new("End", ColumnType::UInt),
            Column::string("Protection"),
            Column::bytes("Hexdump"),
            Column::string("Disasm"),
        ]
    }

    fn epilog(&self) -> (epilog: Option<&'static str>) {
        None
    }

    fn timeline(&self, context: &Context, config: &Configuration) -> (timeline: Option<
        plugins::Timeline,
    >) {
        None
    }

    fn needs_kernel(&self) -> (needed: bool) {
        false
    }

    fn run(&self, context: &Context, config: &Configuration) -> (result: Result<TreeGrid, VolatilityError>) {
        let _kernel = kernel_module(context, config)?;
        let processes = chosen_processes(context, config)?;
        let mut grid = TreeGrid::new(self.columns());
        let ghost headings = self.headings();
        for i in 0..processes.len()
            invariant
                grid@ == reported(context, headings, processes@, i as int),
        {
            add_process(context, &mut grid, processes[i]);
        }
        Ok(grid)
    }
}

} // verus!
