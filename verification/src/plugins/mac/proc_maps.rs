//! Report each process's memory mappings.

use crate::config::{ConfigValue, Configuration};
use crate::context::{Context, Object};
use crate::error::{Failure, VolatilityError};
use crate::plugins::{
    self, int_list, ConfigView, KindView, OperatingSystem, Plugin, Requirement, RequirementKind,
    RequirementView,
};
use crate::plugins::mac::{chosen_processes, kernel_module};
use crate::plugins::output::{self, extract};
use crate::renderers::{Cell, Column, ColumnType, Row, Table, TreeGrid, Value};
use crate::symbols::mac::MapEntry;
use crate::text::{self, decimal, hexadecimal};
use vstd::prelude::*;

verus! {

/// Reports each process's memory mappings.
pub struct Maps;

/// Mappings of this many bytes or more are not extracted.
pub const MAXSIZE_DEFAULT: u64 = 0x4000_0000;

/// What a run asks for.
pub struct Options {
    /// Addresses, each of which selects the mapping that contains it.
    pub wanted: Vec<u64>,
    /// Whether the mappings are extracted.
    pub dump: bool,
    /// Mappings of this many bytes or more are not extracted.
    pub maxsize: u64,
}

/// What a run asks for, as a report sees it.
pub ghost struct OptionsView {
    pub wanted: Seq<u64>,
    pub dump: bool,
    pub maxsize: u64,
}

impl View for Options {
    type V = OptionsView;

    open spec fn view(&self) -> OptionsView {
        OptionsView { wanted: self.wanted@, dump: self.dump, maxsize: self.maxsize }
    }
}

/// What a configuration asks for.
pub open spec fn options_of(config: &Configuration) -> OptionsView {
    OptionsView {
        wanted: plugins::option_numbers(config.lookup("address"@)),
        dump: config.flag("dump"@),
        maxsize: maxsize_of(config),
    }
}

/// The size from which on mappings are not extracted.
pub open spec fn maxsize_of(config: &Configuration) -> u64 {
    match config.int_of("maxsize"@) {
        Some(size) => size as u64,
        None => MAXSIZE_DEFAULT,
    }
}

fn read_options(config: &Configuration) -> (options: Options)
    ensures
        options@ == options_of(config),
{
    Options {
        wanted: int_list(config, "address"),
        dump: match config.get_bool("dump") {
            Some(dump) => dump,
            None => false,
        },
        maxsize: match config.get_int("maxsize") {
            Some(size) => size as u64,
            None => MAXSIZE_DEFAULT,
        },
    }
}

/// Whether a mapping is one of those asked for: all of them where no address is
/// given, and otherwise those that contain one of the addresses.
pub open spec fn selects(wanted: Seq<u64>, start: u64, end: u64) -> bool {
    wanted.len() == 0 || exists|i: int|
        0 <= i < wanted.len() && start <= #[trigger] wanted[i] <= end
}

/// Whether a mapping is one of those asked for.
pub fn is_selected(wanted: &Vec<u64>, start: u64, end: u64) -> (selected: bool)
    ensures
        selected == selects(wanted@, start, end),
{
    if wanted.is_empty() {
        return true;
    }
    for i in 0..wanted.len()
        invariant
            forall|j: int| 0 <= j < i ==> !(start <= #[trigger] wanted@[j] <= end),
    {
        if start <= wanted[i] && wanted[i] <= end {
            return true;
        }
    }
    false
}

/// What a mapping is called. One that no file backs is named for the part of the
/// process it belongs to, if it is a named part.
pub open spec fn map_name(entry: &MapEntry) -> Seq<char> {
    if entry.path@.len() == 0 {
        entry.special@
    } else {
        entry.path@
    }
}

fn read_map_name(entry: &MapEntry) -> (name: String)
    ensures
        name@ == map_name(entry),
{
    if entry.path.unicode_len() == 0 {
        entry.special.clone()
    } else {
        entry.path.clone()
    }
}

/// The file that a mapping is extracted to, named for the process and the range.
pub open spec fn region_file(pid: u64, start: u64, end: u64) -> Seq<char> {
    "pid."@ + text::decimal_text(pid as int) + ".vma."@ + text::hex_text(start as nat) + "-"@
        + text::hex_text(end as nat) + ".dmp"@
}

fn name_region(pid: u64, start: u64, end: u64) -> (name: String)
    ensures
        name@ == region_file(pid, start, end),
{
    let mut name = "pid.".to_owned();
    name.append(&decimal(pid));
    name.append(".vma.");
    name.append(&hexadecimal(start));
    name.append("-");
    name.append(&hexadecimal(end));
    name.append(".dmp");
    assert(name@ =~= region_file(pid, start, end));
    name
}

/// What a mapping that is to be extracted holds. There is nothing to extract where
/// the process has no memory of its own, and a mapping that ends before it starts
/// or is too large is passed over.
pub open spec fn region_bytes(
    context: &Context,
    layer: Option<usize>,
    start: u64,
    end: u64,
    maxsize: u64,
) -> Option<Seq<u8>> {
    match layer {
        Some(layer) => if end < start || maxsize <= end - start {
            None
        } else {
            context.bytes_of(layer, start, (end - start) as usize, true)
        },
        None => None,
    }
}

fn read_region(context: &Context, layer: Option<usize>, start: u64, end: u64, maxsize: u64) -> (data:
    Option<Vec<u8>>)
    ensures
        match data {
            Some(data) => region_bytes(context, layer, start, end, maxsize) == Some(data@),
            None => region_bytes(context, layer, start, end, maxsize) is None,
        },
{
    match layer {
        Some(layer) => if end < start || maxsize <= end - start {
            None
        } else {
            context.read(layer, start, (end - start) as usize, true)
        },
        None => None,
    }
}

/// The report once a mapping is extracted, and what it says of the file.
pub open spec fn dumped(
    context: &Context,
    table: Table,
    layer: Option<usize>,
    pid: u64,
    start: u64,
    end: u64,
    maxsize: u64,
) -> (Table, Seq<char>) {
    match region_bytes(context, layer, start, end, maxsize) {
        Some(data) => {
            let kept = output::extracted(
                table,
                &context.output,
                region_file(pid, start, end),
                data,
            );
            (
                kept.0,
                if kept.1 is Some {
                    region_file(pid, start, end)
                } else {
                    "Error outputting file"@
                },
            )
        },
        None => (table, "Error outputting file"@),
    }
}

/// Write one mapping's contents out.
pub fn dump_region(
    context: &Context,
    grid: &mut TreeGrid,
    layer: Option<usize>,
    pid: u64,
    start: u64,
    end: u64,
    maxsize: u64,
) -> (said: String)
    ensures
        (final(grid)@, said@) == dumped(
            context,
            old(grid)@,
            layer,
            pid,
            start,
            end,
            maxsize,
        ),
{
    match read_region(context, layer, start, end, maxsize) {
        Some(data) => {
            let name = name_region(pid, start, end);
            match extract(grid, &context.output, &name, data) {
                Some(_) => name,
                None => "Error outputting file".to_owned(),
            }
        },
        None => "Error outputting file".to_owned(),
    }
}

/// The row of a mapping.
pub open spec fn mapping_row(
    context: &Context,
    process: Object,
    pid: u64,
    entry: &MapEntry,
    start: u64,
    end: u64,
    file: Seq<char>,
) -> Seq<Cell> {
    seq![
        Cell::integer(pid as i64),
        Cell::Text(context.mac_name_or_empty(process)),
        Cell::hex(start),
        Cell::hex(end),
        Cell::Text(entry.protection@),
        Cell::Text(map_name(entry)),
        Cell::Text(file),
    ]
}

/// A report with one more mapping.
pub open spec fn with_mapping(
    context: &Context,
    options: OptionsView,
    table: Table,
    process: Object,
    pid: u64,
    entry: &MapEntry,
) -> Table {
    match (entry.start, entry.end) {
        (Some(start), Some(end)) => if selects(options.wanted, start, end) {
            let kept = if options.dump {
                dumped(
                    context,
                    table,
                    own_layer(context, process),
                    pid,
                    start,
                    end,
                    options.maxsize,
                )
            } else {
                (table, "Disabled"@)
            };
            kept.0.push(0, mapping_row(context, process, pid, entry, start, end, kept.1))
        } else {
            table
        },
        _ => table,
    }
}

pub open spec fn spec_own_layer(context: &Context, process: Object) -> Option<usize> {
    match context.process_space(process) {
        Some(layer) => layer,
        None => None,
    }
}

/// The layer of a process's own memory, if it has any that can be read.
#[verifier::when_used_as_spec(spec_own_layer)]
pub fn own_layer(context: &Context, process: Object) -> (layer: Option<usize>)
    ensures
        layer == spec_own_layer(context, process),
{
    match context.process_layer(process) {
        Some(layer) => layer,
        None => None,
    }
}

fn add_mapping(
    context: &Context,
    options: &Options,
    grid: &mut TreeGrid,
    process: Object,
    pid: u64,
    entry: &MapEntry,
)
    ensures
        final(grid)@ == with_mapping(context, options@, old(grid)@, process, pid, entry),
{
    if let (Some(start), Some(end)) = (entry.start, entry.end) {
        if is_selected(&options.wanted, start, end) {
            let file = if options.dump {
                dump_region(
                    context,
                    grid,
                    own_layer(context, process),
                    pid,
                    start,
                    end,
                    options.maxsize,
                )
            } else {
                "Disabled".to_owned()
            };
            let ghost said = file@;
            let row = Row::new().with(Value::integer(pid as i64)).with(
                Value::String(context.mac_name_or_none(process)),
            ).with(Value::hex(start)).with(Value::hex(end)).with(
                Value::string(&entry.protection),
            ).with(Value::String(read_map_name(entry))).with(Value::String(file));
            assert(row@ == mapping_row(context, process, pid, entry, start, end, said));
            grid.push(0, row);
        }
    }
}

/// A report with the first of a process's mappings.
pub open spec fn with_mappings(
    context: &Context,
    options: OptionsView,
    table: Table,
    process: Object,
    pid: u64,
    entries: Seq<MapEntry>,
    count: int,
) -> Table
    decreases count,
{
    if count <= 0 {
        table
    } else {
        with_mapping(
            context,
            options,
            with_mappings(context, options, table, process, pid, entries, count - 1),
            process,
            pid,
            &entries[count - 1],
        )
    }
}

/// A report with one more process.
#[verifier::opaque]
pub open spec fn with_process(
    context: &Context,
    options: OptionsView,
    table: Table,
    process: Object,
) -> Table {
    match (context.mac_pid(process), context.map_of(process)) {
        (Some(pid), Some(entries)) => with_mappings(
            context,
            options,
            table,
            process,
            pid,
            entries,
            entries.len() as int,
        ),
        _ => table,
    }
}

fn add_process(context: &Context, options: &Options, grid: &mut TreeGrid, process: Object)
    ensures
        final(grid)@ == with_process(context, options@, old(grid)@, process),
{
    reveal(with_process);
    let ghost before = grid@;
    if let (Some(pid), Some(entries)) = (
        context.mac_pid(process),
        context.vm_map_entries(process),
    ) {
        for i in 0..entries.len()
            invariant
                grid@ == with_mappings(
                    context,
                    options@,
                    before,
                    process,
                    pid,
                    entries@,
                    i as int,
                ),
        {
            add_mapping(context, options, grid, process, pid, &entries[i]);
        }
    }
}

/// The report on the first of some processes.
pub open spec fn reported(
    context: &Context,
    options: OptionsView,
    headings: Seq<Column>,
    processes: Seq<Object>,
    count: int,
) -> Table
    decreases count,
{
    if count <= 0 {
        Table::empty(headings)
    } else {
        with_process(
            context,
            options,
            reported(context, options, headings, processes, count - 1),
            processes[count - 1],
        )
    }
}

impl Plugin for Maps {
    open spec fn named(&self) -> Seq<char> {
        "mac.proc_maps.Maps"@
    }

    open spec fn described(&self) -> Seq<char> {
        "Lists process memory ranges that potentially contain injected code."@
    }

    open spec fn needs(&self) -> Seq<RequirementView> {
        seq![
            RequirementView::kernel(),
            RequirementView::pid_filter("Filter on specific process IDs"@),
            RequirementView::new("dump"@, "Extract listed memory segments"@, KindView::Bool)
                .with_default(ConfigView::Bool(false)),
            RequirementView::new(
                "address"@,
                "Process virtual memory addresses to include (all other VMA sections are excluded). This can be any virtual address within the VMA section. Virtual addresses must be separated by a space."@,
                KindView::List(Box::new(KindView::Int)),
            ),
            RequirementView::new(
                "maxsize"@,
                "Maximum size for dumped VMA sections (all the bigger sections will be ignored)"@,
                KindView::Int,
            ).with_default(ConfigView::Int(MAXSIZE_DEFAULT as i64)),
        ]
    }

    open spec fn headings(&self) -> Seq<Column> {
        seq![
            Column::integer("PID"),
            Column::string("Process"),
            Column::new("Start", ColumnType::UInt),
            Column::new("End", ColumnType::UInt),
            Column::string("Protection"),
            Column::string("Map Name"),
            Column::string("File output"),
        ]
    }

    open spec fn system(&self) -> OperatingSystem {
        OperatingSystem::Mac
    }

    open spec fn report(&self, context: &Context, config: &Configuration) -> Result<Table, Failure> {
        match plugins::mac::kernel_of(context, config) {
            Some(_) => match plugins::mac::chosen(context, config) {
                Some(processes) => {
                    let options = options_of(config);
                    Ok(
                        reported(
                            context,
                            options,
                            self.headings(),
                            processes,
                            processes.len() as int,
                        ),
                    )
                },
                None => Err(Failure::Unavailable),
            },
            None => Err(plugins::mac::no_kernel()),
        }
    }

    fn name(&self) -> (name: &'static str) {
        "mac.proc_maps.Maps"
    }

    fn description(&self) -> (description: &'static str) {
        "Lists process memory ranges that potentially contain injected code."
    }

    fn requirements(&self) -> (requirements: Vec<Requirement>) {
        reveal_with_fuel(crate::plugins::kind_view, 3);
        reveal_with_fuel(crate::plugins::config_view, 3);
        vec![
            Requirement::kernel(),
            Requirement::pid_filter("Filter on specific process IDs"),
            Requirement::new("dump", "Extract listed memory segments", RequirementKind::Bool)
                .with_default(ConfigValue::Bool(false)),
            Requirement::new(
                "address",
                "Process virtual memory addresses to include (all other VMA sections are excluded). This can be any virtual address within the VMA section. Virtual addresses must be separated by a space.",
                RequirementKind::List(Box::new(RequirementKind::Int)),
            ),
            Requirement::new(
                "maxsize",
                "Maximum size for dumped VMA sections (all the bigger sections will be ignored)",
                RequirementKind::Int,
            ).with_default(ConfigValue::Int(MAXSIZE_DEFAULT as i64)),
        ]
    }

    fn operating_system(&self) -> (system: OperatingSystem) {
        OperatingSystem::Mac
    }

    fn columns(&self) -> (columns: Vec<Column>) {
        vec![
            Column::integer("PID"),
            Column::string("Process"),
            Column::new("Start", ColumnType::UInt),
            Column::new("End", ColumnType::UInt),
            Column::string("Protection"),
            Column::string("Map Name"),
            Column::string("File output"),
        ]
    }

    fn epilog(&self) -> (epilog: Option<&'static str>) {
        None
    }

    fn timeline(&self, context: &Context, config: &Configuration) -> (timeline: Option<
        plugins::Timeline,
    >) {
        None
    }

    fn needs_kernel(&self) -> (needed: bool) {
        false
    }

    fn run(&self, context: &Context, config: &Configuration) -> (result: Result<TreeGrid, VolatilityError>) {
        let _kernel = kernel_module(context, config)?;
        let options = read_options(config);
        let processes = chosen_processes(context, config)?;
        let mut grid = TreeGrid::new(self.columns());
        let ghost headings = self.headings();
        for i in 0..processes.len()
            invariant
                grid@ == reported(context, options@, headings, processes@, i as int),
        {
            add_process(context, &options, &mut grid, processes[i]);
        }
        Ok(grid)
    }
}

} // verus!
