//! Print the memory map of a process.

use crate::config::{ConfigValue, Configuration};
use crate::context::{self, Context, Layer, MappingEntry, Module, Object};
use crate::error::{Failure, VolatilityError};
use crate::plugins::{
    self, pid_filter, ConfigView, KindView, OperatingSystem, Plugin, Requirement, RequirementKind,
    RequirementView,
};
use crate::plugins::output::{self, extract};
use crate::plugins::windows::{filtered_processes, kernel_module, physical_layer};
use crate::renderers::{Cell, Column, ColumnType, Row, Table, TreeGrid, Value};
use crate::symbols;
use crate::symbols::windows::list_processes;
use crate::text::{self, decimal};
use vstd::prelude::*;

verus! {

/// Prints the memory map of a process.
pub struct MemMap;

/// How much of an address space is walked at once. A large window keeps the
/// walk cheap over sparse address space.
pub const WINDOW: u64 = 0x1000_0000;

/// The stretches that a layer maps between two addresses, window by window.
pub open spec fn walked(layer: &Layer, from: u64, to: u64) -> Seq<MappingEntry>
    decreases to - from,
{
    if from >= to {
        Seq::empty()
    } else {
        let window = if to - from < WINDOW {
            (to - from) as u64
        } else {
            WINDOW
        };
        context::parts(layer.regions@, from, window) + walked(layer, (from + window) as u64, to)
    }
}

/// Whether a stretch goes on where another one ends, in both layers.
pub open spec fn continues(last: MappingEntry, entry: MappingEntry) -> bool {
    last.offset + last.size == entry.offset && last.mapped_offset + last.mapped_size
        == entry.mapped_offset && last.layer == entry.layer
}

/// Regions with one more stretch: a stretch that goes on where the last region
/// ends makes it longer, and any other is a region of its own.
pub open spec fn with_stretch(regions: Seq<MappingEntry>, entry: MappingEntry) -> Seq<MappingEntry> {
    if regions.len() > 0 && continues(regions.last(), entry) {
        regions.update(
            regions.len() - 1,
            MappingEntry {
                size: regions.last().size.wrapping_add(entry.size),
                mapped_size: regions.last().mapped_size.wrapping_add(entry.mapped_size),
                ..regions.last()
            },
        )
    } else {
        regions.push(entry)
    }
}

/// The regions that stretches make.
pub open spec fn merged(entries: Seq<MappingEntry>) -> Seq<MappingEntry>
    decreases entries.len(),
{
    if entries.len() == 0 {
        Seq::empty()
    } else {
        with_stretch(merged(entries.drop_last()), entries.last())
    }
}

/// No region goes on where the one before it ends: what runs across the end of
/// a window is still one region.
pub proof fn law_regions_are_whole(entries: Seq<MappingEntry>)
    ensures
        forall|i: int|
            0 <= i < merged(entries).len() - 1 ==> !continues(
                #[trigger] merged(entries)[i],
                merged(entries)[i + 1],
            ),
    decreases entries.len(),
{
    if entries.len() > 0 {
        law_regions_are_whole(entries.drop_last());
        let before = merged(entries.drop_last());
        let after = merged(entries);
        assert forall|i: int| 0 <= i < after.len() - 1 implies !continues(
            #[trigger] after[i],
            after[i + 1],
        ) by {
            if i < before.len() - 1 {
                assert(!continues(before[i], before[i + 1]));
            }
        }
    }
}

proof fn lemma_merged_more(first: Seq<MappingEntry>, entry: MappingEntry)
    ensures
        merged(first.push(entry)) == with_stretch(merged(first), entry),
{
    assert(first.push(entry).drop_last() =~= first);
}

fn add_stretch(regions: &mut Vec<MappingEntry>, entry: MappingEntry)
    ensures
        final(regions)@ == with_stretch(old(regions)@, entry),
{
    if regions.len() > 0 {
        let at: usize = regions.len() - 1;
        let last = regions[at];
        if last.offset <= entry.offset && entry.offset - last.offset == last.size
            && last.mapped_offset <= entry.mapped_offset && entry.mapped_offset
            - last.mapped_offset == last.mapped_size && last.layer == entry.layer {
            regions.set(
                at,
                MappingEntry {
                    offset: last.offset,
                    size: last.size.wrapping_add(entry.size),
                    mapped_offset: last.mapped_offset,
                    mapped_size: last.mapped_size.wrapping_add(entry.mapped_size),
                    layer: last.layer,
                },
            );
            return;
        }
    }
    regions.push(entry);
}

/// The regions that a layer maps.
pub open spec fn regions_of(layer: &Layer) -> Seq<MappingEntry> {
    merged(walked(layer, layer.minimum, layer.maximum))
}

fn regions_in(layer: &Layer) -> (regions: Vec<MappingEntry>)
    ensures
        regions@ == regions_of(layer),
{
    let mut regions: Vec<MappingEntry> = Vec::new();
    let maximum: u64 = layer.maximum;
    let mut address: u64 = layer.minimum;
    let ghost mut seen: Seq<MappingEntry> = Seq::empty();
    let ghost all = walked(layer, layer.minimum, layer.maximum);
    while address < maximum
        invariant
            maximum == layer.maximum,
            all == seen + walked(layer, address, maximum),
            regions@ == merged(seen),
        decreases maximum - address,
    {
        let window: u64 = if maximum - address < WINDOW {
            maximum - address
        } else {
            WINDOW
        };
        let entries = layer.mapping(address, window);
        let ghost before = seen;
        for i in 0..entries.len()
            invariant
                seen == before + entries@.take(i as int),
                regions@ == merged(seen),
        {
            add_stretch(&mut regions, entries[i]);
            proof {
                lemma_merged_more(seen, entries@[i as int]);
                seen = seen.push(entries@[i as int]);
                assert(seen =~= before + entries@.take(i + 1));
            }
        }
        assert(entries@.take(entries@.len() as int) =~= entries@);
        address = address + window;
        assert(all =~= seen + walked(layer, address, maximum));
    }
    assert(seen =~= all);
    regions
}

/// Where in the file the first of some regions end: regions stand in it end to
/// end.
pub open spec fn file_offset(regions: Seq<MappingEntry>, count: int) -> u64
    decreases count,
{
    if count <= 0 {
        0
    } else {
        file_offset(regions, count - 1).wrapping_add(regions[count - 1].mapped_size)
    }
}

/// The bytes of the first of some regions, end to end.
pub open spec fn region_bytes(
    context: &Context,
    layer: usize,
    regions: Seq<MappingEntry>,
    count: int,
) -> Seq<u8>
    decreases count,
{
    if count <= 0 {
        Seq::empty()
    } else {
        region_bytes(context, layer, regions, count - 1) + match context.bytes_of(
            layer,
            regions[count - 1].offset,
            regions[count - 1].size as usize,
            true,
        ) {
            Some(bytes) => bytes,
            None => Seq::empty(),
        }
    }
}

fn write_regions(context: &Context, layer: usize, regions: &Vec<MappingEntry>) -> (data: Vec<u8>)
    ensures
        data@ == region_bytes(context, layer, regions@, regions@.len() as int),
{
    let mut data: Vec<u8> = Vec::new();
    for i in 0..regions.len()
        invariant
            data@ == region_bytes(context, layer, regions@, i as int),
    {
        if let Some(bytes) = context.read(layer, regions[i].offset, regions[i].size as usize, true) {
            let mut more = bytes;
            data.append(&mut more);
        }
    }
    data
}

/// What the row of a region says.
pub open spec fn region_cells(
    entry: MappingEntry,
    offset_in_file: u64,
    dump: bool,
    file_name: Seq<char>,
    written: bool,
) -> Seq<Cell> {
    seq![
        Cell::hex(entry.offset),
        Cell::hex(entry.mapped_offset),
        Cell::hex(entry.mapped_size),
        Cell::hex(offset_in_file),
        Cell::Text(
            if !dump {
                "Disabled"@
            } else if written {
                file_name
            } else {
                "Error outputting to file"@
            },
        ),
    ]
}

/// One mapped region, as this plugin reports it.
pub fn region_row(
    entry: &MappingEntry,
    offset_in_file: u64,
    dump: bool,
    file_name: &str,
    written: bool,
) -> (row: Row)
    ensures
        row@ == region_cells(*entry, offset_in_file, dump, file_name@, written),
{
    let file_output = if !dump {
        Value::string("Disabled")
    } else if written {
        Value::string(file_name)
    } else {
        Value::string("Error outputting to file")
    };
    Row::new().with(Value::hex(entry.offset)).with(Value::hex(entry.mapped_offset)).with(
        Value::hex(entry.mapped_size),
    ).with(Value::hex(offset_in_file)).with(file_output)
}

/// The report once the first of some regions are in it.
pub open spec fn with_regions(
    table: Table,
    regions: Seq<MappingEntry>,
    dump: bool,
    file_name: Seq<char>,
    written: bool,
    count: int,
) -> Table
    decreases count,
{
    if count <= 0 {
        table
    } else {
        with_regions(table, regions, dump, file_name, written, count - 1).push(
            0,
            region_cells(
                regions[count - 1],
                file_offset(regions, count - 1),
                dump,
                file_name,
                written,
            ),
        )
    }
}

/// The name of the file that a process's memory is written to.
pub open spec fn map_file(pid: u64) -> Seq<char> {
    "pid."@ + text::decimal_text(pid as int) + ".dmp"@
}

/// The report once a process is in it. A row names the file as it was asked
/// for, while what is written keeps clear of a file of that name already there.
pub open spec fn with_process(
    context: &Context,
    table: Table,
    process: Object,
    layer: usize,
    dump: bool,
) -> Table {
    let pid = match context.pid(process) {
        Some(pid) => pid,
        None => 0,
    };
    let regions = regions_of(&context.layers@[layer as int]);
    let kept = if dump {
        output::extracted(
            table,
            &context.output,
            map_file(pid),
            region_bytes(context, layer, regions, regions.len() as int),
        )
    } else {
        (table, None)
    };
    with_regions(kept.0, regions, dump, map_file(pid), kept.1 is Some, regions.len() as int)
}

/// The report once the first of some processes are in it. A process whose
/// memory has no layer is left out; one whose layer is not there ends the work.
pub open spec fn reported(
    context: &Context,
    config: &Configuration,
    headings: Seq<Column>,
    processes: Seq<Object>,
    count: int,
) -> Result<Table, Failure>
    decreases count,
{
    if count <= 0 {
        Ok(Table::empty(headings))
    } else {
        match reported(context, config, headings, processes, count - 1) {
            Ok(table) => match context.layer_of(
                processes[count - 1],
                plugins::windows::physical_name(config),
            ) {
                Some(layer) => if layer < context.layers@.len() {
                    Ok(
                        with_process(
                            context,
                            table,
                            processes[count - 1],
                            layer,
                            config.flag("dump"@),
                        ),
                    )
                } else {
                    Err(Failure::Unavailable)
                },
                None => Ok(table),
            },
            Err(failure) => Err(failure),
        }
    }
}

proof fn lemma_reported_failed(
    context: &Context,
    config: &Configuration,
    headings: Seq<Column>,
    processes: Seq<Object>,
    count: int,
    more: int,
)
    requires
        reported(context, config, headings, processes, count) is Err,
        count <= more,
    ensures
        reported(context, config, headings, processes, more) == reported(
            context,
            config,
            headings,
            processes,
            count,
        ),
    decreases more - count,
{
    if count < more {
        lemma_reported_failed(context, config, headings, processes, count, more - 1);
    }
}

fn add_process(context: &Context, grid: &mut TreeGrid, process: Object, layer: usize, dump: bool)
    requires
        layer < context.layers@.len(),
    ensures
        final(grid)@ == with_process(context, old(grid)@, process, layer, dump),
{
    let pid = match context.pid(process) {
        Some(pid) => pid,
        None => 0,
    };
    let mut file_name = "pid.".to_owned();
    file_name.append(&decimal(pid));
    file_name.append(".dmp");
    let regions = regions_in(&context.layers[layer]);
    let written = if dump {
        let data = write_regions(context, layer, &regions);
        extract(grid, &context.output, &file_name, data).is_some()
    } else {
        false
    };
    let ghost before = grid@;
    let mut offset_in_file: u64 = 0;
    for i in 0..regions.len()
        invariant
            grid@ == with_regions(before, regions@, dump, file_name@, written, i as int),
            offset_in_file == file_offset(regions@, i as int),
    {
        grid.push(0, region_row(&regions[i], offset_in_file, dump, &file_name, written));
        offset_in_file = offset_in_file.wrapping_add(regions[i].mapped_size);
    }
}

/// The processes whose map is asked for.
pub open spec fn chosen(context: &Context, kernel: &Module, config: &Configuration) -> Option<
    Seq<Object>,
> {
    match symbols::windows::listed_processes(context, kernel) {
        Some(processes) => Some(
            plugins::windows::passing(
                context,
                processes,
                plugins::pid_list(config.lookup("pid"@)),
            ),
        ),
        None => None,
    }
}

impl Plugin for MemMap {
    open spec fn named(&self) -> Seq<char> {
        "windows.memmap.Memmap"@
    }

    open spec fn described(&self) -> Seq<char> {
        "Prints the memory map"@
    }

    open spec fn needs(&self) -> Seq<RequirementView> {
        seq![
            RequirementView::kernel(),
            RequirementView::new(
                "pid"@,
                "Process ID to include (all other processes are excluded)"@,
                KindView::Int,
            ),
            RequirementView::new(
                "dump"@,
                "Extract listed memory segments"@,
                KindView::Bool,
            )
            .with_default(ConfigView::Bool(false)),
        ]
    }

    open spec fn headings(&self) -> Seq<Column> {
        seq![
            Column::new("Virtual", ColumnType::UInt),
            Column::new("Physical", ColumnType::UInt),
            Column::new("Size", ColumnType::UInt),
            Column::new("Offset in File", ColumnType::UInt),
            Column::string("File output"),
        ]
    }

    open spec fn system(&self) -> OperatingSystem {
        OperatingSystem::Windows
    }

    open spec fn report(&self, context: &Context, config: &Configuration) -> Result<Table, Failure> {
        match plugins::windows::kernel_of(context, config) {
            Some(kernel) => match chosen(context, &kernel, config) {
                Some(processes) => if processes.len() == 0 {
                    Err(
                        Failure::Other(
                            "No process matched; memmap needs a --pid to describe"@,
                        ),
                    )
                } else {
                    reported(
                        context,
                        config,
                        self.headings(),
                        processes,
                        processes.len() as int,
                    )
                },
                None => Err(Failure::Unavailable),
            },
            None => Err(plugins::windows::no_kernel()),
        }
    }

    fn name(&self) -> (name: &'static str) {
        "windows.memmap.Memmap"
    }

    fn description(&self) -> (description: &'static str) {
        "Prints the memory map"
    }

    fn requirements(&self) -> (requirements: Vec<Requirement>) {
        vec![
            Requirement::kernel(),
            Requirement::new(
                "pid",
                "Process ID to include (all other processes are excluded)",
                RequirementKind::Int,
            ),
            Requirement::new(
                "dump",
                "Extract listed memory segments",
                RequirementKind::Bool,
            )
            .with_default(ConfigValue::Bool(false)),
        ]
    }

    fn operating_system(&self) -> (system: OperatingSystem) {
        OperatingSystem::Windows
    }

    fn columns(&self) -> (columns: Vec<Column>) {
        vec![
            Column::new("Virtual", ColumnType::UInt),
            Column::new("Physical", ColumnType::UInt),
            Column::new("Size", ColumnType::UInt),
            Column::new("Offset in File", ColumnType::UInt),
            Column::string("File output"),
        ]
    }

    fn epilog(&self) -> (epilog: Option<&'static str>) {
        None
    }

    fn timeline(&self, context: &Context, config: &Configuration) -> (timeline: Option<
        plugins::Timeline,
    >) {
        None
    }

    fn needs_kernel(&self) -> (needed: bool) {
        false
    }

    fn run(&self, context: &Context, config: &Configuration) -> (result: Result<TreeGrid, VolatilityError>) {
        let kernel = kernel_module(context, config)?;
        let physical = physical_layer(config);
        let filter = pid_filter(config);
        let dump = config.is_set("dump");

        // This plugin describes one process's map, so a filter selecting exactly
        // one process is what makes the output meaningful.
        let processes = match list_processes(context, kernel) {
            Some(processes) => filtered_processes(context, &processes, &filter),
            None => return Err(VolatilityError::Unavailable),
        };
        if processes.is_empty() {
            return Err(
                VolatilityError::other("No process matched; memmap needs a --pid to describe"),
            );
        }
        let mut grid = TreeGrid::new(self.columns());
        let ghost headings = self.headings();
        for i in 0..processes.len()
            invariant
                reported(context, config, headings, processes@, i as int) == Ok::<Table, Failure>(
                    grid@,
                ),
                physical@ == plugins::windows::physical_name(config),
                dump == config.flag("dump"@),
                headings == self.headings(),
                plugins::windows::kernel_of(context, config) == Some(*kernel),
                chosen(context, kernel, config) == Some(processes@),
        {
            if let Some(layer) = context.address_space(processes[i], &physical) {
                if layer >= context.layers.len() {
                    proof {
                        lemma_reported_failed(
                            context,
                            config,
                            headings,
                            processes@,
                            i + 1,
                            processes@.len() as int,
                        );
                    }
                    return Err(VolatilityError::Unavailable);
                }
                add_process(context, &mut grid, processes[i], layer, dump);
            }
        }
        Ok(grid)
    }
}

} // verus!
