//! Extract the executable image at an address.
//!
//! The image is rebuilt from a process's memory, or from the kernel's as one of
//! its sessions sees it.

use crate::config::{ConfigValue, Configuration};
use crate::context::{Context, Object};
use crate::error::{Failure, VolatilityError};
use crate::plugins::{
    self, pid_filter, ConfigView, KindView, OperatingSystem, Plugin, Requirement, RequirementKind,
    RequirementView,
};
use crate::plugins::output::{self, extract};
use crate::plugins::windows::{chosen_processes, kernel_module, physical_layer};
use crate::plugins::windows::modules::{session_layers, viable_session};
use crate::renderers::{Cell, Column, Row, Table, TreeGrid, Value};
use crate::text::{self, decimal, hexadecimal};
use vstd::prelude::*;

verus! {

/// Extracts the executable image at an address.
pub struct PeDump;

/// The process that owns the kernel's address space.
pub const SYSTEM_PID: u64 = 4;

/// The name of the file an image is written to, after where it came from.
pub open spec fn dump_name(process_offset: u64, pid: u64, base: u64) -> Seq<char> {
    "PE."@ + text::hex_text(process_offset as nat) + seq!['.'] + text::decimal_text(pid as int)
        + seq!['.'] + text::hex_text(base as nat) + ".dmp"@
}

/// A report with a row for an image, and the image beside it, if it could be
/// rebuilt and written. The name reported is the one asked for, since it is
/// reported as the file is opened rather than after it is written.
pub open spec fn with_image(
    context: &Context,
    table: Table,
    layer: usize,
    base: u64,
    process_offset: u64,
    pid: u64,
    process: Seq<char>,
) -> Table {
    let name = dump_name(process_offset, pid, base);
    match context.image_at(layer, base) {
        Some(data) => {
            let (kept, written) = output::extracted(table, &context.output, name, data);
            match written {
                Some(_) => kept.push(
                    0,
                    seq![Cell::integer(pid as i64), Cell::Text(process), Cell::Text(name)],
                ),
                None => kept,
            }
        },
        None => table,
    }
}

/// Rebuild the image at `base` and keep it, naming the file after where it came
/// from.
pub fn dump(
    context: &Context,
    grid: &mut TreeGrid,
    layer: usize,
    base: u64,
    process_offset: u64,
    pid: u64,
    process: &str,
)
    ensures
        final(grid)@ == with_image(
            context,
            old(grid)@,
            layer,
            base,
            process_offset,
            pid,
            process@,
        ),
{
    let mut name = "PE.".to_owned();
    name.append(&hexadecimal(process_offset));
    name.push('.');
    name.append(&decimal(pid));
    name.push('.');
    name.append(&hexadecimal(base));
    name.append(".dmp");
    assert(name@ =~= dump_name(process_offset, pid, base));
    if let Some(data) = context.reconstruct(layer, base) {
        if let Some(_) = extract(grid, &context.output, &name, data) {
            let row = Row::new().with(Value::integer(pid as i64)).with(
                Value::string(process),
            ).with(Value::String(name));
            assert(row@ =~= seq![
                Cell::integer(pid as i64),
                Cell::Text(process@),
                Cell::Text(dump_name(process_offset, pid, base)),
            ]);
            grid.push(0, row);
        }
    }
}

/// A report with the image in one more process.
pub open spec fn with_process(
    context: &Context,
    physical: Seq<char>,
    base: u64,
    table: Table,
    process: Object,
) -> Table {
    match (context.pid(process), context.layer_of(process, physical)) {
        (Some(pid), Some(layer)) => with_image(
            context,
            table,
            layer,
            base,
            process.offset,
            pid,
            context.image_name_or_empty(process),
        ),
        _ => table,
    }
}

/// The report on the first of some processes.
pub open spec fn reported(
    context: &Context,
    physical: Seq<char>,
    base: u64,
    headings: Seq<Column>,
    processes: Seq<Object>,
    count: int,
) -> Table
    decreases count,
{
    if count <= 0 {
        Table::empty(headings)
    } else {
        with_process(
            context,
            physical,
            base,
            reported(context, physical, base, headings, processes, count - 1),
            processes[count - 1],
        )
    }
}

/// The address that a configuration asks for.
pub open spec fn asked_base(config: &Configuration) -> u64 {
    match config.int_of("base"@) {
        Some(base) => base as u64,
        None => 0,
    }
}

impl Plugin for PeDump {
    open spec fn named(&self) -> Seq<char> {
        "windows.pedump.PEDump"@
    }

    open spec fn described(&self) -> Seq<char> {
        "Allows extracting PE Files from a specific address in a specific address space"@
    }

    open spec fn needs(&self) -> Seq<RequirementView> {
        seq![
            RequirementView::kernel(),
            RequirementView::pid_filter("Process IDs to include (all other processes are excluded)"@),
            RequirementView::new(
                "base"@,
                "Base address to reconstruct a PE file"@,
                KindView::Int,
            )
            .required(),
            RequirementView::new(
                "kernel_module"@,
                "Extract from kernel address space."@,
                KindView::Bool,
            )
            .with_default(ConfigView::Bool(false)),
        ]
    }

    open spec fn headings(&self) -> Seq<Column> {
        seq![
            Column::integer("PID"),
            Column::string("Process"),
            Column::string("File output"),
        ]
    }

    open spec fn system(&self) -> OperatingSystem {
        OperatingSystem::Windows
    }

    open spec fn report(&self, context: &Context, config: &Configuration) -> Result<Table, Failure> {
        match plugins::windows::kernel_of(context, config) {
            Some(kernel) => {
                let physical = plugins::windows::physical_name(config);
                let empty = Table::empty(self.headings());
                let filter = plugins::pid_list(config.lookup("pid"@));
                // The image is either the kernel's or a process's. Asking for
                // both, or for neither, says nothing about where to look.
                if config.flag("kernel_module"@) == (filter is Some) {
                    Ok(empty)
                } else if config.flag("kernel_module"@) {
                    let sessions = plugins::windows::modules::sessions(
                        context,
                        &kernel,
                        physical,
                    );
                    match plugins::windows::modules::viable_from(
                        context,
                        sessions,
                        asked_base(config),
                        0,
                    ) {
                        Some(layer) => Ok(
                            with_image(
                                context,
                                empty,
                                layer,
                                asked_base(config),
                                0,
                                SYSTEM_PID,
                                "Kernel"@,
                            ),
                        ),
                        None => Ok(empty),
                    }
                } else {
                    match plugins::windows::chosen(context, &kernel, config) {
                        Some(processes) => Ok(
                            reported(
                                context,
                                physical,
                                asked_base(config),
                                self.headings(),
                                processes,
                                processes.len() as int,
                            ),
                        ),
                        None => Err(Failure::Unavailable),
                    }
                }
            },
            None => Err(plugins::windows::no_kernel()),
        }
    }

    fn name(&self) -> (name: &'static str) {
        "windows.pedump.PEDump"
    }

    fn description(&self) -> (description: &'static str) {
        "Allows extracting PE Files from a specific address in a specific address space"
    }

    fn requirements(&self) -> (requirements: Vec<Requirement>) {
        vec![
            Requirement::kernel(),
            Requirement::pid_filter("Process IDs to include (all other processes are excluded)"),
            Requirement::new(
                "base",
                "Base address to reconstruct a PE file",
                RequirementKind::Int,
            )
            .required(),
            Requirement::new(
                "kernel_module",
                "Extract from kernel address space.",
                RequirementKind::Bool,
            )
            .with_default(ConfigValue::Bool(false)),
        ]
    }

    fn operating_system(&self) -> (system: OperatingSystem) {
        OperatingSystem::Windows
    }

    fn columns(&self) -> (columns: Vec<Column>) {
        vec![
            Column::integer("PID"),
            Column::string("Process"),
            Column::string("File output"),
        ]
    }

    fn epilog(&self) -> (epilog: Option<&'static str>) {
        None
    }

    fn timeline(&self, context: &Context, config: &Configuration) -> (timeline: Option<
        plugins::Timeline,
    >) {
        None
    }

    fn needs_kernel(&self) -> (needed: bool) {
        false
    }

    fn run(&self, context: &Context, config: &Configuration) -> (result: Result<TreeGrid, VolatilityError>) {
        let kernel = kernel_module(context, config)?;
        let physical = physical_layer(config);
        let mut grid = TreeGrid::new(self.columns());
        let base: u64 = match config.get_int("base") {
            Some(base) => base as u64,
            None => 0,
        };
        let from_kernel = config.is_set("kernel_module");
        let filter = pid_filter(config);
        if from_kernel == filter.is_some() {
            return Ok(grid);
        }
        if from_kernel {
            // A driver loaded into a session is only mapped inside it, so the
            // image is read through a session that can see the address.
            let sessions = session_layers(context, kernel, &physical);
            if let Some(layer) = viable_session(context, &sessions, base) {
                dump(context, &mut grid, layer, base, 0, SYSTEM_PID, "Kernel");
            }
            return Ok(grid);
        }
        let processes = chosen_processes(context, kernel, config)?;
        let ghost headings = self.headings();
        for i in 0..processes.len()
            invariant
                grid@ == reported(context, physical@, base, headings, processes@, i as int),
        {
            let process = processes[i];
            if let (Some(pid), Some(layer)) = (
                context.pid(process),
                context.address_space(process, &physical),
            ) {
                let name = context.image_file_name_or_empty(process);
                dump(context, &mut grid, layer, base, process.offset, pid, &name);
            }
        }
        Ok(grid)
    }
}

} // verus!
