//! Report the command lines of processes.

use crate::config::Configuration;
use crate::context::{Context, Object};
use crate::error::{Failure, VolatilityError};
use crate::plugins::{self, OperatingSystem, Plugin, Requirement, RequirementView};
use crate::plugins::windows::{chosen_processes, kernel_module, physical_layer};
use crate::renderers::{Cell, Column, Row, Table, TreeGrid, Value};
use vstd::prelude::*;

verus! {

/// Reports the command lines of processes.
pub struct CmdLine;

/// The row of a process. The command line lives in user space, so it can only be
/// read through the process's own page tables.
pub open spec fn process_row(context: &Context, physical: Seq<char>, pid: u64, process: Object) -> Seq<
    Cell,
> {
    seq![
        Cell::uint(pid),
        Cell::text_or_unreadable(context.image_name_of(process)),
        plugins::windows::pstree::user_cell(context, physical, process, "CommandLine"),
    ]
}

/// A report with one more process.
pub open spec fn with_process(
    context: &Context,
    physical: Seq<char>,
    table: Table,
    process: Object,
) -> Table {
    match context.pid(process) {
        Some(pid) => table.push(0, process_row(context, physical, pid, process)),
        None => table,
    }
}

fn add_process(
    context: &Context,
    physical: &str,
    grid: &mut TreeGrid,
    process: Object,
)
    ensures
        final(grid)@ == with_process(context, physical@, old(grid)@, process),
{
    if let Some(pid) = context.pid(process) {
        let line = match context.address_space(process, physical) {
            Some(layer) => Value::text_or_unreadable(&context.command_line(process, layer)),
            None => Value::unreadable(),
        };
        let row = Row::new().with(Value::uint(pid)).with(
            Value::text_or_unreadable(&context.image_file_name(process)),
        ).with(line);
        assert(row@ == process_row(context, physical@, pid, process));
        grid.push(0, row);
    }
}

/// The report on the first of some processes.
pub open spec fn reported(
    context: &Context,
    physical: Seq<char>,
    headings: Seq<Column>,
    processes: Seq<Object>,
    count: int,
) -> Table
    decreases count,
{
    if count <= 0 {
        Table::empty(headings)
    } else {
        with_process(
            context,
            physical,
            reported(context, physical, headings, processes, count - 1),
            processes[count - 1],
        )
    }
}

impl Plugin for CmdLine {
    open spec fn named(&self) -> Seq<char> {
        "windows.cmdline.CmdLine"@
    }

    open spec fn described(&self) -> Seq<char> {
        "Lists process command line arguments."@
    }

    open spec fn needs(&self) -> Seq<RequirementView> {
        seq![RequirementView::kernel(), RequirementView::pid_filter("Process IDs to include (all other processes are excluded)"@)]
    }

    open spec fn headings(&self) -> Seq<Column> {
        seq![
            Column::uint("PID"),
            Column::string("Process"),
            Column::string("Args"),
        ]
    }

    open spec fn system(&self) -> OperatingSystem {
        OperatingSystem::Windows
    }

    open spec fn report(&self, context: &Context, config: &Configuration) -> Result<Table, Failure> {
        match plugins::windows::kernel_of(context, config) {
            Some(kernel) => match plugins::windows::chosen(context, &kernel, config) {
                Some(processes) => Ok(
                    reported(
                        context,
                        plugins::windows::physical_name(config),
                        self.headings(),
                        processes,
                        processes.len() as int,
                    ),
                ),
                None => Err(Failure::Unavailable),
            },
            None => Err(plugins::windows::no_kernel()),
        }
    }

    fn name(&self) -> (name: &'static str) {
        "windows.cmdline.CmdLine"
    }

    fn description(&self) -> (description: &'static str) {
        "Lists process command line arguments."
    }

    fn requirements(&self) -> (requirements: Vec<Requirement>) {
        vec![Requirement::kernel(), Requirement::pid_filter("Process IDs to include (all other processes are excluded)")]
    }

    fn operating_system(&self) -> (system: OperatingSystem) {
        OperatingSystem::Windows
    }

    fn columns(&self) -> (columns: Vec<Column>) {
        vec![
            Column::uint("PID"),
            Column::string("Process"),
            Column::string("Args"),
        ]
    }

    fn epilog(&self) -> (epilog: Option<&'static str>) {
        None
    }

    fn timeline(&self, context: &Context, config: &Configuration) -> (timeline: Option<
        plugins::Timeline,
    >) {
        None
    }

    fn needs_kernel(&self) -> (needed: bool) {
        false
    }

    fn run(&self, context: &Context, config: &Configuration) -> (result: Result<TreeGrid, VolatilityError>) {
        let kernel = kernel_module(context, config)?;
        let physical = physical_layer(config);
        let processes = chosen_processes(context, kernel, config)?;
        let mut grid = TreeGrid::new(self.columns());
        let ghost headings = self.headings();
        for i in 0..processes.len()
            invariant
                grid@ == reported(context, physical@, headings, processes@, i as int),
        {
            add_process(context, &physical, &mut grid, processes[i]);
        }
        Ok(grid)
    }
}

} // verus!
