//! List the files that processes have open.

use crate::config::Configuration;
use crate::context::{Context, Object};
use crate::error::{Failure, VolatilityError};
use crate::plugins::{self, OperatingSystem, Plugin, Requirement, RequirementView};
use crate::plugins::mac::{chosen_processes, kernel_module};
use crate::renderers::{Cell, Column, Row, Table, TreeGrid, Value};
use crate::symbols;
use crate::symbols::mac::Descriptor;
use vstd::prelude::*;

verus! {

/// Lists the files that processes have open.
pub struct Lsof;

/// The row of an open file. One the kernel has not named is not reported.
pub open spec fn file_row(pid: u64, descriptor: &Descriptor) -> Option<Seq<Cell>> {
    match descriptor.path {
        Some(path) => if path@.len() == 0 {
            None
        } else {
            Some(
                seq![
                    Cell::integer(pid as i64),
                    Cell::integer(descriptor.number as i64),
                    Cell::Text(path@),
                ],
            )
        },
        None => None,
    }
}

fn make_row(pid: u64, descriptor: &Descriptor) -> (row: Option<Row>)
    ensures
        match row {
            Some(row) => file_row(pid, descriptor) == Some(row@),
            None => file_row(pid, descriptor) is None,
        },
{
    match &descriptor.path {
        Some(path) => if path.unicode_len() == 0 {
            None
        } else {
            let row = Row::new().with(Value::integer(pid as i64)).with(
                Value::integer(descriptor.number as i64),
            ).with(Value::string(path));
            assert(file_row(pid, descriptor) == Some(row@));
            Some(row)
        },
        None => None,
    }
}

/// A report with the first of a process's open files.
pub open spec fn with_files(table: Table, pid: u64, list: Seq<&Descriptor>, count: int) -> Table
    decreases count,
{
    if count <= 0 {
        table
    } else {
        let before = with_files(table, pid, list, count - 1);
        match file_row(pid, list[count - 1]) {
            Some(row) => before.push(0, row),
            None => before,
        }
    }
}

/// A report with the open files of one more process.
#[verifier::opaque]
pub open spec fn with_process(context: &Context, table: Table, process: Object) -> Table {
    match context.mac_pid(process) {
        Some(pid) => {
            let list = symbols::mac::descriptors_of(context.mac.descriptors@, process.offset);
            with_files(table, pid, list, list.len() as int)
        },
        None => table,
    }
}

fn add_process(context: &Context, grid: &mut TreeGrid, process: Object)
    ensures
        final(grid)@ == with_process(context, old(grid)@, process),
{
    reveal(with_process);
    let ghost before = grid@;
    if let Some(pid) = context.mac_pid(process) {
        let list = context.file_descriptors(process);
        for i in 0..list.len()
            invariant
                grid@ == with_files(before, pid, list@, i as int),
        {
            if let Some(row) = make_row(pid, list[i]) {
                grid.push(0, row);
            }
        }
    }
}

/// The report on the first of some processes.
pub open spec fn reported(
    context: &Context,
    headings: Seq<Column>,
    processes: Seq<Object>,
    count: int,
) -> Table
    decreases count,
{
    if count <= 0 {
        Table::empty(headings)
    } else {
        with_process(
            context,
            reported(context, headings, processes, count - 1),
            processes[count - 1],
        )
    }
}

impl Plugin for Lsof {
    open spec fn named(&self) -> Seq<char> {
        "mac.lsof.Lsof"@
    }

    open spec fn described(&self) -> Seq<char> {
        "Lists all open file descriptors for all processes."@
    }

    open spec fn needs(&self) -> Seq<RequirementView> {
        seq![RequirementView::kernel(), RequirementView::pid_filter("Filter on specific process IDs"@)]
    }

    open spec fn headings(&self) -> Seq<Column> {
        seq![
            Column::integer("PID"),
            Column::integer("File Descriptor"),
            Column::string("File Path"),
        ]
    }

    open spec fn system(&self) -> OperatingSystem {
        OperatingSystem::Mac
    }

    open spec fn report(&self, context: &Context, config: &Configuration) -> Result<Table, Failure> {
        match plugins::mac::kernel_of(context, config) {
            Some(_) => match plugins::mac::chosen(context, config) {
                Some(processes) => Ok(
                    reported(context, self.headings(), processes, processes.len() as int),
                ),
                None => Err(Failure::Unavailable),
            },
            None => Err(plugins::mac::no_kernel()),
        }
    }

    fn name(&self) -> (name: &'static str) {
        "mac.lsof.Lsof"
    }

    fn description(&self) -> (description: &'static str) {
        "Lists all open file descriptors for all processes."
    }

    fn requirements(&self) -> (requirements: Vec<Requirement>) {
        vec![Requirement::kernel(), Requirement::pid_filter("Filter on specific process IDs")]
    }

    fn operating_system(&self) -> (system: OperatingSystem) {
        OperatingSystem::Mac
    }

    fn columns(&self) -> (columns: Vec<Column>) {
        vec![
            Column::integer("PID"),
            Column::integer("File Descriptor"),
            Column::string("File Path"),
        ]
    }

    fn epilog(&self) -> (epilog: Option<&'static str>) {
        None
    }

    fn timeline(&self, context: &Context, config: &Configuration) -> (timeline: Option<
        plugins::Timeline,
    >) {
        None
    }

    fn needs_kernel(&self) -> (needed: bool) {
        false
    }

    fn run(&self, context: &Context, config: &Configuration) -> (result: Result<TreeGrid, VolatilityError>) {
        let _kernel = kernel_module(context, config)?;
        let processes = chosen_processes(context, config)?;
        let mut grid = TreeGrid::new(self.columns());
        let ghost headings = self.headings();
        for i in 0..processes.len()
            invariant
                grid@ == reported(context, headings, processes@, i as int),
        {
            add_process(context, &mut grid, processes[i]);
        }
        Ok(grid)
    }
}

} // verus!
