//! List the processes present in a Mac memory image.

use crate::config::{ConfigValue, Configuration};
use crate::context::{Context, Object};
use crate::error::{Failure, VolatilityError};
use crate::plugins::{
    self, pid_filter, ConfigView, KindView, OperatingSystem, Plugin, Requirement, RequirementKind,
    RequirementView,
};
use crate::plugins::mac::{filtered_processes, kernel_module};
use crate::renderers::{Cell, Column, ColumnType, Row, Table, TreeGrid, Value};
use crate::symbols;
use crate::symbols::mac::list_processes_by;
use crate::text;
use crate::time::DateTime;
use vstd::prelude::*;

verus! {

/// Lists the processes present in a Mac memory image.
pub struct PsList;

/// The lists the kernel keeps of its processes.
pub open spec fn pslist_methods() -> Seq<Seq<char>> {
    seq!["tasks"@, "allproc"@, "process_group"@, "sessions"@, "pid_hash_table"@]
}

fn method_names() -> (names: Vec<String>)
    ensures
        text::texts(names@) == pslist_methods(),
{
    let names = vec![
        "tasks".to_owned(),
        "allproc".to_owned(),
        "process_group".to_owned(),
        "sessions".to_owned(),
        "pid_hash_table".to_owned(),
    ];
    assert(text::texts(names@) =~= pslist_methods());
    names
}

fn method_requirement() -> (requirement: Requirement)
    ensures
        requirement@ == RequirementView::new(
            "pslist_method"@,
            "Method to determine for processes"@,
            KindView::Choice(pslist_methods()),
        ).with_default(ConfigView::Str("tasks"@)),
{
    reveal_with_fuel(plugins::kind_view, 2);
    reveal_with_fuel(plugins::config_view, 2);
    Requirement::new(
        "pslist_method",
        "Method to determine for processes",
        RequirementKind::Choice(method_names()),
    ).with_default(ConfigValue::Str("tasks".to_owned()))
}

/// When a process was started. The moment has no time zone, so it reads in that of
/// whoever reads it.
pub open spec fn start_cell(context: &Context, process: Object) -> Cell {
    match context.member(process, "p_start") {
        Some(start) => match (
            context.member_i64(start, "tv_sec"),
            context.member_u64(start, "tv_usec"),
        ) {
            (Some(seconds), Some(microseconds)) => Cell::LocalTime(
                DateTime { seconds, microseconds: microseconds as u32 },
            ),
            _ => Cell::unreadable(),
        },
        None => Cell::unreadable(),
    }
}

fn start_value(context: &Context, process: Object) -> (value: Value)
    ensures
        value@ == start_cell(context, process),
{
    match context.member(process, "p_start") {
        Some(start) => match (
            context.member_i64(start, "tv_sec"),
            context.member_u64(start, "tv_usec"),
        ) {
            (Some(seconds), Some(microseconds)) => Value::LocalTime(
                DateTime { seconds, microseconds: microseconds as u32 },
            ),
            _ => Value::unreadable(),
        },
        None => Value::unreadable(),
    }
}

/// The row of a process.
pub open spec fn process_row(context: &Context, pid: u64, process: Object) -> Seq<Cell> {
    seq![
        Cell::hex(process.offset),
        Cell::text_or_unreadable(context.mac_name_of(process)),
        Cell::integer(pid as i64),
        Cell::integer_or_unreadable(context.member_u64(process, "p_uid")),
        Cell::integer_or_unreadable(context.member_u64(process, "p_gid")),
        start_cell(context, process),
        Cell::integer_or_unreadable(context.mac_ppid(process)),
    ]
}

fn make_row(context: &Context, pid: u64, process: Object) -> (row: Row)
    ensures
        row@ == process_row(context, pid, process),
{
    Row::new().with(Value::hex(process.offset)).with(
        Value::text_or_unreadable(&context.mac_name(process)),
    ).with(Value::integer(pid as i64)).with(
        Value::integer_or_unreadable(context.member_u64(process, "p_uid")),
    ).with(Value::integer_or_unreadable(context.member_u64(process, "p_gid"))).with(
        start_value(context, process),
    ).with(Value::integer_or_unreadable(context.mac_ppid(process)))
}

/// A report with one more process.
pub open spec fn with_process(context: &Context, table: Table, process: Object) -> Table {
    match context.mac_pid(process) {
        Some(pid) => table.push(0, process_row(context, pid, process)),
        None => table,
    }
}

/// The report on the first of some processes.
pub open spec fn reported(
    context: &Context,
    headings: Seq<Column>,
    processes: Seq<Object>,
    count: int,
) -> Table
    decreases count,
{
    if count <= 0 {
        Table::empty(headings)
    } else {
        with_process(
            context,
            reported(context, headings, processes, count - 1),
            processes[count - 1],
        )
    }
}

impl Plugin for PsList {
    open spec fn named(&self) -> Seq<char> {
        "mac.pslist.PsList"@
    }

    open spec fn described(&self) -> Seq<char> {
        "Lists the processes present in a particular mac memory image."@
    }

    open spec fn needs(&self) -> Seq<RequirementView> {
        seq![
            RequirementView::kernel(),
            RequirementView::new(
                "pslist_method"@,
                "Method to determine for processes"@,
                KindView::Choice(pslist_methods()),
            ).with_default(ConfigView::Str("tasks"@)),
            RequirementView::pid_filter("Filter on specific process IDs"@),
        ]
    }

    open spec fn headings(&self) -> Seq<Column> {
        seq![
            Column::new("OFFSET", ColumnType::UInt),
            Column::string("NAME"),
            Column::integer("PID"),
            Column::integer("UID"),
            Column::integer("GID"),
            Column::datetime("Start Time"),
            Column::integer("PPID"),
        ]
    }

    open spec fn system(&self) -> OperatingSystem {
        OperatingSystem::Mac
    }

    open spec fn report(&self, context: &Context, config: &Configuration) -> Result<Table, Failure> {
        match plugins::mac::kernel_of(context, config) {
            // Every list holds the same processes, but a damaged one may hold
            // more of them than another.
            Some(_) => match symbols::mac::processes_from(
                context.mac.lists@,
                config.text_or("pslist_method"@, "tasks"@),
                0,
            ) {
                Some(processes) => {
                    let passing = plugins::mac::passing(
                        context,
                        processes,
                        plugins::pid_list(config.lookup("pid"@)),
                    );
                    Ok(reported(context, self.headings(), passing, passing.len() as int))
                },
                None => Err(Failure::Unavailable),
            },
            None => Err(plugins::mac::no_kernel()),
        }
    }

    fn name(&self) -> (name: &'static str) {
        "mac.pslist.PsList"
    }

    fn description(&self) -> (description: &'static str) {
        "Lists the processes present in a particular mac memory image."
    }

    fn requirements(&self) -> (requirements: Vec<Requirement>) {
        vec![
            Requirement::kernel(),
            method_requirement(),
            Requirement::pid_filter("Filter on specific process IDs"),
        ]
    }

    fn operating_system(&self) -> (system: OperatingSystem) {
        OperatingSystem::Mac
    }

    fn columns(&self) -> (columns: Vec<Column>) {
        vec![
            Column::new("OFFSET", ColumnType::UInt),
            Column::string("NAME"),
            Column::integer("PID"),
            Column::integer("UID"),
            Column::integer("GID"),
            Column::datetime("Start Time"),
            Column::integer("PPID"),
        ]
    }

    fn epilog(&self) -> (epilog: Option<&'static str>) {
        None
    }

    fn timeline(&self, context: &Context, config: &Configuration) -> (timeline: Option<
        plugins::Timeline,
    >) {
        None
    }

    fn needs_kernel(&self) -> (needed: bool) {
        false
    }

    fn run(&self, context: &Context, config: &Configuration) -> (result: Result<TreeGrid, VolatilityError>) {
        let _kernel = kernel_module(context, config)?;
        let filter = pid_filter(config);
        let method = match config.get_string("pslist_method") {
            Some(method) => method,
            None => "tasks".to_owned(),
        };
        let processes = match list_processes_by(context, &method) {
            Some(processes) => filtered_processes(context, processes, &filter),
            None => return Err(VolatilityError::Unavailable),
        };
        let mut grid = TreeGrid::new(self.columns());
        let ghost headings = self.headings();
        for i in 0..processes.len()
            invariant
                grid@ == reported(context, headings, processes@, i as int),
        {
            if let Some(pid) = context.mac_pid(processes[i]) {
                grid.push(0, make_row(context, pid, processes[i]));
            }
        }
        Ok(grid)
    }
}

} // verus!
