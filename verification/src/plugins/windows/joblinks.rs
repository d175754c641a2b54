//! Report the processes that belong to jobs.
//!
//! A job is a group of processes that the kernel manages as one. Each process
//! that belongs to one is reported with what its job counts, and the rest of the
//! job's members beneath it.

use crate::config::{ConfigValue, Configuration};
use crate::context::{Context, Module, Object};
use crate::error::{Failure, VolatilityError};
use crate::lists::{self, walk_list};
use crate::plugins::{
    self, ConfigView, KindView, OperatingSystem, Plugin, Requirement, RequirementKind,
    RequirementView,
};
use crate::plugins::windows::{kernel_module, offset_column_name, physical_layer, process_offset};
use crate::plugins::windows::pslist::session_id_value;
use crate::renderers::{Cell, Column, ColumnType, Row, Table, TreeGrid, Value};
use crate::symbols;
use crate::symbols::windows::list_processes;
use vstd::prelude::*;

verus! {

/// Reports the processes that belong to jobs.
pub struct JobLinks;

/// The columns, named for the address space the offsets belong to.
pub open spec fn headings_for(physical: bool) -> Seq<Column> {
    seq![
        Column::new(offset_column_name(physical), ColumnType::UInt),
        Column::string("Name"),
        Column::integer("PID"),
        Column::integer("PPID"),
        Column::integer("Sess"),
        Column::integer("JobSess"),
        Column::boolean("Wow64"),
        Column::integer("Total"),
        Column::integer("Active"),
        Column::integer("Term"),
        Column::string("JobLink"),
        Column::string("Process"),
    ]
}

/// The columns, named for the address space the offsets belong to.
pub fn columns_for(physical: bool) -> (columns: Vec<Column>)
    ensures
        columns@ == headings_for(physical),
{
    vec![
        Column::new(offset_column_name(physical), ColumnType::UInt),
        Column::string("Name"),
        Column::integer("PID"),
        Column::integer("PPID"),
        Column::integer("Sess"),
        Column::integer("JobSess"),
        Column::boolean("Wow64"),
        Column::integer("Total"),
        Column::integer("Active"),
        Column::integer("Term"),
        Column::string("JobLink"),
        Column::string("Process"),
    ]
}

/// What a job counts: its session and its processes in all, running and ended.
#[derive(Clone, Copy, PartialEq, Eq, Structural, Debug)]
pub struct JobCounts {
    pub session: i64,
    pub total: i64,
    pub active: i64,
    pub terminated: i64,
}

pub open spec fn spec_job_counts(context: &Context, job: Object) -> Option<JobCounts> {
    match (
        context.member_i64(job, "SessionId"),
        context.member_i64(job, "TotalProcesses"),
        context.member_i64(job, "ActiveProcesses"),
        context.member_i64(job, "TotalTerminatedProcesses"),
    ) {
        (Some(session), Some(total), Some(active), Some(terminated)) => Some(
            JobCounts { session, total, active, terminated },
        ),
        _ => None,
    }
}

/// What a job counts, where all of it can be read.
#[verifier::when_used_as_spec(spec_job_counts)]
pub fn job_counts(context: &Context, job: Object) -> (counts: Option<JobCounts>)
    ensures
        counts == spec_job_counts(context, job),
{
    match (
        context.member_i64(job, "SessionId"),
        context.member_i64(job, "TotalProcesses"),
        context.member_i64(job, "ActiveProcesses"),
        context.member_i64(job, "TotalTerminatedProcesses"),
    ) {
        (Some(session), Some(total), Some(active), Some(terminated)) => Some(
            JobCounts { session, total, active, terminated },
        ),
        _ => None,
    }
}

/// A row of the report.
pub open spec fn job_row(
    context: &Context,
    physical: bool,
    process: Object,
    pid: u64,
    name: Seq<char>,
    counts: JobCounts,
    link: Cell,
    path: Seq<char>,
) -> Seq<Cell> {
    seq![
        Cell::hex(process_offset(context, process, physical)),
        Cell::Text(name),
        Cell::integer(pid as i64),
        Cell::integer_or_unreadable(context.parent_pid(process)),
        plugins::windows::pslist::session_cell(context, process),
        Cell::integer(counts.session),
        Cell::Bool(context.is_wow64(process)),
        Cell::integer(counts.total),
        Cell::integer(counts.active),
        Cell::integer(counts.terminated),
        link,
        Cell::Text(path),
    ]
}

#[verifier::rlimit(40)]
fn make_row(
    context: &Context,
    physical: bool,
    process: Object,
    pid: u64,
    name: &str,
    counts: JobCounts,
    link: Value,
    path: &str,
) -> (row: Row)
    ensures
        row@ == job_row(context, physical, process, pid, name@, counts, link@, path@),
{
    Row::new().with(Value::hex(process_offset(context, process, physical))).with(
        Value::string(name),
    ).with(Value::integer(pid as i64)).with(
        Value::integer_or_unreadable(context.parent_pid(process)),
    ).with(session_id_value(context, process)).with(Value::integer(counts.session)).with(
        Value::Bool(context.is_wow64(process)),
    ).with(Value::integer(counts.total)).with(Value::integer(counts.active)).with(
        Value::integer(counts.terminated),
    ).with(link).with(Value::string(path))
}

/// The row of a further member of a job, named by the image it was started from.
pub open spec fn member_row(
    context: &Context,
    user_layer: Seq<char>,
    physical: bool,
    member: Object,
) -> Option<Seq<Cell>> {
    match (
        context.pid(member),
        context.image_name_of(member),
        context.layer_of(member, user_layer),
    ) {
        (Some(pid), Some(name), Some(layer)) => match context.parameter_of(
            member,
            layer,
            "ImagePathName",
        ) {
            Some(path) => Some(
                job_row(
                    context,
                    physical,
                    member,
                    pid,
                    name,
                    JobCounts { session: 0, total: 0, active: 0, terminated: 0 },
                    Cell::Text("Yes"@),
                    path,
                ),
            ),
            None => None,
        },
        _ => None,
    }
}

fn make_member(context: &Context, user_layer: &str, physical: bool, member: Object) -> (row: Option<
    Row,
>)
    ensures
        match row {
            Some(row) => member_row(context, user_layer@, physical, member) == Some(row@),
            None => member_row(context, user_layer@, physical, member) is None,
        },
{
    match (
        context.pid(member),
        context.image_file_name(member),
        context.address_space(member, user_layer),
    ) {
        (Some(pid), Some(name), Some(layer)) => match context.image_path(member, layer) {
            Some(path) => Some(
                make_row(
                    context,
                    physical,
                    member,
                    pid,
                    &name,
                    JobCounts { session: 0, total: 0, active: 0, terminated: 0 },
                    Value::string("Yes"),
                    &path,
                ),
            ),
            None => None,
        },
        _ => None,
    }
}

/// A report with the members of a job from one on, up to the first of which
/// something cannot be read.
pub open spec fn with_members(
    context: &Context,
    user_layer: Seq<char>,
    physical: bool,
    table: Table,
    members: Seq<Object>,
    from: int,
) -> Table
    decreases members.len() - from,
{
    if from < 0 || from >= members.len() {
        table
    } else {
        match member_row(context, user_layer, physical, members[from]) {
            Some(row) => with_members(
                context,
                user_layer,
                physical,
                table.push(1, row),
                members,
                from + 1,
            ),
            None => table,
        }
    }
}

#[verifier::loop_isolation(false)]
fn add_members(
    context: &Context,
    user_layer: &str,
    physical: bool,
    grid: &mut TreeGrid,
    members: &Vec<Object>,
)
    ensures
        final(grid)@ == with_members(
            context,
            user_layer@,
            physical,
            old(grid)@,
            members@,
            0,
        ),
{
    let ghost whole = with_members(context, user_layer@, physical, grid@, members@, 0);
    for i in 0..members.len()
        invariant
            whole == with_members(
                context,
                user_layer@,
                physical,
                grid@,
                members@,
                i as int,
            ),
    {
        match make_member(context, user_layer, physical, members[i]) {
            Some(row) => {
                grid.push(1, row);
            },
            None => {
                return;
            },
        }
    }
}

/// The members that a job lists.
pub open spec fn members_of(context: &Context, kernel: &Module, job: Object) -> Seq<Object> {
    match context.member(job, "ProcessListHead") {
        Some(head) => match lists::listed(
            context,
            head,
            context.get_type(kernel.table, "_EPROCESS"),
            "JobLinks",
            true,
        ) {
            Some(members) => members,
            None => Seq::empty(),
        },
        None => Seq::empty(),
    }
}

fn list_members(context: &Context, kernel: &Module, job: Object) -> (members: Vec<Object>)
    ensures
        members@ == members_of(context, kernel, job),
{
    match context.member(job, "ProcessListHead") {
        Some(head) => match walk_list(
            context,
            head,
            context.get_type(kernel.table, "_EPROCESS"),
            "JobLinks",
            true,
        ) {
            Some(members) => members,
            None => Vec::new(),
        },
        None => Vec::new(),
    }
}

/// A report with one more process, if it belongs to a job: the process the job was
/// created around, and beneath it the rest of the job's members.
#[verifier::opaque]
pub open spec fn with_process(
    context: &Context,
    kernel: &Module,
    user_layer: Seq<char>,
    physical: bool,
    table: Table,
    process: Object,
) -> Table {
    match context.member_target(process, "Job") {
        Some(job) => match (
            context.pid(process),
            context.image_name_of(process),
            job_counts(context, job),
        ) {
            (Some(pid), Some(name), Some(counts)) => with_members(
                context,
                user_layer,
                physical,
                table.push(
                    0,
                    job_row(
                        context,
                        physical,
                        process,
                        pid,
                        name,
                        counts,
                        Cell::not_applicable(),
                        "(Original Process)"@,
                    ),
                ),
                members_of(context, kernel, job),
                0,
            ),
            _ => table,
        },
        None => table,
    }
}

fn add_process(
    context: &Context,
    kernel: &Module,
    user_layer: &str,
    physical: bool,
    grid: &mut TreeGrid,
    process: Object,
)
    ensures
        final(grid)@ == with_process(
            context,
            kernel,
            user_layer@,
            physical,
            old(grid)@,
            process,
        ),
{
    reveal(with_process);
    if let Some(job) = context.member_target(process, "Job") {
        if let (Some(pid), Some(name), Some(counts)) = (
            context.pid(process),
            context.image_file_name(process),
            job_counts(context, job),
        ) {
            let row = make_row(
                context,
                physical,
                process,
                pid,
                &name,
                counts,
                Value::not_applicable(),
                "(Original Process)",
            );
            grid.push(0, row);
            let members = list_members(context, kernel, job);
            add_members(context, user_layer, physical, grid, &members);
        }
    }
}

/// The report on the first of some processes.
pub open spec fn reported(
    context: &Context,
    kernel: &Module,
    user_layer: Seq<char>,
    physical: bool,
    processes: Seq<Object>,
    count: int,
) -> Table
    decreases count,
{
    if count <= 0 {
        Table::empty(headings_for(physical))
    } else {
        with_process(
            context,
            kernel,
            user_layer,
            physical,
            reported(context, kernel, user_layer, physical, processes, count - 1),
            processes[count - 1],
        )
    }
}

impl Plugin for JobLinks {
    open spec fn named(&self) -> Seq<char> {
        "windows.joblinks.JobLinks"@
    }

    open spec fn described(&self) -> Seq<char> {
        "Print process job link information"@
    }

    open spec fn needs(&self) -> Seq<RequirementView> {
        seq![
            RequirementView::kernel(),
            RequirementView::new(
                "physical"@,
                "Display physical offset instead of virtual"@,
                KindView::Bool,
            )
            .with_default(ConfigView::Bool(false)),
        ]
    }

    open spec fn headings(&self) -> Seq<Column> {
        headings_for(false)
    }

    open spec fn system(&self) -> OperatingSystem {
        OperatingSystem::Windows
    }

    open spec fn report(&self, context: &Context, config: &Configuration) -> Result<Table, Failure> {
        match plugins::windows::kernel_of(context, config) {
            Some(kernel) => match symbols::windows::listed_processes(context, &kernel) {
                Some(processes) => Ok(
                    reported(
                        context,
                        &kernel,
                        plugins::windows::physical_name(config),
                        config.flag("physical"@),
                        processes,
                        processes.len() as int,
                    ),
                ),
                None => Err(Failure::Unavailable),
            },
            None => Err(plugins::windows::no_kernel()),
        }
    }

    fn name(&self) -> (name: &'static str) {
        "windows.joblinks.JobLinks"
    }

    fn description(&self) -> (description: &'static str) {
        "Print process job link information"
    }

    fn requirements(&self) -> (requirements: Vec<Requirement>) {
        vec![
            Requirement::kernel(),
            Requirement::new(
                "physical",
                "Display physical offset instead of virtual",
                RequirementKind::Bool,
            )
            .with_default(ConfigValue::Bool(false)),
        ]
    }

    fn operating_system(&self) -> (system: OperatingSystem) {
        OperatingSystem::Windows
    }

    fn columns(&self) -> (columns: Vec<Column>) {
        columns_for(false)
    }

    fn epilog(&self) -> (epilog: Option<&'static str>) {
        None
    }

    fn timeline(&self, context: &Context, config: &Configuration) -> (timeline: Option<
        plugins::Timeline,
    >) {
        None
    }

    fn needs_kernel(&self) -> (needed: bool) {
        false
    }

    fn run(&self, context: &Context, config: &Configuration) -> (result: Result<TreeGrid, VolatilityError>) {
        let kernel = kernel_module(context, config)?;
        let physical = config.is_set("physical");
        let user_layer = physical_layer(config);
        let processes = match list_processes(context, kernel) {
            Some(processes) => processes,
            None => return Err(VolatilityError::Unavailable),
        };
        let mut grid = TreeGrid::new(columns_for(physical));
        for i in 0..processes.len()
            invariant
                grid@ == reported(
                    context,
                    kernel,
                    user_layer@,
                    physical,
                    processes@,
                    i as int,
                ),
        {
            add_process(context, kernel, &user_layer, physical, &mut grid, processes[i]);
        }
        Ok(grid)
    }
}

} // verus!
