//! List the processes of the kernel's own list.

use crate::config::{ConfigValue, Configuration};
use crate::context::{Context, Object};
use crate::error::{Failure, VolatilityError};
use crate::plugins::{
    self, pid_filter, pid_matches, ConfigView, KindView, MomentView, OperatingSystem, Plugin,
    Requirement, RequirementKind, RequirementView, TimeKind, Timeline, TimelineView,
};
use crate::plugins::output::{self, extract};
use crate::plugins::timeline_helpers::{self, number};
use crate::plugins::windows::{kernel_module, offset_column_name, physical_layer, process_offset};
use crate::renderers::{self, Cell, Column, ColumnType, LineView, Row, Table, TreeGrid, Value};
use crate::symbols;
use crate::symbols::windows::list_processes;
use crate::text::{self, characters, decimal, hexadecimal};
use crate::time::{self, wintime_value};
use vstd::prelude::*;

verus! {

/// Lists the processes of the kernel's own list.
pub struct PsList;

/// The columns shared by `pslist` and `psscan`.
pub open spec fn process_headings(physical: bool) -> Seq<Column> {
    seq![
        Column::integer("PID"),
        Column::integer("PPID"),
        Column::string("ImageFileName"),
        Column::new(offset_column_name(physical), ColumnType::UInt),
        Column::integer("Threads"),
        Column::integer("Handles"),
        Column::integer("SessionId"),
        Column::boolean("Wow64"),
        Column::datetime("CreateTime"),
        Column::datetime("ExitTime"),
        Column::string("File output"),
    ]
}

/// The column set shared by `pslist` and `psscan`.
///
/// The offset column is named for which address space it refers to, so the
/// reader can tell a virtual offset from a physical one.
pub fn process_columns(physical: bool) -> (columns: Vec<Column>)
    ensures
        columns@ == process_headings(physical),
{
    vec![
        Column::integer("PID"),
        Column::integer("PPID"),
        Column::string("ImageFileName"),
        Column::new(offset_column_name(physical), ColumnType::UInt),
        Column::integer("Threads"),
        Column::integer("Handles"),
        Column::integer("SessionId"),
        Column::boolean("Wow64"),
        Column::datetime("CreateTime"),
        Column::datetime("ExitTime"),
        Column::string("File output"),
    ]
}

/// A Windows time, or that it could not be read.
pub open spec fn time_cell(raw: Option<u64>) -> Cell {
    match raw {
        Some(raw) => time::wintime_cell(raw),
        None => Cell::unreadable(),
    }
}

/// A Windows time, or that it could not be read.
pub fn time_value(raw: Option<u64>) -> (value: Value)
    ensures
        value@ == time_cell(raw),
{
    match raw {
        Some(raw) => wintime_value(raw),
        None => Value::unreadable(),
    }
}

/// What the row shared by `pslist` and `psscan` says.
pub open spec fn process_cells(
    context: &Context,
    process: Object,
    pid: u64,
    offset: u64,
    file_output: Cell,
) -> Seq<Cell> {
    seq![
        Cell::integer(pid as i64),
        Cell::integer_or_unreadable(context.parent_pid(process)),
        Cell::text_or_unreadable(context.image_name_of(process)),
        Cell::hex(offset),
        Cell::integer_or_unreadable(context.thread_count(process)),
        Cell::integer_or_unreadable(context.handle_count(process)),
        session_cell(context, process),
        Cell::Bool(context.is_wow64(process)),
        time_cell(context.quad(process, "CreateTime")),
        time_cell(context.quad(process, "ExitTime")),
        file_output,
    ]
}

/// The row shared by `pslist` and `psscan`.
#[verifier::rlimit(30)]
pub fn process_row(
    context: &Context,
    process: Object,
    pid: u64,
    offset: u64,
    file_output: Value,
) -> (row: Row)
    ensures
        row@ == process_cells(context, process, pid, offset, file_output@),
{
    Row::new().with(Value::integer(pid as i64)).with(
        Value::integer_or_unreadable(context.parent_pid(process)),
    ).with(Value::text_or_unreadable(&context.image_file_name(process))).with(
        Value::hex(offset),
    ).with(Value::integer_or_unreadable(context.thread_count(process))).with(
        Value::integer_or_unreadable(context.handle_count(process)),
    ).with(session_id_value(context, process)).with(Value::Bool(context.is_wow64(process))).with(
        time_value(context.quad(process, "CreateTime")),
    ).with(time_value(context.quad(process, "ExitTime"))).with(file_output)
}

/// What the session of a process shows as.
pub open spec fn session_cell(context: &Context, process: Object) -> Cell {
    match context.session_id(process) {
        Some(Some(number)) => Cell::integer(number as i64),
        Some(None) => Cell::not_applicable(),
        None => Cell::unreadable(),
    }
}

/// A process with no session is reported as not applicable rather than as a
/// failed read, since that is a normal state for the system process.
pub fn session_id_value(context: &Context, process: Object) -> (value: Value)
    ensures
        value@ == session_cell(context, process),
{
    match context.session_id(process) {
        Some(Some(number)) => Value::integer(number as i64),
        Some(None) => Value::not_applicable(),
        None => Value::unreadable(),
    }
}

/// The name a process's image is written under.
pub open spec fn image_file(pid: u64, name: Seq<char>, base: u64) -> Seq<char> {
    sanitized(
        text::decimal_text(pid as int) + seq!['.'] + name + seq!['.']
            + text::hex_text(base as nat) + ".dmp"@,
    )
}

/// Where a process's own image stands: the layer of its memory, the address in
/// it, and the name of the process.
pub open spec fn image_place(context: &Context, physical: Seq<char>, process: Object) -> Option<
    (usize, u64, Seq<char>),
> {
    match context.layer_of(process, physical) {
        Some(layer) => match context.peb(process, layer) {
            Some(peb) => match (
                context.member_pointer(peb, "ImageBaseAddress"),
                context.image_name_of(process),
            ) {
                (Some(base), Some(name)) => Some((layer, base, name)),
                _ => None,
            },
            None => None,
        },
        None => None,
    }
}

/// The report once a process's image is kept beside it, with the name asked for
/// and the name taken.
pub open spec fn dumped(
    context: &Context,
    physical: Seq<char>,
    process: Object,
    pid: u64,
    table: Table,
) -> (Table, Option<(Seq<char>, Seq<char>)>) {
    match image_place(context, physical, process) {
        Some((layer, base, name)) => {
            let asked = image_file(pid, name, base);
            let data = match context.image_at(layer, base) {
                Some(data) => data,
                None => Seq::empty(),
            };
            let kept = output::extracted(table, &context.output, asked, data);
            (
                kept.0,
                match kept.1 {
                    Some(written) => Some((asked, written)),
                    None => None,
                },
            )
        },
        None => (table, None),
    }
}

/// The texts of an optional pair of strings.
pub open spec fn maybe_texts(pair: Option<(String, String)>) -> Option<(Seq<char>, Seq<char>)> {
    match pair {
        Some((first, second)) => Some((first@, second@)),
        None => None,
    }
}

/// Write a process's own image back out, named after the process.
///
/// Two names come back: the one the file was asked for, and the one it was
/// given, which differ when a file of that name was already there. Which of
/// them a listing reports is the listing's own business, and the two listings
/// differ on it.
///
/// A name comes back even when the image could not be rebuilt in full, since a
/// partly recovered file is still what was produced.
pub fn dump_process_image(
    context: &Context,
    physical: &str,
    process: Object,
    pid: u64,
    grid: &mut TreeGrid,
) -> (names: Option<(String, String)>)
    ensures
        (final(grid)@, maybe_texts(names)) == dumped(context, physical@, process, pid, old(grid)@),
{
    let layer = match context.address_space(process, physical) {
        Some(layer) => layer,
        None => return None,
    };
    let peb = match context.peb(process, layer) {
        Some(peb) => peb,
        None => return None,
    };
    let base = match context.member_pointer(peb, "ImageBaseAddress") {
        Some(base) => base,
        None => return None,
    };
    let name = match context.image_file_name(process) {
        Some(name) => name,
        None => return None,
    };
    let mut asked = decimal(pid);
    asked.push('.');
    asked.append(&name);
    asked.push('.');
    asked.append(&hexadecimal(base));
    asked.append(".dmp");
    assert(asked@ =~= text::decimal_text(pid as int) + seq!['.'] + name@ + seq!['.']
        + text::hex_text(base as nat) + ".dmp"@);
    let file = sanitize_filename(&asked);
    let data = match context.reconstruct(layer, base) {
        Some(data) => data,
        None => Vec::new(),
    };
    match extract(grid, &context.output, &file, data) {
        Some(written) => Some((file, written)),
        None => None,
    }
}

/// Whether a file name may carry a character.
pub open spec fn is_allowed(c: char) -> bool {
    'a' <= c <= 'z' || 'A' <= c <= 'Z' || '0' <= c <= '9' || c == '.' || c == '-' || c == ' ' || c
        == '(' || c == ')' || c == '[' || c == ']' || c == '{' || c == '}' || c == '!' || c == '$'
        || c == '%' || c == '^' || c == '#' || c == '~' || c == ','
}

/// A name with an underscore for each character a file name should not carry.
pub open spec fn sanitized(name: Seq<char>) -> Seq<char> {
    Seq::new(
        name.len(),
        |i: int|
            if is_allowed(name[i]) {
                name[i]
            } else {
                '_'
            },
    )
}

fn may_stand(c: char) -> (allowed: bool)
    ensures
        allowed == is_allowed(c),
{
    ('a' <= c && c <= 'z') || ('A' <= c && c <= 'Z') || ('0' <= c && c <= '9') || c == '.' || c
        == '-' || c == ' ' || c == '(' || c == ')' || c == '[' || c == ']' || c == '{' || c == '}'
        || c == '!' || c == '$' || c == '%' || c == '^' || c == '#' || c == '~' || c == ','
}

/// Replace anything a file name should not carry.
pub fn sanitize_filename(name: &str) -> (clean: String)
    ensures
        clean@ == sanitized(name@),
{
    let list = characters(name);
    let mut clean = String::new();
    for i in 0..list.len()
        invariant
            list@ == name@,
            clean@ == sanitized(name@).take(i as int),
    {
        if may_stand(list[i]) {
            clean.push(list[i]);
        } else {
            clean.push('_');
        }
    }
    clean
}

/// A clean name is as long as the name it was made from, holds only what a file
/// name may carry, and is left alone when it is cleaned again.
pub proof fn law_sanitized(name: Seq<char>)
    ensures
        sanitized(name).len() == name.len(),
        forall|i: int|
            0 <= i < name.len() ==> is_allowed(#[trigger] sanitized(name)[i]) || sanitized(name)[i]
                == '_',
        sanitized(sanitized(name)) == sanitized(name),
{
    assert(sanitized(sanitized(name)) =~= sanitized(name));
}

/// The report once a process is in it. With `asked`, a file is shown under the
/// name asked for; otherwise under the name it took.
pub open spec fn with_process(
    context: &Context,
    config: &Configuration,
    table: Table,
    process: Object,
    pid: u64,
    offset: u64,
    asked: bool,
) -> Table {
    if config.flag("dump"@) {
        let kept = dumped(
            context,
            plugins::windows::physical_name(config),
            process,
            pid,
            table,
        );
        kept.0.push(
            0,
            process_cells(
                context,
                process,
                pid,
                offset,
                Cell::Text(
                    match kept.1 {
                        Some((preferred, written)) => if asked {
                            preferred
                        } else {
                            written
                        },
                        None => "Error outputting file"@,
                    },
                ),
            ),
        )
    } else {
        table.push(
            0,
            process_cells(
                context,
                process,
                pid,
                offset,
                Cell::Text("Disabled"@),
            ),
        )
    }
}

fn add_process(
    context: &Context,
    config: &Configuration,
    physical_memory: &str,
    dump: bool,
    grid: &mut TreeGrid,
    process: Object,
    pid: u64,
    offset: u64,
)
    requires
        physical_memory@ == plugins::windows::physical_name(config),
        dump == config.flag("dump"@),
    ensures
        final(grid)@ == with_process(context, config, old(grid)@, process, pid, offset, false),
{
    let file_output = if dump {
        // This listing names the file after writing it, so a name already taken
        // shows as the one actually used.
        match dump_process_image(context, physical_memory, process, pid, grid) {
            Some((_, written)) => Value::String(written),
            None => Value::string("Error outputting file"),
        }
    } else {
        Value::string("Disabled")
    };
    grid.push(0, process_row(context, process, pid, offset, file_output));
}

/// The report once some of the processes are in it.
pub open spec fn reported(
    context: &Context,
    config: &Configuration,
    processes: Seq<Object>,
    count: int,
) -> Table
    decreases count,
{
    if count <= 0 {
        Table::empty(process_headings(config.flag("physical"@)))
    } else {
        let table = reported(context, config, processes, count - 1);
        let process = processes[count - 1];
        match context.pid(process) {
            Some(pid) if plugins::passes(
                plugins::pid_list(config.lookup("pid"@)),
                pid,
            ) => with_process(
                context,
                config,
                table,
                process,
                pid,
                process_offset(context, process, config.flag("physical"@)),
                false,
            ),
            _ => table,
        }
    }
}

/// What a row of processes says in a timeline.
pub open spec fn process_words(cells: Seq<Cell>) -> Seq<char> {
    "Process: "@ + plugins::timeline_helpers::plain_number(cells[0]) + seq![' ']
        + plugins::timeline_helpers::plain_text(cells[2]) + " ("@
        + plugins::timeline_helpers::plain_number(cells[3]) + seq![')']
}

/// The two moments that a row of processes contributes: when the process was
/// made, and when it ended.
pub open spec fn process_moments(cells: Seq<Cell>) -> Seq<
    MomentView,
> {
    let description = process_words(cells);
    seq![
        MomentView { description, kind: TimeKind::Created, time: cells[8] },
        MomentView { description, kind: TimeKind::Modified, time: cells[9] },
    ]
}

/// The moments that the first rows of a report of processes contribute.
pub open spec fn moments_of(lines: Seq<LineView>, count: int) -> Seq<
    MomentView,
>
    decreases count,
{
    if count <= 0 {
        Seq::empty()
    } else {
        moments_of(lines, count - 1) + if lines[count - 1].cells.len() >= 10 {
            process_moments(lines[count - 1].cells)
        } else {
            Seq::empty()
        }
    }
}

/// What a report of processes contributes to a timeline.
pub open spec fn report_moments(report: Result<Table, Failure>) -> Option<TimelineView> {
    match report {
        Ok(table) => Some(
            TimelineView {
                entries: moments_of(table.lines, table.lines.len() as int),
                failed: false,
            },
        ),
        Err(_) => None,
    }
}

/// The timeline that a report of processes contributes.
pub fn process_timeline(grid: &TreeGrid) -> (timeline: Timeline)
    ensures
        timeline@ == (TimelineView {
            entries: moments_of(grid@.lines, grid@.lines.len() as int),
            failed: false,
        }),
{
    let mut timeline = Timeline::new();
    for i in 0..grid.lines.len()
        invariant
            timeline@ == (TimelineView {
                entries: moments_of(grid@.lines, i as int),
                failed: false,
            }),
    {
        let values = &grid.lines[i].row.values;
        assert(grid@.lines[i as int].cells == renderers::cells(values@));
        if values.len() >= 10 {
            let mut description = "Process: ".to_owned();
            description.append(&number(&values[0]));
            description.push(' ');
            description.append(&timeline_helpers::text(&values[2]));
            description.append(" (");
            description.append(&number(&values[3]));
            description.push(')');
            assert(description@ =~= process_words(grid@.lines[i as int].cells));
            let ghost before = timeline@.entries;
            timeline.push(&description, TimeKind::Created, values[8].copy());
            timeline.push(&description, TimeKind::Modified, values[9].copy());
            assert(timeline@.entries =~= before + process_moments(
                grid@.lines[i as int].cells,
            ));
        }
    }
    timeline
}

impl Plugin for PsList {
    open spec fn named(&self) -> Seq<char> {
        "windows.pslist.PsList"@
    }

    open spec fn described(&self) -> Seq<char> {
        "Lists the processes present in a particular windows memory image."@
    }

    open spec fn needs(&self) -> Seq<RequirementView> {
        seq![
            RequirementView::kernel(),
            RequirementView::new(
                "physical"@,
                "Display physical offsets instead of virtual"@,
                KindView::Bool,
            ).with_default(ConfigView::Bool(false)),
            RequirementView::pid_filter(
                "Process ID to include (all other processes are excluded)"@,
            ),
            RequirementView::new(
                "dump"@,
                "Extract listed processes"@,
                KindView::Bool,
            ).with_default(ConfigView::Bool(false)),
        ]
    }

    open spec fn headings(&self) -> Seq<Column> {
        process_headings(false)
    }

    open spec fn system(&self) -> OperatingSystem {
        OperatingSystem::Windows
    }

    open spec fn report(&self, context: &Context, config: &Configuration) -> Result<
        Table,
        Failure,
    > {
        match plugins::windows::kernel_of(context, config) {
            Some(kernel) => match symbols::windows::listed_processes(context, &kernel) {
                Some(processes) => Ok(
                    reported(context, config, processes, processes.len() as int),
                ),
                None => Err(Failure::Unavailable),
            },
            None => Err(plugins::windows::no_kernel()),
        }
    }

    open spec fn moments(&self, context: &Context, config: &Configuration) -> Option<TimelineView> {
        report_moments(self.report(context, config))
    }

    fn name(&self) -> (name: &'static str) {
        "windows.pslist.PsList"
    }

    fn description(&self) -> (description: &'static str) {
        "Lists the processes present in a particular windows memory image."
    }

    fn requirements(&self) -> (requirements: Vec<Requirement>) {
        vec![
            Requirement::kernel(),
            Requirement::new(
                "physical",
                "Display physical offsets instead of virtual",
                RequirementKind::Bool,
            ).with_default(ConfigValue::Bool(false)),
            Requirement::pid_filter("Process ID to include (all other processes are excluded)"),
            Requirement::new(
                "dump",
                "Extract listed processes",
                RequirementKind::Bool,
            ).with_default(ConfigValue::Bool(false)),
        ]
    }

    fn operating_system(&self) -> (system: OperatingSystem) {
        OperatingSystem::Windows
    }

    fn columns(&self) -> (columns: Vec<Column>) {
        process_columns(false)
    }

    fn timeline(&self, context: &Context, config: &Configuration) -> (timeline: Option<Timeline>) {
        match self.run(context, config) {
            Ok(grid) => Some(process_timeline(&grid)),
            Err(_) => None,
        }
    }

    fn epilog(&self) -> (epilog: Option<&'static str>) {
        None
    }

    fn needs_kernel(&self) -> (needed: bool) {
        false
    }

    fn run(&self, context: &Context, config: &Configuration) -> (result: Result<
        TreeGrid,
        VolatilityError,
    >) {
        let kernel = match kernel_module(context, config) {
            Ok(kernel) => kernel,
            Err(error) => return Err(error),
        };
        let physical = config.is_set("physical");
        let physical_memory = physical_layer(config);
        let filter = pid_filter(config);
        let dump = config.is_set("dump");
        let processes = match list_processes(context, kernel) {
            Some(processes) => processes,
            None => return Err(VolatilityError::Unavailable),
        };
        let mut grid = TreeGrid::new(process_columns(physical));
        for i in 0..processes.len()
            invariant
                grid@ == reported(context, config, processes@, i as int),
                plugins::filter_view(filter) == plugins::pid_list(
                    config.lookup("pid"@),
                ),
                physical_memory@ == plugins::windows::physical_name(config),
                physical == config.flag("physical"@),
                dump == config.flag("dump"@),
        {
            let process = processes[i];
            if let Some(pid) = context.pid(process) {
                if pid_matches(&filter, pid) {
                    let offset = process_offset(context, process, physical);
                    add_process(
                        context,
                        config,
                        &physical_memory,
                        dump,
                        &mut grid,
                        process,
                        pid,
                        offset,
                    );
                }
            }
        }
        Ok(grid)
    }
}

} // verus!
