//! Report the environment variables of processes.

use crate::config::{ConfigValue, Configuration};
use crate::context::{Context, Object};
use crate::error::{Failure, VolatilityError};
use crate::plugins::{
    self, ConfigView, KindView, OperatingSystem, Plugin, Requirement, RequirementKind,
    RequirementView,
};
use crate::plugins::windows::{chosen_processes, kernel_module, physical_layer};
use crate::renderers::{Cell, Column, ColumnType, Row, Table, TreeGrid, Value};
use crate::text::{self, assemble, characters, find_from, split, units_of, utf16};
use vstd::prelude::*;

verus! {

/// Reports the environment variables of processes.
pub struct Envars;

/// The name and the value that an entry of the environment gives, if it is a
/// variable.
///
/// The name is what precedes the first '='. An entry that has none is split in
/// front of its last character instead: the name loses that character and the
/// value is the whole entry. An entry with either side empty is not a variable.
/// The hidden per-drive entries, which begin with '=', are among those.
pub open spec fn variable_of(entry: Seq<char>) -> Option<(Seq<char>, Seq<char>)> {
    let (name, value) = match text::next_index(entry, '=', 0) {
        Some(at) => (entry.subrange(0, at), entry.subrange(at + 1, entry.len() as int)),
        None => (
            entry.subrange(
                0,
                if entry.len() == 0 {
                    0
                } else {
                    entry.len() - 1
                },
            ),
            entry,
        ),
    };
    if name.len() == 0 || value.len() == 0 {
        None
    } else {
        Some((name, value))
    }
}

/// The variables among the first of some entries.
pub open spec fn variables_in(entries: Seq<Seq<char>>, count: int) -> Seq<(Seq<char>, Seq<char>)>
    decreases count,
{
    if count <= 0 {
        Seq::empty()
    } else {
        let before = variables_in(entries, count - 1);
        match variable_of(entries[count - 1]) {
            Some(variable) => before.push(variable),
            None => before,
        }
    }
}

/// No variable has an empty name or an empty value.
pub proof fn law_no_variable_is_empty(entries: Seq<Seq<char>>, count: int, i: int)
    requires
        0 <= i < variables_in(entries, count).len(),
    ensures
        variables_in(entries, count)[i].0.len() > 0,
        variables_in(entries, count)[i].1.len() > 0,
    decreases count,
{
    if count > 0 && i < variables_in(entries, count - 1).len() {
        law_no_variable_is_empty(entries, count - 1, i);
    }
}

/// An entry that begins with '=', as the hidden per-drive ones do, is no variable.
pub proof fn law_hidden_entries_are_no_variables(entry: Seq<char>)
    requires
        entry.len() > 0,
        entry[0] == '=',
    ensures
        variable_of(entry) is None,
{
}

/// The variables of an environment block. It is decoded whole, then cut into
/// entries at the NULs. The last piece is whatever follows the final terminator,
/// and is dropped.
pub open spec fn variables(bytes: Seq<u8>) -> Seq<(Seq<char>, Seq<char>)> {
    let entries = text::pieces_from(text::utf16_text(text::units(bytes)), '\0', 0);
    variables_in(entries, entries.len() - 1)
}

/// What is said of names and values.
pub open spec fn pair_views(list: Seq<(String, String)>) -> Seq<(Seq<char>, Seq<char>)> {
    Seq::new(list.len(), |i: int| (list[i].0@, list[i].1@))
}

fn read_variable(entry: &str) -> (variable: Option<(String, String)>)
    ensures
        match variable {
            Some(variable) => variable_of(entry@) == Some((variable.0@, variable.1@)),
            None => variable_of(entry@) is None,
        },
{
    let list = characters(entry);
    let total: usize = list.len();
    let (name, value) = match find_from(list.as_slice(), '=', 0) {
        Some(at) => (
            assemble(list.as_slice(), 0, at),
            assemble(list.as_slice(), at + 1, total),
        ),
        None => (
            assemble(
                list.as_slice(),
                0,
                if total == 0 {
                    0
                } else {
                    total - 1
                },
            ),
            assemble(list.as_slice(), 0, total),
        ),
    };
    assert(list@.subrange(0, total as int) =~= entry@);
    if name.unicode_len() == 0 || value.unicode_len() == 0 {
        None
    } else {
        Some((name, value))
    }
}

/// The variables of an environment block.
pub fn split_environment(bytes: &Vec<u8>) -> (list: Vec<(String, String)>)
    ensures
        pair_views(list@) == variables(bytes@),
{
    let decoded = utf16(units_of(bytes.as_slice()).as_slice());
    let entries = split(&decoded, '\0');
    let ghost said = text::texts(entries@);
    let mut list: Vec<(String, String)> = Vec::new();
    assert(pair_views(list@) =~= Seq::<(Seq<char>, Seq<char>)>::empty());
    if entries.len() > 0 {
        for i in 0..entries.len() - 1
            invariant
                entries@.len() > 0,
                said == text::texts(entries@),
                pair_views(list@) == variables_in(said, i as int),
        {
            let ghost before = pair_views(list@);
            if let Some(variable) = read_variable(&entries[i]) {
                let ghost added = (variable.0@, variable.1@);
                list.push(variable);
                assert(pair_views(list@) =~= before.push(added));
            }
        }
    }
    list
}

/// Where the environment of a process is recorded, and its bytes.
pub open spec fn environment_block(context: &Context, process: Object, layer: usize) -> Option<
    (u64, Seq<u8>),
> {
    match context.peb(process, layer) {
        Some(peb) => match context.member_target(peb, "ProcessParameters") {
            Some(parameters) => match (
                context.member(parameters, "Environment"),
                environment_size(context, parameters),
            ) {
                (Some(environment), Some(size)) => match context.pointer_value(environment) {
                    Some(block) => match context.bytes_of(layer, block, size, false) {
                        Some(bytes) => Some((environment.offset, bytes)),
                        None => None,
                    },
                    None => None,
                },
                _ => None,
            },
            None => None,
        },
        None => None,
    }
}

pub open spec fn spec_environment_size(context: &Context, parameters: Object) -> Option<usize> {
    match if context.has_member(parameters, "EnvironmentSize") {
        context.member_u64(parameters, "EnvironmentSize")
    } else {
        context.member_u64(parameters, "Length")
    } {
        Some(size) => if size <= usize::MAX {
            Some(size as usize)
        } else {
            None
        },
        None => None,
    }
}

/// The size of the environment, as the process itself records it.
#[verifier::when_used_as_spec(spec_environment_size)]
pub fn environment_size(context: &Context, parameters: Object) -> (size: Option<usize>)
    ensures
        size == spec_environment_size(context, parameters),
{
    let recorded = if context.has_member(parameters, "EnvironmentSize") {
        context.member_u64(parameters, "EnvironmentSize")
    } else {
        context.member_u64(parameters, "Length")
    };
    match recorded {
        Some(size) => if size <= usize::MAX as u64 {
            Some(size as usize)
        } else {
            None
        },
        None => None,
    }
}

/// The environment of a process: where it is recorded, and its variables.
pub open spec fn environment(context: &Context, process: Object, layer: usize) -> Option<
    (u64, Seq<(Seq<char>, Seq<char>)>),
> {
    match environment_block(context, process, layer) {
        Some((reported, bytes)) => Some((reported, variables(bytes))),
        None => None,
    }
}

/// Read and split a process's environment block.
///
/// Returns the address of the field that records the block alongside the parsed
/// variables, since the plugin reports where the block was found.
pub fn read_environment(context: &Context, process: Object, layer: usize) -> (found: Result<
    (u64, Vec<(String, String)>),
    VolatilityError,
>)
    ensures
        match found {
            Ok((reported, list)) => environment(context, process, layer) == Some(
                (reported, pair_views(list@)),
            ),
            Err(error) => environment(context, process, layer) is None && error@
                == Failure::Unavailable,
        },
{
    if let Some(peb) = context.peb(process, layer) {
        if let Some(parameters) = context.member_target(peb, "ProcessParameters") {
            if let (Some(environment), Some(size)) = (
                context.member(parameters, "Environment"),
                environment_size(context, parameters),
            ) {
                if let Some(block) = context.pointer_value(environment) {
                    if let Some(bytes) = context.read(layer, block, size, false) {
                        return Ok((environment.offset, split_environment(&bytes)));
                    }
                }
            }
        }
    }
    Err(VolatilityError::Unavailable)
}

/// A report with the first variables of a process.
pub open spec fn with_variables(
    table: Table,
    pid: u64,
    name: Seq<char>,
    reported: u64,
    list: Seq<(Seq<char>, Seq<char>)>,
    count: int,
) -> Table
    decreases count,
{
    if count <= 0 {
        table
    } else {
        with_variables(table, pid, name, reported, list, count - 1).push(
            0,
            seq![
                Cell::integer(pid as i64),
                Cell::Text(name),
                Cell::hex(reported),
                Cell::Text(list[count - 1].0),
                Cell::Text(list[count - 1].1),
            ],
        )
    }
}

/// A report with the variables of one more process.
#[verifier::opaque]
pub open spec fn with_process(
    context: &Context,
    physical: Seq<char>,
    table: Table,
    process: Object,
) -> Table {
    match (context.pid(process), context.layer_of(process, physical)) {
        (Some(pid), Some(layer)) => match environment(context, process, layer) {
            Some((reported, list)) => with_variables(
                table,
                pid,
                context.image_name_or_empty(process),
                reported,
                list,
                list.len() as int,
            ),
            None => table,
        },
        _ => table,
    }
}

fn add_process(context: &Context, physical: &str, grid: &mut TreeGrid, process: Object)
    ensures
        final(grid)@ == with_process(context, physical@, old(grid)@, process),
{
    reveal(with_process);
    let ghost before = grid@;
    if let (Some(pid), Some(layer)) = (
        context.pid(process),
        context.address_space(process, physical),
    ) {
        let name = context.image_file_name_or_empty(process);
        if let Ok((reported, list)) = read_environment(context, process, layer) {
            let ghost said = pair_views(list@);
            for i in 0..list.len()
                invariant
                    said == pair_views(list@),
                    grid@ == with_variables(before, pid, name@, reported, said, i as int),
            {
                let row = Row::new().with(Value::integer(pid as i64)).with(
                    Value::string(&name),
                ).with(Value::hex(reported)).with(Value::string(&list[i].0)).with(
                    Value::string(&list[i].1),
                );
                assert(row@ =~= seq![
                    Cell::integer(pid as i64),
                    Cell::Text(name@),
                    Cell::hex(reported),
                    Cell::Text(said[i as int].0),
                    Cell::Text(said[i as int].1),
                ]);
                grid.push(0, row);
            }
        }
    }
}

/// The report on the first of some processes.
pub open spec fn reported(
    context: &Context,
    physical: Seq<char>,
    headings: Seq<Column>,
    processes: Seq<Object>,
    count: int,
) -> Table
    decreases count,
{
    if count <= 0 {
        Table::empty(headings)
    } else {
        with_process(
            context,
            physical,
            reported(context, physical, headings, processes, count - 1),
            processes[count - 1],
        )
    }
}

impl Plugin for Envars {
    open spec fn named(&self) -> Seq<char> {
        "windows.envars.Envars"@
    }

    open spec fn described(&self) -> Seq<char> {
        "Display process environment variables"@
    }

    open spec fn needs(&self) -> Seq<RequirementView> {
        seq![
            RequirementView::kernel(),
            RequirementView::pid_filter("Filter on specific process IDs"@),
            RequirementView::new(
                "silent"@,
                "Suppress common and non-persistent variables"@,
                KindView::Bool,
            )
            .with_default(ConfigView::Bool(false)),
        ]
    }

    open spec fn headings(&self) -> Seq<Column> {
        seq![
            Column::integer("PID"),
            Column::string("Process"),
            Column::new("Block", ColumnType::UInt),
            Column::string("Variable"),
            Column::string("Value"),
        ]
    }

    open spec fn system(&self) -> OperatingSystem {
        OperatingSystem::Windows
    }

    open spec fn report(&self, context: &Context, config: &Configuration) -> Result<Table, Failure> {
        match plugins::windows::kernel_of(context, config) {
            Some(kernel) => match plugins::windows::chosen(context, &kernel, config) {
                Some(processes) => Ok(
                    reported(
                        context,
                        plugins::windows::physical_name(config),
                        self.headings(),
                        processes,
                        processes.len() as int,
                    ),
                ),
                None => Err(Failure::Unavailable),
            },
            None => Err(plugins::windows::no_kernel()),
        }
    }

    fn name(&self) -> (name: &'static str) {
        "windows.envars.Envars"
    }

    fn description(&self) -> (description: &'static str) {
        "Display process environment variables"
    }

    fn requirements(&self) -> (requirements: Vec<Requirement>) {
        vec![
            Requirement::kernel(),
            Requirement::pid_filter("Filter on specific process IDs"),
            // Asking for this changes nothing: every variable is reported
            // either way.
            Requirement::new(
                "silent",
                "Suppress common and non-persistent variables",
                RequirementKind::Bool,
            )
            .with_default(ConfigValue::Bool(false)),
        ]
    }

    fn operating_system(&self) -> (system: OperatingSystem) {
        OperatingSystem::Windows
    }

    fn columns(&self) -> (columns: Vec<Column>) {
        vec![
            Column::integer("PID"),
            Column::string("Process"),
            Column::new("Block", ColumnType::UInt),
            Column::string("Variable"),
            Column::string("Value"),
        ]
    }

    fn epilog(&self) -> (epilog: Option<&'static str>) {
        None
    }

    fn timeline(&self, context: &Context, config: &Configuration) -> (timeline: Option<
        plugins::Timeline,
    >) {
        None
    }

    fn needs_kernel(&self) -> (needed: bool) {
        false
    }

    fn run(&self, context: &Context, config: &Configuration) -> (result: Result<TreeGrid, VolatilityError>) {
        let kernel = kernel_module(context, config)?;
        let physical = physical_layer(config);
        let processes = chosen_processes(context, kernel, config)?;
        let mut grid = TreeGrid::new(self.columns());
        let ghost headings = self.headings();
        for i in 0..processes.len()
            invariant
                grid@ == reported(context, physical@, headings, processes@, i as int),
        {
            add_process(context, &physical, &mut grid, processes[i]);
        }
        Ok(grid)
    }
}

} // verus!
