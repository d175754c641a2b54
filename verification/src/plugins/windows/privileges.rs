//! Report the privileges of processes.

use crate::config::Configuration;
use crate::context::{Context, Object};
use crate::error::{Failure, VolatilityError};
use crate::plugins::{self, OperatingSystem, Plugin, Requirement, RequirementView};
use crate::plugins::windows::{chosen_processes, kernel_module};
use crate::renderers::{Cell, Column, Row, Table, TreeGrid, Value};
use crate::symbols;
use crate::symbols::security::{Security, TokenPrivilege};
use crate::text::{self, join, push_text};
use vstd::prelude::*;

verus! {

/// Reports the privileges of processes.
pub struct Privileges;

/// What a token says of a privilege, in words.
pub open spec fn attributes(privilege: TokenPrivilege) -> Seq<Seq<char>> {
    let present = if privilege.present {
        seq!["Present"@]
    } else {
        Seq::empty()
    };
    let enabled = if privilege.enabled {
        present.push("Enabled"@)
    } else {
        present
    };
    if privilege.default {
        enabled.push("Default"@)
    } else {
        enabled
    }
}

/// What a token says of a privilege, in words with commas between them.
pub fn attribute_words(privilege: TokenPrivilege) -> (words: String)
    ensures
        words@ == text::joined(attributes(privilege), ","@),
{
    let mut words: Vec<String> = Vec::new();
    assert(text::texts(words@) =~= Seq::<Seq<char>>::empty());
    if privilege.present {
        push_text(&mut words, "Present".to_owned());
        assert(text::texts(words@) =~= seq!["Present"@]);
    }
    if privilege.enabled {
        push_text(&mut words, "Enabled".to_owned());
    }
    if privilege.default {
        push_text(&mut words, "Default".to_owned());
    }
    assert(text::texts(words@) =~= attributes(privilege));
    join(&words, ",")
}

/// The row of a privilege. A bit position the system gives no name to is not a
/// privilege, whatever the token says about it.
pub open spec fn privilege_row(
    security: &Security,
    pid: u64,
    name: Seq<char>,
    privilege: TokenPrivilege,
) -> Option<Seq<Cell>> {
    match symbols::security::privilege_from(security.privileges@, privilege.value, 0) {
        Some(known) => Some(
            seq![
                Cell::integer(pid as i64),
                Cell::Text(name),
                Cell::integer(privilege.value as i64),
                Cell::Text(known.name@),
                Cell::Text(text::joined(attributes(privilege), ","@)),
                Cell::Text(known.description@),
            ],
        ),
        None => None,
    }
}

fn make_row(security: &Security, pid: u64, name: &str, privilege: TokenPrivilege) -> (row: Option<
    Row,
>)
    ensures
        match row {
            Some(row) => privilege_row(security, pid, name@, privilege) == Some(row@),
            None => privilege_row(security, pid, name@, privilege) is None,
        },
{
    match security.privilege(privilege.value) {
        Some(known) => {
            let row = Row::new().with(Value::integer(pid as i64)).with(Value::string(name)).with(
                Value::integer(privilege.value as i64),
            ).with(Value::string(&known.name)).with(
                Value::String(attribute_words(privilege)),
            ).with(Value::string(&known.description));
            assert(privilege_row(security, pid, name@, privilege) == Some(row@));
            Some(row)
        },
        None => None,
    }
}

/// A report with the first privileges of a process's token.
pub open spec fn with_privileges(
    security: &Security,
    table: Table,
    pid: u64,
    name: Seq<char>,
    list: Seq<TokenPrivilege>,
    count: int,
) -> Table
    decreases count,
{
    if count <= 0 {
        table
    } else {
        let before = with_privileges(security, table, pid, name, list, count - 1);
        match privilege_row(security, pid, name, list[count - 1]) {
            Some(row) => before.push(0, row),
            None => before,
        }
    }
}

/// A report with the privileges of one more process.
#[verifier::opaque]
pub open spec fn with_process(context: &Context, table: Table, process: Object) -> Table {
    match (
        context.pid(process),
        symbols::security::token_from(context.windows.security.tokens@, process.offset, 0),
    ) {
        (Some(pid), Some(token)) => with_privileges(
            &context.windows.security,
            table,
            pid,
            context.image_name_or_empty(process),
            token.privileges@,
            token.privileges@.len() as int,
        ),
        _ => table,
    }
}

fn add_process(context: &Context, grid: &mut TreeGrid, process: Object)
    ensures
        final(grid)@ == with_process(context, old(grid)@, process),
{
    reveal(with_process);
    let ghost before = grid@;
    let security = &context.windows.security;
    if let (Some(pid), Some(token)) = (context.pid(process), security.token(process.offset)) {
        let name = context.image_file_name_or_empty(process);
        for i in 0..token.privileges.len()
            invariant
                grid@ == with_privileges(
                    security,
                    before,
                    pid,
                    name@,
                    token.privileges@,
                    i as int,
                ),
        {
            if let Some(row) = make_row(security, pid, &name, token.privileges[i]) {
                grid.push(0, row);
            }
        }
    }
}

/// The report on the first of some processes.
pub open spec fn reported(
    context: &Context,
    headings: Seq<Column>,
    processes: Seq<Object>,
    count: int,
) -> Table
    decreases count,
{
    if count <= 0 {
        Table::empty(headings)
    } else {
        with_process(
            context,
            reported(context, headings, processes, count - 1),
            processes[count - 1],
        )
    }
}

impl Plugin for Privileges {
    open spec fn named(&self) -> Seq<char> {
        "windows.privileges.Privs"@
    }

    open spec fn described(&self) -> Seq<char> {
        "Lists process token privileges"@
    }

    open spec fn needs(&self) -> Seq<RequirementView> {
        seq![RequirementView::kernel(), RequirementView::pid_filter("Filter on specific process IDs"@)]
    }

    open spec fn headings(&self) -> Seq<Column> {
        seq![
            Column::integer("PID"),
            Column::string("Process"),
            Column::integer("Value"),
            Column::string("Privilege"),
            Column::string("Attributes"),
            Column::string("Description"),
        ]
    }

    open spec fn system(&self) -> OperatingSystem {
        OperatingSystem::Windows
    }

    open spec fn report(&self, context: &Context, config: &Configuration) -> Result<Table, Failure> {
        match plugins::windows::kernel_of(context, config) {
            Some(kernel) => match plugins::windows::chosen(context, &kernel, config) {
                Some(processes) => Ok(
                    reported(
                        context,
                        self.headings(),
                        processes,
                        processes.len() as int,
                    ),
                ),
                None => Err(Failure::Unavailable),
            },
            None => Err(plugins::windows::no_kernel()),
        }
    }

    fn name(&self) -> (name: &'static str) {
        "windows.privileges.Privs"
    }

    fn description(&self) -> (description: &'static str) {
        "Lists process token privileges"
    }

    fn requirements(&self) -> (requirements: Vec<Requirement>) {
        vec![Requirement::kernel(), Requirement::pid_filter("Filter on specific process IDs")]
    }

    fn operating_system(&self) -> (system: OperatingSystem) {
        OperatingSystem::Windows
    }

    fn columns(&self) -> (columns: Vec<Column>) {
        vec![
            Column::integer("PID"),
            Column::string("Process"),
            Column::integer("Value"),
            Column::string("Privilege"),
            Column::string("Attributes"),
            Column::string("Description"),
        ]
    }

    fn epilog(&self) -> (epilog: Option<&'static str>) {
        None
    }

    fn timeline(&self, context: &Context, config: &Configuration) -> (timeline: Option<
        plugins::Timeline,
    >) {
        None
    }

    fn needs_kernel(&self) -> (needed: bool) {
        false
    }

    fn run(&self, context: &Context, config: &Configuration) -> (result: Result<TreeGrid, VolatilityError>) {
        let kernel = kernel_module(context, config)?;
        let processes = chosen_processes(context, kernel, config)?;
        let mut grid = TreeGrid::new(self.columns());
        let ghost headings = self.headings();
        for i in 0..processes.len()
            invariant
                grid@ == reported(context, headings, processes@, i as int),
        {
            add_process(context, &mut grid, processes[i]);
        }
        Ok(grid)
    }
}

} // verus!
