//! List the listeners registered on each scope of authorisation.
//!
//! Each listener is an extension that sees every authorisation decision in its
//! scope.

use crate::config::Configuration;
use crate::context::{Context, Module, Object};
use crate::error::{Failure, VolatilityError};
use crate::plugins::{self, OperatingSystem, Plugin, Requirement, RequirementView};
use crate::plugins::mac::kernel_module;
use crate::renderers::{Cell, Column, ColumnType, Row, Table, TreeGrid, Value};
use crate::symbols;
use crate::symbols::mac::{describe, drop_null, walk_tailq};
use vstd::prelude::*;

verus! {

/// Lists the listeners registered on each scope of authorisation.
pub struct KauthListeners;

/// What a scope is called, or nothing.
pub open spec fn scope_name(context: &Context, scope: Object) -> Seq<char> {
    match context.member(scope, "ks_identifier") {
        Some(identifier) => match context.pointed_text(identifier, 128) {
            Some(text) => text,
            None => Seq::empty(),
        },
        None => Seq::empty(),
    }
}

fn read_scope_name(context: &Context, scope: Object) -> (name: String)
    ensures
        name@ == scope_name(context, scope),
{
    match context.member(scope, "ks_identifier") {
        Some(identifier) => match context.pointer_to_string(identifier, 128) {
            Some(text) => text,
            None => String::new(),
        },
        None => String::new(),
    }
}

/// The row of a listener.
pub open spec fn listener_row(
    context: &Context,
    scope: Object,
    listener: Object,
    callback: u64,
) -> Seq<Cell> {
    let owner = symbols::mac::described(context.mac.resolver, callback);
    seq![
        Cell::Text(scope_name(context, scope)),
        Cell::hex_or_unreadable(context.member_u64(listener, "kll_idata")),
        Cell::hex(callback),
        Cell::Text(owner.0),
        Cell::Text(owner.1),
    ]
}

fn make_row(context: &Context, scope: Object, listener: Object, callback: u64) -> (row: Row)
    ensures
        row@ == listener_row(context, scope, listener, callback),
{
    let owner = describe(&context.mac.resolver, callback);
    Row::new().with(Value::String(read_scope_name(context, scope))).with(
        Value::hex_or_unreadable(context.member_u64(listener, "kll_idata")),
    ).with(Value::hex(callback)).with(Value::String(owner.0)).with(Value::String(owner.1))
}

/// A report with the first of a scope's listeners. The scope holds a fixed table of
/// them, of which only the ones with a callback are in use.
pub open spec fn with_listeners(
    context: &Context,
    table: Table,
    scope: Object,
    listeners: Object,
    count: int,
) -> Table
    decreases count,
{
    if count <= 0 {
        table
    } else {
        let before = with_listeners(context, table, scope, listeners, count - 1);
        match context.index(listeners, (count - 1) as u64) {
            Some(listener) => match symbols::mac::unless_null(
                context.member_pointer(listener, "kll_callback"),
            ) {
                Some(callback) => before.push(
                    0,
                    listener_row(context, scope, listener, callback),
                ),
                None => before,
            },
            None => before,
        }
    }
}

/// A report with one more scope.
#[verifier::opaque]
pub open spec fn with_scope(context: &Context, table: Table, scope: Object) -> Table {
    match context.member(scope, "ks_listeners") {
        Some(listeners) => with_listeners(
            context,
            table,
            scope,
            listeners,
            plugins::mac::entry_count(context, listeners) as int,
        ),
        None => table,
    }
}

fn add_scope(context: &Context, grid: &mut TreeGrid, scope: Object)
    ensures
        final(grid)@ == with_scope(context, old(grid)@, scope),
{
    reveal(with_scope);
    let ghost before = grid@;
    if let Some(listeners) = context.member(scope, "ks_listeners") {
        let count: u64 = match context.count(listeners) {
            Some(count) => count,
            None => 0,
        };
        for slot in 0..count
            invariant
                grid@ == with_listeners(context, before, scope, listeners, slot as int),
        {
            if let Some(listener) = context.index(listeners, slot) {
                let callback = drop_null(context.member_pointer(listener, "kll_callback"));
                if let Some(callback) = callback {
                    grid.push(0, make_row(context, scope, listener, callback));
                }
            }
        }
    }
}

/// The report on the first of some scopes.
pub open spec fn reported(
    context: &Context,
    headings: Seq<Column>,
    scopes: Seq<Object>,
    count: int,
) -> Table
    decreases count,
{
    if count <= 0 {
        Table::empty(headings)
    } else {
        with_scope(
            context,
            reported(context, headings, scopes, count - 1),
            scopes[count - 1],
        )
    }
}

/// The kernel's scopes.
pub open spec fn scopes_of(context: &Context, kernel: &Module) -> Option<Seq<Object>> {
    match context.object_from_symbol(kernel, "kauth_scopes") {
        Some(head) => symbols::mac::tail_queue(
            context,
            head,
            context.get_type(kernel.table, "kauth_scope"),
            "ks_link",
        ),
        None => None,
    }
}

impl Plugin for KauthListeners {
    open spec fn named(&self) -> Seq<char> {
        "mac.kauth_listeners.Kauth_listeners"@
    }

    open spec fn described(&self) -> Seq<char> {
        "Lists kauth listeners and their status"@
    }

    open spec fn needs(&self) -> Seq<RequirementView> {
        seq![RequirementView::kernel()]
    }

    open spec fn headings(&self) -> Seq<Column> {
        seq![
            Column::string("Name"),
            Column::new("IData", ColumnType::UInt),
            Column::new("Callback Address", ColumnType::UInt),
            Column::string("Module"),
            Column::string("Symbol"),
        ]
    }

    open spec fn system(&self) -> OperatingSystem {
        OperatingSystem::Mac
    }

    open spec fn report(&self, context: &Context, config: &Configuration) -> Result<Table, Failure> {
        match plugins::mac::kernel_of(context, config) {
            Some(kernel) => match scopes_of(context, &kernel) {
                Some(scopes) => Ok(
                    reported(context, self.headings(), scopes, scopes.len() as int),
                ),
                None => Err(Failure::Unavailable),
            },
            None => Err(plugins::mac::no_kernel()),
        }
    }

    fn name(&self) -> (name: &'static str) {
        "mac.kauth_listeners.Kauth_listeners"
    }

    fn description(&self) -> (description: &'static str) {
        "Lists kauth listeners and their status"
    }

    fn requirements(&self) -> (requirements: Vec<Requirement>) {
        vec![Requirement::kernel()]
    }

    fn operating_system(&self) -> (system: OperatingSystem) {
        OperatingSystem::Mac
    }

    fn columns(&self) -> (columns: Vec<Column>) {
        vec![
            Column::string("Name"),
            Column::new("IData", ColumnType::UInt),
            Column::new("Callback Address", ColumnType::UInt),
            Column::string("Module"),
            Column::string("Symbol"),
        ]
    }

    fn epilog(&self) -> (epilog: Option<&'static str>) {
        None
    }

    fn timeline(&self, context: &Context, config: &Configuration) -> (timeline: Option<
        plugins::Timeline,
    >) {
        None
    }

    fn needs_kernel(&self) -> (needed: bool) {
        false
    }

    fn run(&self, context: &Context, config: &Configuration) -> (result: Result<TreeGrid, VolatilityError>) {
        let kernel = kernel_module(context, config)?;
        let found = match context.object_from_symbol(kernel, "kauth_scopes") {
            Some(head) => walk_tailq(
                context,
                head,
                context.get_type(kernel.table, "kauth_scope"),
                "ks_link",
            ),
            None => None,
        };
        let scopes = match found {
            Some(scopes) => scopes,
            None => return Err(VolatilityError::Unavailable),
        };
        let mut grid = TreeGrid::new(self.columns());
        let ghost headings = self.headings();
        for i in 0..scopes.len()
            invariant
                grid@ == reported(context, headings, scopes@, i as int),
        {
            add_scope(context, &mut grid, scopes[i]);
        }
        Ok(grid)
    }
}

} // verus!
