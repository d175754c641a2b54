//! List the kernel's pending timers.
//!
//! A timer gives an extension periodic execution without a thread of its own,
//! which makes it a convenient hiding place for recurring malicious work.

use crate::config::Configuration;
use crate::context::{Context, Module, Object, TypeId};
use crate::error::{Failure, VolatilityError};
use crate::plugins::{self, OperatingSystem, Plugin, Requirement, RequirementView};
use crate::plugins::mac::kernel_module;
use crate::renderers::{Cell, Column, ColumnType, Row, Table, TreeGrid, Value};
use crate::symbols;
use crate::symbols::mac::{describe, walk_queue};
use vstd::prelude::*;

verus! {

/// Lists the kernel's pending timers.
pub struct Timers;

/// When a call was queued. Older kernels do not record it.
pub open spec fn entry_time_cell(context: &Context, call: Object) -> Cell {
    if context.has_member(call, "entry_time") {
        Cell::signed_or_unreadable(context.member_i64(call, "entry_time"))
    } else {
        Cell::integer(-1 as i64)
    }
}

fn entry_time_value(context: &Context, call: Object) -> (value: Value)
    ensures
        value@ == entry_time_cell(context, call),
{
    if context.has_member(call, "entry_time") {
        Value::signed_or_unreadable(context.member_i64(call, "entry_time"))
    } else {
        Value::integer(-1)
    }
}

/// The row of a call that waits to run.
pub open spec fn call_row(context: &Context, call: Object, function: u64) -> Seq<Cell> {
    let owner = symbols::mac::described(context.mac.resolver, function);
    seq![
        Cell::hex(function),
        Cell::hex_or_unreadable(context.member_u64(call, "param0")),
        Cell::hex_or_unreadable(context.member_u64(call, "param1")),
        Cell::signed_or_unreadable(context.member_i64(call, "deadline")),
        entry_time_cell(context, call),
        Cell::Text(owner.0),
        Cell::Text(owner.1),
    ]
}

fn make_row(context: &Context, call: Object, function: u64) -> (row: Row)
    ensures
        row@ == call_row(context, call, function),
{
    let owner = describe(&context.mac.resolver, function);
    Row::new().with(Value::hex(function)).with(
        Value::hex_or_unreadable(context.member_u64(call, "param0")),
    ).with(Value::hex_or_unreadable(context.member_u64(call, "param1"))).with(
        Value::signed_or_unreadable(context.member_i64(call, "deadline")),
    ).with(entry_time_value(context, call)).with(Value::String(owner.0)).with(
        Value::String(owner.1),
    )
}

/// A report with the first of some calls. One without a function to run is not a
/// timer.
pub open spec fn with_calls(context: &Context, table: Table, calls: Seq<Object>, count: int) -> Table
    decreases count,
{
    if count <= 0 {
        table
    } else {
        let before = with_calls(context, table, calls, count - 1);
        match context.member_pointer(calls[count - 1], "func") {
            Some(function) => before.push(0, call_row(context, calls[count - 1], function)),
            None => before,
        }
    }
}

/// The table of processors' state: the type of an entry, its size, where the
/// first stands and how many there are.
pub struct Processors {
    pub kind: TypeId,
    pub size: u64,
    pub first: u64,
    pub count: u64,
}

pub open spec fn spec_find_processors(context: &Context, kernel: &Module) -> Option<Processors> {
    let count = match context.object_from_symbol(kernel, "real_ncpus") {
        Some(count) => match context.as_u64(count) {
            Some(count) => count,
            None => 0,
        },
        None => 0,
    };
    match context.symbol_offset(kernel, "cpu_data_ptr") {
        Some(place) => match (
            context.number_at(kernel.layer, place, 8),
            context.get_type(kernel.table, "cpu_data"),
        ) {
            (Some(first), Some(kind)) => match context.size_of(kind) {
                Some(size) => Some(Processors { kind, size, first, count }),
                None => None,
            },
            _ => None,
        },
        None => None,
    }
}

/// Find the table of processors' state.
#[verifier::when_used_as_spec(spec_find_processors)]
pub fn find_processors(context: &Context, kernel: &Module) -> (found: Option<Processors>)
    ensures
        found == spec_find_processors(context, kernel),
{
    let count: u64 = match context.object_from_symbol(kernel, "real_ncpus") {
        Some(count) => match context.as_u64(count) {
            Some(count) => count,
            None => 0,
        },
        None => 0,
    };
    match context.symbol_offset(kernel, "cpu_data_ptr") {
        Some(place) => match (
            context.number_at(kernel.layer, place, 8),
            context.get_type(kernel.table, "cpu_data"),
        ) {
            (Some(first), Some(kind)) => match context.size_of(kind) {
                Some(size) => Some(Processors { kind, size, first, count }),
                None => None,
            },
            _ => None,
        },
        None => None,
    }
}

pub open spec fn spec_timer_queue(
    context: &Context,
    kernel: &Module,
    processors: &Processors,
    at: u64,
) -> Option<Object> {
    let processor = Object {
        kind: processors.kind,
        layer: kernel.layer,
        native: kernel.layer,
        offset: processors.first.wrapping_add(at.wrapping_mul(processors.size)),
    };
    match context.member(processor, "rtclock_timer") {
        Some(timer) => match context.member(timer, "queue") {
            Some(queue) => context.member(queue, "head"),
            None => None,
        },
        None => None,
    }
}

/// The queue of timers that a processor keeps.
#[verifier::when_used_as_spec(spec_timer_queue)]
pub fn timer_queue(context: &Context, kernel: &Module, processors: &Processors, at: u64) -> (head:
    Option<Object>)
    ensures
        head == spec_timer_queue(context, kernel, processors, at),
{
    let processor = Object {
        kind: processors.kind,
        layer: kernel.layer,
        native: kernel.layer,
        offset: processors.first.wrapping_add(at.wrapping_mul(processors.size)),
    };
    match context.member(processor, "rtclock_timer") {
        Some(timer) => match context.member(timer, "queue") {
            Some(queue) => context.member(queue, "head"),
            None => None,
        },
        None => None,
    }
}

/// A report with the timers of one more processor.
#[verifier::opaque]
pub open spec fn with_queue(context: &Context, kernel: &Module, table: Table, head: Object) -> Table {
    let calls = symbols::mac::circular_queue(
        context,
        head,
        context.get_type(kernel.table, "call_entry"),
        "q_link",
    );
    with_calls(context, table, calls, calls.len() as int)
}

fn add_queue(context: &Context, kernel: &Module, grid: &mut TreeGrid, head: Object)
    ensures
        final(grid)@ == with_queue(context, kernel, old(grid)@, head),
{
    reveal(with_queue);
    let ghost before = grid@;
    let calls = walk_queue(
        context,
        head,
        context.get_type(kernel.table, "call_entry"),
        "q_link",
    );
    for i in 0..calls.len()
        invariant
            grid@ == with_calls(context, before, calls@, i as int),
    {
        if let Some(function) = context.member_pointer(calls[i], "func") {
            grid.push(0, make_row(context, calls[i], function));
        }
    }
}

/// A report with the timers of the processors from one on, up to the first whose
/// queue cannot be reached.
pub open spec fn with_processors(
    context: &Context,
    kernel: &Module,
    processors: &Processors,
    table: Table,
    at: u64,
) -> Table
    decreases processors.count - at,
{
    if at >= processors.count {
        table
    } else {
        match timer_queue(context, kernel, processors, at) {
            Some(head) => with_processors(
                context,
                kernel,
                processors,
                with_queue(context, kernel, table, head),
                (at + 1) as u64,
            ),
            None => table,
        }
    }
}

impl Plugin for Timers {
    open spec fn named(&self) -> Seq<char> {
        "mac.timers.Timers"@
    }

    open spec fn described(&self) -> Seq<char> {
        "Check for malicious kernel timers."@
    }

    open spec fn needs(&self) -> Seq<RequirementView> {
        seq![RequirementView::kernel()]
    }

    open spec fn headings(&self) -> Seq<Column> {
        seq![
            Column::new("Function", ColumnType::UInt),
            Column::new("Param 0", ColumnType::UInt),
            Column::new("Param 1", ColumnType::UInt),
            Column::integer("Deadline"),
            Column::integer("Entry Time"),
            Column::string("Module"),
            Column::string("Symbol"),
        ]
    }

    open spec fn system(&self) -> OperatingSystem {
        OperatingSystem::Mac
    }

    open spec fn report(&self, context: &Context, config: &Configuration) -> Result<Table, Failure> {
        match plugins::mac::kernel_of(context, config) {
            Some(kernel) => match find_processors(context, &kernel) {
                Some(processors) => Ok(
                    with_processors(
                        context,
                        &kernel,
                        &processors,
                        Table::empty(self.headings()),
                        0,
                    ),
                ),
                None => Err(Failure::Unavailable),
            },
            None => Err(plugins::mac::no_kernel()),
        }
    }

    fn name(&self) -> (name: &'static str) {
        "mac.timers.Timers"
    }

    fn description(&self) -> (description: &'static str) {
        "Check for malicious kernel timers."
    }

    fn requirements(&self) -> (requirements: Vec<Requirement>) {
        vec![Requirement::kernel()]
    }

    fn operating_system(&self) -> (system: OperatingSystem) {
        OperatingSystem::Mac
    }

    fn columns(&self) -> (columns: Vec<Column>) {
        vec![
            Column::new("Function", ColumnType::UInt),
            Column::new("Param 0", ColumnType::UInt),
            Column::new("Param 1", ColumnType::UInt),
            Column::integer("Deadline"),
            Column::integer("Entry Time"),
            Column::string("Module"),
            Column::string("Symbol"),
        ]
    }

    fn epilog(&self) -> (epilog: Option<&'static str>) {
        None
    }

    fn timeline(&self, context: &Context, config: &Configuration) -> (timeline: Option<
        plugins::Timeline,
    >) {
        None
    }

    fn needs_kernel(&self) -> (needed: bool) {
        false
    }

    fn run(&self, context: &Context, config: &Configuration) -> (result: Result<TreeGrid, VolatilityError>) {
        let kernel = kernel_module(context, config)?;
        let processors = match find_processors(context, kernel) {
            Some(processors) => processors,
            None => return Err(VolatilityError::Unavailable),
        };
        let mut grid = TreeGrid::new(self.columns());
        let ghost whole = with_processors(context, kernel, &processors, grid@, 0);
        let mut at: u64 = 0;
        let mut going = true;
        while going
            invariant
                going ==> whole == with_processors(context, kernel, &processors, grid@, at),
                !going ==> whole == grid@,
            decreases
                    (if going {
                        if at < processors.count {
                            processors.count - at + 1
                        } else {
                            1
                        }
                    } else {
                        0
                    }),
        {
            if at >= processors.count {
                going = false;
            } else {
                match timer_queue(context, kernel, &processors, at) {
                    Some(head) => {
                        add_queue(context, kernel, &mut grid, head);
                        at = at + 1;
                    },
                    None => {
                        going = false;
                    },
                }
            }
        }
        Ok(grid)
    }
}

} // verus!
