//! Report the hardware breakpoints of threads.
//!
//! The processor's debug registers let code be stopped at an address without
//! changing it. Malware uses them to hook functions where no scan of the code
//! would show it.

use crate::config::Configuration;
use crate::context::{Context, Module, Object};
use crate::error::{Failure, VolatilityError};
use crate::lists::{self, walk_list};
use crate::plugins::{self, OperatingSystem, Plugin, Requirement, RequirementView};
use crate::plugins::windows::{chosen_processes, kernel_module};
use crate::renderers::{Cell, Column, ColumnType, Row, Table, TreeGrid, Value};
use crate::symbols;
use crate::symbols::windows::describe;
use crate::text;
use vstd::prelude::*;

verus! {

/// Reports the hardware breakpoints of threads.
pub struct DebugRegisters;

/// The debug registers saved in a thread's kernel context.
#[derive(Clone, Copy, PartialEq, Eq, Structural, Debug)]
pub struct DebugRegisterSet {
    pub control: u64,
    pub first: u64,
    pub second: u64,
    pub third: u64,
    pub fourth: u64,
}

pub open spec fn spec_register(context: &Context, block: Object, name: &str) -> u64 {
    match context.member_u64(block, name) {
        Some(value) => value,
        None => 0,
    }
}

/// A register that a thread's control block holds, or zero.
#[verifier::when_used_as_spec(spec_register)]
pub fn register(context: &Context, block: Object, name: &str) -> (value: u64)
    ensures
        value == spec_register(context, block, name),
{
    match context.member_u64(block, name) {
        Some(value) => value,
        None => 0,
    }
}

pub open spec fn spec_read_debug_registers(context: &Context, thread: Object) -> Option<
    DebugRegisterSet,
> {
    match context.member(thread, "Tcb") {
        Some(block) => Some(
            DebugRegisterSet {
                control: register(context, block, "Dr7"),
                first: register(context, block, "Dr0"),
                second: register(context, block, "Dr1"),
                third: register(context, block, "Dr2"),
                fourth: register(context, block, "Dr3"),
            },
        ),
        None => None,
    }
}

/// Read a thread's saved debug registers.
///
/// The registers live on the thread's control block, whose member names are
/// stable across the versions that save them at all.
#[verifier::when_used_as_spec(spec_read_debug_registers)]
pub fn read_debug_registers(context: &Context, thread: Object) -> (registers: Option<
    DebugRegisterSet,
>)
    ensures
        registers == spec_read_debug_registers(context, thread),
{
    match context.member(thread, "Tcb") {
        Some(block) => Some(
            DebugRegisterSet {
                control: register(context, block, "Dr7"),
                first: register(context, block, "Dr0"),
                second: register(context, block, "Dr1"),
                third: register(context, block, "Dr2"),
                fourth: register(context, block, "Dr3"),
            },
        ),
        None => None,
    }
}

/// A name, or that there is none.
pub open spec fn name_cell(name: Option<Seq<char>>) -> Cell {
    match name {
        Some(name) => Cell::Text(name),
        None => Cell::not_available(),
    }
}

fn name_value(name: Option<String>) -> (value: Value)
    ensures
        value@ == name_cell(text::maybe_text(name)),
{
    match name {
        Some(name) => Value::String(name),
        None => Value::not_available(),
    }
}

/// The cells of a register: its address, and the module and name it is described
/// by. An unset register is not applicable rather than absent.
#[verifier::opaque]
pub open spec fn with_register(context: &Context, row: Seq<Cell>, address: u64) -> Seq<Cell> {
    if address == 0 {
        row.push(Cell::hex(address)).push(Cell::not_applicable()).push(Cell::not_applicable())
    } else {
        row.push(Cell::hex(address)).push(
            name_cell(symbols::windows::description(context.windows.code, address).0),
        ).push(name_cell(symbols::windows::description(context.windows.code, address).1))
    }
}

fn add_register(context: &Context, row: Row, address: u64) -> (wider: Row)
    ensures
        wider@ == with_register(context, row@, address),
{
    reveal(with_register);
    if address == 0 {
        row.with(Value::hex(address)).with(Value::not_applicable()).with(Value::not_applicable())
    } else {
        let (module, symbol) = describe(&context.windows.code, address);
        row.with(Value::hex(address)).with(name_value(module)).with(name_value(symbol))
    }
}

pub open spec fn spec_thread_id(context: &Context, thread: Object) -> Option<u64> {
    match context.member(thread, "Cid") {
        Some(cid) => context.member_pointer(cid, "UniqueThread"),
        None => None,
    }
}

/// The number of a thread.
#[verifier::when_used_as_spec(spec_thread_id)]
pub fn thread_id(context: &Context, thread: Object) -> (tid: Option<u64>)
    ensures
        tid == spec_thread_id(context, thread),
{
    match context.member(thread, "Cid") {
        Some(cid) => context.member_pointer(cid, "UniqueThread"),
        None => None,
    }
}

pub open spec fn spec_thread_state(context: &Context, thread: Object) -> Option<i64> {
    match context.member(thread, "Tcb") {
        Some(block) => context.member_i64(block, "State"),
        None => None,
    }
}

/// The state of a thread.
#[verifier::when_used_as_spec(spec_thread_state)]
pub fn thread_state(context: &Context, thread: Object) -> (state: Option<i64>)
    ensures
        state == spec_thread_state(context, thread),
{
    match context.member(thread, "Tcb") {
        Some(block) => context.member_i64(block, "State"),
        None => None,
    }
}

/// The row of a thread, if it has breakpoints. The control register enables them.
/// With none enabled the address registers hold stale values that mean nothing.
pub open spec fn thread_row(context: &Context, pid: u64, name: Seq<char>, thread: Object) -> Option<
    Seq<Cell>,
> {
    match (read_debug_registers(context, thread), thread_id(context, thread)) {
        (Some(registers), Some(tid)) => if registers.control == 0 {
            None
        } else {
            let start = seq![
                Cell::Text(name),
                Cell::integer(pid as i64),
                Cell::integer(tid as i64),
                match thread_state(context, thread) {
                    Some(state) => Cell::integer(state),
                    None => Cell::unreadable(),
                },
                Cell::integer(registers.control as i64),
            ];
            let one = with_register(context, start, registers.first);
            let two = with_register(context, one, registers.second);
            let three = with_register(context, two, registers.third);
            Some(with_register(context, three, registers.fourth))
        },
        _ => None,
    }
}

#[verifier::rlimit(30)]
fn make_row(context: &Context, pid: u64, name: &str, thread: Object) -> (row: Option<Row>)
    ensures
        match row {
            Some(row) => thread_row(context, pid, name@, thread) == Some(row@),
            None => thread_row(context, pid, name@, thread) is None,
        },
{
    match (read_debug_registers(context, thread), thread_id(context, thread)) {
        (Some(registers), Some(tid)) => if registers.control == 0 {
            None
        } else {
            let state = match thread_state(context, thread) {
                Some(state) => Value::integer(state),
                None => Value::unreadable(),
            };
            let start = Row::new().with(Value::string(name)).with(
                Value::integer(pid as i64),
            ).with(Value::integer(tid as i64)).with(state).with(
                Value::integer(registers.control as i64),
            );
            assert(start@ =~= seq![
                Cell::Text(name@),
                Cell::integer(pid as i64),
                Cell::integer(tid as i64),
                match thread_state(context, thread) {
                    Some(state) => Cell::integer(state),
                    None => Cell::unreadable(),
                },
                Cell::integer(registers.control as i64),
            ]);
            let one = add_register(context, start, registers.first);
            let two = add_register(context, one, registers.second);
            let three = add_register(context, two, registers.third);
            Some(add_register(context, three, registers.fourth))
        },
        _ => None,
    }
}

/// The threads that a process lists.
pub open spec fn threads_of(context: &Context, kernel: &Module, process: Object) -> Seq<Object> {
    match context.member(process, "ThreadListHead") {
        Some(head) => match lists::listed(
            context,
            head,
            context.get_type(kernel.table, "_ETHREAD"),
            "ThreadListEntry",
            true,
        ) {
            Some(threads) => threads,
            None => Seq::empty(),
        },
        None => Seq::empty(),
    }
}

/// The threads that a process lists.
pub fn list_threads(context: &Context, kernel: &Module, process: Object) -> (threads: Vec<Object>)
    ensures
        threads@ == threads_of(context, kernel, process),
{
    match context.member(process, "ThreadListHead") {
        Some(head) => match walk_list(
            context,
            head,
            context.get_type(kernel.table, "_ETHREAD"),
            "ThreadListEntry",
            true,
        ) {
            Some(threads) => threads,
            None => Vec::new(),
        },
        None => Vec::new(),
    }
}

/// A report with the first of a process's threads.
pub open spec fn with_threads(
    context: &Context,
    table: Table,
    pid: u64,
    name: Seq<char>,
    threads: Seq<Object>,
    count: int,
) -> Table
    decreases count,
{
    if count <= 0 {
        table
    } else {
        let before = with_threads(context, table, pid, name, threads, count - 1);
        match thread_row(context, pid, name, threads[count - 1]) {
            Some(row) => before.push(0, row),
            None => before,
        }
    }
}

/// A report with the threads of one more process.
#[verifier::opaque]
pub open spec fn with_process(
    context: &Context,
    kernel: &Module,
    table: Table,
    process: Object,
) -> Table {
    match context.pid(process) {
        Some(pid) => {
            let threads = threads_of(context, kernel, process);
            with_threads(
                context,
                table,
                pid,
                context.image_name_or_empty(process),
                threads,
                threads.len() as int,
            )
        },
        None => table,
    }
}

fn add_process(
    context: &Context,
    kernel: &Module,
    grid: &mut TreeGrid,
    process: Object,
)
    ensures
        final(grid)@ == with_process(context, kernel, old(grid)@, process),
{
    reveal(with_process);
    let ghost before = grid@;
    if let Some(pid) = context.pid(process) {
        let name = context.image_file_name_or_empty(process);
        let threads = list_threads(context, kernel, process);
        for i in 0..threads.len()
            invariant
                grid@ == with_threads(context, before, pid, name@, threads@, i as int),
        {
            if let Some(row) = make_row(context, pid, &name, threads[i]) {
                grid.push(0, row);
            }
        }
    }
}

/// The report on the first of some processes.
pub open spec fn reported(
    context: &Context,
    kernel: &Module,
    headings: Seq<Column>,
    processes: Seq<Object>,
    count: int,
) -> Table
    decreases count,
{
    if count <= 0 {
        Table::empty(headings)
    } else {
        with_process(
            context,
            kernel,
            reported(context, kernel, headings, processes, count - 1),
            processes[count - 1],
        )
    }
}

impl Plugin for DebugRegisters {
    open spec fn named(&self) -> Seq<char> {
        "windows.debugregisters.DebugRegisters"@
    }

    open spec fn described(&self) -> Seq<char> {
        ""@
    }

    open spec fn needs(&self) -> Seq<RequirementView> {
        seq![RequirementView::kernel()]
    }

    open spec fn headings(&self) -> Seq<Column> {
        seq![
            Column::string("Process"),
            Column::integer("PID"),
            Column::integer("TID"),
            Column::integer("State"),
            Column::integer("Dr7"),
            Column::new("Dr0", ColumnType::UInt),
            Column::string("Range0"),
            Column::string("Symbol0"),
            Column::new("Dr1", ColumnType::UInt),
            Column::string("Range1"),
            Column::string("Symbol1"),
            Column::new("Dr2", ColumnType::UInt),
            Column::string("Range2"),
            Column::string("Symbol2"),
            Column::new("Dr3", ColumnType::UInt),
            Column::string("Range3"),
            Column::string("Symbol3"),
        ]
    }

    open spec fn system(&self) -> OperatingSystem {
        OperatingSystem::Windows
    }

    open spec fn report(&self, context: &Context, config: &Configuration) -> Result<Table, Failure> {
        match plugins::windows::kernel_of(context, config) {
            Some(kernel) => match plugins::windows::chosen(context, &kernel, config) {
                Some(processes) => Ok(
                    reported(
                        context,
                        &kernel,
                        self.headings(),
                        processes,
                        processes.len() as int,
                    ),
                ),
                None => Err(Failure::Unavailable),
            },
            None => Err(plugins::windows::no_kernel()),
        }
    }

    fn name(&self) -> (name: &'static str) {
        "windows.debugregisters.DebugRegisters"
    }

    fn description(&self) -> (description: &'static str) {
        ""
    }

    fn requirements(&self) -> (requirements: Vec<Requirement>) {
        vec![Requirement::kernel()]
    }

    fn operating_system(&self) -> (system: OperatingSystem) {
        OperatingSystem::Windows
    }

    fn columns(&self) -> (columns: Vec<Column>) {
        vec![
            Column::string("Process"),
            Column::integer("PID"),
            Column::integer("TID"),
            Column::integer("State"),
            Column::integer("Dr7"),
            Column::new("Dr0", ColumnType::UInt),
            Column::string("Range0"),
            Column::string("Symbol0"),
            Column::new("Dr1", ColumnType::UInt),
            Column::string("Range1"),
            Column::string("Symbol1"),
            Column::new("Dr2", ColumnType::UInt),
            Column::string("Range2"),
            Column::string("Symbol2"),
            Column::new("Dr3", ColumnType::UInt),
            Column::string("Range3"),
            Column::string("Symbol3"),
        ]
    }

    fn epilog(&self) -> (epilog: Option<&'static str>) {
        None
    }

    fn timeline(&self, context: &Context, config: &Configuration) -> (timeline: Option<
        plugins::Timeline,
    >) {
        None
    }

    fn needs_kernel(&self) -> (needed: bool) {
        false
    }

    fn run(&self, context: &Context, config: &Configuration) -> (result: Result<TreeGrid, VolatilityError>) {
        let kernel = kernel_module(context, config)?;
        let processes = chosen_processes(context, kernel, config)?;
        let mut grid = TreeGrid::new(self.columns());
        let ghost headings = self.headings();
        for i in 0..processes.len()
            invariant
                grid@ == reported(context, kernel, headings, processes@, i as int),
        {
            add_process(context, kernel, &mut grid, processes[i]);
        }
        Ok(grid)
    }
}

} // verus!
