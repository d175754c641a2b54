//! Check the Mach trap table for hooked entries.
//!
//! Mach traps are the kernel's other system call interface, dispatched through
//! their own table. It is hooked the same way and checked the same way.

use crate::config::Configuration;
use crate::context::Context;
use crate::error::{Failure, VolatilityError};
use crate::plugins::{self, OperatingSystem, Plugin, Requirement, RequirementView};
use crate::plugins::mac::{add_handlers, kernel_module};
use crate::renderers::{Column, ColumnType, Table, TreeGrid};
use vstd::prelude::*;

verus! {

/// Checks the Mach trap table for hooked entries.
pub struct CheckTrapTable;

impl Plugin for CheckTrapTable {
    open spec fn named(&self) -> Seq<char> {
        "mac.check_trap_table.Check_trap_table"@
    }

    open spec fn described(&self) -> Seq<char> {
        "Check mach trap table for hooks."@
    }

    open spec fn needs(&self) -> Seq<RequirementView> {
        seq![RequirementView::kernel()]
    }

    open spec fn headings(&self) -> Seq<Column> {
        seq![
            Column::new("Table Address", ColumnType::UInt),
            Column::string("Table Name"),
            Column::integer("Index"),
            Column::new("Handler Address", ColumnType::UInt),
            Column::string("Handler Module"),
            Column::string("Handler Symbol"),
        ]
    }

    open spec fn system(&self) -> OperatingSystem {
        OperatingSystem::Mac
    }

    open spec fn report(&self, context: &Context, config: &Configuration) -> Result<Table, Failure> {
        match plugins::mac::kernel_of(context, config) {
            Some(kernel) => match context.object_from_symbol(&kernel, "mach_trap_table") {
                Some(entries) => Ok(
                    plugins::mac::with_handlers(
                        context,
                        Table::empty(self.headings()),
                        entries,
                        "TrapTable"@,
                        "mach_trap_function",
                        plugins::mac::entry_count(context, entries) as int,
                    ),
                ),
                None => Err(Failure::Unavailable),
            },
            None => Err(plugins::mac::no_kernel()),
        }
    }

    fn name(&self) -> (name: &'static str) {
        "mac.check_trap_table.Check_trap_table"
    }

    fn description(&self) -> (description: &'static str) {
        "Check mach trap table for hooks."
    }

    fn requirements(&self) -> (requirements: Vec<Requirement>) {
        vec![Requirement::kernel()]
    }

    fn operating_system(&self) -> (system: OperatingSystem) {
        OperatingSystem::Mac
    }

    fn columns(&self) -> (columns: Vec<Column>) {
        vec![
            Column::new("Table Address", ColumnType::UInt),
            Column::string("Table Name"),
            Column::integer("Index"),
            Column::new("Handler Address", ColumnType::UInt),
            Column::string("Handler Module"),
            Column::string("Handler Symbol"),
        ]
    }

    fn epilog(&self) -> (epilog: Option<&'static str>) {
        None
    }

    fn timeline(&self, context: &Context, config: &Configuration) -> (timeline: Option<
        plugins::Timeline,
    >) {
        None
    }

    fn needs_kernel(&self) -> (needed: bool) {
        false
    }

    fn run(&self, context: &Context, config: &Configuration) -> (result: Result<TreeGrid, VolatilityError>) {
        let kernel = kernel_module(context, config)?;
        match context.object_from_symbol(kernel, "mach_trap_table") {
            Some(entries) => {
                let mut grid = TreeGrid::new(self.columns());
                add_handlers(context, &mut grid, entries, "TrapTable", "mach_trap_function");
                Ok(grid)
            },
            None => Err(VolatilityError::Unavailable),
        }
    }
}

} // verus!
