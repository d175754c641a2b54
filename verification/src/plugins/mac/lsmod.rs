//! List the kernel extensions that are loaded.

use crate::config::Configuration;
use crate::context::{Context, Object};
use crate::error::{Failure, VolatilityError};
use crate::plugins::{self, OperatingSystem, Plugin, Requirement, RequirementView};
use crate::plugins::mac::kernel_module;
use crate::renderers::{Cell, Column, ColumnType, Row, Table, TreeGrid, Value};
use crate::symbols;
use crate::symbols::mac::list_extensions;
use vstd::prelude::*;

verus! {

/// Lists the kernel extensions that are loaded.
pub struct Lsmod;

/// The row of an extension.
pub open spec fn extension_row(context: &Context, extension: Object) -> Seq<Cell> {
    seq![
        Cell::hex(extension.offset),
        Cell::text_or_unreadable(
            match context.member(extension, "name") {
                Some(name) => context.string_of(name),
                None => None,
            },
        ),
        Cell::integer_or_unreadable(context.member_u64(extension, "size")),
    ]
}

fn make_row(context: &Context, extension: Object) -> (row: Row)
    ensures
        row@ == extension_row(context, extension),
{
    let name = match context.member(extension, "name") {
        Some(name) => context.as_string(name),
        None => None,
    };
    Row::new().with(Value::hex(extension.offset)).with(Value::text_or_unreadable(&name)).with(
        Value::integer_or_unreadable(context.member_u64(extension, "size")),
    )
}

/// The report on the first of some extensions.
pub open spec fn reported(
    context: &Context,
    headings: Seq<Column>,
    list: Seq<Object>,
    count: int,
) -> Table
    decreases count,
{
    if count <= 0 {
        Table::empty(headings)
    } else {
        reported(context, headings, list, count - 1).push(
            0,
            extension_row(context, list[count - 1]),
        )
    }
}

impl Plugin for Lsmod {
    open spec fn named(&self) -> Seq<char> {
        "mac.lsmod.Lsmod"@
    }

    open spec fn described(&self) -> Seq<char> {
        "Lists loaded kernel modules."@
    }

    open spec fn needs(&self) -> Seq<RequirementView> {
        seq![RequirementView::kernel()]
    }

    open spec fn headings(&self) -> Seq<Column> {
        seq![
            Column::new("Offset", ColumnType::UInt),
            Column::string("Name"),
            Column::integer("Size"),
        ]
    }

    open spec fn system(&self) -> OperatingSystem {
        OperatingSystem::Mac
    }

    open spec fn report(&self, context: &Context, config: &Configuration) -> Result<Table, Failure> {
        match plugins::mac::kernel_of(context, config) {
            Some(kernel) => match symbols::mac::extensions(context, &kernel) {
                Some(list) => Ok(reported(context, self.headings(), list, list.len() as int)),
                None => Err(Failure::Unavailable),
            },
            None => Err(plugins::mac::no_kernel()),
        }
    }

    fn name(&self) -> (name: &'static str) {
        "mac.lsmod.Lsmod"
    }

    fn description(&self) -> (description: &'static str) {
        "Lists loaded kernel modules."
    }

    fn requirements(&self) -> (requirements: Vec<Requirement>) {
        vec![Requirement::kernel()]
    }

    fn operating_system(&self) -> (system: OperatingSystem) {
        OperatingSystem::Mac
    }

    fn columns(&self) -> (columns: Vec<Column>) {
        vec![
            Column::new("Offset", ColumnType::UInt),
            Column::string("Name"),
            Column::integer("Size"),
        ]
    }

    fn epilog(&self) -> (epilog: Option<&'static str>) {
        None
    }

    fn timeline(&self, context: &Context, config: &Configuration) -> (timeline: Option<
        plugins::Timeline,
    >) {
        None
    }

    fn needs_kernel(&self) -> (needed: bool) {
        false
    }

    fn run(&self, context: &Context, config: &Configuration) -> (result: Result<TreeGrid, VolatilityError>) {
        let kernel = kernel_module(context, config)?;
        let list = match list_extensions(context, kernel) {
            Some(list) => list,
            None => return Err(VolatilityError::Unavailable),
        };
        let mut grid = TreeGrid::new(self.columns());
        let ghost headings = self.headings();
        for i in 0..list.len()
            invariant
                grid@ == reported(context, headings, list@, i as int),
        {
            grid.push(0, make_row(context, list[i]));
        }
        Ok(grid)
    }
}

} // verus!
