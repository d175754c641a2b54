//! Find file objects by scanning the kernel's pools.

use crate::config::Configuration;
use crate::context::{Context, Module, Object};
use crate::error::{Failure, VolatilityError};
use crate::plugins::{self, OperatingSystem, Plugin, Requirement, RequirementView};
use crate::plugins::windows::kernel_module;
use crate::plugins::windows::psscan::scan_objects;
use crate::renderers::{Cell, Column, ColumnType, Row, Table, TreeGrid, Value};
use crate::symbols;
use vstd::prelude::*;

verus! {

/// Finds file objects by scanning the kernel's pools.
pub struct FileScan;

/// The pool tag of file objects: `File`.
pub const TAG: u32 = 0x656c6946;

/// The row of an object. A name that cannot be read is
/// reported as an empty one.
pub open spec fn object_row(context: &Context, kernel: &Module, object: Object) -> Seq<Cell> {
    seq![
        Cell::hex(object.offset),
        Cell::Text(
            match context.member_unicode_of(object, "FileName") {
                Some(name) => name,
                None => Seq::empty(),
            },
        ),
    ]
}

fn make_row(context: &Context, kernel: &Module, object: Object) -> (row: Row)
    ensures
        row@ == object_row(context, kernel, object),
{
    let name = match context.member_unicode(object, "FileName") {
        Some(name) => Value::String(name),
        None => Value::String(String::new()),
    };
    Row::new().with(Value::hex(object.offset)).with(name)
}

/// The report on the first of some objects.
pub open spec fn reported(
    context: &Context,
    kernel: &Module,
    headings: Seq<Column>,
    objects: Seq<Object>,
    count: int,
) -> Table
    decreases count,
{
    if count <= 0 {
        Table::empty(headings)
    } else {
        reported(context, kernel, headings, objects, count - 1).push(
            0,
            object_row(context, kernel, objects[count - 1]),
        )
    }
}

impl Plugin for FileScan {
    open spec fn named(&self) -> Seq<char> {
        "windows.filescan.FileScan"@
    }

    open spec fn described(&self) -> Seq<char> {
        "Scans for file objects present in a particular windows memory image."@
    }

    open spec fn needs(&self) -> Seq<RequirementView> {
        seq![RequirementView::kernel()]
    }

    open spec fn headings(&self) -> Seq<Column> {
        seq![
            Column::new("Offset", ColumnType::UInt),
            Column::string("Name"),
        ]
    }

    open spec fn system(&self) -> OperatingSystem {
        OperatingSystem::Windows
    }

    open spec fn report(&self, context: &Context, config: &Configuration) -> Result<Table, Failure> {
        match plugins::windows::kernel_of(context, config) {
            Some(kernel) => match symbols::windows::scanned_tags(context, seq![TAG]) {
                Some(hits) => Ok(
                    reported(
                        context,
                        &kernel,
                        self.headings(),
                        plugins::windows::psscan::objects_of(hits),
                        hits.len() as int,
                    ),
                ),
                None => Err(Failure::Unavailable),
            },
            None => Err(plugins::windows::no_kernel()),
        }
    }

    fn name(&self) -> (name: &'static str) {
        "windows.filescan.FileScan"
    }

    fn description(&self) -> (description: &'static str) {
        "Scans for file objects present in a particular windows memory image."
    }

    fn requirements(&self) -> (requirements: Vec<Requirement>) {
        vec![Requirement::kernel()]
    }

    fn operating_system(&self) -> (system: OperatingSystem) {
        OperatingSystem::Windows
    }

    fn columns(&self) -> (columns: Vec<Column>) {
        vec![
            Column::new("Offset", ColumnType::UInt),
            Column::string("Name"),
        ]
    }

    fn epilog(&self) -> (epilog: Option<&'static str>) {
        None
    }

    fn timeline(&self, context: &Context, config: &Configuration) -> (timeline: Option<
        plugins::Timeline,
    >) {
        None
    }

    fn needs_kernel(&self) -> (needed: bool) {
        false
    }

    fn run(&self, context: &Context, config: &Configuration) -> (result: Result<TreeGrid, VolatilityError>) {
        let kernel = kernel_module(context, config)?;
        let tags: [u32; 1] = [TAG];
        assert(tags@ =~= seq![TAG]);
        let objects = scan_objects(context, &tags)?;
        let mut grid = TreeGrid::new(self.columns());
        let ghost headings = self.headings();
        for i in 0..objects.len()
            invariant
                grid@ == reported(context, kernel, headings, objects@, i as int),
        {
            grid.push(0, make_row(context, kernel, objects[i]));
        }
        Ok(grid)
    }
}

} // verus!
