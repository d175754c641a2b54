//! Find kernel objects of every known kind by scanning the kernel's pools.

use crate::config::Configuration;
use crate::context::{Context, Module};
use crate::error::{Failure, VolatilityError};
use crate::plugins::{self, OperatingSystem, Plugin, Requirement, RequirementView};
use crate::plugins::windows::kernel_module;
use crate::renderers::{Cell, Column, ColumnType, Row, Table, TreeGrid, Value};
use crate::symbols;
use crate::symbols::windows::{generate_pool_scan, PoolHit};
use crate::text::{self, same_text};
use vstd::prelude::*;

verus! {

/// Finds kernel objects of every known kind by scanning the kernel's pools.
pub struct PoolScanner;

/// A name for an object, where its kind has one worth showing. Only processes and
/// files do.
pub open spec fn object_text(context: &Context, hit: &PoolHit) -> Option<Seq<char>> {
    match hit.object_type {
        Some(kind) => if kind@ == "Process"@ {
            match context.member(hit.object, "ImageFileName") {
                Some(field) => context.string_of(field),
                None => None,
            }
        } else if kind@ == "File"@ {
            context.member_unicode_of(hit.object, "FileName")
        } else {
            None
        },
        None => None,
    }
}

fn object_name(context: &Context, hit: &PoolHit) -> (name: Option<String>)
    ensures
        text::maybe_text(name) == object_text(context, hit),
{
    match &hit.object_type {
        Some(kind) => if same_text(kind, "Process") {
            match context.member(hit.object, "ImageFileName") {
                Some(field) => context.as_string(field),
                None => None,
            }
        } else if same_text(kind, "File") {
            context.member_unicode(hit.object, "FileName")
        } else {
            None
        },
        None => None,
    }
}

/// The name of a kernel's type with the table that describes it.
pub open spec fn qualified(context: &Context, kernel: &Module, name: Seq<char>) -> Seq<char> {
    if kernel.table < context.tables@.len() {
        context.tables@[kernel.table as int].name@ + seq!['!'] + name
    } else {
        seq!['!'] + name
    }
}

/// The name of a kernel's type with the table that describes it.
pub fn qualify(context: &Context, kernel: &Module, name: &str) -> (text: String)
    ensures
        text@ == qualified(context, kernel, name@),
{
    let mut text = if kernel.table < context.tables.len() {
        context.tables[kernel.table].name.clone()
    } else {
        String::new()
    };
    text.push('!');
    text.append(name);
    assert(text@ =~= qualified(context, kernel, name@));
    text
}

/// The name of a layer.
pub open spec fn layer_text(context: &Context, layer: usize) -> Seq<char> {
    if layer < context.layers@.len() {
        context.layers@[layer as int].name@
    } else {
        Seq::empty()
    }
}

fn layer_name(context: &Context, layer: usize) -> (name: String)
    ensures
        name@ == layer_text(context, layer),
{
    if layer < context.layers.len() {
        context.layers[layer].name.clone()
    } else {
        String::new()
    }
}

/// The row of a find.
pub open spec fn hit_row(context: &Context, kernel: &Module, hit: &PoolHit) -> Seq<Cell> {
    seq![
        Cell::Text(qualified(context, kernel, hit.structure@)),
        Cell::hex(hit.header.offset),
        Cell::Text(layer_text(context, hit.header.layer)),
        match object_text(context, hit) {
            Some(name) => Cell::Text(name),
            None => Cell::not_applicable(),
        },
    ]
}

fn make_row(context: &Context, kernel: &Module, hit: &PoolHit) -> (row: Row)
    ensures
        row@ == hit_row(context, kernel, hit),
{
    let name = match object_name(context, hit) {
        Some(name) => Value::String(name),
        None => Value::not_applicable(),
    };
    Row::new().with(Value::String(qualify(context, kernel, &hit.structure))).with(
        Value::hex(hit.header.offset),
    ).with(Value::String(layer_name(context, hit.header.layer))).with(name)
}

/// The report on the first of some finds.
pub open spec fn reported(
    context: &Context,
    kernel: &Module,
    headings: Seq<Column>,
    hits: Seq<&PoolHit>,
    count: int,
) -> Table
    decreases count,
{
    if count <= 0 {
        Table::empty(headings)
    } else {
        reported(context, kernel, headings, hits, count - 1).push(
            0,
            hit_row(context, kernel, hits[count - 1]),
        )
    }
}

impl Plugin for PoolScanner {
    open spec fn named(&self) -> Seq<char> {
        "windows.poolscanner.PoolScanner"@
    }

    open spec fn described(&self) -> Seq<char> {
        "A generic pool scanner plugin."@
    }

    open spec fn needs(&self) -> Seq<RequirementView> {
        seq![RequirementView::kernel()]
    }

    open spec fn headings(&self) -> Seq<Column> {
        seq![
            Column::string("Tag"),
            Column::new("Offset", ColumnType::UInt),
            Column::string("Layer"),
            Column::string("Name"),
        ]
    }

    open spec fn system(&self) -> OperatingSystem {
        OperatingSystem::Windows
    }

    open spec fn report(&self, context: &Context, config: &Configuration) -> Result<Table, Failure> {
        match plugins::windows::kernel_of(context, config) {
            Some(kernel) => match symbols::windows::scanned(context, context.windows.builtin@) {
                Some(hits) => Ok(
                    reported(context, &kernel, self.headings(), hits, hits.len() as int),
                ),
                None => Err(Failure::Unavailable),
            },
            None => Err(plugins::windows::no_kernel()),
        }
    }

    fn name(&self) -> (name: &'static str) {
        "windows.poolscanner.PoolScanner"
    }

    fn description(&self) -> (description: &'static str) {
        "A generic pool scanner plugin."
    }

    fn requirements(&self) -> (requirements: Vec<Requirement>) {
        vec![Requirement::kernel()]
    }

    fn operating_system(&self) -> (system: OperatingSystem) {
        OperatingSystem::Windows
    }

    fn columns(&self) -> (columns: Vec<Column>) {
        vec![
            Column::string("Tag"),
            Column::new("Offset", ColumnType::UInt),
            Column::string("Layer"),
            Column::string("Name"),
        ]
    }

    fn epilog(&self) -> (epilog: Option<&'static str>) {
        None
    }

    fn timeline(&self, context: &Context, config: &Configuration) -> (timeline: Option<
        plugins::Timeline,
    >) {
        None
    }

    fn needs_kernel(&self) -> (needed: bool) {
        false
    }

    fn run(&self, context: &Context, config: &Configuration) -> (result: Result<TreeGrid, VolatilityError>) {
        let kernel = kernel_module(context, config)?;
        let hits = match generate_pool_scan(context, &context.windows.builtin) {
            Some(hits) => hits,
            None => return Err(VolatilityError::Unavailable),
        };
        let mut grid = TreeGrid::new(self.columns());
        let ghost headings = self.headings();
        for i in 0..hits.len()
            invariant
                grid@ == reported(context, kernel, headings, hits@, i as int),
        {
            grid.push(0, make_row(context, kernel, hits[i]));
        }
        Ok(grid)
    }
}

} // verus!
