//! List the file systems that are mounted.

use crate::config::Configuration;
use crate::context::{Context, Object};
use crate::error::{Failure, VolatilityError};
use crate::plugins::{self, OperatingSystem, Plugin, Requirement, RequirementView};
use crate::plugins::mac::kernel_module;
use crate::renderers::{Cell, Column, Row, Table, TreeGrid, Value};
use crate::symbols;
use crate::symbols::mac::{list_mounts, read_mount_text};
use vstd::prelude::*;

verus! {

/// Lists the file systems that are mounted.
pub struct Mount;

/// The row of a mounted file system. The Device column shows where it is mounted
/// and the Mount Point column what is mounted there.
pub open spec fn mount_row(context: &Context, mount: Object) -> Seq<Cell> {
    seq![
        Cell::text_or_unreadable(symbols::mac::mount_text(context, mount, "f_mntonname")),
        Cell::text_or_unreadable(symbols::mac::mount_text(context, mount, "f_mntfromname")),
        Cell::text_or_unreadable(symbols::mac::mount_text(context, mount, "f_fstypename")),
    ]
}

fn make_row(context: &Context, mount: Object) -> (row: Row)
    ensures
        row@ == mount_row(context, mount),
{
    Row::new().with(
        Value::text_or_unreadable(&read_mount_text(context, mount, "f_mntonname")),
    ).with(Value::text_or_unreadable(&read_mount_text(context, mount, "f_mntfromname"))).with(
        Value::text_or_unreadable(&read_mount_text(context, mount, "f_fstypename")),
    )
}

/// The report on the first of some file systems.
pub open spec fn reported(
    context: &Context,
    headings: Seq<Column>,
    list: Seq<Object>,
    count: int,
) -> Table
    decreases count,
{
    if count <= 0 {
        Table::empty(headings)
    } else {
        reported(context, headings, list, count - 1).push(
            0,
            mount_row(context, list[count - 1]),
        )
    }
}

impl Plugin for Mount {
    open spec fn named(&self) -> Seq<char> {
        "mac.mount.Mount"@
    }

    open spec fn described(&self) -> Seq<char> {
        "A module containing a collection of plugins that produce data typically found in Mac's mount command"@
    }

    open spec fn needs(&self) -> Seq<RequirementView> {
        seq![RequirementView::kernel()]
    }

    open spec fn headings(&self) -> Seq<Column> {
        seq![
            Column::string("Device"),
            Column::string("Mount Point"),
            Column::string("Type"),
        ]
    }

    open spec fn system(&self) -> OperatingSystem {
        OperatingSystem::Mac
    }

    open spec fn report(&self, context: &Context, config: &Configuration) -> Result<Table, Failure> {
        match plugins::mac::kernel_of(context, config) {
            Some(kernel) => match symbols::mac::mounts(context, &kernel) {
                Some(list) => Ok(reported(context, self.headings(), list, list.len() as int)),
                None => Err(Failure::Unavailable),
            },
            None => Err(plugins::mac::no_kernel()),
        }
    }

    fn name(&self) -> (name: &'static str) {
        "mac.mount.Mount"
    }

    fn description(&self) -> (description: &'static str) {
        "A module containing a collection of plugins that produce data typically found in Mac's mount command"
    }

    fn requirements(&self) -> (requirements: Vec<Requirement>) {
        vec![Requirement::kernel()]
    }

    fn operating_system(&self) -> (system: OperatingSystem) {
        OperatingSystem::Mac
    }

    fn columns(&self) -> (columns: Vec<Column>) {
        vec![
            Column::string("Device"),
            Column::string("Mount Point"),
            Column::string("Type"),
        ]
    }

    fn epilog(&self) -> (epilog: Option<&'static str>) {
        None
    }

    fn timeline(&self, context: &Context, config: &Configuration) -> (timeline: Option<
        plugins::Timeline,
    >) {
        None
    }

    fn needs_kernel(&self) -> (needed: bool) {
        false
    }

    fn run(&self, context: &Context, config: &Configuration) -> (result: Result<TreeGrid, VolatilityError>) {
        let kernel = kernel_module(context, config)?;
        let list = match list_mounts(context, kernel) {
            Some(list) => list,
            None => return Err(VolatilityError::Unavailable),
        };
        let mut grid = TreeGrid::new(self.columns());
        let ghost headings = self.headings();
        for i in 0..list.len()
            invariant
                grid@ == reported(context, headings, list@, i as int),
        {
            grid.push(0, make_row(context, list[i]));
        }
        Ok(grid)
    }
}

} // verus!
