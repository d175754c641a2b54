//! Find processes by scanning the kernel's pools.

use crate::config::{ConfigValue, Configuration};
use crate::context::{Context, Object};
use crate::error::{Failure, VolatilityError};
use crate::plugins::{
    self, pid_filter, pid_matches, ConfigView, KindView, OperatingSystem, Plugin, Requirement,
    RequirementKind, RequirementView, Timeline,
};
use crate::plugins::windows::{kernel_module, physical_layer};
use crate::plugins::windows::pslist::{dump_process_image, process_columns, process_row};
use crate::renderers::{Column, Table, TreeGrid, Value};
use crate::symbols;
use crate::symbols::windows::scan_for_tags;
use vstd::prelude::*;

verus! {

/// Finds processes by scanning the kernel's pools.
pub struct PsScan;

/// The pool tag the kernel allocates process structures under: `Proc`.
pub const PROCESS_TAG: u32 = 0x636f7250;

/// The same tag with the high bit of its last byte set.
pub const PROTECTED_PROCESS_TAG: u32 = 0xe36f7250;

/// The objects of pool allocations.
pub open spec fn objects_of(hits: Seq<&crate::symbols::windows::PoolHit>) -> Seq<Object> {
    Seq::new(hits.len(), |i: int| hits[i].object)
}

/// The processes the pools hold.
pub open spec fn scanned_processes(context: &Context) -> Option<Seq<Object>> {
    match symbols::windows::scanned_tags(context, seq![PROCESS_TAG, PROTECTED_PROCESS_TAG]) {
        Some(hits) => Some(objects_of(hits)),
        None => None,
    }
}

/// The objects that the pools hold under some tags.
pub fn scan_objects(context: &Context, tags: &[u32]) -> (found: Result<
    Vec<Object>,
    VolatilityError,
>)
    ensures
        match found {
            Ok(objects) => symbols::windows::scanned_tags(context, tags@) is Some
                && objects@ == objects_of(
                symbols::windows::scanned_tags(context, tags@)->0,
            ),
            Err(error) => symbols::windows::scanned_tags(context, tags@) is None && error@
                == Failure::Unavailable,
        },
{
    match scan_for_tags(context, tags) {
        Some(hits) => {
            let mut objects: Vec<Object> = Vec::new();
            for i in 0..hits.len()
                invariant
                    objects@ == objects_of(hits@).take(i as int),
            {
                objects.push(hits[i].object);
            }
            assert(objects@ =~= objects_of(hits@));
            Ok(objects)
        },
        None => Err(VolatilityError::Unavailable),
    }
}

/// The processes the pools still hold, whether or not the kernel still lists
/// them.
pub fn scan_processes(context: &Context) -> (found: Result<Vec<Object>, VolatilityError>)
    ensures
        match found {
            Ok(processes) => scanned_processes(context) == Some(processes@),
            Err(error) => scanned_processes(context) is None && error@
                == Failure::Unavailable,
        },
{
    let tags: [u32; 2] = [PROCESS_TAG, PROTECTED_PROCESS_TAG];
    assert(tags@ =~= seq![PROCESS_TAG, PROTECTED_PROCESS_TAG]);
    scan_objects(context, &tags)
}

/// The report once some of the processes are in it.
pub open spec fn reported(
    context: &Context,
    config: &Configuration,
    processes: Seq<Object>,
    count: int,
) -> Table
    decreases count,
{
    if count <= 0 {
        Table::empty(plugins::windows::pslist::process_headings(false))
    } else {
        let table = reported(context, config, processes, count - 1);
        let process = processes[count - 1];
        match context.pid(process) {
            Some(pid) if plugins::passes(
                plugins::pid_list(config.lookup("pid"@)),
                pid,
            ) => plugins::windows::pslist::with_process(
                context,
                config,
                table,
                process,
                pid,
                process.offset,
                true,
            ),
            _ => table,
        }
    }
}

impl Plugin for PsScan {
    open spec fn named(&self) -> Seq<char> {
        "windows.psscan.PsScan"@
    }

    open spec fn described(&self) -> Seq<char> {
        "Scans for processes present in a particular windows memory image."@
    }

    open spec fn needs(&self) -> Seq<RequirementView> {
        seq![
            RequirementView::kernel(),
            RequirementView::pid_filter(
                "Process ID to include (all other processes are excluded)"@,
            ),
            RequirementView::new(
                "dump"@,
                "Extract listed processes"@,
                KindView::Bool,
            ).with_default(ConfigView::Bool(false)),
            RequirementView::new(
                "physical"@,
                "Display physical offset instead of virtual"@,
                KindView::Bool,
            ).with_default(ConfigView::Bool(true)),
        ]
    }

    open spec fn headings(&self) -> Seq<Column> {
        plugins::windows::pslist::process_headings(false)
    }

    open spec fn system(&self) -> OperatingSystem {
        OperatingSystem::Windows
    }

    open spec fn report(&self, context: &Context, config: &Configuration) -> Result<
        Table,
        Failure,
    > {
        match plugins::windows::kernel_of(context, config) {
            Some(_) => match scanned_processes(context) {
                Some(processes) => Ok(
                    reported(context, config, processes, processes.len() as int),
                ),
                None => Err(Failure::Unavailable),
            },
            None => Err(plugins::windows::no_kernel()),
        }
    }

    open spec fn moments(&self, context: &Context, config: &Configuration) -> Option<plugins::TimelineView> {
        plugins::windows::pslist::report_moments(self.report(context, config))
    }

    fn name(&self) -> (name: &'static str) {
        "windows.psscan.PsScan"
    }

    fn description(&self) -> (description: &'static str) {
        "Scans for processes present in a particular windows memory image."
    }

    fn requirements(&self) -> (requirements: Vec<Requirement>) {
        vec![
            Requirement::kernel(),
            Requirement::pid_filter("Process ID to include (all other processes are excluded)"),
            Requirement::new(
                "dump",
                "Extract listed processes",
                RequirementKind::Bool,
            ).with_default(ConfigValue::Bool(false)),
            Requirement::new(
                "physical",
                "Display physical offset instead of virtual",
                RequirementKind::Bool,
            ).with_default(ConfigValue::Bool(true)),
        ]
    }

    fn operating_system(&self) -> (system: OperatingSystem) {
        OperatingSystem::Windows
    }

    fn columns(&self) -> (columns: Vec<Column>) {
        // The objects come out of whichever layer was scanned, and on a modern
        // kernel that is the kernel's own, so the offsets are virtual.
        process_columns(false)
    }

    fn timeline(&self, context: &Context, config: &Configuration) -> (timeline: Option<Timeline>) {
        match self.run(context, config) {
            Ok(grid) => Some(plugins::windows::pslist::process_timeline(&grid)),
            Err(_) => None,
        }
    }

#[verifier::rlimit(30)]
    fn epilog(&self) -> (epilog: Option<&'static str>) {
        None
    }

    fn needs_kernel(&self) -> (needed: bool) {
        false
    }

    fn run(&self, context: &Context, config: &Configuration) -> (result: Result<
        TreeGrid,
        VolatilityError,
    >) {
        let _kernel = match kernel_module(context, config) {
            Ok(kernel) => kernel,
            Err(error) => return Err(error),
        };
        let filter = pid_filter(config);
        let physical = physical_layer(config);
        let dump = config.is_set("dump");
        let processes = match scan_processes(context) {
            Ok(processes) => processes,
            Err(error) => return Err(error),
        };
        let mut grid = TreeGrid::new(self.columns());
        for i in 0..processes.len()
            invariant
                grid@ == reported(context, config, processes@, i as int),
                plugins::filter_view(filter) == plugins::pid_list(
                    config.lookup("pid"@),
                ),
                physical@ == plugins::windows::physical_name(config),
                dump == config.flag("dump"@),
        {
            let process = processes[i];
            if let Some(pid) = context.pid(process) {
                if pid_matches(&filter, pid) {
                    let file_output = if dump {
                        // This listing names the file as it opens it, so two
                        // processes sharing an image both report the same name
                        // even though the second is written beside the first.
                        match dump_process_image(context, &physical, process, pid, &mut grid) {
                            Some((preferred, _)) => Value::String(preferred),
                            None => Value::string("Error outputting file"),
                        }
                    } else {
                        Value::string("Disabled")
                    };
                    grid.push(0, process_row(context, process, pid, process.offset, file_output));
                }
            }
        }
        Ok(grid)
    }
}

} // verus!
