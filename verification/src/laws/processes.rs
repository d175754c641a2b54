//! Laws on the listings of processes: which processes are listed, and what their rows say.

use crate::config::Configuration;
use crate::context::{Context, Module, Object};
use crate::laws::{
    adds, cells_of, flat, lemma_adds_none, lemma_adds_one, lemma_flat_adds, names_of,
};
use crate::plugins::windows::cmdline::CmdLine;
use crate::plugins::windows::pslist::{self, PsList};
use crate::plugins::windows::psscan::{self, PsScan};
use crate::plugins::windows::{chosen, cmdline, kernel_of, passing, selected, standing_at};
use crate::plugins::{pid_list, Plugin};
use crate::renderers::Cell;
use crate::symbols::windows::{listed_processes, scanned_tags, PoolHit};
use crate::time::wintime_cell;
use vstd::prelude::*;

verus! {

/// The number of a process.
pub open spec fn number_of(context: &Context, process: Object) -> Option<u64> {
    context.member_pointer(process, "UniqueProcessId")
}

/// Whether a process is one of those asked for by number: all of them are, where none is
/// asked for.
pub open spec fn is_asked_for(context: &Context, config: &Configuration, process: Object) -> bool {
    match number_of(context, process) {
        Some(pid) => match pid_list(config.lookup("pid"@)) {
            Some(pids) => pids.contains(pid),
            None => true,
        },
        None => false,
    }
}

proof fn lemma_passing(context: &Context, config: &Configuration, processes: Seq<Object>)
    ensures
        passing(context, processes, pid_list(config.lookup("pid"@))) == processes.filter(
            |process: Object| is_asked_for(context, config, process),
        ),
    decreases processes.len(),
{
    reveal(Seq::filter);
    if processes.len() > 0 {
        lemma_passing(context, config, processes.drop_last());
    }
}

/// A listing that can be narrowed to some processes takes those of the kernel's list that
/// are asked for, in order, and no others.
pub proof fn law_only_what_is_asked_for_is_listed(
    context: &Context,
    kernel: &Module,
    config: &Configuration,
    listed: Seq<Object>,
)
    requires
        listed_processes(context, kernel) == Some(listed),
    ensures
        chosen(context, kernel, config) == Some(
            listed.filter(|process: Object| is_asked_for(context, config, process)),
        ),
        config.int_of("offset"@) is None || config.int_of("offset"@) == Some(0i64) ==> selected(
            context,
            kernel,
            config,
        ) == chosen(context, kernel, config),
{
    lemma_passing(context, config, listed);
}

/// Whether an object stands at a place in physical memory. One whose place is not mapped
/// stands where it says.
pub open spec fn is_at(context: &Context, object: Object, place: u64) -> bool {
    match context.translate(object.layer, object.offset) {
        Some(mapped) => mapped == place,
        None => object.offset == place,
    }
}

proof fn lemma_standing(context: &Context, processes: Seq<Object>, place: u64)
    ensures
        standing_at(context, processes, place) == processes.filter(
            |process: Object| is_at(context, process, place),
        ),
    decreases processes.len(),
{
    reveal(Seq::filter);
    if processes.len() > 0 {
        lemma_standing(context, processes.drop_last(), place);
    }
}

/// A process that is asked for by where it stands in physical memory is looked for in the
/// pools.
pub proof fn law_a_process_is_found_by_its_physical_place(
    context: &Context,
    kernel: &Module,
    config: &Configuration,
    found: Seq<Object>,
    place: i64,
)
    requires
        config.int_of("offset"@) == Some(place),
        place != 0,
        psscan::scanned_processes(context) == Some(found),
    ensures
        selected(context, kernel, config) == Some(
            found.filter(|process: Object| is_at(context, process, place as u64)),
        ),
{
    lemma_standing(context, found, place as u64);
}

/// The processes that a scan finds are the kernel objects under the tags `Proc` and its
/// protected form.
pub proof fn law_processes_are_scanned_by_their_tags(context: &Context, hits: Seq<&PoolHit>)
    requires
        scanned_tags(context, seq![0x636f_7250u32, 0xe36f_7250u32]) == Some(hits),
    ensures
        psscan::scanned_processes(context) == Some(hits.map_values(|hit: &PoolHit| hit.object)),
{
}

/// A moment in a member of a process.
pub open spec fn moment_of(context: &Context, process: Object, member: &str) -> Cell {
    match context.member(process, member) {
        Some(time) => match context.member_u64(time, "QuadPart") {
            Some(raw) => wintime_cell(raw),
            None => Cell::unreadable(),
        },
        None => Cell::unreadable(),
    }
}

/// The session of a process. One whose session is null has none.
pub open spec fn session_of(context: &Context, process: Object) -> Cell {
    match context.member_pointer(process, "Session") {
        Some(address) => if address == 0 {
            Cell::not_applicable()
        } else {
            match context.object(
                context.get_type(process.kind.table, "_MM_SESSION_SPACE"),
                process.native,
                address,
            ) {
                Some(space) => match context.member_u64(space, "SessionId") {
                    Some(number) => Cell::integer(number as i64),
                    None => Cell::unreadable(),
                },
                None => Cell::unreadable(),
            }
        },
        None => Cell::unreadable(),
    }
}

/// How many handles a process has.
pub open spec fn handles_of(context: &Context, process: Object) -> Cell {
    match context.member_target(process, "ObjectTable") {
        Some(table) => Cell::integer_or_unreadable(context.member_u64(table, "HandleCount")),
        None => Cell::unreadable(),
    }
}

/// The name of the image a process runs.
pub open spec fn image_of(context: &Context, process: Object) -> Option<Seq<char>> {
    match context.member(process, "ImageFileName") {
        Some(name) => context.string_of(name),
        None => None,
    }
}

/// Whether a process is a 32 bit one on a 64 bit system.
pub open spec fn runs_small(context: &Context, process: Object) -> bool {
    match context.member_u64(process, "Wow64Process") {
        Some(marker) => marker != 0,
        None => match context.member_u64(process, "WoW64Process") {
            Some(marker) => marker != 0,
            None => false,
        },
    }
}

/// Where a process stands in physical memory, or its own address where that is not mapped.
pub open spec fn place_of(context: &Context, process: Object) -> u64 {
    match context.translate(process.layer, process.offset) {
        Some(mapped) => mapped,
        None => process.offset,
    }
}

/// What is told of a process that stands at a place.
#[verifier::opaque]
pub open spec fn told_of(context: &Context, process: Object, place: u64) -> Seq<Cell> {
    seq![
        Cell::integer(number_of(context, process)->0 as i64),
        Cell::integer_or_unreadable(
            context.member_pointer(process, "InheritedFromUniqueProcessId"),
        ),
        Cell::text_or_unreadable(image_of(context, process)),
        Cell::hex(place),
        Cell::integer_or_unreadable(context.member_u64(process, "ActiveThreads")),
        handles_of(context, process),
        session_of(context, process),
        Cell::Bool(runs_small(context, process)),
        moment_of(context, process, "CreateTime"),
        moment_of(context, process, "ExitTime"),
        Cell::Text("Disabled"@),
    ]
}

/// A listing of processes tells of a process what the process itself records.
pub proof fn lemma_told(context: &Context, process: Object, place: u64)
    requires
        number_of(context, process) is Some,
    ensures
        pslist::process_cells(
            context,
            process,
            number_of(context, process)->0,
            place,
            Cell::Text("Disabled"@),
        ) == told_of(context, process, place),
{
    reveal(told_of);
}


/// The rows of the processes that are asked for, each at its own address.
pub open spec fn rows_of_listed_processes_are_reported(
    context: &Context,
    config: &Configuration,
    listed: Seq<Object>,
) -> spec_fn(int) -> Seq<Seq<Cell>> {
    |k: int|
        if is_asked_for(context, config, listed[k]) {
            seq![told_of(context, listed[k], listed[k].offset)]
        } else {
            Seq::empty()
        }
}

/// The kernel's list of processes is reported in its order: those that are asked for, each
/// with what the process itself records.
pub proof fn law_listed_processes_are_reported(
    context: &Context,
    config: &Configuration,
    kernel: Module,
    listed: Seq<Object>,
)
    requires
        kernel_of(context, config) == Some(kernel),
        listed_processes(context, &kernel) == Some(listed),
        !config.flag("dump"@),
        !config.flag("physical"@),
    ensures
        PsList.report(context, config) is Ok,
        names_of(PsList.report(context, config)->Ok_0.columns) == seq![
            "PID"@,
            "PPID"@,
            "ImageFileName"@,
            "Offset(V)"@,
            "Threads"@,
            "Handles"@,
            "SessionId"@,
            "Wow64"@,
            "CreateTime"@,
            "ExitTime"@,
            "File output"@,
        ],
        cells_of(PsList.report(context, config)->Ok_0) == flat(
            rows_of_listed_processes_are_reported(context, config, listed),
            listed.len() as int,
        ),
{
    let steps = |k: int| pslist::reported(context, config, listed, k);
    let rows = rows_of_listed_processes_are_reported(context, config, listed);
    assert forall|k: int| 0 <= k < listed.len() implies adds(
        steps(k),
        steps(k + 1),
        #[trigger] rows(k),
    ) by {
        lemma_adds_none(steps(k));
        if is_asked_for(context, config, listed[k]) {
            lemma_told(context, listed[k], listed[k].offset);
        }
        lemma_adds_one(steps(k), 0, told_of(context, listed[k], listed[k].offset));
    }
    lemma_flat_adds(steps, rows, listed.len() as int);
}

/// The rows of the processes that are asked for, each where its address leads.
pub open spec fn rows_of_listed_processes_stand_where_they_are_mapped(
    context: &Context,
    config: &Configuration,
    listed: Seq<Object>,
) -> spec_fn(int) -> Seq<Seq<Cell>> {
    |k: int|
        if is_asked_for(context, config, listed[k]) {
            seq![told_of(context, listed[k], place_of(context, listed[k]))]
        } else {
            Seq::empty()
        }
}

/// With physical addresses asked for, the place of a process is where its address leads.
pub proof fn law_listed_processes_stand_where_they_are_mapped(
    context: &Context,
    config: &Configuration,
    kernel: Module,
    listed: Seq<Object>,
)
    requires
        kernel_of(context, config) == Some(kernel),
        listed_processes(context, &kernel) == Some(listed),
        !config.flag("dump"@),
        config.flag("physical"@),
    ensures
        PsList.report(context, config) is Ok,
        names_of(PsList.report(context, config)->Ok_0.columns) == seq![
            "PID"@,
            "PPID"@,
            "ImageFileName"@,
            "Offset(P)"@,
            "Threads"@,
            "Handles"@,
            "SessionId"@,
            "Wow64"@,
            "CreateTime"@,
            "ExitTime"@,
            "File output"@,
        ],
        cells_of(PsList.report(context, config)->Ok_0) == flat(
            rows_of_listed_processes_stand_where_they_are_mapped(context, config, listed),
            listed.len() as int,
        ),
{
    let steps = |k: int| pslist::reported(context, config, listed, k);
    let rows = rows_of_listed_processes_stand_where_they_are_mapped(context, config, listed);
    assert forall|k: int| 0 <= k < listed.len() implies adds(
        steps(k),
        steps(k + 1),
        #[trigger] rows(k),
    ) by {
        lemma_adds_none(steps(k));
        if is_asked_for(context, config, listed[k]) {
            lemma_told(context, listed[k], place_of(context, listed[k]));
        }
        lemma_adds_one(steps(k), 0, told_of(context, listed[k], place_of(context, listed[k])));
    }
    lemma_flat_adds(steps, rows, listed.len() as int);
}

/// The rows of the processes that are asked for, of those the pools hold.
pub open spec fn rows_of_scanned_processes_are_reported(
    context: &Context,
    config: &Configuration,
    found: Seq<Object>,
) -> spec_fn(int) -> Seq<Seq<Cell>> {
    |k: int|
        if is_asked_for(context, config, found[k]) {
            seq![told_of(context, found[k], found[k].offset)]
        } else {
            Seq::empty()
        }
}

/// The processes that the pools hold are reported in the order they are found: those that
/// are asked for.
pub proof fn law_scanned_processes_are_reported(
    context: &Context,
    config: &Configuration,
    kernel: Module,
    found: Seq<Object>,
)
    requires
        kernel_of(context, config) == Some(kernel),
        psscan::scanned_processes(context) == Some(found),
        !config.flag("dump"@),
    ensures
        PsScan.report(context, config) is Ok,
        names_of(PsScan.report(context, config)->Ok_0.columns) == seq![
            "PID"@,
            "PPID"@,
            "ImageFileName"@,
            "Offset(V)"@,
            "Threads"@,
            "Handles"@,
            "SessionId"@,
            "Wow64"@,
            "CreateTime"@,
            "ExitTime"@,
            "File output"@,
        ],
        cells_of(PsScan.report(context, config)->Ok_0) == flat(
            rows_of_scanned_processes_are_reported(context, config, found),
            found.len() as int,
        ),
{
    let steps = |k: int| psscan::reported(context, config, found, k);
    let rows = rows_of_scanned_processes_are_reported(context, config, found);
    assert forall|k: int| 0 <= k < found.len() implies adds(
        steps(k),
        steps(k + 1),
        #[trigger] rows(k),
    ) by {
        lemma_adds_none(steps(k));
        if is_asked_for(context, config, found[k]) {
            lemma_told(context, found[k], found[k].offset);
        }
        lemma_adds_one(steps(k), 0, told_of(context, found[k], found[k].offset));
    }
    lemma_flat_adds(steps, rows, found.len() as int);
}


/// The environment block of a process, in the layer of its own memory.
pub open spec fn peb_of(context: &Context, process: Object, layer: usize) -> Option<Object> {
    match context.member_pointer(process, "Peb") {
        Some(address) => context.object(
            context.get_type(process.kind.table, "_PEB"),
            layer,
            address,
        ),
        None => None,
    }
}

/// A text among the parameters a process was started with.
pub open spec fn parameter_text(
    context: &Context,
    config: &Configuration,
    process: Object,
    name: &str,
) -> Cell {
    match context.layer_of(process, config.text_or("physical_layer"@, "base"@)) {
        Some(layer) => match peb_of(context, process, layer) {
            Some(peb) => match context.member_target(peb, "ProcessParameters") {
                Some(parameters) => Cell::text_or_unreadable(
                    context.member_unicode_of(parameters, name),
                ),
                None => Cell::unreadable(),
            },
            None => Cell::unreadable(),
        },
        None => Cell::unreadable(),
    }
}

/// What is told of the command line of a process.
pub open spec fn command_of(context: &Context, config: &Configuration, process: Object) -> Seq<
    Cell,
> {
    seq![
        Cell::uint(number_of(context, process)->0),
        Cell::text_or_unreadable(image_of(context, process)),
        parameter_text(context, config, process, "CommandLine"),
    ]
}

/// The rows of the processes whose number can be read.
pub open spec fn rows_of_command_lines_are_reported(
    context: &Context,
    config: &Configuration,
    processes: Seq<Object>,
) -> spec_fn(int) -> Seq<Seq<Cell>> {
    |k: int|
        if number_of(context, processes[k]) is Some {
            seq![command_of(context, config, processes[k])]
        } else {
            Seq::empty()
        }
}

/// The command line of each process that is asked for is reported.
pub proof fn law_command_lines_are_reported(
    context: &Context,
    config: &Configuration,
    kernel: Module,
    processes: Seq<Object>,
)
    requires
        kernel_of(context, config) == Some(kernel),
        chosen(context, &kernel, config) == Some(processes),
    ensures
        CmdLine.report(context, config) is Ok,
        names_of(
            CmdLine.report(context, config)->Ok_0.columns,
        ) == seq!["PID"@, "Process"@, "Args"@],
        cells_of(CmdLine.report(context, config)->Ok_0) == flat(
            rows_of_command_lines_are_reported(context, config, processes),
            processes.len() as int,
        ),
{
    let steps = |k: int| cmdline::reported(
        context,
        config.text_or("physical_layer"@, "base"@),
        CmdLine.headings(),
        processes,
        k,
    );
    let rows = rows_of_command_lines_are_reported(context, config, processes);
    assert forall|k: int| 0 <= k < processes.len() implies adds(
        steps(k),
        steps(k + 1),
        #[trigger] rows(k),
    ) by {
        lemma_adds_none(steps(k));
        lemma_adds_one(steps(k), 0, command_of(context, config, processes[k]));
    }
    lemma_flat_adds(steps, rows, processes.len() as int);
}


} // verus!
