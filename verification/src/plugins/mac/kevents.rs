//! List the kernel events each process is waiting on.
//!
//! A registration says what a process wants to be told about: a file changing, a
//! process exiting, a signal arriving. Malware uses them to react to defensive
//! tooling starting or stopping.

use crate::config::Configuration;
use crate::context::{Context, Module, Object, TypeId};
use crate::error::{Failure, VolatilityError};
use crate::plugins::{self, OperatingSystem, Plugin, Requirement, RequirementView};
use crate::plugins::mac::{chosen_processes, kernel_module};
use crate::renderers::{Cell, Column, Row, Table, TreeGrid, Value};
use crate::symbols;
use crate::symbols::mac::walk_slist;
use crate::text::{self, join, push_text};
use vstd::prelude::*;

verus! {

/// Lists the kernel events each process is waiting on.
pub struct Kevents;

/// The filter a registration selects, named by the kernel's own numbering.
pub open spec fn filter_name(filter: i64) -> Option<Seq<char>> {
    if filter == 1 {
        Some("EVFILT_READ"@)
    } else if filter == 2 {
        Some("EVFILT_WRITE"@)
    } else if filter == 3 {
        Some("EVFILT_AIO"@)
    } else if filter == 4 {
        Some("EVFILT_VNODE"@)
    } else if filter == 5 {
        Some("EVFILT_PROC"@)
    } else if filter == 6 {
        Some("EVFILT_SIGNAL"@)
    } else if filter == 7 {
        Some("EVFILT_TIMER"@)
    } else if filter == 8 {
        Some("EVFILT_MACHPORT"@)
    } else if filter == 9 {
        Some("EVFILT_FS"@)
    } else if filter == 10 {
        Some("EVFILT_USER"@)
    } else if filter == 12 {
        Some("EVFILT_VM"@)
    } else {
        None
    }
}

/// The filter a registration selects.
pub fn name_filter(filter: i64) -> (name: Option<&'static str>)
    ensures
        match name {
            Some(name) => filter_name(filter) == Some(name@),
            None => filter_name(filter) is None,
        },
{
    if filter == 1 {
        Some("EVFILT_READ")
    } else if filter == 2 {
        Some("EVFILT_WRITE")
    } else if filter == 3 {
        Some("EVFILT_AIO")
    } else if filter == 4 {
        Some("EVFILT_VNODE")
    } else if filter == 5 {
        Some("EVFILT_PROC")
    } else if filter == 6 {
        Some("EVFILT_SIGNAL")
    } else if filter == 7 {
        Some("EVFILT_TIMER")
    } else if filter == 8 {
        Some("EVFILT_MACHPORT")
    } else if filter == 9 {
        Some("EVFILT_FS")
    } else if filter == 10 {
        Some("EVFILT_USER")
    } else if filter == 12 {
        Some("EVFILT_VM")
    } else {
        None
    }
}

/// What a registration on a file asked to hear about.
pub open spec fn vnode_flags() -> Seq<(&'static str, u64)> {
    seq![
        ("NOTE_DELETE", 1u64),
        ("NOTE_WRITE", 2u64),
        ("NOTE_EXTEND", 4u64),
        ("NOTE_ATTRIB", 8u64),
        ("NOTE_LINK", 0x10u64),
        ("NOTE_RENAME", 0x20u64),
        ("NOTE_REVOKE", 0x40u64),
    ]
}

fn vnode_list() -> (list: Vec<(&'static str, u64)>)
    ensures
        list@ == vnode_flags(),
{
    vec![
        ("NOTE_DELETE", 1u64),
        ("NOTE_WRITE", 2u64),
        ("NOTE_EXTEND", 4u64),
        ("NOTE_ATTRIB", 8u64),
        ("NOTE_LINK", 0x10u64),
        ("NOTE_RENAME", 0x20u64),
        ("NOTE_REVOKE", 0x40u64),
    ]
}

/// What a registration on a process asked to hear about.
pub open spec fn process_flags() -> Seq<(&'static str, u64)> {
    seq![
        ("NOTE_EXIT", 0x8000_0000u64),
        ("NOTE_EXITSTATUS", 0x0400_0000u64),
        ("NOTE_FORK", 0x4000_0000u64),
        ("NOTE_EXEC", 0x2000_0000u64),
        ("NOTE_SIGNAL", 0x0800_0000u64),
        ("NOTE_REAP", 0x1000_0000u64),
    ]
}

fn process_list() -> (list: Vec<(&'static str, u64)>)
    ensures
        list@ == process_flags(),
{
    vec![
        ("NOTE_EXIT", 0x8000_0000u64),
        ("NOTE_EXITSTATUS", 0x0400_0000u64),
        ("NOTE_FORK", 0x4000_0000u64),
        ("NOTE_EXEC", 0x2000_0000u64),
        ("NOTE_SIGNAL", 0x0800_0000u64),
        ("NOTE_REAP", 0x1000_0000u64),
    ]
}

/// The unit a timer registration is counted in.
pub open spec fn timer_flags() -> Seq<(&'static str, u64)> {
    seq![
        ("NOTE_SECONDS", 1u64),
        ("NOTE_USECONDS", 2u64),
        ("NOTE_NSECONDS", 4u64),
        ("NOTE_ABSOLUTE", 8u64),
    ]
}

fn timer_list() -> (list: Vec<(&'static str, u64)>)
    ensures
        list@ == timer_flags(),
{
    vec![
        ("NOTE_SECONDS", 1u64),
        ("NOTE_USECONDS", 2u64),
        ("NOTE_NSECONDS", 4u64),
        ("NOTE_ABSOLUTE", 8u64),
    ]
}

/// The names among the first of some flags that are all set.
pub open spec fn set_flags(list: Seq<(&'static str, u64)>, flags: u64, count: int) -> Seq<Seq<char>>
    decreases count,
{
    if count <= 0 {
        Seq::empty()
    } else {
        let before = set_flags(list, flags, count - 1);
        if flags & list[count - 1].1 == list[count - 1].1 {
            before.push(list[count - 1].0@)
        } else {
            before
        }
    }
}

/// The flags a registration carries, for the filters that have any.
pub open spec fn flags_text(filter: i64, flags: u64) -> Seq<char> {
    let list = if filter == 4 {
        vnode_flags()
    } else if filter == 5 {
        process_flags()
    } else if filter == 7 {
        timer_flags()
    } else {
        Seq::empty()
    };
    if flags == 0 {
        Seq::empty()
    } else {
        text::joined(set_flags(list, flags, list.len() as int), ","@)
    }
}

/// Name the flags a registration carries, for the filters that have any.
pub fn parse_flags(filter: i64, flags: u64) -> (text: String)
    ensures
        text@ == flags_text(filter, flags),
{
    if flags == 0 {
        return String::new();
    }
    let list = if filter == 4 {
        vnode_list()
    } else if filter == 5 {
        process_list()
    } else if filter == 7 {
        timer_list()
    } else {
        Vec::new()
    };
    let mut names: Vec<String> = Vec::new();
    assert(text::texts(names@) =~= Seq::<Seq<char>>::empty());
    for i in 0..list.len()
        invariant
            text::texts(names@) == set_flags(list@, flags, i as int),
    {
        let (name, bits) = list[i];
        if flags & bits == bits {
            push_text(&mut names, name.to_owned());
        }
    }
    join(&names, ",")
}

/// A table of lists of registrations: the type of a list, its size and where the
/// first stands. The address is shifted by where the kernel sits.
pub struct ListTable {
    pub kind: TypeId,
    pub size: u64,
    pub first: u64,
    pub count: u64,
}

pub open spec fn spec_find_table(
    context: &Context,
    kernel: &Module,
    descriptors: Object,
    table: &str,
    size: &str,
) -> Option<ListTable> {
    match (
        context.member_pointer(descriptors, table),
        context.member_u64(descriptors, size),
        context.get_type(kernel.table, "klist"),
    ) {
        (Some(place), Some(highest), Some(kind)) => match context.size_of(kind) {
            Some(size) => Some(
                ListTable {
                    kind,
                    size,
                    first: place.wrapping_add(kernel.offset),
                    count: highest.wrapping_add(1),
                },
            ),
            None => None,
        },
        _ => None,
    }
}

/// Find a table of lists of registrations.
#[verifier::when_used_as_spec(spec_find_table)]
pub fn find_table(
    context: &Context,
    kernel: &Module,
    descriptors: Object,
    table: &str,
    size: &str,
) -> (found: Option<ListTable>)
    ensures
        found == spec_find_table(context, kernel, descriptors, table, size),
{
    match (
        context.member_pointer(descriptors, table),
        context.member_u64(descriptors, size),
        context.get_type(kernel.table, "klist"),
    ) {
        (Some(place), Some(highest), Some(kind)) => match context.size_of(kind) {
            Some(size) => Some(
                ListTable {
                    kind,
                    size,
                    first: place.wrapping_add(kernel.offset),
                    count: highest.wrapping_add(1),
                },
            ),
            None => None,
        },
        _ => None,
    }
}

/// The registrations on the first lists of a table.
pub open spec fn table_notes(context: &Context, kernel: &Module, table: ListTable, count: int) -> Seq<
    Object,
>
    decreases count,
{
    if count <= 0 {
        Seq::empty()
    } else {
        table_notes(context, kernel, table, count - 1) + symbols::mac::single_list(
            context,
            Object {
                kind: table.kind,
                layer: kernel.layer,
                native: kernel.layer,
                offset: table.first.wrapping_add(
                    ((count - 1) as u64).wrapping_mul(table.size),
                ),
            },
            context.get_type(kernel.table, "knote"),
            "kn_link",
        )
    }
}

/// The registrations on a table of lists, or none.
pub open spec fn array_notes(
    context: &Context,
    kernel: &Module,
    descriptors: Object,
    table: &'static str,
    size: &'static str,
) -> Seq<Object> {
    match find_table(context, kernel, descriptors, table, size) {
        Some(table) => table_notes(context, kernel, table, table.count as int),
        None => Seq::empty(),
    }
}

/// Walk a table of registration lists, giving every registration on it.
pub fn walk_klist_array(
    context: &Context,
    kernel: &Module,
    descriptors: Object,
    table: &'static str,
    size: &'static str,
) -> (notes: Vec<Object>)
    ensures
        notes@ == array_notes(context, kernel, descriptors, table, size),
{
    let mut notes: Vec<Object> = Vec::new();
    if let Some(table) = find_table(context, kernel, descriptors, table, size) {
        for at in 0..table.count
            invariant
                notes@ == table_notes(context, kernel, table, at as int),
        {
            let list = Object {
                kind: table.kind,
                layer: kernel.layer,
                native: kernel.layer,
                offset: table.first.wrapping_add(at.wrapping_mul(table.size)),
            };
            let mut more = walk_slist(
                context,
                list,
                context.get_type(kernel.table, "knote"),
                "kn_link",
            );
            notes.append(&mut more);
        }
    }
    notes
}

/// The registrations of a process. Those on files sit in a table indexed by
/// descriptor, those on everything else in a hash beside it, and those on the
/// process itself on a list of its own.
pub open spec fn process_notes(context: &Context, kernel: &Module, process: Object) -> Seq<Object> {
    let described = match context.member_target(process, "p_fd") {
        Some(descriptors) => array_notes(
            context,
            kernel,
            descriptors,
            "fd_knlist",
            "fd_knlistsize",
        ) + array_notes(context, kernel, descriptors, "fd_knhash", "fd_knhashmask"),
        None => Seq::empty(),
    };
    match context.member(process, "p_klist") {
        Some(list) => described + symbols::mac::single_list(
            context,
            list,
            context.get_type(kernel.table, "knote"),
            "kn_link",
        ),
        None => described,
    }
}

fn list_notes(context: &Context, kernel: &Module, process: Object) -> (notes: Vec<Object>)
    ensures
        notes@ == process_notes(context, kernel, process),
{
    let mut notes = match context.member_target(process, "p_fd") {
        Some(descriptors) => {
            let mut notes = walk_klist_array(
                context,
                kernel,
                descriptors,
                "fd_knlist",
                "fd_knlistsize",
            );
            let mut more = walk_klist_array(
                context,
                kernel,
                descriptors,
                "fd_knhash",
                "fd_knhashmask",
            );
            notes.append(&mut more);
            notes
        },
        None => Vec::new(),
    };
    if let Some(list) = context.member(process, "p_klist") {
        let mut more = walk_slist(
            context,
            list,
            context.get_type(kernel.table, "knote"),
            "kn_link",
        );
        notes.append(&mut more);
    }
    notes
}

pub open spec fn spec_filter_of(context: &Context, event: Object) -> i64 {
    match context.member_i64(event, "filter") {
        Some(filter) => if filter == i64::MIN {
            filter
        } else {
            (0 - filter) as i64
        },
        None => 0,
    }
}

/// The filter that a registration selects, which is recorded as a negative number.
#[verifier::when_used_as_spec(spec_filter_of)]
pub fn filter_of(context: &Context, event: Object) -> (filter: i64)
    ensures
        filter == spec_filter_of(context, event),
{
    match context.member_i64(event, "filter") {
        Some(filter) => if filter == i64::MIN {
            filter
        } else {
            0 - filter
        },
        None => 0,
    }
}

pub open spec fn spec_flags_of(context: &Context, note: Object) -> u64 {
    match context.member_u64(note, "kn_sfflags") {
        Some(flags) => flags,
        None => 0,
    }
}

/// The flags that a registration carries.
#[verifier::when_used_as_spec(spec_flags_of)]
pub fn flags_of(context: &Context, note: Object) -> (flags: u64)
    ensures
        flags == spec_flags_of(context, note),
{
    match context.member_u64(note, "kn_sfflags") {
        Some(flags) => flags,
        None => 0,
    }
}

/// The row of a registration. The identifier is whatever the filter watches: a file
/// descriptor, a process, a signal number, and it is counted rather than signed.
pub open spec fn event_row(
    context: &Context,
    process: Object,
    pid: u64,
    note: Object,
    name: Seq<char>,
    filter: i64,
    identifier: u64,
) -> Seq<Cell> {
    seq![
        Cell::integer(pid as i64),
        Cell::Text(context.mac_name_or_empty(process)),
        Cell::uint(identifier),
        Cell::Text(name),
        Cell::Text(flags_text(filter, flags_of(context, note))),
    ]
}

/// The row of a registration, unless the kernel has no name for its filter or it
/// cannot be read.
pub open spec fn note_row(context: &Context, process: Object, pid: u64, note: Object) -> Option<
    Seq<Cell>,
> {
    match context.member(note, "kn_kevent") {
        Some(event) => match (
            filter_name(filter_of(context, event)),
            context.member_u64(event, "ident"),
        ) {
            (Some(name), Some(identifier)) => Some(
                event_row(
                    context,
                    process,
                    pid,
                    note,
                    name,
                    filter_of(context, event),
                    identifier,
                ),
            ),
            _ => None,
        },
        None => None,
    }
}

fn make_row(context: &Context, process: Object, pid: u64, note: Object) -> (row: Option<Row>)
    ensures
        match row {
            Some(row) => note_row(context, process, pid, note) == Some(row@),
            None => note_row(context, process, pid, note) is None,
        },
{
    match context.member(note, "kn_kevent") {
        Some(event) => {
            let filter: i64 = filter_of(context, event);
            match (name_filter(filter), context.member_u64(event, "ident")) {
                (Some(name), Some(identifier)) => {
                    let row = Row::new().with(Value::integer(pid as i64)).with(
                        Value::String(context.mac_name_or_none(process)),
                    ).with(Value::uint(identifier)).with(Value::string(name)).with(
                        Value::String(parse_flags(filter, flags_of(context, note))),
                    );
                    assert(row@ == event_row(
                        context,
                        process,
                        pid,
                        note,
                        name@,
                        filter,
                        identifier,
                    ));
                    Some(row)
                },
                _ => None,
            }
        },
        None => None,
    }
}

/// A report with the first of a process's registrations.
pub open spec fn with_notes(
    context: &Context,
    table: Table,
    process: Object,
    pid: u64,
    notes: Seq<Object>,
    count: int,
) -> Table
    decreases count,
{
    if count <= 0 {
        table
    } else {
        let before = with_notes(context, table, process, pid, notes, count - 1);
        match note_row(context, process, pid, notes[count - 1]) {
            Some(row) => before.push(0, row),
            None => before,
        }
    }
}

/// A report with one more process.
#[verifier::opaque]
pub open spec fn with_process(
    context: &Context,
    kernel: &Module,
    table: Table,
    process: Object,
) -> Table {
    match context.mac_pid(process) {
        Some(pid) => {
            let notes = process_notes(context, kernel, process);
            with_notes(context, table, process, pid, notes, notes.len() as int)
        },
        None => table,
    }
}

fn add_process(context: &Context, kernel: &Module, grid: &mut TreeGrid, process: Object)
    ensures
        final(grid)@ == with_process(context, kernel, old(grid)@, process),
{
    reveal(with_process);
    let ghost before = grid@;
    if let Some(pid) = context.mac_pid(process) {
        let notes = list_notes(context, kernel, process);
        for i in 0..notes.len()
            invariant
                grid@ == with_notes(context, before, process, pid, notes@, i as int),
        {
            if let Some(row) = make_row(context, process, pid, notes[i]) {
                grid.push(0, row);
            }
        }
    }
}

/// The report on the first of some processes.
pub open spec fn reported(
    context: &Context,
    kernel: &Module,
    headings: Seq<Column>,
    processes: Seq<Object>,
    count: int,
) -> Table
    decreases count,
{
    if count <= 0 {
        Table::empty(headings)
    } else {
        with_process(
            context,
            kernel,
            reported(context, kernel, headings, processes, count - 1),
            processes[count - 1],
        )
    }
}

impl Plugin for Kevents {
    open spec fn named(&self) -> Seq<char> {
        "mac.kevents.Kevents"@
    }

    open spec fn described(&self) -> Seq<char> {
        "Lists event handlers registered by processes"@
    }

    open spec fn needs(&self) -> Seq<RequirementView> {
        seq![RequirementView::kernel(), RequirementView::pid_filter("Filter on specific process IDs"@)]
    }

    open spec fn headings(&self) -> Seq<Column> {
        seq![
            Column::integer("PID"),
            Column::string("Process"),
            Column::integer("Ident"),
            Column::string("Filter"),
            Column::string("Context"),
        ]
    }

    open spec fn system(&self) -> OperatingSystem {
        OperatingSystem::Mac
    }

    open spec fn report(&self, context: &Context, config: &Configuration) -> Result<Table, Failure> {
        match plugins::mac::kernel_of(context, config) {
            Some(kernel) => match plugins::mac::chosen(context, config) {
                Some(processes) => Ok(
                    reported(context, &kernel, self.headings(), processes, processes.len() as int),
                ),
                None => Err(Failure::Unavailable),
            },
            None => Err(plugins::mac::no_kernel()),
        }
    }

    fn name(&self) -> (name: &'static str) {
        "mac.kevents.Kevents"
    }

    fn description(&self) -> (description: &'static str) {
        "Lists event handlers registered by processes"
    }

    fn requirements(&self) -> (requirements: Vec<Requirement>) {
        vec![Requirement::kernel(), Requirement::pid_filter("Filter on specific process IDs")]
    }

    fn operating_system(&self) -> (system: OperatingSystem) {
        OperatingSystem::Mac
    }

    fn columns(&self) -> (columns: Vec<Column>) {
        vec![
            Column::integer("PID"),
            Column::string("Process"),
            Column::integer("Ident"),
            Column::string("Filter"),
            Column::string("Context"),
        ]
    }

    fn epilog(&self) -> (epilog: Option<&'static str>) {
        None
    }

    fn timeline(&self, context: &Context, config: &Configuration) -> (timeline: Option<
        plugins::Timeline,
    >) {
        None
    }

    fn needs_kernel(&self) -> (needed: bool) {
        false
    }

    fn run(&self, context: &Context, config: &Configuration) -> (result: Result<TreeGrid, VolatilityError>) {
        let kernel = kernel_module(context, config)?;
        let processes = chosen_processes(context, config)?;
        let mut grid = TreeGrid::new(self.columns());
        let ghost headings = self.headings();
        for i in 0..processes.len()
            invariant
                grid@ == reported(context, kernel, headings, processes@, i as int),
        {
            add_process(context, kernel, &mut grid, processes[i]);
        }
        Ok(grid)
    }
}

} // verus!
