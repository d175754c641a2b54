//! List the processes watching filesystem events.
//!
//! A process registered with the event system is told about every file change on
//! the system, which is worth knowing about whether the watcher is Spotlight or
//! something less welcome.

use crate::config::Configuration;
use crate::context::{Context, Module, Object};
use crate::error::{Failure, VolatilityError};
use crate::plugins::{self, OperatingSystem, Plugin, Requirement, RequirementView};
use crate::plugins::mac::kernel_module;
use crate::renderers::{Cell, Column, Row, Table, TreeGrid, Value};
use crate::text::{self, join, push_text};
use vstd::prelude::*;

verus! {

/// Lists the processes watching filesystem events.
pub struct VfsEvents;

/// The event types a watcher can subscribe to, in bit order.
pub open spec fn event_kinds() -> Seq<&'static str> {
    seq![
        "CREATE_FILE",
        "DELETE",
        "STAT_CHANGED",
        "RENAME",
        "CONTENT_MODIFIED",
        "EXCHANGE",
        "FINDER_INFO_CHANGED",
        "CREATE_DIR",
        "CHOWN",
        "XATTR_MODIFIED",
        "XATTR_REMOVED",
        "DOCID_CREATED",
        "DOCID_CHANGED",
    ]
}

/// How many event types there are.
pub const EVENT_COUNT: usize = 13;

fn event_names() -> (names: Vec<&'static str>)
    ensures
        names@ == event_kinds(),
        names@.len() == EVENT_COUNT,
{
    vec![
        "CREATE_FILE",
        "DELETE",
        "STAT_CHANGED",
        "RENAME",
        "CONTENT_MODIFIED",
        "EXCHANGE",
        "FINDER_INFO_CHANGED",
        "CREATE_DIR",
        "CHOWN",
        "XATTR_MODIFIED",
        "XATTR_REMOVED",
        "DOCID_CREATED",
        "DOCID_CHANGED",
    ]
}

/// The events among the first that a watcher subscribed to. There is one byte for
/// each kind of event, set where the watcher asked to hear about it.
pub open spec fn subscribed(raw: Seq<u8>, count: int) -> Seq<Seq<char>>
    decreases count,
{
    if count <= 0 {
        Seq::empty()
    } else if raw[count - 1] == 1 {
        subscribed(raw, count - 1).push(event_kinds()[count - 1]@)
    } else {
        subscribed(raw, count - 1)
    }
}

/// The events that a watcher subscribed to.
pub fn list_events(raw: &Vec<u8>) -> (events: Vec<String>)
    requires
        raw@.len() == EVENT_COUNT,
    ensures
        text::texts(events@) == subscribed(raw@, EVENT_COUNT as int),
{
    let names = event_names();
    let mut events: Vec<String> = Vec::new();
    assert(text::texts(events@) =~= subscribed(raw@, 0));
    for i in 0..EVENT_COUNT
        invariant
            raw@.len() == EVENT_COUNT,
            names@.len() == EVENT_COUNT,
            names@ == event_kinds(),
            text::texts(events@) == subscribed(raw@, i as int),
    {
        if raw[i] == 1 {
            push_text(&mut events, names[i].to_owned());
        }
    }
    events
}

/// The process that a watcher belongs to, or nothing.
pub open spec fn watcher_name(context: &Context, watcher: Object) -> Seq<char> {
    match context.member(watcher, "proc_name") {
        Some(name) => match context.string_of(name) {
            Some(text) => text,
            None => Seq::empty(),
        },
        None => Seq::empty(),
    }
}

fn read_watcher_name(context: &Context, watcher: Object) -> (name: String)
    ensures
        name@ == watcher_name(context, watcher),
{
    match context.member(watcher, "proc_name") {
        Some(name) => match context.as_string(name) {
            Some(text) => text,
            None => String::new(),
        },
        None => String::new(),
    }
}

/// What a watcher's list of events holds.
pub open spec fn event_bytes(context: &Context, kernel: &Module, watcher: Object) -> Option<Seq<u8>> {
    match context.member_pointer(watcher, "event_list") {
        Some(list) => context.bytes_of(kernel.layer, list, EVENT_COUNT, false),
        None => None,
    }
}

/// The row of a watcher.
pub open spec fn watcher_row(context: &Context, watcher: Object, events: Seq<Seq<char>>) -> Seq<Cell> {
    seq![
        Cell::Text(watcher_name(context, watcher)),
        Cell::signed_or_unreadable(context.member_i64(watcher, "pid")),
        Cell::Text(text::joined(events, ","@)),
    ]
}

/// A report with one more watcher. One listening for nothing is not reported.
pub open spec fn with_watcher(
    context: &Context,
    kernel: &Module,
    table: Table,
    watcher: Object,
) -> Table {
    match event_bytes(context, kernel, watcher) {
        Some(raw) => {
            let events = subscribed(raw, EVENT_COUNT as int);
            if events.len() == 0 {
                table
            } else {
                table.push(0, watcher_row(context, watcher, events))
            }
        },
        None => table,
    }
}

fn add_watcher(context: &Context, kernel: &Module, grid: &mut TreeGrid, watcher: Object)
    ensures
        final(grid)@ == with_watcher(context, kernel, old(grid)@, watcher),
{
    let read = match context.member_pointer(watcher, "event_list") {
        Some(list) => context.read(kernel.layer, list, EVENT_COUNT, false),
        None => None,
    };
    if let Some(raw) = read {
        let events = list_events(&raw);
        assert(text::texts(events@).len() == events@.len());
        if !events.is_empty() {
            let row = Row::new().with(Value::String(read_watcher_name(context, watcher))).with(
                Value::signed_or_unreadable(context.member_i64(watcher, "pid")),
            ).with(Value::String(join(&events, ",")));
            assert(row@ == watcher_row(
                context,
                watcher,
                subscribed(raw@, EVENT_COUNT as int),
            ));
            grid.push(0, row);
        }
    }
}

pub open spec fn spec_watcher_at(context: &Context, slots: Object, at: u64) -> Option<Object> {
    match context.index(slots, at) {
        Some(pointer) => match context.pointer_value(pointer) {
            Some(address) => if address == 0 {
                None
            } else {
                context.dereference(pointer)
            },
            None => None,
        },
        None => None,
    }
}

/// The watcher that a place of the table names. Most of the table is unused, which
/// is how it usually looks.
#[verifier::when_used_as_spec(spec_watcher_at)]
pub fn watcher_at(context: &Context, slots: Object, at: u64) -> (watcher: Option<Object>)
    ensures
        watcher == spec_watcher_at(context, slots, at),
{
    match context.index(slots, at) {
        Some(pointer) => match context.pointer_value(pointer) {
            Some(address) => if address == 0 {
                None
            } else {
                context.dereference(pointer)
            },
            None => None,
        },
        None => None,
    }
}

/// The report on the first places of the table.
pub open spec fn reported(
    context: &Context,
    kernel: &Module,
    headings: Seq<Column>,
    slots: Object,
    count: int,
) -> Table
    decreases count,
{
    if count <= 0 {
        Table::empty(headings)
    } else {
        let before = reported(context, kernel, headings, slots, count - 1);
        match watcher_at(context, slots, (count - 1) as u64) {
            Some(watcher) => with_watcher(context, kernel, before, watcher),
            None => before,
        }
    }
}

impl Plugin for VfsEvents {
    open spec fn named(&self) -> Seq<char> {
        "mac.vfsevents.VFSevents"@
    }

    open spec fn described(&self) -> Seq<char> {
        "Lists processes that are filtering file system events"@
    }

    open spec fn needs(&self) -> Seq<RequirementView> {
        seq![RequirementView::kernel()]
    }

    open spec fn headings(&self) -> Seq<Column> {
        seq![
            Column::string("Name"),
            Column::integer("PID"),
            Column::string("Events"),
        ]
    }

    open spec fn system(&self) -> OperatingSystem {
        OperatingSystem::Mac
    }

    open spec fn report(&self, context: &Context, config: &Configuration) -> Result<Table, Failure> {
        match plugins::mac::kernel_of(context, config) {
            Some(kernel) => match context.object_from_symbol(&kernel, "watcher_table") {
                Some(slots) => Ok(
                    reported(
                        context,
                        &kernel,
                        self.headings(),
                        slots,
                        plugins::mac::entry_count(context, slots) as int,
                    ),
                ),
                None => Err(Failure::Unavailable),
            },
            None => Err(plugins::mac::no_kernel()),
        }
    }

    fn name(&self) -> (name: &'static str) {
        "mac.vfsevents.VFSevents"
    }

    fn description(&self) -> (description: &'static str) {
        "Lists processes that are filtering file system events"
    }

    fn requirements(&self) -> (requirements: Vec<Requirement>) {
        vec![Requirement::kernel()]
    }

    fn operating_system(&self) -> (system: OperatingSystem) {
        OperatingSystem::Mac
    }

    fn columns(&self) -> (columns: Vec<Column>) {
        vec![
            Column::string("Name"),
            Column::integer("PID"),
            Column::string("Events"),
        ]
    }

    fn epilog(&self) -> (epilog: Option<&'static str>) {
        None
    }

    fn timeline(&self, context: &Context, config: &Configuration) -> (timeline: Option<
        plugins::Timeline,
    >) {
        None
    }

    fn needs_kernel(&self) -> (needed: bool) {
        false
    }

    fn run(&self, context: &Context, config: &Configuration) -> (result: Result<TreeGrid, VolatilityError>) {
        let kernel = kernel_module(context, config)?;
        let slots = match context.object_from_symbol(kernel, "watcher_table") {
            Some(slots) => slots,
            None => return Err(VolatilityError::Unavailable),
        };
        let count: u64 = match context.count(slots) {
            Some(count) => count,
            None => 0,
        };
        let mut grid = TreeGrid::new(self.columns());
        let ghost headings = self.headings();
        for at in 0..count
            invariant
                grid@ == reported(context, kernel, headings, slots, at as int),
        {
            if let Some(watcher) = watcher_at(context, slots, at) {
                add_watcher(context, kernel, &mut grid, watcher);
            }
        }
        Ok(grid)
    }
}

} // verus!
