//! List the modules loaded into each process, from the PEB's loader data.

use crate::config::{ConfigValue, Configuration};
use crate::context::{Context, Module, Object, TypeId};
use crate::error::{Failure, VolatilityError};
use crate::lists::{self, walk_list};
use crate::patterns::{self, pattern_error, pattern_matches};
use crate::plugins::{
    self, ConfigView, KindView, MomentView, OperatingSystem, Plugin, Requirement, RequirementKind,
    RequirementView, TimeKind, Timeline, TimelineView,
};
use crate::plugins::output::{self, extract};
use crate::plugins::timeline_helpers::{self, is_time, number};
use crate::plugins::windows::{kernel_module, physical_layer, selected_processes};
use crate::plugins::windows::pslist::{sanitize_filename, time_value};
use crate::renderers::{self, Cell, Column, ColumnType, LineView, Row, Table, TreeGrid, Value};
use crate::symbols::windows::WOW64_TABLE;
use crate::text::{self, assemble, characters, decimal, hexadecimal, same_text};
use vstd::prelude::*;

verus! {

/// Lists the modules loaded into each process.
pub struct DllList;

/// The base address that modules are asked for by.
pub open spec fn wanted_base(config: &Configuration) -> Option<u64> {
    match config.int_of("base"@) {
        Some(base) if base != 0 => Some(base as u64),
        _ => None,
    }
}

/// The pattern that modules are asked for by.
pub open spec fn wanted_pattern(config: &Configuration) -> Option<Seq<char>> {
    match config.text_of("name"@) {
        Some(pattern) => Some(
            if config.flag("ignore-case"@) {
                "(?i)"@ + pattern
            } else {
                pattern
            },
        ),
        None => None,
    }
}

/// Whether a module is one of those asked for. A pattern is matched against
/// both the short and the full name, and a module whose names cannot be read
/// cannot be matched.
pub open spec fn is_wanted(
    context: &Context,
    entry: Object,
    pattern: Option<Seq<char>>,
    base: Option<u64>,
) -> bool {
    (pattern is Some ==> match (
        context.member_unicode_of(entry, "BaseDllName"),
        context.member_unicode_of(entry, "FullDllName"),
    ) {
        (Some(short), Some(full)) => patterns::pattern_found(pattern->0, short)
            || patterns::pattern_found(pattern->0, full),
        _ => false,
    }) && (base is Some ==> base->0 == match context.member_pointer(entry, "DllBase") {
        Some(address) => address,
        None => 0,
    })
}

fn is_asked_for(
    context: &Context,
    entry: Object,
    pattern: &Option<String>,
    base: Option<u64>,
) -> (wanted: bool)
    ensures
        wanted == is_wanted(context, entry, text::maybe_text(*pattern), base),
{
    if let Some(pattern) = pattern {
        match (
            context.member_unicode(entry, "BaseDllName"),
            context.member_unicode(entry, "FullDllName"),
        ) {
            (Some(short), Some(full)) => {
                if !pattern_matches(pattern, &short) && !pattern_matches(pattern, &full) {
                    return false;
                }
            },
            _ => {
                return false;
            },
        }
    }
    match base {
        Some(wanted) => match context.member_pointer(entry, "DllBase") {
            Some(address) => address == wanted,
            None => wanted == 0,
        },
        None => true,
    }
}

/// How often a module is in use. The field is unsigned in the symbols but
/// counted as signed, and a count the kernel does not track is not available.
pub open spec fn load_count_cell(context: &Context, entry: Object) -> Cell {
    match if context.has_member(entry, "LoadCount") {
        context.member_u64(entry, "LoadCount")
    } else {
        context.member_u64(entry, "ObsoleteLoadCount")
    } {
        Some(count) => Cell::integer(((count as u16) as i16) as i64),
        None => Cell::not_available(),
    }
}

fn load_count_value(context: &Context, entry: Object) -> (value: Value)
    ensures
        value@ == load_count_cell(context, entry),
{
    let count = if context.has_member(entry, "LoadCount") {
        context.member_u64(entry, "LoadCount")
    } else {
        context.member_u64(entry, "ObsoleteLoadCount")
    };
    match count {
        Some(count) => Value::integer(count as u16 as i16 as i64),
        None => Value::not_available(),
    }
}

/// When a module was loaded, which is kept only from Windows 7 onwards.
pub open spec fn load_time_cell(context: &Context, entry: Object) -> Cell {
    match context.member(entry, "LoadTime") {
        Some(load_time) => plugins::windows::pslist::time_cell(
            if context.has_member(load_time, "QuadPart") {
                context.member_u64(load_time, "QuadPart")
            } else {
                context.as_u64(load_time)
            },
        ),
        None => Cell::not_applicable(),
    }
}

fn load_time_value(context: &Context, entry: Object) -> (value: Value)
    ensures
        value@ == load_time_cell(context, entry),
{
    match context.member(entry, "LoadTime") {
        Some(load_time) => time_value(
            if context.has_member(load_time, "QuadPart") {
                context.member_u64(load_time, "QuadPart")
            } else {
                context.as_u64(load_time)
            },
        ),
        None => Value::not_applicable(),
    }
}

/// What the row of a module says.
pub open spec fn module_cells(
    context: &Context,
    pid: u64,
    name: Seq<char>,
    entry: Object,
    file_output: Seq<char>,
) -> Seq<Cell> {
    seq![
        Cell::integer(pid as i64),
        Cell::Text(name),
        Cell::hex_or_unreadable(context.member_pointer(entry, "DllBase")),
        Cell::hex_or_unreadable(context.member_u64(entry, "SizeOfImage")),
        Cell::text_or_unreadable(context.member_unicode_of(entry, "BaseDllName")),
        Cell::text_or_unreadable(context.member_unicode_of(entry, "FullDllName")),
        load_count_cell(context, entry),
        load_time_cell(context, entry),
        Cell::Text(file_output),
    ]
}

fn module_row(
    context: &Context,
    pid: u64,
    name: &str,
    entry: Object,
    file_output: String,
) -> (row: Row)
    ensures
        row@ == module_cells(context, pid, name@, entry, file_output@),
{
    Row::new().with(Value::integer(pid as i64)).with(Value::string(name)).with(
        Value::hex_or_unreadable(context.member_pointer(entry, "DllBase")),
    ).with(Value::hex_or_unreadable(context.member_u64(entry, "SizeOfImage"))).with(
        Value::text_or_unreadable(&context.member_unicode(entry, "BaseDllName")),
    ).with(Value::text_or_unreadable(&context.member_unicode(entry, "FullDllName"))).with(
        load_count_value(context, entry),
    ).with(load_time_value(context, entry)).with(Value::String(file_output))
}

/// The report once a module is in it, if it is one of those asked for.
pub open spec fn with_module(
    context: &Context,
    config: &Configuration,
    table: Table,
    pid: u64,
    name: Seq<char>,
    layer: usize,
    entry: Object,
) -> Table {
    if !is_wanted(context, entry, wanted_pattern(config), wanted_base(config)) {
        table
    } else if config.flag("dump"@) {
        match context.member_pointer(entry, "DllBase") {
            Some(base) => {
                let kept = entry_dumped(
                    context,
                    layer,
                    entry,
                    base,
                    "pid."@ + text::decimal_text(pid as int) + seq!['.'],
                    table,
                );
                kept.0.push(
                    0,
                    module_cells(
                        context,
                        pid,
                        name,
                        entry,
                        match kept.1 {
                            Some(file) => file,
                            None => "Error outputting file"@,
                        },
                    ),
                )
            },
            None => table.push(
                0,
                module_cells(context, pid, name, entry, "Error outputting file"@),
            ),
        }
    } else {
        table.push(0, module_cells(context, pid, name, entry, "Disabled"@))
    }
}

/// The report once some of the modules of a process are in it.
pub open spec fn with_modules(
    context: &Context,
    config: &Configuration,
    table: Table,
    pid: u64,
    name: Seq<char>,
    layer: usize,
    entries: Seq<Object>,
    count: int,
) -> Table
    decreases count,
{
    if count <= 0 {
        table
    } else {
        with_module(
            context,
            config,
            with_modules(context, config, table, pid, name, layer, entries, count - 1),
            pid,
            name,
            layer,
            entries[count - 1],
        )
    }
}

/// The report once some of the processes are in it.
pub open spec fn reported(
    context: &Context,
    kernel: &Module,
    config: &Configuration,
    headings: Seq<Column>,
    processes: Seq<Object>,
    count: int,
) -> Table
    decreases count,
{
    if count <= 0 {
        Table::empty(headings)
    } else {
        let table = reported(context, kernel, config, headings, processes, count - 1);
        let process = processes[count - 1];
        match (
            context.pid(process),
            context.layer_of(process, plugins::windows::physical_name(config)),
        ) {
            (Some(pid), Some(layer)) => {
                let entries = loaded(context, kernel, process, layer, "InLoadOrderModuleList");
                with_modules(
                    context,
                    config,
                    table,
                    pid,
                    context.image_name_or_empty(process),
                    layer,
                    entries,
                    entries.len() as int,
                )
            },
            _ => table,
        }
    }
}

impl Plugin for DllList {
    open spec fn named(&self) -> Seq<char> {
        "windows.dlllist.DllList"@
    }

    open spec fn described(&self) -> Seq<char> {
        "Lists the loaded DLLs in a particular windows memory image."@
    }

    open spec fn needs(&self) -> Seq<RequirementView> {
        seq![
            RequirementView::kernel(),
            RequirementView::pid_filter("Process IDs to include (all other processes are excluded)"@),
            RequirementView::new(
                "offset"@,
                "Process offset in the physical address space"@,
                KindView::Int,
            ),
            RequirementView::new(
                "base"@,
                "Specify a base virtual address in process memory"@,
                KindView::Int,
            ),
            RequirementView::new(
                "name"@,
                "Specify a regular expression to match dll name(s)"@,
                KindView::String,
            ),
            RequirementView::new(
                "ignore-case"@,
                "Specify case insensitivity for the regular expression name matching"@,
                KindView::Bool,
            )
            .with_default(ConfigView::Bool(false)),
            RequirementView::new(
                "dump"@,
                "Extract listed DLLs"@,
                KindView::Bool,
            )
            .with_default(ConfigView::Bool(false)),
        ]
    }

    open spec fn headings(&self) -> Seq<Column> {
        seq![
            Column::integer("PID"),
            Column::string("Process"),
            Column::new("Base", ColumnType::UInt),
            Column::new("Size", ColumnType::UInt),
            Column::string("Name"),
            Column::string("Path"),
            Column::integer("LoadCount"),
            Column::datetime("LoadTime"),
            Column::string("File output"),
        ]
    }

    open spec fn system(&self) -> OperatingSystem {
        OperatingSystem::Windows
    }

    open spec fn report(&self, context: &Context, config: &Configuration) -> Result<Table, Failure> {
        match plugins::windows::kernel_of(context, config) {
            Some(kernel) => if wanted_pattern(config) is Some && patterns::pattern_fault(
                wanted_pattern(config)->0,
            ) is Some {
                Ok(Table::empty(self.headings()))
            } else {
                match plugins::windows::selected(context, &kernel, config) {
                    Some(processes) => Ok(
                        reported(
                            context,
                            &kernel,
                            config,
                            self.headings(),
                            processes,
                            processes.len() as int,
                        ),
                    ),
                    None => Err(Failure::Unavailable),
                }
            },
            None => Err(plugins::windows::no_kernel()),
        }
    }

    open spec fn moments(&self, context: &Context, config: &Configuration) -> Option<TimelineView> {
        match self.report(context, config) {
            Ok(table) => Some(
                TimelineView {
                    entries: load_moments(table.lines, table.lines.len() as int),
                    failed: false,
                },
            ),
            Err(_) => None,
        }
    }

    fn name(&self) -> (name: &'static str) {
        "windows.dlllist.DllList"
    }

    fn description(&self) -> (description: &'static str) {
        "Lists the loaded DLLs in a particular windows memory image."
    }

    fn requirements(&self) -> (requirements: Vec<Requirement>) {
        vec![
            Requirement::kernel(),
            Requirement::pid_filter("Process IDs to include (all other processes are excluded)"),
            Requirement::new(
                "offset",
                "Process offset in the physical address space",
                RequirementKind::Int,
            ),
            Requirement::new(
                "base",
                "Specify a base virtual address in process memory",
                RequirementKind::Int,
            ),
            Requirement::new(
                "name",
                "Specify a regular expression to match dll name(s)",
                RequirementKind::String,
            ),
            Requirement::new(
                "ignore-case",
                "Specify case insensitivity for the regular expression name matching",
                RequirementKind::Bool,
            )
            .with_default(ConfigValue::Bool(false)),
            Requirement::new(
                "dump",
                "Extract listed DLLs",
                RequirementKind::Bool,
            )
            .with_default(ConfigValue::Bool(false)),
        ]
    }

    fn operating_system(&self) -> (system: OperatingSystem) {
        OperatingSystem::Windows
    }

    fn columns(&self) -> (columns: Vec<Column>) {
        vec![
            Column::integer("PID"),
            Column::string("Process"),
            Column::new("Base", ColumnType::UInt),
            Column::new("Size", ColumnType::UInt),
            Column::string("Name"),
            Column::string("Path"),
            Column::integer("LoadCount"),
            Column::datetime("LoadTime"),
            Column::string("File output"),
        ]
    }

    fn timeline(&self, context: &Context, config: &Configuration) -> (timeline: Option<Timeline>) {
        let grid = match self.run(context, config) {
            Ok(grid) => grid,
            Err(_) => return None,
        };
        let mut timeline = Timeline::new();
        for i in 0..grid.lines.len()
            invariant
                timeline@ == (TimelineView {
                    entries: load_moments(grid@.lines, i as int),
                    failed: false,
                }),
        {
            let values = &grid.lines[i].row.values;
            assert(grid@.lines[i as int].cells == renderers::cells(values@));
            // A module with no recorded load time has nothing to place.
            if values.len() > 7 && is_time(&values[7]) {
                let mut description = "DLL Load: Process ".to_owned();
                description.append(&number(&values[0]));
                description.push(' ');
                description.append(&timeline_helpers::text(&values[1]));
                description.append(" Loaded ");
                description.append(&timeline_helpers::text(&values[4]));
                description.append(" (");
                description.append(&timeline_helpers::text(&values[5]));
                description.append(") Size ");
                description.append(&number(&values[3]));
                description.append(" Offset ");
                description.append(&number(&values[2]));
                assert(description@ =~= load_words(grid@.lines[i as int].cells));
                timeline.push(&description, TimeKind::Created, values[7].copy());
            }
        }
        Some(timeline)
    }

    fn epilog(&self) -> (epilog: Option<&'static str>) {
        None
    }

    fn needs_kernel(&self) -> (needed: bool) {
        false
    }

    fn run(&self, context: &Context, config: &Configuration) -> (result: Result<TreeGrid, VolatilityError>) {
        let kernel = kernel_module(context, config)?;
        let physical = physical_layer(config);
        let dump = config.is_set("dump");
        let base = match config.get_int("base") {
            Some(base) => if base != 0 {
                Some(base as u64)
            } else {
                None
            },
            None => None,
        };
        let pattern = match config.get_string("name") {
            Some(given) => if config.is_set("ignore-case") {
                let mut insensitive = "(?i)".to_owned();
                insensitive.append(&given);
                Some(insensitive)
            } else {
                Some(given)
            },
            None => None,
        };
        if let Some(pattern) = &pattern {
            if pattern_error(pattern).is_some() {
                return Ok(TreeGrid::new(self.columns()));
            }
        }
        let processes = selected_processes(context, kernel, config)?;
        let mut grid = TreeGrid::new(self.columns());
        let ghost headings = self.headings();
        for i in 0..processes.len()
            invariant
                grid@ == reported(context, kernel, config, headings, processes@, i as int),
                physical@ == plugins::windows::physical_name(config),
                base == wanted_base(config),
                text::maybe_text(pattern) == wanted_pattern(config),
                dump == config.flag("dump"@),
        {
            let process = processes[i];
            if let (Some(pid), Some(layer)) = (
                context.pid(process),
                context.address_space(process, &physical),
            ) {
                let name = context.image_file_name_or_empty(process);
                let entries = load_order_modules(
                    context,
                    kernel,
                    process,
                    layer,
                    "InLoadOrderModuleList",
                );
                let ghost before = grid@;
                for j in 0..entries.len()
                    invariant
                        grid@ == with_modules(
                            context,
                            config,
                            before,
                            pid,
                            name@,
                            layer,
                            entries@,
                            j as int,
                        ),
                        base == wanted_base(config),
                        text::maybe_text(pattern) == wanted_pattern(config),
                        dump == config.flag("dump"@),
                {
                    let entry = entries[j];
                    if is_asked_for(context, entry, &pattern, base) {
                        let file_output = if dump {
                            match context.member_pointer(entry, "DllBase") {
                                Some(address) => {
                                    let mut prefix = "pid.".to_owned();
                                    prefix.append(&decimal(pid));
                                    prefix.push('.');
                                    assert(prefix@ =~= "pid."@ + text::decimal_text(pid as int)
                                        + seq!['.']);
                                    match dump_ldr_entry(
                                        context,
                                        layer,
                                        entry,
                                        address,
                                        &prefix,
                                        &mut grid,
                                    ) {
                                        Some(file) => file,
                                        None => "Error outputting file".to_owned(),
                                    }
                                },
                                None => "Error outputting file".to_owned(),
                            }
                        } else {
                            "Disabled".to_owned()
                        };
                        grid.push(0, module_row(context, pid, &name, entry, file_output));
                    }
                }
            }
        }
        Ok(grid)
    }
}

/// What a row of modules says in a timeline.
pub open spec fn load_words(cells: Seq<Cell>) -> Seq<char> {
    "DLL Load: Process "@ + timeline_helpers::plain_number(cells[0]) + seq![' ']
        + timeline_helpers::plain_text(cells[1]) + " Loaded "@ + timeline_helpers::plain_text(
        cells[4],
    ) + " ("@ + timeline_helpers::plain_text(cells[5]) + ") Size "@
        + timeline_helpers::plain_number(cells[3]) + " Offset "@ + timeline_helpers::plain_number(
        cells[2],
    )
}

/// The moments that the first rows of a report of modules contribute: when each was
/// loaded. A module with no recorded load time has nothing to place.
pub open spec fn load_moments(lines: Seq<LineView>, count: int) -> Seq<MomentView>
    decreases count,
{
    if count <= 0 {
        Seq::empty()
    } else {
        let before = load_moments(lines, count - 1);
        let cells = lines[count - 1].cells;
        if cells.len() > 7 && cells[7] is Time {
            before.push(
                MomentView {
                    description: load_words(cells),
                    kind: TimeKind::Created,
                    time: cells[7],
                },
            )
        } else {
            before
        }
    }
}

/// The head of the list of modules that a process keeps.
pub open spec fn wide_head(context: &Context, process: Object, layer: usize, list: &str) -> Option<
    Object,
> {
    match context.peb(process, layer) {
        Some(peb) => match context.member_target(peb, "Ldr") {
            Some(ldr) => context.member(ldr, list),
            None => None,
        },
        None => None,
    }
}

/// The head of the second, 32 bit list of modules that a process under WoW64
/// keeps. In the 32 bit view the pointer is a plain word, so the head stands at
/// the address it holds.
pub open spec fn narrow_head(context: &Context, process: Object, layer: usize, list: &str) -> Option<
    Object,
> {
    match context.peb32(process, layer) {
        Some(peb) => match context.member_u64(peb, "Ldr") {
            Some(address) => match context.object(
                context.table_type(WOW64_TABLE, "_PEB_LDR_DATA"),
                layer,
                address,
            ) {
                Some(ldr) => context.member(ldr, list),
                None => None,
            },
            None => None,
        },
        None => None,
    }
}

/// The entries of a list whose base can be read, in order. An entry whose base
/// cannot be read says nothing about what is loaded.
pub open spec fn with_base(context: &Context, entries: Seq<Object>) -> Seq<Object>
    decreases entries.len(),
{
    if entries.len() == 0 {
        Seq::empty()
    } else {
        let before = with_base(context, entries.drop_last());
        if context.member_pointer(entries.last(), "DllBase") is Some {
            before.push(entries.last())
        } else {
            before
        }
    }
}

/// The modules of one list.
pub open spec fn list_entries(
    context: &Context,
    head: Option<Object>,
    kind: Option<TypeId>,
    list: &str,
) -> Seq<Object> {
    match head {
        Some(head) => match lists::listed(context, head, kind, list_link(list), true) {
            Some(entries) => with_base(context, entries),
            None => Seq::empty(),
        },
        None => Seq::empty(),
    }
}

/// The modules a process has loaded: those of its list, then those of its
/// 32 bit list.
pub open spec fn loaded(
    context: &Context,
    kernel: &Module,
    process: Object,
    layer: usize,
    list: &str,
) -> Seq<Object> {
    list_entries(
        context,
        wide_head(context, process, layer, list),
        context.get_type(kernel.table, "_LDR_DATA_TABLE_ENTRY"),
        list,
    ) + list_entries(
        context,
        narrow_head(context, process, layer, list),
        context.table_type(WOW64_TABLE, "_LDR_DATA_TABLE_ENTRY"),
        list,
    )
}

fn add_entries(
    context: &Context,
    head: Option<Object>,
    kind: Option<TypeId>,
    list: &str,
    entries: &mut Vec<Object>,
)
    ensures
        final(entries)@ == old(entries)@ + list_entries(context, head, kind, list),
{
    if let Some(head) = head {
        if let Some(found) = walk_list(context, head, kind, list_link(list), true) {
            let ghost before = entries@;
            for i in 0..found.len()
                invariant
                    entries@ == before + with_base(context, found@.take(i as int)),
            {
                assert(found@.take(i + 1).drop_last() =~= found@.take(i as int));
                if context.member_pointer(found[i], "DllBase").is_some() {
                    entries.push(found[i]);
                    assert(entries@ =~= before + with_base(context, found@.take(i + 1)));
                }
            }
            assert(found@.take(found@.len() as int) =~= found@);
            return;
        }
    }
    assert(entries@ + Seq::<Object>::empty() =~= entries@);
}

/// The modules a process has loaded, in the order the list names.
///
/// A process running under WoW64 keeps a second, 32-bit list of its modules,
/// described by its own types, and both are walked.
pub fn load_order_modules(
    context: &Context,
    kernel: &Module,
    process: Object,
    layer: usize,
    list: &str,
) -> (entries: Vec<Object>)
    ensures
        entries@ == loaded(context, kernel, process, layer, list),
{
    let wide = match context.peb(process, layer) {
        Some(peb) => match context.member_target(peb, "Ldr") {
            Some(ldr) => context.member(ldr, list),
            None => None,
        },
        None => None,
    };
    let narrow = match context.peb32(process, layer) {
        Some(peb) => match context.member_u64(peb, "Ldr") {
            Some(address) => match context.object(
                context.table_type(WOW64_TABLE, "_PEB_LDR_DATA"),
                layer,
                address,
            ) {
                Some(ldr) => context.member(ldr, list),
                None => None,
            },
            None => None,
        },
        None => None,
    };
    let mut entries: Vec<Object> = Vec::new();
    add_entries(
        context,
        wide,
        context.get_type(kernel.table, "_LDR_DATA_TABLE_ENTRY"),
        list,
        &mut entries,
    );
    add_entries(
        context,
        narrow,
        context.table_type(WOW64_TABLE, "_LDR_DATA_TABLE_ENTRY"),
        list,
        &mut entries,
    );
    assert(entries@ =~= loaded(context, kernel, process, layer, list));
    entries
}

pub open spec fn spec_list_link(list: &str) -> &'static str {
    if list@ == "InInitializationOrderModuleList"@ {
        "InInitializationOrderLinks"
    } else if list@ == "InMemoryOrderModuleList"@ {
        "InMemoryOrderLinks"
    } else {
        "InLoadOrderLinks"
    }
}

/// The link member that pairs with a list head.
#[verifier::when_used_as_spec(spec_list_link)]
pub fn list_link(list: &str) -> (link: &'static str)
    ensures
        link == spec_list_link(list),
{
    if same_text(list, "InInitializationOrderModuleList") {
        "InInitializationOrderLinks"
    } else if same_text(list, "InMemoryOrderModuleList") {
        "InMemoryOrderLinks"
    } else {
        "InLoadOrderLinks"
    }
}

/// What stands behind the last slash or backslash of a path.
pub open spec fn last_part(path: Seq<char>) -> Seq<char>
    decreases path.len(),
{
    if path.len() == 0 || path.last() == '\\' || path.last() == '/' {
        Seq::empty()
    } else {
        last_part(path.drop_last()).push(path.last())
    }
}

/// What stands behind the last slash or backslash of a path.
pub fn part_behind_slash(path: &str) -> (part: String)
    ensures
        part@ == last_part(path@),
{
    let list = characters(path);
    let mut start: usize = list.len();
    assert(list@.take(start as int) =~= path@);
    assert(list@.subrange(start as int, list@.len() as int) =~= Seq::<char>::empty());
    while start > 0 && list[start - 1] != '\\' && list[start - 1] != '/'
        invariant
            list@ == path@,
            start <= list@.len(),
            last_part(path@) == last_part(list@.take(start as int)) + list@.subrange(
                start as int,
                list@.len() as int,
            ),
        decreases start,
    {
        assert(list@.take(start as int).drop_last() =~= list@.take(start - 1));
        start = start - 1;
        assert(last_part(path@) =~= last_part(list@.take(start as int)) + list@.subrange(
            start as int,
            list@.len() as int,
        ));
    }
    assert(last_part(list@.take(start as int)) =~= Seq::<char>::empty());
    let part = assemble(&list, start, list.len());
    assert(part@ =~= last_part(path@));
    part
}

/// The name a module's image is written under. It records both where the entry
/// sits and where the image is loaded, so two processes sharing a library still
/// produce distinct files.
pub open spec fn entry_file(context: &Context, entry: Object, base: u64, prefix: Seq<char>) -> Seq<
    char,
> {
    let full = match context.member_unicode_of(entry, "FullDllName") {
        Some(name) => name,
        None => "UnreadableDLLName"@,
    };
    plugins::windows::pslist::sanitized(
        prefix + last_part(full) + seq!['.'] + text::hex_text(entry.offset as nat) + seq!['.']
            + text::hex_text(base as nat) + ".dmp"@,
    )
}

/// The report once the image of a module is kept beside it, with the name to
/// report. The file is produced even when the image could not be rebuilt in
/// full. Only a complete rebuild is reported as a successful extraction.
pub open spec fn entry_dumped(
    context: &Context,
    layer: usize,
    entry: Object,
    base: u64,
    prefix: Seq<char>,
    table: Table,
) -> (Table, Option<Seq<char>>) {
    let name = entry_file(context, entry, base, prefix);
    let rebuilt = context.image_at(layer, base);
    let kept = output::extracted(
        table,
        &context.output,
        name,
        match rebuilt {
            Some(data) => data,
            None => Seq::empty(),
        },
    );
    (
        kept.0,
        if kept.1 is Some && rebuilt is Some {
            Some(name)
        } else {
            None
        },
    )
}

/// Write out the image a module entry describes, named after the entry.
///
/// The name records both where the entry sits and where the image is loaded,
/// so two processes sharing a library still produce distinct files.
pub fn dump_ldr_entry(
    context: &Context,
    layer: usize,
    entry: Object,
    base: u64,
    prefix: &str,
    grid: &mut TreeGrid,
) -> (file: Option<String>)
    ensures
        (final(grid)@, text::maybe_text(file)) == entry_dumped(
            context,
            layer,
            entry,
            base,
            prefix@,
            old(grid)@,
        ),
{
    let full = match context.member_unicode(entry, "FullDllName") {
        Some(name) => name,
        None => "UnreadableDLLName".to_owned(),
    };
    let mut asked = prefix.to_owned();
    asked.append(&part_behind_slash(&full));
    asked.push('.');
    asked.append(&hexadecimal(entry.offset));
    asked.push('.');
    asked.append(&hexadecimal(base));
    asked.append(".dmp");
    assert(asked@ =~= prefix@ + last_part(full@) + seq!['.'] + text::hex_text(entry.offset as nat)
        + seq!['.'] + text::hex_text(base as nat) + ".dmp"@);
    let name = sanitize_filename(&asked);
    match context.reconstruct(layer, base) {
        Some(data) => match extract(grid, &context.output, &name, data) {
            Some(_) => Some(name),
            None => None,
        },
        None => {
            let _ = extract(grid, &context.output, &name, Vec::new());
            None
        },
    }
}

} // verus!
