//! List the kernel's modules, from its own list or from its pools.

use crate::config::{ConfigValue, Configuration};
use crate::context::{Context, Module, Object};
use crate::error::{Failure, VolatilityError};
use crate::lists::{self, walk_list};
use crate::plugins::{
    self, ConfigView, KindView, OperatingSystem, Plugin, Requirement, RequirementKind,
    RequirementView,
};
use crate::plugins::windows::{kernel_module, physical_layer};
use crate::plugins::windows::dlllist::dump_ldr_entry;
use crate::plugins::windows::psscan::scan_objects;
use crate::renderers::{Cell, Column, ColumnType, Row, Table, TreeGrid, Value};
use crate::symbols;
use crate::symbols::windows::list_processes;
use crate::text::{self, contains, hexadecimal};
use vstd::prelude::*;

verus! {

/// Lists the modules that the kernel links.
pub struct Modules;

/// Scan the pools for module entries the kernel may no longer list.
pub struct ModScan;

/// The pool tag of a module entry: `MmLd`.
pub const MODULE_TAG: u32 = 0x644c6d4d;

/// The options both listings take.
pub open spec fn module_needs() -> Seq<RequirementView> {
    seq![
        RequirementView::kernel(),
        RequirementView::new("dump"@, "Extract listed modules"@, KindView::Bool).with_default(
            ConfigView::Bool(false),
        ),
        RequirementView::new(
            "base"@,
            "Extract a single module with BASE address"@,
            KindView::Int,
        ),
        RequirementView::new("name"@, "module name/sub string"@, KindView::String),
    ]
}

/// The options both listings take.
pub fn module_requirements() -> (requirements: Vec<Requirement>)
    ensures
        plugins::requirement_views(requirements@) == module_needs(),
{
    vec![
        Requirement::kernel(),
        Requirement::new("dump", "Extract listed modules", RequirementKind::Bool).with_default(
            ConfigValue::Bool(false),
        ),
        Requirement::new(
            "base",
            "Extract a single module with BASE address",
            RequirementKind::Int,
        ),
        Requirement::new("name", "module name/sub string", RequirementKind::String),
    ]
}

/// The columns both listings report.
pub open spec fn module_headings() -> Seq<Column> {
    seq![
        Column::new("Offset", ColumnType::UInt),
        Column::new("Base", ColumnType::UInt),
        Column::new("Size", ColumnType::UInt),
        Column::string("Name"),
        Column::string("Path"),
        Column::string("File output"),
    ]
}

/// The columns both listings report.
pub fn module_columns() -> (columns: Vec<Column>)
    ensures
        columns@ == module_headings(),
{
    vec![
        Column::new("Offset", ColumnType::UInt),
        Column::new("Base", ColumnType::UInt),
        Column::new("Size", ColumnType::UInt),
        Column::string("Name"),
        Column::string("Path"),
        Column::string("File output"),
    ]
}

/// The kernel's own module entries, in the order it links them.
pub open spec fn listed_modules(context: &Context, kernel: &Module) -> Option<Seq<Object>> {
    match context.typed_symbol(kernel, "PsLoadedModuleList", "_LIST_ENTRY") {
        Some(head) => lists::listed(
            context,
            head,
            context.get_type(kernel.table, "_LDR_DATA_TABLE_ENTRY"),
            "InLoadOrderLinks",
            true,
        ),
        None => None,
    }
}

/// The kernel's own module entries, in the order it links them.
pub fn list_modules(context: &Context, kernel: &Module) -> (found: Result<
    Vec<Object>,
    VolatilityError,
>)
    ensures
        match found {
            Ok(entries) => listed_modules(context, kernel) == Some(entries@),
            Err(error) => listed_modules(context, kernel) is None && error@ == Failure::Unavailable,
        },
{
    // PsLoadedModuleList links the kernel's own module entries, using the
    // same structure as a process's module list.
    match context.typed_symbol(kernel, "PsLoadedModuleList", "_LIST_ENTRY") {
        Some(head) => match walk_list(
            context,
            head,
            context.get_type(kernel.table, "_LDR_DATA_TABLE_ENTRY"),
            "InLoadOrderLinks",
            true,
        ) {
            Some(entries) => Ok(entries),
            None => Err(VolatilityError::Unavailable),
        },
        None => Err(VolatilityError::Unavailable),
    }
}

/// A session and a layer that can see its memory.
#[derive(Clone, Copy, PartialEq, Eq, Structural, Debug)]
pub struct SessionLayer {
    pub session: u64,
    pub layer: usize,
}

/// The session of a process and the layer of its memory, where it has both.
pub open spec fn session_of(
    context: &Context,
    kernel: &Module,
    physical: Seq<char>,
    process: Object,
) -> Option<SessionLayer> {
    match (context.layer_of(process, physical), context.member_pointer(process, "Session")) {
        (Some(layer), Some(address)) => match context.object(
            context.get_type(kernel.table, "_MM_SESSION_SPACE"),
            kernel.layer,
            address,
        ) {
            Some(space) => match context.member_u64(space, "SessionId") {
                Some(session) => Some(SessionLayer { session, layer }),
                None => None,
            },
            None => None,
        },
        _ => None,
    }
}

fn find_session(context: &Context, kernel: &Module, physical: &str, process: Object) -> (found:
    Option<SessionLayer>)
    ensures
        found == session_of(context, kernel, physical@, process),
{
    match (context.address_space(process, physical), context.member_pointer(process, "Session")) {
        (Some(layer), Some(address)) => match context.object(
            context.get_type(kernel.table, "_MM_SESSION_SPACE"),
            kernel.layer,
            address,
        ) {
            Some(space) => match context.member_u64(space, "SessionId") {
                Some(session) => Some(SessionLayer { session, layer }),
                None => None,
            },
            None => None,
        },
        _ => None,
    }
}

/// Whether a session is among some.
pub open spec fn knows_session(sessions: Seq<SessionLayer>, session: u64) -> bool {
    exists|i: int| 0 <= i < sessions.len() && (#[trigger] sessions[i]).session == session
}

/// One layer per session of some processes, in the order the sessions were
/// first seen.
pub open spec fn sessions_among(
    context: &Context,
    kernel: &Module,
    physical: Seq<char>,
    processes: Seq<Object>,
) -> Seq<SessionLayer>
    decreases processes.len(),
{
    if processes.len() == 0 {
        Seq::empty()
    } else {
        let before = sessions_among(context, kernel, physical, processes.drop_last());
        match session_of(context, kernel, physical, processes.last()) {
            Some(found) if !knows_session(before, found.session) => before.push(found),
            _ => before,
        }
    }
}

/// One layer per session, in the order the sessions were first seen.
pub open spec fn sessions(context: &Context, kernel: &Module, physical: Seq<char>) -> Seq<
    SessionLayer,
> {
    match symbols::windows::listed_processes(context, kernel) {
        Some(processes) => sessions_among(context, kernel, physical, processes),
        None => Seq::empty(),
    }
}

fn is_known_session(sessions: &Vec<SessionLayer>, session: u64) -> (known: bool)
    ensures
        known == knows_session(sessions@, session),
{
    for i in 0..sessions.len()
        invariant
            forall|j: int| 0 <= j < i ==> (#[trigger] sessions@[j]).session != session,
    {
        if sessions[i].session == session {
            return true;
        }
    }
    false
}

/// One virtual layer per session, in the order the sessions were first seen.
///
/// Several plugins have to read memory that only exists inside a session, and
/// any process of that session will do to reach it.
pub fn session_layers(context: &Context, kernel: &Module, physical: &str) -> (found: Vec<
    SessionLayer,
>)
    ensures
        found@ == sessions(context, kernel, physical@),
{
    let mut found: Vec<SessionLayer> = Vec::new();
    if let Some(processes) = list_processes(context, kernel) {
        for i in 0..processes.len()
            invariant
                found@ == sessions_among(context, kernel, physical@, processes@.take(i as int)),
        {
            assert(processes@.take(i + 1).drop_last() =~= processes@.take(i as int));
            if let Some(session) = find_session(context, kernel, physical, processes[i]) {
                if !is_known_session(&found, session.session) {
                    found.push(session);
                }
            }
        }
        assert(processes@.take(processes@.len() as int) =~= processes@);
    }
    found
}

/// No session is listed twice.
pub proof fn law_sessions_are_different(
    context: &Context,
    kernel: &Module,
    physical: Seq<char>,
    processes: Seq<Object>,
)
    ensures
        forall|i: int, j: int|
            0 <= i < j < sessions_among(context, kernel, physical, processes).len()
                ==> #[trigger] sessions_among(context, kernel, physical, processes)[i].session
                != #[trigger] sessions_among(context, kernel, physical, processes)[j].session,
    decreases processes.len(),
{
    if processes.len() > 0 {
        law_sessions_are_different(context, kernel, physical, processes.drop_last());
        let before = sessions_among(context, kernel, physical, processes.drop_last());
        let after = sessions_among(context, kernel, physical, processes);
        assert forall|i: int, j: int| 0 <= i < j < after.len() implies #[trigger] after[i].session
            != #[trigger] after[j].session by {
            if j < before.len() {
                assert(before[i].session != before[j].session);
            } else {
                assert(after[i] == before[i]);
            }
        }
    }
}

/// The first session, from a place on, that can see an address.
pub open spec fn viable_from(
    context: &Context,
    sessions: Seq<SessionLayer>,
    address: u64,
    from: int,
) -> Option<usize>
    decreases sessions.len() - from,
{
    if from < 0 || from >= sessions.len() {
        None
    } else if context.is_valid(sessions[from].layer, address, 1) {
        Some(sessions[from].layer)
    } else {
        viable_from(context, sessions, address, from + 1)
    }
}

/// The layer of the first session that can see an address.
pub fn viable_session(context: &Context, sessions: &Vec<SessionLayer>, address: u64) -> (layer:
    Option<usize>)
    ensures
        layer == viable_from(context, sessions@, address, 0),
{
    let mut i: usize = 0;
    while i < sessions.len()
        invariant
            i <= sessions@.len(),
            viable_from(context, sessions@, address, 0) == viable_from(
                context,
                sessions@,
                address,
                i as int,
            ),
        decreases sessions@.len() - i,
    {
        if context.is_valid(sessions[i].layer, address, 1) {
            return Some(sessions[i].layer);
        }
        i = i + 1;
    }
    None
}

pub open spec fn spec_kernel_space_start(context: &Context, kernel: &Module) -> u64 {
    (match if context.pointer_size(kernel) == 8 {
        context.typed_symbol(kernel, "MmSystemRangeStart", "unsigned long long")
    } else {
        context.typed_symbol(kernel, "MmSystemRangeStart", "unsigned long")
    } {
        Some(word) => match context.as_u64(word) {
            Some(start) => start,
            None => default_start(context.pointer_size(kernel)),
        },
        None => default_start(context.pointer_size(kernel)),
    }) & context.address_mask(kernel.layer)
}

/// Where kernel space begins on an architecture, by the size of its pointers.
#[verifier::allow_in_spec]
pub fn default_start(pointer_size: u64) -> (start: u64)
    returns
        (if pointer_size == 8 {
            0xffff_8000_0000_0000u64
        } else {
            0x8000_0000u64
        }),
{
    if pointer_size == 8 {
        0xffff_8000_0000_0000u64
    } else {
        0x8000_0000u64
    }
}

/// Where kernel space begins, which is what tells a real pointer from a
/// smeared one.
///
/// The kernel states where its own space starts. The architectural value
/// stands in when that word cannot be read.
#[verifier::when_used_as_spec(spec_kernel_space_start)]
pub fn kernel_space_start(context: &Context, kernel: &Module) -> (start: u64)
    ensures
        start == spec_kernel_space_start(context, kernel),
{
    let size: u64 = context.pointer_size(kernel);
    let word = if size == 8 {
        context.typed_symbol(kernel, "MmSystemRangeStart", "unsigned long long")
    } else {
        context.typed_symbol(kernel, "MmSystemRangeStart", "unsigned long")
    };
    let start: u64 = match word {
        Some(word) => match context.as_u64(word) {
            Some(start) => start,
            None => default_start(size),
        },
        None => default_start(size),
    };
    start & context.address_mask(kernel.layer)
}

/// Whether a module is one of those asked for. One whose base or name cannot
/// be read is not held against them.
pub open spec fn is_wanted(context: &Context, config: &Configuration, entry: Object) -> bool {
    (match (config.int_of("base"@), context.member_pointer(entry, "DllBase")) {
        (Some(wanted), Some(base)) => wanted as u64 == base,
        _ => true,
    }) && (match (config.text_of("name"@), context.member_unicode_of(entry, "BaseDllName")) {
        (Some(wanted), Some(name)) => text::holds(name, wanted),
        _ => true,
    })
}

/// The report once a module's image is kept beside it, and what to say of it.
pub open spec fn module_dumped(
    context: &Context,
    sessions: Seq<SessionLayer>,
    entry: Object,
    base: u64,
    table: Table,
) -> (Table, Seq<char>) {
    match viable_from(context, sessions, base, 0) {
        Some(layer) => {
            let kept = plugins::windows::dlllist::entry_dumped(
                context,
                layer,
                entry,
                base,
                Seq::empty(),
                table,
            );
            (
                kept.0,
                match kept.1 {
                    Some(name) => name,
                    None => "Error outputting file"@,
                },
            )
        },
        None => (
            table,
            "Cannot find a viable session layer for "@ + text::hex_text(base as nat),
        ),
    }
}

/// Write one module's image out, through a session that can see it.
pub fn dump_module(
    context: &Context,
    sessions: &Vec<SessionLayer>,
    entry: Object,
    base: u64,
    grid: &mut TreeGrid,
) -> (said: String)
    ensures
        (final(grid)@, said@) == module_dumped(context, sessions@, entry, base, old(grid)@),
{
    match viable_session(context, sessions, base) {
        Some(layer) => {
            let prefix = String::new();
            match dump_ldr_entry(context, layer, entry, base, &prefix, grid) {
                Some(name) => name,
                None => "Error outputting file".to_owned(),
            }
        },
        None => {
            let mut said = "Cannot find a viable session layer for ".to_owned();
            said.append(&hexadecimal(base));
            said
        },
    }
}

/// What the row of a module says.
pub open spec fn module_cells(context: &Context, entry: Object, file_output: Seq<char>) -> Seq<Cell> {
    seq![
        Cell::hex(entry.offset),
        Cell::hex_or_unreadable(context.member_pointer(entry, "DllBase")),
        Cell::hex_or_unreadable(context.member_u64(entry, "SizeOfImage")),
        Cell::text_or_unreadable(context.member_unicode_of(entry, "BaseDllName")),
        Cell::text_or_unreadable(context.member_unicode_of(entry, "FullDllName")),
        Cell::Text(file_output),
    ]
}

/// The report once a module is in it, if it is one of those asked for.
pub open spec fn with_module(
    context: &Context,
    config: &Configuration,
    sessions: Seq<SessionLayer>,
    entry: Object,
    table: Table,
) -> Table {
    if !is_wanted(context, config, entry) {
        table
    } else if !config.flag("dump"@) {
        table.push(0, module_cells(context, entry, "Disabled"@))
    } else {
        match context.member_pointer(entry, "DllBase") {
            Some(base) => {
                let kept = module_dumped(context, sessions, entry, base, table);
                kept.0.push(0, module_cells(context, entry, kept.1))
            },
            None => table.push(0, module_cells(context, entry, "Error outputting file"@)),
        }
    }
}

/// The report once the first of some modules are in it.
pub open spec fn with_modules(
    context: &Context,
    config: &Configuration,
    sessions: Seq<SessionLayer>,
    entries: Seq<Object>,
    count: int,
) -> Table
    decreases count,
{
    if count <= 0 {
        Table::empty(module_headings())
    } else {
        with_module(
            context,
            config,
            sessions,
            entries[count - 1],
            with_modules(context, config, sessions, entries, count - 1),
        )
    }
}

fn module_row(context: &Context, entry: Object, file_output: String) -> (row: Row)
    ensures
        row@ == module_cells(context, entry, file_output@),
{
    Row::new().with(Value::hex(entry.offset)).with(
        Value::hex_or_unreadable(context.member_pointer(entry, "DllBase")),
    ).with(Value::hex_or_unreadable(context.member_u64(entry, "SizeOfImage"))).with(
        Value::text_or_unreadable(&context.member_unicode(entry, "BaseDllName")),
    ).with(Value::text_or_unreadable(&context.member_unicode(entry, "FullDllName"))).with(
        Value::String(file_output),
    )
}

fn is_asked_for(context: &Context, config: &Configuration, entry: Object) -> (wanted: bool)
    ensures
        wanted == is_wanted(context, config, entry),
{
    let right_base = match (config.get_int("base"), context.member_pointer(entry, "DllBase")) {
        (Some(wanted), Some(base)) => wanted as u64 == base,
        _ => true,
    };
    let right_name = match (
        config.get_string("name"),
        context.member_unicode(entry, "BaseDllName"),
    ) {
        (Some(wanted), Some(name)) => contains(&name, &wanted),
        _ => true,
    };
    right_base && right_name
}

fn add_module(
    context: &Context,
    config: &Configuration,
    sessions: &Vec<SessionLayer>,
    entry: Object,
    grid: &mut TreeGrid,
)
    ensures
        final(grid)@ == with_module(context, config, sessions@, entry, old(grid)@),
{
    if is_asked_for(context, config, entry) {
        let file_output = if config.is_set("dump") {
            match context.member_pointer(entry, "DllBase") {
                Some(base) => dump_module(context, sessions, entry, base, grid),
                None => "Error outputting file".to_owned(),
            }
        } else {
            "Disabled".to_owned()
        };
        grid.push(0, module_row(context, entry, file_output));
    }
}

/// The report of some module entries. The sessions are only needed to read a
/// module out, so they are not gathered for a plain listing.
pub open spec fn module_report(
    context: &Context,
    kernel: &Module,
    config: &Configuration,
    entries: Seq<Object>,
) -> Table {
    with_modules(
        context,
        config,
        if config.flag("dump"@) {
            sessions(context, kernel, plugins::windows::physical_name(config))
        } else {
            Seq::empty()
        },
        entries,
        entries.len() as int,
    )
}

/// Report a set of module entries, extracting each one if asked to.
pub fn report_modules(
    context: &Context,
    kernel: &Module,
    config: &Configuration,
    entries: Vec<Object>,
) -> (grid: TreeGrid)
    ensures
        grid@ == module_report(context, kernel, config, entries@),
{
    let sessions = if config.is_set("dump") {
        session_layers(context, kernel, &physical_layer(config))
    } else {
        Vec::new()
    };
    let mut grid = TreeGrid::new(module_columns());
    for i in 0..entries.len()
        invariant
            grid@ == with_modules(context, config, sessions@, entries@, i as int),
    {
        add_module(context, config, &sessions, entries[i], &mut grid);
    }
    grid
}

impl Plugin for Modules {
    open spec fn named(&self) -> Seq<char> {
        "windows.modules.Modules"@
    }

    open spec fn described(&self) -> Seq<char> {
        "Lists the loaded kernel modules."@
    }

    open spec fn needs(&self) -> Seq<RequirementView> {
        module_needs()
    }

    open spec fn headings(&self) -> Seq<Column> {
        module_headings()
    }

    open spec fn system(&self) -> OperatingSystem {
        OperatingSystem::Windows
    }

    open spec fn report(&self, context: &Context, config: &Configuration) -> Result<Table, Failure> {
        match plugins::windows::kernel_of(context, config) {
            Some(kernel) => match listed_modules(context, &kernel) {
                Some(entries) => Ok(module_report(context, &kernel, config, entries)),
                None => Err(Failure::Unavailable),
            },
            None => Err(plugins::windows::no_kernel()),
        }
    }

    fn name(&self) -> (name: &'static str) {
        "windows.modules.Modules"
    }

    fn description(&self) -> (description: &'static str) {
        "Lists the loaded kernel modules."
    }

    fn requirements(&self) -> (requirements: Vec<Requirement>) {
        module_requirements()
    }

    fn operating_system(&self) -> (system: OperatingSystem) {
        OperatingSystem::Windows
    }

    fn columns(&self) -> (columns: Vec<Column>) {
        module_columns()
    }

    fn epilog(&self) -> (epilog: Option<&'static str>) {
        None
    }

    fn timeline(&self, context: &Context, config: &Configuration) -> (timeline: Option<
        plugins::Timeline,
    >) {
        None
    }

    fn needs_kernel(&self) -> (needed: bool) {
        false
    }

    fn run(&self, context: &Context, config: &Configuration) -> (result: Result<TreeGrid, VolatilityError>) {
        let kernel = kernel_module(context, config)?;
        let entries = list_modules(context, kernel)?;
        Ok(report_modules(context, kernel, config, entries))
    }
}

impl Plugin for ModScan {
    open spec fn named(&self) -> Seq<char> {
        "windows.modscan.ModScan"@
    }

    open spec fn described(&self) -> Seq<char> {
        "Scans for modules present in a particular windows memory image."@
    }

    open spec fn needs(&self) -> Seq<RequirementView> {
        module_needs()
    }

    open spec fn headings(&self) -> Seq<Column> {
        module_headings()
    }

    open spec fn system(&self) -> OperatingSystem {
        OperatingSystem::Windows
    }

    open spec fn report(&self, context: &Context, config: &Configuration) -> Result<Table, Failure> {
        match plugins::windows::kernel_of(context, config) {
            Some(kernel) => match symbols::windows::scanned_tags(context, seq![MODULE_TAG]) {
                Some(hits) => Ok(
                    module_report(
                        context,
                        &kernel,
                        config,
                        plugins::windows::psscan::objects_of(hits),
                    ),
                ),
                None => Err(Failure::Unavailable),
            },
            None => Err(plugins::windows::no_kernel()),
        }
    }

    fn name(&self) -> (name: &'static str) {
        "windows.modscan.ModScan"
    }

    fn description(&self) -> (description: &'static str) {
        "Scans for modules present in a particular windows memory image."
    }

    fn requirements(&self) -> (requirements: Vec<Requirement>) {
        module_requirements()
    }

    fn operating_system(&self) -> (system: OperatingSystem) {
        OperatingSystem::Windows
    }

    fn columns(&self) -> (columns: Vec<Column>) {
        module_columns()
    }

    fn epilog(&self) -> (epilog: Option<&'static str>) {
        None
    }

    fn timeline(&self, context: &Context, config: &Configuration) -> (timeline: Option<
        plugins::Timeline,
    >) {
        None
    }

    fn needs_kernel(&self) -> (needed: bool) {
        false
    }

    fn run(&self, context: &Context, config: &Configuration) -> (result: Result<TreeGrid, VolatilityError>) {
        let kernel = kernel_module(context, config)?;
        // A module entry carries its own pool tag, so one that has been
        // unlinked from the kernel's list is still there to be found.
        let tags: [u32; 1] = [MODULE_TAG];
        assert(tags@ =~= seq![MODULE_TAG]);
        let entries = scan_objects(context, &tags)?;
        Ok(report_modules(context, kernel, config, entries))
    }
}

} // verus!
