//! Find event-tracing functions that were patched into silence.
//!
//! A process can stop its own telemetry by overwriting the first bytes of the
//! functions that log it, so that they return or jump before doing anything. The
//! opening bytes of each such function are compared with the usual ways of doing
//! this.

use crate::config::Configuration;
use crate::context::{self, word_of, Context, Module, Object};
use crate::error::{Failure, VolatilityError};
use crate::lists::{self, walk_list};
use crate::plugins::{self, OperatingSystem, Plugin, Requirement, RequirementView};
use crate::plugins::windows::{chosen_processes, kernel_module, physical_layer};
use crate::renderers::{Cell, Column, ColumnType, Row, Table, TreeGrid, Value};
use crate::symbols::windows::Export;
use crate::text::{self, hexadecimal, same_ignoring_case, same_text};
use vstd::prelude::*;

verus! {

/// Finds event-tracing functions that were patched into silence.
pub struct EtwPatch;

/// Whether a module exports logging functions: `ntdll.dll` and `advapi32.dll` do,
/// whatever the case of their names.
pub open spec fn is_watched_module(name: Seq<char>) -> bool {
    text::lower(name) == text::lower("ntdll.dll"@) || text::lower(name) == text::lower(
        "advapi32.dll"@,
    )
}

fn watches_module(name: &str) -> (watched: bool)
    ensures
        watched == is_watched_module(name@),
{
    same_ignoring_case(name, "ntdll.dll") || same_ignoring_case(name, "advapi32.dll")
}

/// How many opening bytes to inspect.
pub const PROLOGUE_BYTES: usize = 8;

/// The most of a module that is read.
pub const MOST_OF_MODULE: u64 = 0x400000;

/// Whether a logging function is worth checking.
pub open spec fn is_watched(name: Seq<char>) -> bool {
    name == "EtwEventWrite"@ || name == "EtwEventWriteFull"@ || name == "EtwEventWriteEx"@ || name
        == "NtTraceEvent"@ || name == "EtwNotificationRegister"@
}

fn watches(name: &str) -> (watched: bool)
    ensures
        watched == is_watched(name@),
{
    same_text(name, "EtwEventWrite") || same_text(name, "EtwEventWriteFull") || same_text(
        name,
        "EtwEventWriteEx",
    ) || same_text(name, "NtTraceEvent") || same_text(name, "EtwNotificationRegister")
}

/// What a prologue was replaced with. A bare RET, or one that pops arguments,
/// returns before doing anything; `xor eax, eax` followed by a return reports
/// success without logging; a jump at the very first byte redirects the function
/// wholesale. An intact function is the normal case and not a finding.
pub open spec fn patch_of(prologue: Seq<u8>) -> Option<Seq<char>> {
    if prologue.len() == 0 {
        None
    } else if prologue[0] == 0xc3 {
        Some("ret"@)
    } else if prologue[0] == 0xc2 {
        Some("ret "@ + text::hex_text(context::word(prologue.subrange(1, 3)) as nat))
    } else if (prologue[0] == 0x33 || prologue[0] == 0x31) && prologue.len() > 2 && prologue[2]
        == 0xc3 {
        Some("xor eax, eax; ret"@)
    } else if prologue[0] == 0xe9 {
        Some("jmp"@)
    } else if prologue[0] == 0xeb {
        Some("jmp short"@)
    } else {
        None
    }
}

/// Recognise a prologue that has been replaced with an early return.
///
/// Returns `None` for an intact function, which is the normal case and not a
/// finding.
pub fn patched_opcode(prologue: &[u8]) -> (found: Option<String>)
    requires
        prologue@.len() > 0 && prologue@[0] == 0xc2 ==> prologue@.len() >= 3,
    ensures
        text::maybe_text(found) == patch_of(prologue@),
{
    if prologue.len() == 0 {
        None
    } else if prologue[0] == 0xc3 {
        Some("ret".to_owned())
    } else if prologue[0] == 0xc2 {
        let mut text = "ret ".to_owned();
        text.append(&hexadecimal(word_of(vstd::slice::slice_subrange(prologue, 1, 3))));
        Some(text)
    } else if (prologue[0] == 0x33 || prologue[0] == 0x31) && prologue.len() > 2 && prologue[2]
        == 0xc3 {
        Some("xor eax, eax; ret".to_owned())
    } else if prologue[0] == 0xe9 {
        Some("jmp".to_owned())
    } else if prologue[0] == 0xeb {
        Some("jmp short".to_owned())
    } else {
        None
    }
}

/// The row of an exported function, if it is watched and its prologue in the
/// module's bytes was replaced.
pub open spec fn finding(
    pid: u64,
    process: Seq<char>,
    module: Seq<char>,
    base: u64,
    image: Seq<u8>,
    export: Export,
) -> Option<Seq<Cell>> {
    if is_watched(export.name@) && export.address + PROLOGUE_BYTES <= image.len() {
        match patch_of(
            image.subrange(export.address as int, export.address + PROLOGUE_BYTES as int),
        ) {
            Some(opcode) => Some(
                seq![
                    Cell::integer(pid as i64),
                    Cell::Text(process),
                    Cell::Text(module),
                    Cell::Text(export.name@),
                    Cell::hex(base.wrapping_add(export.address as u64)),
                    Cell::Text(opcode),
                ],
            ),
            None => None,
        }
    } else {
        None
    }
}

fn find_patch(pid: u64, process: &str, module: &str, base: u64, image: &Vec<u8>, export: &Export) -> (
    row: Option<Row>)
    ensures
        match row {
            Some(row) => finding(pid, process@, module@, base, image@, *export) == Some(row@),
            None => finding(pid, process@, module@, base, image@, *export) is None,
        },
{
    if !watches(&export.name) {
        return None;
    }
    let total: usize = image.len();
    if total < PROLOGUE_BYTES || export.address as u64 > (total - PROLOGUE_BYTES) as u64 {
        return None;
    }
    let start: usize = export.address as usize;
    match patched_opcode(
        vstd::slice::slice_subrange(image.as_slice(), start, start + PROLOGUE_BYTES),
    ) {
        Some(opcode) => {
            let row = Row::new().with(Value::integer(pid as i64)).with(
                Value::string(process),
            ).with(Value::string(module)).with(Value::string(&export.name)).with(
                Value::hex(base.wrapping_add(export.address as u64)),
            ).with(Value::String(opcode));
            assert(finding(pid, process@, module@, base, image@, *export) == Some(row@));
            Some(row)
        },
        None => None,
    }
}

/// A report with the findings among the first of a module's exports.
pub open spec fn with_exports(
    table: Table,
    pid: u64,
    process: Seq<char>,
    module: Seq<char>,
    base: u64,
    image: Seq<u8>,
    exports: Seq<Export>,
    count: int,
) -> Table
    decreases count,
{
    if count <= 0 {
        table
    } else {
        let before = with_exports(table, pid, process, module, base, image, exports, count - 1);
        match finding(pid, process, module, base, image, exports[count - 1]) {
            Some(row) => before.push(0, row),
            None => before,
        }
    }
}

/// How much of a module is read.
pub open spec fn spec_read_size(context: &Context, entry: Object) -> usize {
    match context.member_u64(entry, "SizeOfImage") {
        Some(size) => if size > MOST_OF_MODULE {
            MOST_OF_MODULE as usize
        } else {
            size as usize
        },
        None => 0,
    }
}

/// How much of a module is read.
#[verifier::when_used_as_spec(spec_read_size)]
pub fn read_size(context: &Context, entry: Object) -> (size: usize)
    ensures
        size == spec_read_size(context, entry),
{
    match context.member_u64(entry, "SizeOfImage") {
        Some(size) => if size > MOST_OF_MODULE {
            MOST_OF_MODULE as usize
        } else {
            size as usize
        },
        None => 0,
    }
}

/// A report with the findings in one module of a process. Only the exports that the
/// bytes read of it name are known.
#[verifier::opaque]
pub open spec fn with_module(
    context: &Context,
    layer: usize,
    table: Table,
    pid: u64,
    process: Seq<char>,
    entry: Object,
) -> Table {
    match (
        context.member_unicode_of(entry, "BaseDllName"),
        context.member_pointer(entry, "DllBase"),
    ) {
        (Some(module), Some(base)) => if is_watched_module(module) {
            match (
                context.bytes_of(layer, base, read_size(context, entry), true),
                context.exports_in(layer, base, read_size(context, entry)),
            ) {
                (Some(image), Some(exports)) => with_exports(
                    table,
                    pid,
                    process,
                    module,
                    base,
                    image,
                    exports,
                    exports.len() as int,
                ),
                _ => table,
            }
        } else {
            table
        },
        _ => table,
    }
}

fn add_module(
    context: &Context,
    layer: usize,
    grid: &mut TreeGrid,
    pid: u64,
    process: &str,
    entry: Object,
)
    ensures
        final(grid)@ == with_module(context, layer, old(grid)@, pid, process@, entry),
{
    reveal(with_module);
    let ghost before = grid@;
    if let (Some(module), Some(base)) = (
        context.member_unicode(entry, "BaseDllName"),
        context.member_pointer(entry, "DllBase"),
    ) {
        if watches_module(&module) {
            let size: usize = read_size(context, entry);
            if let (Some(image), Some(exports)) = (
                context.read(layer, base, size, true),
                context.exports(layer, base, size),
            ) {
                for i in 0..exports.len()
                    invariant
                        grid@ == with_exports(
                            before,
                            pid,
                            process@,
                            module@,
                            base,
                            image@,
                            exports@,
                            i as int,
                        ),
                {
                    if let Some(row) = find_patch(pid, process, &module, base, &image, &exports[i]) {
                        grid.push(0, row);
                    }
                }
            }
        }
    }
}

/// A report with the findings in the first of a process's modules.
pub open spec fn with_modules(
    context: &Context,
    layer: usize,
    table: Table,
    pid: u64,
    process: Seq<char>,
    entries: Seq<Object>,
    count: int,
) -> Table
    decreases count,
{
    if count <= 0 {
        table
    } else {
        with_module(
            context,
            layer,
            with_modules(context, layer, table, pid, process, entries, count - 1),
            pid,
            process,
            entries[count - 1],
        )
    }
}

/// The modules that a process's environment block lists.
pub open spec fn modules_of(context: &Context, kernel: &Module, process: Object, layer: usize) -> Seq<
    Object,
> {
    match context.peb(process, layer) {
        Some(peb) => match context.member_target(peb, "Ldr") {
            Some(ldr) => match context.member(ldr, "InLoadOrderModuleList") {
                Some(head) => match lists::listed(
                    context,
                    head,
                    context.get_type(kernel.table, "_LDR_DATA_TABLE_ENTRY"),
                    "InLoadOrderLinks",
                    true,
                ) {
                    Some(entries) => entries,
                    None => Seq::empty(),
                },
                None => Seq::empty(),
            },
            None => Seq::empty(),
        },
        None => Seq::empty(),
    }
}

/// The modules that a process's environment block lists.
pub fn list_process_modules(context: &Context, kernel: &Module, process: Object, layer: usize) -> (
    entries: Vec<Object>)
    ensures
        entries@ == modules_of(context, kernel, process, layer),
{
    match context.peb(process, layer) {
        Some(peb) => match context.member_target(peb, "Ldr") {
            Some(ldr) => match context.member(ldr, "InLoadOrderModuleList") {
                Some(head) => match walk_list(
                    context,
                    head,
                    context.get_type(kernel.table, "_LDR_DATA_TABLE_ENTRY"),
                    "InLoadOrderLinks",
                    true,
                ) {
                    Some(entries) => entries,
                    None => Vec::new(),
                },
                None => Vec::new(),
            },
            None => Vec::new(),
        },
        None => Vec::new(),
    }
}

/// A report with the findings in one process.
#[verifier::opaque]
pub open spec fn with_process(
    context: &Context,
    kernel: &Module,
    physical: Seq<char>,
    table: Table,
    process: Object,
) -> Table {
    match (context.pid(process), context.layer_of(process, physical)) {
        (Some(pid), Some(layer)) => {
            let entries = modules_of(context, kernel, process, layer);
            with_modules(
                context,
                layer,
                table,
                pid,
                context.image_name_or_empty(process),
                entries,
                entries.len() as int,
            )
        },
        _ => table,
    }
}

fn add_process(
    context: &Context,
    kernel: &Module,
    physical: &str,
    grid: &mut TreeGrid,
    process: Object,
)
    ensures
        final(grid)@ == with_process(context, kernel, physical@, old(grid)@, process),
{
    reveal(with_process);
    let ghost before = grid@;
    let name = context.image_file_name_or_empty(process);
    if let (Some(pid), Some(layer)) = (
        context.pid(process),
        context.address_space(process, physical),
    ) {
        let entries = list_process_modules(context, kernel, process, layer);
        for i in 0..entries.len()
            invariant
                grid@ == with_modules(
                    context,
                    layer,
                    before,
                    pid,
                    name@,
                    entries@,
                    i as int,
                ),
        {
            add_module(context, layer, grid, pid, &name, entries[i]);
        }
    }
}

/// The report on the first of some processes.
pub open spec fn reported(
    context: &Context,
    kernel: &Module,
    physical: Seq<char>,
    headings: Seq<Column>,
    processes: Seq<Object>,
    count: int,
) -> Table
    decreases count,
{
    if count <= 0 {
        Table::empty(headings)
    } else {
        with_process(
            context,
            kernel,
            physical,
            reported(context, kernel, physical, headings, processes, count - 1),
            processes[count - 1],
        )
    }
}

impl Plugin for EtwPatch {
    open spec fn named(&self) -> Seq<char> {
        "windows.etwpatch.EtwPatch"@
    }

    open spec fn described(&self) -> Seq<char> {
        "Identifies ETW (Event Tracing for Windows) patching techniques used by malware to evade detection."@
    }

    open spec fn needs(&self) -> Seq<RequirementView> {
        seq![RequirementView::kernel(), RequirementView::pid_filter("Filter on specific process IDs"@)]
    }

    open spec fn headings(&self) -> Seq<Column> {
        seq![
            Column::integer("PID"),
            Column::string("Process"),
            Column::string("DLL"),
            Column::string("Function"),
            Column::new("Offset", ColumnType::UInt),
            Column::string("Opcode"),
        ]
    }

    open spec fn system(&self) -> OperatingSystem {
        OperatingSystem::Windows
    }

    open spec fn report(&self, context: &Context, config: &Configuration) -> Result<Table, Failure> {
        match plugins::windows::kernel_of(context, config) {
            Some(kernel) => match plugins::windows::chosen(context, &kernel, config) {
                Some(processes) => Ok(
                    reported(
                        context,
                        &kernel,
                        plugins::windows::physical_name(config),
                        self.headings(),
                        processes,
                        processes.len() as int,
                    ),
                ),
                None => Err(Failure::Unavailable),
            },
            None => Err(plugins::windows::no_kernel()),
        }
    }

    open spec fn note(&self) -> Option<Seq<char>> {
        Some(
            "This plugin examines the first opcode of key ETW functions in ntdll.dll and advapi32.dll to detect common ETW bypass techniques such as return pointer manipulation (RET) or function redirection (JMP). Attackers often patch these functions to prevent security tools from receiving telemetry about process execution, API calls, and other system events."@,
        )
    }

    fn name(&self) -> (name: &'static str) {
        "windows.etwpatch.EtwPatch"
    }

    fn description(&self) -> (description: &'static str) {
        "Identifies ETW (Event Tracing for Windows) patching techniques used by malware to evade detection."
    }

    fn requirements(&self) -> (requirements: Vec<Requirement>) {
        vec![Requirement::kernel(), Requirement::pid_filter("Filter on specific process IDs")]
    }

    fn operating_system(&self) -> (system: OperatingSystem) {
        OperatingSystem::Windows
    }

    fn columns(&self) -> (columns: Vec<Column>) {
        vec![
            Column::integer("PID"),
            Column::string("Process"),
            Column::string("DLL"),
            Column::string("Function"),
            Column::new("Offset", ColumnType::UInt),
            Column::string("Opcode"),
        ]
    }

    fn epilog(&self) -> (epilog: Option<&'static str>) {
        Some(
            "This plugin examines the first opcode of key ETW functions in ntdll.dll and advapi32.dll to detect common ETW bypass techniques such as return pointer manipulation (RET) or function redirection (JMP). Attackers often patch these functions to prevent security tools from receiving telemetry about process execution, API calls, and other system events.",
        )
    }

    fn timeline(&self, context: &Context, config: &Configuration) -> (timeline: Option<
        plugins::Timeline,
    >) {
        None
    }

    fn needs_kernel(&self) -> (needed: bool) {
        false
    }

    fn run(&self, context: &Context, config: &Configuration) -> (result: Result<TreeGrid, VolatilityError>) {
        let kernel = kernel_module(context, config)?;
        let physical = physical_layer(config);
        let processes = chosen_processes(context, kernel, config)?;
        let mut grid = TreeGrid::new(self.columns());
        let ghost headings = self.headings();
        for i in 0..processes.len()
            invariant
                grid@ == reported(context, kernel, physical@, headings, processes@, i as int),
        {
            add_process(context, kernel, &physical, &mut grid, processes[i]);
        }
        Ok(grid)
    }
}

} // verus!
