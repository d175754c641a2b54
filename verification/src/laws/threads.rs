//! Laws on what is looked for inside processes: breakpoints in their threads, logging that
//! was switched off, and the jobs they belong to.

use crate::config::Configuration;
use crate::context::{Context, Module, Object};
use crate::laws::modules::{image_or_empty, wide_head};
use crate::laws::processes::{image_of, number_of, peb_of, place_of, runs_small, session_of};
use crate::laws::{
    adds, cells_of, flat, lemma_adds_both, lemma_adds_none, lemma_adds_one, lemma_flat_adds,
    names_of,
};
use crate::lists::listed;
use crate::plugins::windows::debugregisters::{self, DebugRegisters};
use crate::plugins::windows::etwpatch::{self, EtwPatch};
use crate::plugins::windows::joblinks::{self, JobLinks};
use crate::plugins::windows::{chosen, kernel_of};
use crate::plugins::Plugin;
use crate::renderers::{Cell, Table};
use crate::symbols::windows::{description, listed_processes, Export};
use crate::text::{self, lower};
use vstd::prelude::*;

verus! {

/// The threads that a process links.
pub open spec fn threads_in(context: &Context, kernel: &Module, process: Object) -> Seq<Object> {
    match context.member(process, "ThreadListHead") {
        Some(head) => match listed(
            context,
            head,
            context.get_type(kernel.table, "_ETHREAD"),
            "ThreadListEntry",
            true,
        ) {
            Some(threads) => threads,
            None => Seq::empty(),
        },
        None => Seq::empty(),
    }
}

/// The number of a thread.
pub open spec fn thread_number(context: &Context, thread: Object) -> Option<u64> {
    match context.member(thread, "Cid") {
        Some(identity) => context.member_pointer(identity, "UniqueThread"),
        None => None,
    }
}

/// A register of a thread, or zero where it cannot be read.
pub open spec fn register_of(context: &Context, thread: Object, name: &str) -> u64 {
    match context.member(thread, "Tcb") {
        Some(block) => match context.member_u64(block, name) {
            Some(value) => value,
            None => 0,
        },
        None => 0,
    }
}

/// A name, or that none is known.
pub open spec fn or_unknown(name: Option<Seq<char>>) -> Cell {
    match name {
        Some(name) => Cell::Text(name),
        None => Cell::not_available(),
    }
}

/// What is told of a register: what it holds, and the module and the name that stand there.
/// Nothing stands at zero.
pub open spec fn breakpoint(context: &Context, address: u64) -> Seq<Cell> {
    seq![
        Cell::hex(address),
        if address == 0 {
            Cell::not_applicable()
        } else {
            or_unknown(description(context.windows.code, address).0)
        },
        if address == 0 {
            Cell::not_applicable()
        } else {
            or_unknown(description(context.windows.code, address).1)
        },
    ]
}

/// Whether a thread has breakpoints that are switched on.
pub open spec fn has_breakpoints(context: &Context, thread: Object) -> bool {
    &&& context.member(thread, "Tcb") is Some
    &&& thread_number(context, thread) is Some
    &&& register_of(context, thread, "Dr7") != 0
}

/// What is told of a thread that has breakpoints.
#[verifier::opaque]
pub open spec fn breakpoints_of(context: &Context, process: Object, thread: Object) -> Seq<Cell> {
    seq![
        Cell::Text(image_or_empty(context, process)),
        Cell::integer(number_of(context, process)->0 as i64),
        Cell::integer(thread_number(context, thread)->0 as i64),
        Cell::signed_or_unreadable(
            context.member_i64(context.member(thread, "Tcb")->0, "State"),
        ),
        Cell::integer(register_of(context, thread, "Dr7") as i64),
    ] + breakpoint(context, register_of(context, thread, "Dr0")) + breakpoint(
        context,
        register_of(context, thread, "Dr1"),
    ) + breakpoint(context, register_of(context, thread, "Dr2")) + breakpoint(
        context,
        register_of(context, thread, "Dr3"),
    )
}

proof fn lemma_register(context: &Context, row: Seq<Cell>, address: u64)
    ensures
        debugregisters::with_register(context, row, address) == row + breakpoint(context, address),
{
    reveal(debugregisters::with_register);
    assert(debugregisters::with_register(context, row, address) =~= row + breakpoint(
        context,
        address,
    ));
}

proof fn lemma_thread(context: &Context, process: Object, thread: Object)
    requires
        number_of(context, process) is Some,
    ensures
        debugregisters::thread_row(
            context,
            number_of(context, process)->0,
            context.image_name_or_empty(process),
            thread,
        ) == (if has_breakpoints(context, thread) {
            Some(breakpoints_of(context, process, thread))
        } else {
            None
        }),
{
    reveal(breakpoints_of);
    if has_breakpoints(context, thread) {
        let start = seq![
            Cell::Text(image_or_empty(context, process)),
            Cell::integer(number_of(context, process)->0 as i64),
            Cell::integer(thread_number(context, thread)->0 as i64),
            Cell::signed_or_unreadable(
                context.member_i64(context.member(thread, "Tcb")->0, "State"),
            ),
            Cell::integer(register_of(context, thread, "Dr7") as i64),
        ];
        let given = seq![
            Cell::Text(context.image_name_or_empty(process)),
            Cell::integer(number_of(context, process)->0 as i64),
            Cell::integer(debugregisters::thread_id(context, thread)->0 as i64),
            match debugregisters::thread_state(context, thread) {
                Some(state) => Cell::integer(state),
                None => Cell::unreadable(),
            },
            Cell::integer(
                debugregisters::read_debug_registers(context, thread)->0.control as i64,
            ),
        ];
        assert(given =~= start);
        let first = register_of(context, thread, "Dr0");
        let second = register_of(context, thread, "Dr1");
        let third = register_of(context, thread, "Dr2");
        let fourth = register_of(context, thread, "Dr3");
        let one = start + breakpoint(context, first);
        let two = one + breakpoint(context, second);
        let three = two + breakpoint(context, third);
        lemma_register(context, start, first);
        lemma_register(context, one, second);
        lemma_register(context, two, third);
        lemma_register(context, three, fourth);
    }
}

/// The rows of the threads of a process that have breakpoints.
pub open spec fn parts_of_breakpoints(
    context: &Context,
    process: Object,
    threads: Seq<Object>,
) -> spec_fn(int) -> Seq<Seq<Cell>> {
    |j: int|
        if has_breakpoints(context, threads[j]) {
            seq![breakpoints_of(context, process, threads[j])]
        } else {
            Seq::empty()
        }
}

proof fn lemma_breakpoints(context: &Context, process: Object, threads: Seq<Object>, table: Table)
    requires
        number_of(context, process) is Some,
    ensures
        adds(
            table,
            debugregisters::with_threads(
                context,
                table,
                number_of(context, process)->0,
                context.image_name_or_empty(process),
                threads,
                threads.len() as int,
            ),
            flat(parts_of_breakpoints(context, process, threads), threads.len() as int),
        ),
{
    let steps = |j: int| debugregisters::with_threads(
        context,
        table,
        number_of(context, process)->0,
        context.image_name_or_empty(process),
        threads,
        j,
    );
    let parts = parts_of_breakpoints(context, process, threads);
    assert forall|j: int| 0 <= j < threads.len() implies adds(
        steps(j),
        steps(j + 1),
        #[trigger] parts(j),
    ) by {
        lemma_adds_none(steps(j));
        lemma_thread(context, process, threads[j]);
        lemma_adds_one(steps(j), 0, breakpoints_of(context, process, threads[j]));
    }
    lemma_flat_adds(steps, parts, threads.len() as int);
}

/// The rows of the threads of a process.
#[verifier::opaque]
pub open spec fn told_in_breakpoints_are_reported(
    context: &Context,
    kernel: Module,
    process: Object,
) -> Seq<Seq<Cell>> {
    if number_of(context, process) is Some {
        flat(
            parts_of_breakpoints(context, process, threads_in(context, &kernel, process)),
            threads_in(context, &kernel, process).len() as int,
        )
    } else {
        Seq::empty()
    }
}

proof fn lemma_breakpoints_are_reported(
    context: &Context,
    kernel: Module,
    process: Object,
    table: Table,
)
    ensures
        adds(
            table,
            debugregisters::with_process(context, &kernel, table, process),
            told_in_breakpoints_are_reported(context, kernel, process),
        ),
{
    reveal(told_in_breakpoints_are_reported);
    lemma_adds_none(table);
    reveal(debugregisters::with_process);
    if number_of(context, process) is Some {
        lemma_breakpoints(context, process, threads_in(context, &kernel, process), table);
    }
}
/// What is told of each in turn.
pub open spec fn rows_of_breakpoints_are_reported(
    context: &Context,
    kernel: Module,
    processes: Seq<Object>,
) -> spec_fn(int) -> Seq<Seq<Cell>> {
    |k: int|
        told_in_breakpoints_are_reported(context, kernel, processes[k])
}

/// Every thread of the processes asked for that has breakpoints switched on is reported, each
/// register with what stands where it points.
pub proof fn law_breakpoints_are_reported(
    context: &Context,
    config: &Configuration,
    kernel: Module,
    processes: Seq<Object>,
)
    requires
        kernel_of(context, config) == Some(kernel),
        chosen(context, &kernel, config) == Some(processes),
    ensures
        DebugRegisters.report(context, config) is Ok,
        names_of(DebugRegisters.report(context, config)->Ok_0.columns) == seq![
            "Process"@,
            "PID"@,
            "TID"@,
            "State"@,
            "Dr7"@,
            "Dr0"@,
            "Range0"@,
            "Symbol0"@,
            "Dr1"@,
            "Range1"@,
            "Symbol1"@,
            "Dr2"@,
            "Range2"@,
            "Symbol2"@,
            "Dr3"@,
            "Range3"@,
            "Symbol3"@,
        ],
        cells_of(DebugRegisters.report(context, config)->Ok_0) == flat(
            rows_of_breakpoints_are_reported(context, kernel, processes),
            processes.len() as int,
        ),
{
    let steps = |k: int| debugregisters::reported(
        context,
        &kernel,
        DebugRegisters.headings(),
        processes,
        k,
    );
    let rows = rows_of_breakpoints_are_reported(context, kernel, processes);
    assert forall|k: int| 0 <= k < processes.len() implies adds(
        steps(k),
        steps(k + 1),
        #[trigger] rows(k),
    ) by {
        lemma_adds_none(steps(k));
        lemma_breakpoints_are_reported(context, kernel, processes[k], steps(k));
    }
    lemma_flat_adds(steps, rows, processes.len() as int);
}


/// What a function whose first instruction was replaced begins with.
pub proof fn law_a_replaced_prologue_is_recognised(prologue: Seq<u8>)
    requires
        prologue.len() >= 3,
    ensures
        prologue[0] == 0xc3 ==> etwpatch::patch_of(prologue) == Some("ret"@),
        prologue[0] == 0xc2 ==> etwpatch::patch_of(prologue) == Some(
            "ret "@ + text::hex_text((prologue[1] + 256 * prologue[2]) as nat),
        ),
        (prologue[0] == 0x31 || prologue[0] == 0x33) && prologue[2] == 0xc3 ==> etwpatch::patch_of(
            prologue,
        ) == Some("xor eax, eax; ret"@),
        prologue[0] == 0xe9 ==> etwpatch::patch_of(prologue) == Some("jmp"@),
        prologue[0] == 0xeb ==> etwpatch::patch_of(prologue) == Some("jmp short"@),
        etwpatch::patch_of(prologue) is Some ==> prologue[0] == 0xc3 || prologue[0] == 0xc2
            || prologue[0] == 0xe9 || prologue[0] == 0xeb || ((prologue[0] == 0x31 || prologue[0]
            == 0x33) && prologue[2] == 0xc3),
{
    let pair = prologue.subrange(1, 3);
    assert(pair[0] == prologue[1] && pair[1] == prologue[2]);
}


/// Whether a function is one that logging goes through.
pub open spec fn is_logging(name: Seq<char>) -> bool {
    ||| name == "EtwEventWrite"@
    ||| name == "EtwEventWriteFull"@
    ||| name == "EtwEventWriteEx"@
    ||| name == "NtTraceEvent"@
    ||| name == "EtwNotificationRegister"@
}

/// The first eight bytes of a function in the bytes of its module.
pub open spec fn prologue_of(image: Seq<u8>, export: Export) -> Seq<u8> {
    image.subrange(export.address as int, export.address + 8)
}

/// Whether a function that logging goes through was replaced.
pub open spec fn is_replaced(image: Seq<u8>, export: Export) -> bool {
    &&& is_logging(export.name@)
    &&& export.address + 8 <= image.len()
    &&& etwpatch::patch_of(prologue_of(image, export)) is Some
}

/// The rows of the functions of a module that were replaced.
pub open spec fn parts_of_replaced(
    context: &Context,
    process: Object,
    module: Seq<char>,
    begin: u64,
    image: Seq<u8>,
    exports: Seq<Export>,
) -> spec_fn(int) -> Seq<Seq<Cell>> {
    |j: int|
        if is_replaced(image, exports[j]) {
            seq![
                seq![
                    Cell::integer(number_of(context, process)->0 as i64),
                    Cell::Text(image_or_empty(context, process)),
                    Cell::Text(module),
                    Cell::Text(exports[j].name@),
                    Cell::hex(begin.wrapping_add(exports[j].address as u64)),
                    Cell::Text(etwpatch::patch_of(prologue_of(image, exports[j]))->0),
                ]
            ]
        } else {
            Seq::empty()
        }
}

proof fn lemma_replaced(
    context: &Context,
    process: Object,
    module: Seq<char>,
    begin: u64,
    image: Seq<u8>,
    exports: Seq<Export>,
    table: Table,
)
    ensures
        adds(
            table,
            etwpatch::with_exports(
                table,
                number_of(context, process)->0,
                context.image_name_or_empty(process),
                module,
                begin,
                image,
                exports,
                exports.len() as int,
            ),
            flat(
                parts_of_replaced(context, process, module, begin, image, exports),
                exports.len() as int,
            ),
        ),
{
    let steps = |j: int| etwpatch::with_exports(
        table,
        number_of(context, process)->0,
        context.image_name_or_empty(process),
        module,
        begin,
        image,
        exports,
        j,
    );
    let parts = parts_of_replaced(context, process, module, begin, image, exports);
    assert forall|j: int| 0 <= j < exports.len() implies adds(
        steps(j),
        steps(j + 1),
        #[trigger] parts(j),
    ) by {
        lemma_adds_none(steps(j));
        lemma_adds_one(
            steps(j),
            0,
            seq![
                Cell::integer(number_of(context, process)->0 as i64),
                Cell::Text(image_or_empty(context, process)),
                Cell::Text(module),
                Cell::Text(exports[j].name@),
                Cell::hex(begin.wrapping_add(exports[j].address as u64)),
                Cell::Text(etwpatch::patch_of(prologue_of(image, exports[j]))->0),
            ],
        );
    }
    lemma_flat_adds(steps, parts, exports.len() as int);
}


/// How much of a module is read: all of it, up to 4 MiB.
pub open spec fn read_length(context: &Context, entry: Object) -> usize {
    match context.member_u64(entry, "SizeOfImage") {
        Some(size) => if size > 0x40_0000 {
            0x40_0000
        } else {
            size as usize
        },
        None => 0,
    }
}

/// The rows of one module of a process: only the two libraries that logging goes through have
/// any.
pub open spec fn module_rows(
    context: &Context,
    process: Object,
    layer: usize,
    entry: Object,
) -> Seq<
    Seq<Cell>,
> {
    match (
        context.member_unicode_of(entry, "BaseDllName"),
        context.member_pointer(entry, "DllBase"),
    ) {
        (Some(module), Some(begin)) => if lower(module) == lower("ntdll.dll"@) || lower(module)
            == lower("advapi32.dll"@) {
            match (
                context.bytes_of(layer, begin, read_length(context, entry), true),
                context.exports_in(layer, begin, read_length(context, entry)),
            ) {
                (Some(image), Some(exports)) => flat(
                    parts_of_replaced(context, process, module, begin, image, exports),
                    exports.len() as int,
                ),
                _ => Seq::empty(),
            }
        } else {
            Seq::empty()
        },
        _ => Seq::empty(),
    }
}

proof fn lemma_module_rows(
    context: &Context,
    process: Object,
    layer: usize,
    entry: Object,
    table: Table,
)
    requires
        number_of(context, process) is Some,
    ensures
        adds(
            table,
            etwpatch::with_module(
                context,
                layer,
                table,
                number_of(context, process)->0,
                context.image_name_or_empty(process),
                entry,
            ),
            module_rows(context, process, layer, entry),
        ),
{
    reveal(etwpatch::with_module);
    lemma_adds_none(table);
    if let (Some(module), Some(begin)) = (
        context.member_unicode_of(entry, "BaseDllName"),
        context.member_pointer(entry, "DllBase"),
    ) {
        if let (Some(image), Some(exports)) = (
            context.bytes_of(layer, begin, read_length(context, entry), true),
            context.exports_in(layer, begin, read_length(context, entry)),
        ) {
            lemma_replaced(context, process, module, begin, image, exports, table);
        }
    }
}

/// The rows of the modules of a process.
pub open spec fn parts_of_watched(
    context: &Context,
    process: Object,
    layer: usize,
    entries: Seq<Object>,
) -> spec_fn(int) -> Seq<Seq<Cell>> {
    |j: int|
        module_rows(context, process, layer, entries[j])
}

proof fn lemma_watched(
    context: &Context,
    process: Object,
    layer: usize,
    entries: Seq<Object>,
    table: Table,
)
    requires
        number_of(context, process) is Some,
    ensures
        adds(
            table,
            etwpatch::with_modules(
                context,
                layer,
                table,
                number_of(context, process)->0,
                context.image_name_or_empty(process),
                entries,
                entries.len() as int,
            ),
            flat(parts_of_watched(context, process, layer, entries), entries.len() as int),
        ),
{
    let steps = |j: int| etwpatch::with_modules(
        context,
        layer,
        table,
        number_of(context, process)->0,
        context.image_name_or_empty(process),
        entries,
        j,
    );
    let parts = parts_of_watched(context, process, layer, entries);
    assert forall|j: int| 0 <= j < entries.len() implies adds(
        steps(j),
        steps(j + 1),
        #[trigger] parts(j),
    ) by {
        lemma_adds_none(steps(j));
        lemma_module_rows(context, process, layer, entries[j], steps(j));
    }
    lemma_flat_adds(steps, parts, entries.len() as int);
}


/// The modules that a process links in the order it loaded them.
pub open spec fn linked_modules(
    context: &Context,
    kernel: &Module,
    process: Object,
    layer: usize,
) -> Seq<
    Object,
> {
    match wide_head(context, process, layer, "InLoadOrderModuleList") {
        Some(head) => match listed(
            context,
            head,
            context.get_type(kernel.table, "_LDR_DATA_TABLE_ENTRY"),
            "InLoadOrderLinks",
            true,
        ) {
            Some(entries) => entries,
            None => Seq::empty(),
        },
        None => Seq::empty(),
    }
}

/// The rows of the replaced functions of a process.
#[verifier::opaque]
pub open spec fn told_in_replaced_functions_are_reported(
    context: &Context,
    config: &Configuration,
    kernel: Module,
    process: Object,
) -> Seq<Seq<Cell>> {
    match (
        number_of(context, process),
        context.layer_of(process, config.text_or("physical_layer"@, "base"@)),
    ) {
        (Some(_), Some(layer)) => flat(
            parts_of_watched(
                context,
                process,
                layer,
                linked_modules(context, &kernel, process, layer),
            ),
            linked_modules(context, &kernel, process, layer).len() as int,
        ),
        _ => Seq::empty(),
    }
}

proof fn lemma_replaced_functions_are_reported(
    context: &Context,
    config: &Configuration,
    kernel: Module,
    process: Object,
    table: Table,
)
    ensures
        adds(
            table,
            etwpatch::with_process(
                context,
                &kernel,
                config.text_or("physical_layer"@, "base"@),
                table,
                process,
            ),
            told_in_replaced_functions_are_reported(context, config, kernel, process),
        ),
{
    reveal(told_in_replaced_functions_are_reported);
    lemma_adds_none(table);
    reveal(etwpatch::with_process);
    if let (Some(_), Some(layer)) = (
        number_of(context, process),
        context.layer_of(process, config.text_or("physical_layer"@, "base"@)),
    ) {
        lemma_watched(
            context,
            process,
            layer,
            linked_modules(context, &kernel, process, layer),
            table,
        );
    }
}
/// What is told of each in turn.
pub open spec fn rows_of_replaced_functions_are_reported(
    context: &Context,
    config: &Configuration,
    kernel: Module,
    processes: Seq<Object>,
) -> spec_fn(int) -> Seq<Seq<Cell>> {
    |k: int|
        told_in_replaced_functions_are_reported(context, config, kernel, processes[k])
}

/// In each process that is asked for, every logging function of `ntdll.dll` and `advapi32.dll`
/// whose first instruction was replaced is reported, with where it stands and what it was
/// replaced with.
pub proof fn law_replaced_functions_are_reported(
    context: &Context,
    config: &Configuration,
    kernel: Module,
    processes: Seq<Object>,
)
    requires
        kernel_of(context, config) == Some(kernel),
        chosen(context, &kernel, config) == Some(processes),
    ensures
        EtwPatch.report(context, config) is Ok,
        names_of(EtwPatch.report(context, config)->Ok_0.columns) == seq![
            "PID"@,
            "Process"@,
            "DLL"@,
            "Function"@,
            "Offset"@,
            "Opcode"@,
        ],
        cells_of(EtwPatch.report(context, config)->Ok_0) == flat(
            rows_of_replaced_functions_are_reported(context, config, kernel, processes),
            processes.len() as int,
        ),
{
    let steps = |k: int| etwpatch::reported(
        context,
        &kernel,
        config.text_or("physical_layer"@, "base"@),
        EtwPatch.headings(),
        processes,
        k,
    );
    let rows = rows_of_replaced_functions_are_reported(context, config, kernel, processes);
    assert forall|k: int| 0 <= k < processes.len() implies adds(
        steps(k),
        steps(k + 1),
        #[trigger] rows(k),
    ) by {
        lemma_adds_none(steps(k));
        lemma_replaced_functions_are_reported(context, config, kernel, processes[k], steps(k));
    }
    lemma_flat_adds(steps, rows, processes.len() as int);
}


/// What is told of a process of a job.
#[verifier::opaque]
pub open spec fn job_of(
    context: &Context,
    process: Object,
    place: u64,
    counts: Seq<i64>,
    link: Cell,
    path: Seq<char>,
) -> Seq<Cell> {
    seq![
        Cell::hex(place),
        Cell::text_or_unreadable(image_of(context, process)),
        Cell::integer(number_of(context, process)->0 as i64),
        Cell::integer_or_unreadable(
            context.member_pointer(process, "InheritedFromUniqueProcessId"),
        ),
        session_of(context, process),
        Cell::integer(counts[0]),
        Cell::Bool(runs_small(context, process)),
        Cell::integer(counts[1]),
        Cell::integer(counts[2]),
        Cell::integer(counts[3]),
        link,
        Cell::Text(path),
    ]
}

/// Where a process stands, in the address space that is asked for.
pub open spec fn stands_at(context: &Context, process: Object, physical: bool) -> u64 {
    if physical {
        place_of(context, process)
    } else {
        process.offset
    }
}

/// A process that belongs to a job is reported with the counts that the job keeps, under its
/// own name.
pub proof fn law_a_job_tells_its_counts(
    context: &Context,
    process: Object,
    physical: bool,
    job: Object,
    session: i64,
    total: i64,
    active: i64,
    terminated: i64,
)
    requires
        number_of(context, process) is Some,
        image_of(context, process) is Some,
        context.member_i64(job, "SessionId") == Some(session),
        context.member_i64(job, "TotalProcesses") == Some(total),
        context.member_i64(job, "ActiveProcesses") == Some(active),
        context.member_i64(job, "TotalTerminatedProcesses") == Some(terminated),
    ensures
        names_of(JobLinks.headings()) == seq![
            "Offset(V)"@,
            "Name"@,
            "PID"@,
            "PPID"@,
            "Sess"@,
            "JobSess"@,
            "Wow64"@,
            "Total"@,
            "Active"@,
            "Term"@,
            "JobLink"@,
            "Process"@,
        ],
        joblinks::job_counts(context, job) is Some,
        joblinks::job_row(
            context,
            physical,
            process,
            number_of(context, process)->0,
            image_of(context, process)->0,
            joblinks::job_counts(context, job)->0,
            Cell::not_applicable(),
            "(Original Process)"@,
        ) == job_of(
            context,
            process,
            stands_at(context, process, physical),
            seq![session, total, active, terminated],
            Cell::not_applicable(),
            "(Original Process)"@,
        ),
{
    reveal(job_of);
    let counts = seq![session, total, active, terminated];
    assert(counts[0] == session && counts[1] == total && counts[2] == active && counts[3]
        == terminated);
}

/// The path of the image that a process was started from.
pub open spec fn path_of(context: &Context, user: Seq<char>, process: Object) -> Option<Seq<char>> {
    match context.layer_of(process, user) {
        Some(layer) => match peb_of(context, process, layer) {
            Some(peb) => match context.member_target(peb, "ProcessParameters") {
                Some(parameters) => context.member_unicode_of(parameters, "ImagePathName"),
                None => None,
            },
            None => None,
        },
        None => None,
    }
}

/// What is told of a further member of a job: it goes by the path of its image, and has no
/// counts of its own.
#[verifier::opaque]
pub open spec fn member_of(
    context: &Context,
    user: Seq<char>,
    physical: bool,
    member: Object,
) -> Option<
    Seq<Cell>,
> {
    if number_of(context, member) is Some && image_of(context, member) is Some && path_of(
        context,
        user,
        member,
    ) is Some {
        Some(
            job_of(
                context,
                member,
                stands_at(context, member, physical),
                seq![0i64, 0i64, 0i64, 0i64],
                Cell::Text("Yes"@),
                path_of(context, user, member)->0,
            ),
        )
    } else {
        None
    }
}

proof fn lemma_member(context: &Context, user: Seq<char>, physical: bool, member: Object)
    ensures
        joblinks::member_row(context, user, physical, member) == member_of(
            context,
            user,
            physical,
            member,
        ),
{
    reveal(job_of);
    reveal(member_of);
    let counts = seq![0i64, 0i64, 0i64, 0i64];
    assert(counts[0] == 0 && counts[1] == 0 && counts[2] == 0 && counts[3] == 0);
}

/// The processes that a job links through its members.
pub open spec fn members_in(context: &Context, kernel: &Module, job: Object) -> Seq<Object> {
    match context.member(job, "ProcessListHead") {
        Some(head) => match listed(
            context,
            head,
            context.get_type(kernel.table, "_EPROCESS"),
            "JobLinks",
            true,
        ) {
            Some(members) => members,
            None => Seq::empty(),
        },
        None => Seq::empty(),
    }
}

#[verifier::opaque]
spec fn after_members(
    context: &Context,
    user: Seq<char>,
    physical: bool,
    table: Table,
    members: Seq<Object>,
    from: int,
) -> Table {
    joblinks::with_members(context, user, physical, table, members, from)
}

proof fn lemma_next_member(
    context: &Context,
    user: Seq<char>,
    physical: bool,
    table: Table,
    members: Seq<Object>,
    from: int,
    row: Seq<Cell>,
)
    requires
        0 <= from < members.len(),
        member_of(context, user, physical, members[from]) == Some(row),
    ensures
        after_members(context, user, physical, table, members, from)
            == after_members(
            context,
            user,
            physical,
            table.push(1, row),
            members,
            from + 1,
        ),
{
    reveal(after_members);
    lemma_member(context, user, physical, members[from]);
}

proof fn lemma_last_member(
    context: &Context,
    user: Seq<char>,
    physical: bool,
    table: Table,
    members: Seq<Object>,
)
    ensures
        after_members(context, user, physical, table, members, members.len() as int) == table,
{
    reveal(after_members);
}

proof fn lemma_members(
    context: &Context,
    user: Seq<char>,
    physical: bool,
    table: Table,
    members: Seq<Object>,
    rows: Seq<Seq<Cell>>,
    from: int,
)
    requires
        0 <= from <= members.len(),
        rows.len() == members.len(),
        forall|k: int|
            0 <= k < members.len() ==> member_of(context, user, physical, #[trigger] members[k])
                == Some(rows[k]),
    ensures
        adds(
            table,
            after_members(context, user, physical, table, members, from),
            rows.subrange(from, rows.len() as int),
        ),
    decreases members.len() - from,
{
    let rest = rows.subrange(from, rows.len() as int);
    if from == members.len() {
        lemma_last_member(context, user, physical, table, members);
        lemma_adds_none(table);
        assert(rest =~= Seq::empty());
    } else {
        assert(member_of(context, user, physical, members[from]) == Some(rows[from]));
        lemma_next_member(context, user, physical, table, members, from, rows[from]);
        lemma_adds_one(table, 1, rows[from]);
        let between = table.push(1, rows[from]);
        lemma_members(context, user, physical, between, members, rows, from + 1);
        lemma_adds_both(
            table,
            between,
            after_members(context, user, physical, between, members, from + 1),
            seq![rows[from]],
            rows.subrange(from + 1, rows.len() as int),
        );
        assert(rest =~= seq![rows[from]] + rows.subrange(from + 1, rows.len() as int));
    }
}

/// A process of the kernel's list that belongs to a job has a row of its own, and behind it one
/// for each process that the job links, where all of these can be read.
pub proof fn law_the_members_of_a_job_follow_it(
    context: &Context,
    kernel: &Module,
    user: Seq<char>,
    physical: bool,
    table: Table,
    process: Object,
    job: Object,
    counts: joblinks::JobCounts,
    rows: Seq<Seq<Cell>>,
)
    requires
        context.member_target(process, "Job") == Some(job),
        number_of(context, process) is Some,
        image_of(context, process) is Some,
        joblinks::job_counts(context, job) == Some(counts),
        rows.len() == members_in(context, kernel, job).len(),
        forall|k: int|
            0 <= k < rows.len() ==> member_of(
                context,
                user,
                physical,
                #[trigger] members_in(context, kernel, job)[k],
            ) == Some(rows[k]),
    ensures
        adds(
            table,
            joblinks::with_process(context, kernel, user, physical, table, process),
            seq![
                joblinks::job_row(
                    context,
                    physical,
                    process,
                    number_of(context, process)->0,
                    image_of(context, process)->0,
                    counts,
                    Cell::not_applicable(),
                    "(Original Process)"@,
                ),
            ] + rows,
        ),
{
    reveal(joblinks::with_process);
    reveal(after_members);
    let row = joblinks::job_row(
        context,
        physical,
        process,
        number_of(context, process)->0,
        image_of(context, process)->0,
        counts,
        Cell::not_applicable(),
        "(Original Process)"@,
    );
    let members = members_in(context, kernel, job);
    lemma_adds_one(table, 0, row);
    lemma_members(context, user, physical, table.push(0, row), members, rows, 0);
    assert(rows.subrange(0, rows.len() as int) =~= rows);
    lemma_adds_both(
        table,
        table.push(0, row),
        joblinks::with_members(context, user, physical, table.push(0, row), members, 0),
        seq![row],
        rows,
    );
}

/// The report on jobs goes through every process of the kernel's list, in its order.
pub proof fn law_every_listed_process_is_asked_for_its_job(
    context: &Context,
    config: &Configuration,
    kernel: Module,
    processes: Seq<Object>,
    i: int,
)
    requires
        kernel_of(context, config) == Some(kernel),
        listed_processes(context, &kernel) == Some(processes),
        0 <= i < processes.len(),
    ensures
        JobLinks.report(context, config) == Ok::<Table, crate::error::Failure>(
            joblinks::reported(
                context,
                &kernel,
                config.text_or("physical_layer"@, "base"@),
                config.flag("physical"@),
                processes,
                processes.len() as int,
            ),
        ),
        joblinks::reported(
            context,
            &kernel,
            config.text_or("physical_layer"@, "base"@),
            config.flag("physical"@),
            processes,
            i + 1,
        ) == joblinks::with_process(
            context,
            &kernel,
            config.text_or("physical_layer"@, "base"@),
            config.flag("physical"@),
            joblinks::reported(
                context,
                &kernel,
                config.text_or("physical_layer"@, "base"@),
                config.flag("physical"@),
                processes,
                i,
            ),
            processes[i],
        ),
{
}


} // verus!
