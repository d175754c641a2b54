//! Laws on the listings of modules: those of the kernel, and those that a process has loaded.

use crate::config::Configuration;
use crate::context::{Context, Module, Object};
use crate::laws::processes::{image_of, number_of, peb_of};
use crate::laws::{
    adds, cells_of, flat, lemma_adds_none, lemma_adds_one, lemma_flat_adds, names_of,
};
use crate::lists::listed;
use crate::patterns::pattern_found;
use crate::plugins::windows::dlllist::{self, DllList};
use crate::plugins::windows::modules::{self, ModScan, Modules};
use crate::plugins::windows::psscan::objects_of;
use crate::plugins::windows::{kernel_of, selected};
use crate::plugins::Plugin;
use crate::renderers::{Cell, Table};
use crate::symbols::windows::{scanned_tags, PoolHit};
use crate::text::holds;
use crate::time::wintime_cell;
use vstd::prelude::*;

verus! {

/// Whether a module of the kernel is one of those asked for, by where it begins and by a part
/// of its name.
pub open spec fn is_asked_for(context: &Context, config: &Configuration, entry: Object) -> bool {
    &&& config.int_of("base"@) matches Some(base) ==> context.member_pointer(
        entry,
        "DllBase",
    ) matches Some(begin) ==> begin == base as u64
    &&& config.text_of("name"@) matches Some(part) ==> context.member_unicode_of(
        entry,
        "BaseDllName",
    ) matches Some(name) ==> holds(name, part)
}

/// What is told of a module of the kernel.
#[verifier::opaque]
pub open spec fn module_of(context: &Context, entry: Object) -> Seq<Cell> {
    seq![
        Cell::hex(entry.offset),
        Cell::hex_or_unreadable(context.member_pointer(entry, "DllBase")),
        Cell::hex_or_unreadable(context.member_u64(entry, "SizeOfImage")),
        Cell::text_or_unreadable(context.member_unicode_of(entry, "BaseDllName")),
        Cell::text_or_unreadable(context.member_unicode_of(entry, "FullDllName")),
        Cell::Text("Disabled"@),
    ]
}

proof fn lemma_module(context: &Context, entry: Object)
    ensures
        modules::module_cells(context, entry, "Disabled"@) == module_of(context, entry),
{
    reveal(module_of);
}

/// The rows of the modules that are asked for.
pub open spec fn rows_of_modules(
    context: &Context,
    config: &Configuration,
    entries: Seq<Object>,
) -> spec_fn(int) -> Seq<Seq<Cell>> {
    |k: int|
        if is_asked_for(context, config, entries[k]) {
            seq![module_of(context, entries[k])]
        } else {
            Seq::empty()
        }
}

proof fn lemma_modules(
    context: &Context,
    kernel: &Module,
    config: &Configuration,
    entries: Seq<Object>,
)
    requires
        !config.flag("dump"@),
    ensures
        modules::module_report(context, kernel, config, entries).columns
            == modules::module_headings(),
        cells_of(modules::module_report(context, kernel, config, entries)) == flat(
            rows_of_modules(context, config, entries),
            entries.len() as int,
        ),
{
    let steps = |k: int| modules::with_modules(context, config, Seq::empty(), entries, k);
    let rows = rows_of_modules(context, config, entries);
    assert forall|k: int| 0 <= k < entries.len() implies adds(
        steps(k),
        steps(k + 1),
        #[trigger] rows(k),
    ) by {
        lemma_adds_none(steps(k));
        lemma_module(context, entries[k]);
        lemma_adds_one(steps(k), 0, module_of(context, entries[k]));
    }
    lemma_flat_adds(steps, rows, entries.len() as int);
}

/// The kernel's modules are those that `PsLoadedModuleList` links in the order they were
/// loaded, and each that is asked for is reported.
pub proof fn law_loaded_modules_are_reported(
    context: &Context,
    config: &Configuration,
    kernel: Module,
    head: Object,
    entries: Seq<Object>,
)
    requires
        kernel_of(context, config) == Some(kernel),
        context.typed_symbol(&kernel, "PsLoadedModuleList", "_LIST_ENTRY") == Some(head),
        listed(
            context,
            head,
            context.get_type(kernel.table, "_LDR_DATA_TABLE_ENTRY"),
            "InLoadOrderLinks",
            true,
        ) == Some(entries),
        !config.flag("dump"@),
    ensures
        Modules.report(context, config) is Ok,
        names_of(Modules.report(context, config)->Ok_0.columns) == seq![
            "Offset"@,
            "Base"@,
            "Size"@,
            "Name"@,
            "Path"@,
            "File output"@,
        ],
        cells_of(Modules.report(context, config)->Ok_0) == flat(
            rows_of_modules(context, config, entries),
            entries.len() as int,
        ),
{
    lemma_modules(context, &kernel, config, entries);
}

/// Every module that the pools hold under the tag `MmLd`, and that is asked for, is reported.
pub proof fn law_scanned_modules_are_reported(
    context: &Context,
    config: &Configuration,
    kernel: Module,
    hits: Seq<&PoolHit>,
)
    requires
        kernel_of(context, config) == Some(kernel),
        scanned_tags(context, seq![0x644c_6d4du32]) == Some(hits),
        !config.flag("dump"@),
    ensures
        ModScan.report(context, config) is Ok,
        ModScan.headings() == Modules.headings(),
        ModScan.report(context, config)->Ok_0.columns == Modules.headings(),
        cells_of(ModScan.report(context, config)->Ok_0) == flat(
            rows_of_modules(context, config, hits.map_values(|hit: &PoolHit| hit.object)),
            hits.len() as int,
        ),
{
    lemma_modules(context, &kernel, config, objects_of(hits));
    assert(objects_of(hits) =~= hits.map_values(|hit: &PoolHit| hit.object));
}

/// Whether a module of a process is one of those asked for: by where it begins, and by a
/// pattern that its short or its full name matches.
pub open spec fn is_wanted(context: &Context, config: &Configuration, entry: Object) -> bool {
    &&& config.int_of("base"@) matches Some(base) ==> base == 0 || context.member_pointer(
        entry,
        "DllBase",
    ) == Some(base as u64)
    &&& config.text_of("name"@) matches Some(name) ==> {
        let pattern = if config.flag("ignore-case"@) {
            "(?i)"@ + name
        } else {
            name
        };
        &&& context.member_unicode_of(entry, "BaseDllName") matches Some(short)
        &&& context.member_unicode_of(entry, "FullDllName") matches Some(full)
        &&& (pattern_found(pattern, short) || pattern_found(pattern, full))
    }
}

/// How often a module is in use, as a signed number of two bytes.
pub open spec fn uses_of(context: &Context, entry: Object) -> Cell {
    let name = if context.has_member(entry, "LoadCount") {
        "LoadCount"
    } else {
        "ObsoleteLoadCount"
    };
    match context.member_u64(entry, name) {
        Some(count) => Cell::integer(((count as u16) as i16) as i64),
        None => Cell::not_available(),
    }
}

/// When a module was loaded.
pub open spec fn load_of(context: &Context, entry: Object) -> Cell {
    match context.member(entry, "LoadTime") {
        Some(time) => match if context.has_member(time, "QuadPart") {
            context.member_u64(time, "QuadPart")
        } else {
            context.as_u64(time)
        } {
            Some(raw) => wintime_cell(raw),
            None => Cell::unreadable(),
        },
        None => Cell::not_applicable(),
    }
}

/// The name of a process's image, or an empty one.
pub open spec fn image_or_empty(context: &Context, process: Object) -> Seq<char> {
    match image_of(context, process) {
        Some(name) => name,
        None => Seq::empty(),
    }
}

/// What is told of a module that a process has loaded.
#[verifier::opaque]
pub open spec fn library_of(context: &Context, process: Object, entry: Object) -> Seq<Cell> {
    seq![
        Cell::integer(number_of(context, process)->0 as i64),
        Cell::Text(image_or_empty(context, process)),
        Cell::hex_or_unreadable(context.member_pointer(entry, "DllBase")),
        Cell::hex_or_unreadable(context.member_u64(entry, "SizeOfImage")),
        Cell::text_or_unreadable(context.member_unicode_of(entry, "BaseDllName")),
        Cell::text_or_unreadable(context.member_unicode_of(entry, "FullDllName")),
        uses_of(context, entry),
        load_of(context, entry),
        Cell::Text("Disabled"@),
    ]
}

proof fn lemma_library(context: &Context, process: Object, entry: Object)
    requires
        number_of(context, process) is Some,
    ensures
        dlllist::module_cells(
            context,
            number_of(context, process)->0,
            context.image_name_or_empty(process),
            entry,
            "Disabled"@,
        ) == library_of(context, process, entry),
{
    reveal(library_of);
}

/// The entries of one of the lists of modules that a process keeps, as far as where they begin
/// can be read.
pub open spec fn entries_of(
    context: &Context,
    head: Option<Object>,
    kind: Option<crate::context::TypeId>,
    link: &str,
) -> Seq<Object> {
    match head {
        Some(head) => match listed(context, head, kind, link, true) {
            Some(entries) => entries.filter(
                |entry: Object| context.member_pointer(entry, "DllBase") is Some,
            ),
            None => Seq::empty(),
        },
        None => Seq::empty(),
    }
}

proof fn lemma_with_base(context: &Context, entries: Seq<Object>)
    ensures
        dlllist::with_base(context, entries) == entries.filter(
            |entry: Object| context.member_pointer(entry, "DllBase") is Some,
        ),
    decreases entries.len(),
{
    reveal(Seq::filter);
    if entries.len() > 0 {
        lemma_with_base(context, entries.drop_last());
    }
}

/// The modules that a process has loaded are those of the list in its environment block, and
/// behind them those of its 32 bit one. A list in load order is followed through the links of
/// that order, and so for the other two.
pub proof fn law_a_process_has_two_lists_of_modules(
    context: &Context,
    kernel: &Module,
    process: Object,
    layer: usize,
)
    ensures
        dlllist::loaded(context, kernel, process, layer, "InLoadOrderModuleList") == entries_of(
            context,
            wide_head(context, process, layer, "InLoadOrderModuleList"),
            context.get_type(kernel.table, "_LDR_DATA_TABLE_ENTRY"),
            "InLoadOrderLinks",
        ) + entries_of(
            context,
            dlllist::narrow_head(context, process, layer, "InLoadOrderModuleList"),
            context.table_type(crate::symbols::windows::WOW64_TABLE, "_LDR_DATA_TABLE_ENTRY"),
            "InLoadOrderLinks",
        ),
        dlllist::loaded(context, kernel, process, layer, "InMemoryOrderModuleList") == entries_of(
            context,
            wide_head(context, process, layer, "InMemoryOrderModuleList"),
            context.get_type(kernel.table, "_LDR_DATA_TABLE_ENTRY"),
            "InMemoryOrderLinks",
        ) + entries_of(
            context,
            dlllist::narrow_head(context, process, layer, "InMemoryOrderModuleList"),
            context.table_type(crate::symbols::windows::WOW64_TABLE, "_LDR_DATA_TABLE_ENTRY"),
            "InMemoryOrderLinks",
        ),
        dlllist::loaded(
            context,
            kernel,
            process,
            layer,
            "InInitializationOrderModuleList",
        ) == entries_of(
            context,
            wide_head(context, process, layer, "InInitializationOrderModuleList"),
            context.get_type(kernel.table, "_LDR_DATA_TABLE_ENTRY"),
            "InInitializationOrderLinks",
        ) + entries_of(
            context,
            dlllist::narrow_head(context, process, layer, "InInitializationOrderModuleList"),
            context.table_type(crate::symbols::windows::WOW64_TABLE, "_LDR_DATA_TABLE_ENTRY"),
            "InInitializationOrderLinks",
        ),
{
    reveal_strlit("InLoadOrderModuleList");
    reveal_strlit("InMemoryOrderModuleList");
    reveal_strlit("InInitializationOrderModuleList");
    assert("InLoadOrderModuleList"@.len() == 21);
    assert("InMemoryOrderModuleList"@.len() == 23);
    assert("InInitializationOrderModuleList"@.len() == 31);
    lemma_entries(context, kernel, process, layer, "InLoadOrderModuleList");
    lemma_entries(context, kernel, process, layer, "InMemoryOrderModuleList");
    lemma_entries(context, kernel, process, layer, "InInitializationOrderModuleList");
}

/// The head of a list in the environment block of a process.
pub open spec fn wide_head(
    context: &Context,
    process: Object,
    layer: usize,
    list: &str,
) -> Option<Object> {
    match peb_of(context, process, layer) {
        Some(peb) => match context.member_target(peb, "Ldr") {
            Some(loader) => context.member(loader, list),
            None => None,
        },
        None => None,
    }
}

proof fn lemma_entries(
    context: &Context,
    kernel: &Module,
    process: Object,
    layer: usize,
    list: &str,
)
    ensures
        dlllist::loaded(context, kernel, process, layer, list) == entries_of(
            context,
            wide_head(context, process, layer, list),
            context.get_type(kernel.table, "_LDR_DATA_TABLE_ENTRY"),
            dlllist::list_link(list),
        ) + entries_of(
            context,
            dlllist::narrow_head(context, process, layer, list),
            context.table_type(crate::symbols::windows::WOW64_TABLE, "_LDR_DATA_TABLE_ENTRY"),
            dlllist::list_link(list),
        ),
{
    let link = dlllist::list_link(list);
    if let Some(head) = dlllist::wide_head(context, process, layer, list) {
        if let Some(entries) = listed(
            context,
            head,
            context.get_type(kernel.table, "_LDR_DATA_TABLE_ENTRY"),
            link,
            true,
        ) {
            lemma_with_base(context, entries);
        }
    }
    if let Some(head) = dlllist::narrow_head(context, process, layer, list) {
        if let Some(entries) = listed(
            context,
            head,
            context.table_type(crate::symbols::windows::WOW64_TABLE, "_LDR_DATA_TABLE_ENTRY"),
            link,
            true,
        ) {
            lemma_with_base(context, entries);
        }
    }
}

/// The rows of the modules of a process that are asked for.
pub open spec fn parts_of_libraries(
    context: &Context,
    config: &Configuration,
    process: Object,
    entries: Seq<Object>,
) -> spec_fn(int) -> Seq<Seq<Cell>> {
    |j: int|
        if is_wanted(context, config, entries[j]) {
            seq![library_of(context, process, entries[j])]
        } else {
            Seq::empty()
        }
}

proof fn lemma_libraries(
    context: &Context,
    config: &Configuration,
    process: Object,
    entries: Seq<Object>,
    table: Table,
    layer: usize,
)
    requires
        number_of(context, process) is Some,
        !config.flag("dump"@),
        forall|k: int| 0 <= k < entries.len()
            ==> context.member_pointer(#[trigger] entries[k], "DllBase") is Some,
    ensures
        adds(
            table,
            dlllist::with_modules(
                context,
                config,
                table,
                number_of(context, process)->0,
                context.image_name_or_empty(process),
                layer,
                entries,
                entries.len() as int,
            ),
            flat(parts_of_libraries(context, config, process, entries), entries.len() as int),
        ),
{
    let steps = |j: int| dlllist::with_modules(
        context,
        config,
        table,
        number_of(context, process)->0,
        context.image_name_or_empty(process),
        layer,
        entries,
        j,
    );
    let parts = parts_of_libraries(context, config, process, entries);
    assert forall|j: int| 0 <= j < entries.len() implies adds(
        steps(j),
        steps(j + 1),
        #[trigger] parts(j),
    ) by {
        lemma_adds_none(steps(j));
        lemma_library(context, process, entries[j]);
        lemma_adds_one(steps(j), 0, library_of(context, process, entries[j]));
    }
    lemma_flat_adds(steps, parts, entries.len() as int);
}


/// The modules that a process has loaded, in the order it loaded them.
pub open spec fn libraries_of(
    context: &Context,
    kernel: &Module,
    config: &Configuration,
    process: Object,
) -> Seq<Object> {
    match context.layer_of(process, config.text_or("physical_layer"@, "base"@)) {
        Some(layer) => dlllist::loaded(context, kernel, process, layer, "InLoadOrderModuleList"),
        None => Seq::empty(),
    }
}

proof fn lemma_based(context: &Context, kernel: &Module, process: Object, layer: usize, list: &str)
    ensures
        forall|k: int|
            0 <= k < dlllist::loaded(context, kernel, process, layer, list).len()
                ==> context.member_pointer(
                #[trigger] dlllist::loaded(context, kernel, process, layer, list)[k],
                "DllBase",
            ) is Some,
{
    lemma_entries_based(
        context,
        dlllist::wide_head(context, process, layer, list),
        context.get_type(kernel.table, "_LDR_DATA_TABLE_ENTRY"),
        list,
    );
    lemma_entries_based(
        context,
        dlllist::narrow_head(context, process, layer, list),
        context.table_type(crate::symbols::windows::WOW64_TABLE, "_LDR_DATA_TABLE_ENTRY"),
        list,
    );
}

proof fn lemma_entries_based(
    context: &Context,
    head: Option<Object>,
    kind: Option<crate::context::TypeId>,
    list: &str,
)
    ensures
        forall|k: int|
            0 <= k < dlllist::list_entries(context, head, kind, list).len()
                ==> context.member_pointer(
                #[trigger] dlllist::list_entries(context, head, kind, list)[k],
                "DllBase",
            ) is Some,
{
    if let Some(head) = head {
        if let Some(entries) = listed(context, head, kind, dlllist::list_link(list), true) {
            lemma_base_read(context, entries);
        }
    }
}

proof fn lemma_base_read(context: &Context, entries: Seq<Object>)
    ensures
        forall|k: int|
            0 <= k < dlllist::with_base(context, entries).len() ==> context.member_pointer(
                #[trigger] dlllist::with_base(context, entries)[k],
                "DllBase",
            ) is Some,
    decreases entries.len(),
{
    if entries.len() > 0 {
        lemma_base_read(context, entries.drop_last());
    }
}


/// The rows of one process.
pub open spec fn library_rows(
    context: &Context,
    config: &Configuration,
    kernel: &Module,
    process: Object,
) -> Seq<Seq<Cell>> {
    if number_of(context, process) is Some {
        flat(
            parts_of_libraries(
                context,
                config,
                process,
                libraries_of(context, kernel, config, process),
            ),
            libraries_of(context, kernel, config, process).len() as int,
        )
    } else {
        Seq::empty()
    }
}

proof fn lemma_step(
    context: &Context,
    config: &Configuration,
    kernel: &Module,
    process: Object,
    table: Table,
)
    requires
        !config.flag("dump"@),
    ensures
        match (
            context.pid(process),
            context.layer_of(process, crate::plugins::windows::physical_name(config)),
        ) {
            (Some(pid), Some(layer)) => {
                let entries = dlllist::loaded(
                    context,
                    kernel,
                    process,
                    layer,
                    "InLoadOrderModuleList",
                );
                adds(
                    table,
                    dlllist::with_modules(
                        context,
                        config,
                        table,
                        pid,
                        context.image_name_or_empty(process),
                        layer,
                        entries,
                        entries.len() as int,
                    ),
                    library_rows(context, config, kernel, process),
                )
            },
            _ => adds(table, table, library_rows(context, config, kernel, process)),
        },
{
    lemma_adds_none(table);
    let entries = libraries_of(context, kernel, config, process);
    if number_of(context, process) is Some {
        match context.layer_of(process, config.text_or("physical_layer"@, "base"@)) {
            Some(layer) => {
                lemma_based(context, kernel, process, layer, "InLoadOrderModuleList");
                lemma_libraries(context, config, process, entries, table, layer);
            },
            None => {
                assert(flat(parts_of_libraries(context, config, process, entries), 0)
                    =~= Seq::empty());
            },
        }
    }
}

/// The rows of the modules of some processes.
pub open spec fn rows_of_loaded_libraries_are_reported(
    context: &Context,
    config: &Configuration,
    kernel: Module,
    processes: Seq<Object>,
) -> spec_fn(int) -> Seq<Seq<Cell>> {
    |k: int|
        if number_of(context, processes[k]) is Some {
            flat(
                parts_of_libraries(
                    context,
                    config,
                    processes[k],
                    libraries_of(context, &kernel, config, processes[k]),
                ),
                libraries_of(context, &kernel, config, processes[k]).len() as int,
            )
        } else {
            Seq::empty()
        }
}

/// For each process that is selected, every module it has loaded and that is asked for is
/// reported, in the order it loaded them.
pub proof fn law_loaded_libraries_are_reported(
    context: &Context,
    config: &Configuration,
    kernel: Module,
    processes: Seq<Object>,
)
    requires
        kernel_of(context, config) == Some(kernel),
        selected(context, &kernel, config) == Some(processes),
        !config.flag("dump"@),
        dlllist::wanted_pattern(config) matches Some(pattern)
            ==> crate::patterns::pattern_fault(pattern) is None,
    ensures
        DllList.report(context, config) is Ok,
        names_of(DllList.report(context, config)->Ok_0.columns) == seq![
            "PID"@,
            "Process"@,
            "Base"@,
            "Size"@,
            "Name"@,
            "Path"@,
            "LoadCount"@,
            "LoadTime"@,
            "File output"@,
        ],
        cells_of(DllList.report(context, config)->Ok_0) == flat(
            rows_of_loaded_libraries_are_reported(context, config, kernel, processes),
            processes.len() as int,
        ),
{
    let steps = |k: int| dlllist::reported(
        context,
        &kernel,
        config,
        DllList.headings(),
        processes,
        k,
    );
    let rows = rows_of_loaded_libraries_are_reported(context, config, kernel, processes);
    assert forall|k: int| 0 <= k < processes.len() implies adds(
        steps(k),
        steps(k + 1),
        #[trigger] rows(k),
    ) by {
        lemma_adds_none(steps(k));
        lemma_step(context, config, &kernel, processes[k], steps(k));
        assert(rows(k) =~= library_rows(context, config, &kernel, processes[k]));
    }
    lemma_flat_adds(steps, rows, processes.len() as int);
}


} // verus!
