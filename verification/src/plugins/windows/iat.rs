//! List the functions that programs import from other libraries.

use crate::config::Configuration;
use crate::context::{Context, Object};
use crate::error::{Failure, VolatilityError};
use crate::plugins::{self, OperatingSystem, Plugin, Requirement, RequirementView};
use crate::plugins::windows::{chosen_processes, kernel_module, physical_layer};
use crate::renderers::{Cell, Column, ColumnType, Row, Table, TreeGrid, Value};
use crate::symbols::windows::{Import, PeImage};
use crate::text::{self, ascii_lower, decimal, same_text};
use vstd::prelude::*;

verus! {

/// Lists the functions that programs import from other libraries.
pub struct Iat;

/// What a JSON text says, read as an object of objects of strings: the entries of
/// both in the order of their names. Nothing where it cannot be read so.
pub uninterp spec fn json_tables(text: Seq<char>) -> Option<
    Seq<(Seq<char>, Seq<(Seq<char>, Seq<char>)>)>,
>;

/// What is said of tables of names.
pub open spec fn table_views(tables: Seq<(String, Vec<(String, String)>)>) -> Seq<
    (Seq<char>, Seq<(Seq<char>, Seq<char>)>),
> {
    Seq::new(
        tables.len(),
        |i: int| (tables[i].0@, plugins::windows::envars::pair_views(tables[i].1@)),
    )
}

/// What is said of tables of names that may have been read.
pub open spec fn maybe_tables(tables: Option<Vec<(String, Vec<(String, String)>)>>) -> Option<
    Seq<(Seq<char>, Seq<(Seq<char>, Seq<char>)>)>,
> {
    match tables {
        Some(tables) => Some(table_views(tables@)),
        None => None,
    }
}

/// `serde_json::from_str` reads a JSON text into a `BTreeMap` of `BTreeMap`s of
/// strings, or fails. The grammar is left unsaid: the entries that come out, in
/// the order of the maps, are named as a function of the text.
#[verifier::external_body]
pub(crate) fn parse_tables(text: &str) -> (tables: Option<Vec<(String, Vec<(String, String)>)>>)
    ensures
        maybe_tables(tables) == json_tables(text@),
{
    let parsed: Option<
        std::collections::BTreeMap<String, std::collections::BTreeMap<String, String>>,
    > = serde_json::from_str(text).ok();
    parsed.map(
        |tables| {
            tables.into_iter().map(|(library, names)| (library, names.into_iter().collect()))
                .collect()
        },
    )
}

/// The ordinal-to-name tables, as they are commonly published.
pub open spec fn tables_of(text: Seq<char>) -> Seq<(Seq<char>, Seq<(Seq<char>, Seq<char>)>)> {
    match json_tables(text) {
        Some(tables) => tables,
        None => Seq::empty(),
    }
}

/// The ordinal-to-name tables, as they are commonly published.
pub fn ordinal_tables(text: &str) -> (tables: Vec<(String, Vec<(String, String)>)>)
    ensures
        table_views(tables@) == tables_of(text@),
{
    match parse_tables(text) {
        Some(tables) => tables,
        None => {
            let tables: Vec<(String, Vec<(String, String)>)> = Vec::new();
            assert(table_views(tables@) =~= Seq::<
                (Seq<char>, Seq<(Seq<char>, Seq<char>)>),
            >::empty());
            tables
        },
    }
}

/// The value of the first entry of a name, from one on.
pub open spec fn value_from<V>(entries: Seq<(Seq<char>, V)>, name: Seq<char>, from: int) -> Option<V>
    decreases entries.len() - from,
{
    if from < 0 || from >= entries.len() {
        None
    } else if entries[from].0 == name {
        Some(entries[from].1)
    } else {
        value_from(entries, name, from + 1)
    }
}

fn find_value(entries: &Vec<(String, String)>, name: &str) -> (value: Option<String>)
    ensures
        text::maybe_text(value) == value_from(
            plugins::windows::envars::pair_views(entries@),
            name@,
            0,
        ),
{
    let ghost said = plugins::windows::envars::pair_views(entries@);
    let mut i: usize = 0;
    while i < entries.len()
        invariant
            said == plugins::windows::envars::pair_views(entries@),
            i <= entries@.len(),
            value_from(said, name@, 0) == value_from(said, name@, i as int),
        decreases entries@.len() - i,
    {
        if same_text(&entries[i].0, name) {
            return Some(entries[i].1.clone());
        }
        i = i + 1;
    }
    None
}

fn find_table<'a>(tables: &'a Vec<(String, Vec<(String, String)>)>, library: &str) -> (names: Option<
    &'a Vec<(String, String)>,
>)
    ensures
        match names {
            Some(names) => value_from(table_views(tables@), library@, 0) == Some(
                plugins::windows::envars::pair_views(names@),
            ),
            None => value_from(table_views(tables@), library@, 0) is None,
        },
{
    let ghost said = table_views(tables@);
    let mut i: usize = 0;
    while i < tables.len()
        invariant
            said == table_views(tables@),
            i <= tables@.len(),
            value_from(said, library@, 0) == value_from(said, library@, i as int),
        decreases tables@.len() - i,
    {
        if same_text(&tables[i].0, library) {
            return Some(&tables[i].1);
        }
        i = i + 1;
    }
    None
}

/// The name an ordinal stands for, in the few libraries whose ordinals are
/// commonly recorded.
///
/// A library on that list always yields a name: the recorded one where it is
/// known, and the ordinal spelled out where it is not.
pub open spec fn ordinal_text(
    tables: Seq<(Seq<char>, Seq<(Seq<char>, Seq<char>)>)>,
    library: Seq<char>,
    ordinal: u16,
) -> Option<Seq<char>> {
    match value_from(tables, text::lower(library), 0) {
        Some(names) => Some(
            match value_from(names, text::decimal_text(ordinal as int), 0) {
                Some(name) => name,
                None => "ord"@ + text::decimal_text(ordinal as int),
            },
        ),
        None => None,
    }
}

proof fn lemma_value_from<V>(entries: Seq<(Seq<char>, V)>, name: Seq<char>, from: int, at: int)
    requires
        0 <= from <= at < entries.len(),
        entries[at].0 == name,
    ensures
        value_from(entries, name, from) is Some,
    decreases at - from,
{
    if entries[from].0 != name {
        lemma_value_from(entries, name, from + 1, at);
    }
}

/// A library that has a table yields a name for every ordinal, however its own name
/// is spelled.
pub proof fn law_a_listed_library_always_yields_a_name(
    tables: Seq<(Seq<char>, Seq<(Seq<char>, Seq<char>)>)>,
    library: Seq<char>,
    ordinal: u16,
    at: int,
)
    requires
        0 <= at < tables.len(),
        tables[at].0 == text::lower(library),
    ensures
        ordinal_text(tables, library, ordinal) is Some,
{
    lemma_value_from(tables, text::lower(library), 0, at);
}

/// The name an ordinal stands for.
pub fn ordinal_name(
    tables: &Vec<(String, Vec<(String, String)>)>,
    library: &str,
    ordinal: u16,
) -> (name: Option<String>)
    ensures
        text::maybe_text(name) == ordinal_text(table_views(tables@), library@, ordinal),
{
    match find_table(tables, &ascii_lower(library)) {
        Some(names) => {
            let number = decimal(ordinal as u64);
            match find_value(names, &number) {
                Some(name) => Some(name),
                None => {
                    let mut name = "ord".to_owned();
                    name.append(&number);
                    Some(name)
                },
            }
        },
        None => None,
    }
}

/// The name of an imported function. An import by ordinal from a library nobody
/// keeps a list for has no name at all.
pub open spec fn function_cell(
    tables: Seq<(Seq<char>, Seq<(Seq<char>, Seq<char>)>)>,
    import: Import,
) -> Cell {
    match import.function {
        Some(function) => Cell::Text(function@),
        None => match ordinal_text(tables, import.library@, import.ordinal) {
            Some(name) => Cell::Text(name),
            None => Cell::not_available(),
        },
    }
}

fn function_value(tables: &Vec<(String, Vec<(String, String)>)>, import: &Import) -> (value: Value)
    ensures
        value@ == function_cell(table_views(tables@), *import),
{
    match &import.function {
        Some(function) => Value::string(function),
        None => match ordinal_name(tables, &import.library, import.ordinal) {
            Some(name) => Value::String(name),
            None => Value::not_available(),
        },
    }
}

/// The row of an import. The address reported is the slot's own, counted from the
/// image's base twice over.
pub open spec fn import_row(
    tables: Seq<(Seq<char>, Seq<(Seq<char>, Seq<char>)>)>,
    pid: u64,
    name: Seq<char>,
    base: u64,
    import: Import,
) -> Seq<Cell> {
    seq![
        Cell::integer(pid as i64),
        Cell::Text(name),
        Cell::Text(import.library@),
        Cell::Bool(import.bound),
        function_cell(tables, import),
        Cell::hex(base.wrapping_mul(2).wrapping_add(import.slot as u64)),
    ]
}

fn make_row(
    tables: &Vec<(String, Vec<(String, String)>)>,
    pid: u64,
    name: &str,
    base: u64,
    import: &Import,
) -> (row: Row)
    ensures
        row@ == import_row(table_views(tables@), pid, name@, base, *import),
{
    Row::new().with(Value::integer(pid as i64)).with(Value::string(name)).with(
        Value::string(&import.library),
    ).with(Value::Bool(import.bound)).with(function_value(tables, import)).with(
        Value::hex(base.wrapping_mul(2).wrapping_add(import.slot as u64)),
    )
}

/// A report with the first imports of a process.
pub open spec fn with_imports(
    tables: Seq<(Seq<char>, Seq<(Seq<char>, Seq<char>)>)>,
    table: Table,
    pid: u64,
    name: Seq<char>,
    base: u64,
    imports: Seq<Import>,
    count: int,
) -> Table
    decreases count,
{
    if count <= 0 {
        table
    } else {
        with_imports(tables, table, pid, name, base, imports, count - 1).push(
            0,
            import_row(tables, pid, name, base, imports[count - 1]),
        )
    }
}

/// Where the image of a process begins, and its headers. Only the process's own
/// image is examined: it is the one whose imports say what the program itself
/// calls.
pub open spec fn own_image(context: &Context, process: Object, layer: usize) -> Option<(u64, PeImage)> {
    match context.peb(process, layer) {
        Some(peb) => match context.member_pointer(peb, "ImageBaseAddress") {
            Some(base) => if base == 0 {
                None
            } else {
                match context.pe_of(layer, base) {
                    Some(header) => Some((base, header)),
                    None => None,
                }
            },
            None => None,
        },
        None => None,
    }
}

fn find_image<'a>(context: &'a Context, process: Object, layer: usize) -> (image: Option<
    (u64, &'a PeImage),
>)
    ensures
        match image {
            Some((base, header)) => own_image(context, process, layer) == Some((base, *header)),
            None => own_image(context, process, layer) is None,
        },
{
    match context.peb(process, layer) {
        Some(peb) => match context.member_pointer(peb, "ImageBaseAddress") {
            Some(base) => if base == 0 {
                None
            } else {
                match context.pe_image(layer, base) {
                    Some(header) => Some((base, header)),
                    None => None,
                }
            },
            None => None,
        },
        None => None,
    }
}

/// A report with the imports of one more process.
#[verifier::opaque]
pub open spec fn with_process(
    context: &Context,
    tables: Seq<(Seq<char>, Seq<(Seq<char>, Seq<char>)>)>,
    physical: Seq<char>,
    table: Table,
    process: Object,
) -> Table {
    match (context.pid(process), context.layer_of(process, physical)) {
        (Some(pid), Some(layer)) => match own_image(context, process, layer) {
            Some((base, header)) => match header.imports {
                Some(imports) => with_imports(
                    tables,
                    table,
                    pid,
                    context.image_name_or_empty(process),
                    base,
                    imports@,
                    imports@.len() as int,
                ),
                None => table,
            },
            None => table,
        },
        _ => table,
    }
}

fn add_process(
    context: &Context,
    tables: &Vec<(String, Vec<(String, String)>)>,
    physical: &str,
    grid: &mut TreeGrid,
    process: Object,
)
    ensures
        final(grid)@ == with_process(
            context,
            table_views(tables@),
            physical@,
            old(grid)@,
            process,
        ),
{
    reveal(with_process);
    let ghost before = grid@;
    let ghost said = table_views(tables@);
    if let (Some(pid), Some(layer)) = (
        context.pid(process),
        context.address_space(process, physical),
    ) {
        let name = context.image_file_name_or_empty(process);
        if let Some((base, header)) = find_image(context, process, layer) {
            if let Some(imports) = &header.imports {
                for i in 0..imports.len()
                    invariant
                        said == table_views(tables@),
                        grid@ == with_imports(
                            said,
                            before,
                            pid,
                            name@,
                            base,
                            imports@,
                            i as int,
                        ),
                {
                    grid.push(0, make_row(tables, pid, &name, base, &imports[i]));
                }
            }
        }
    }
}

/// The report on the first of some processes, with what ordinals stand for given.
pub open spec fn reported(
    context: &Context,
    tables: Seq<(Seq<char>, Seq<(Seq<char>, Seq<char>)>)>,
    physical: Seq<char>,
    headings: Seq<Column>,
    processes: Seq<Object>,
    count: int,
) -> Table
    decreases count,
{
    if count <= 0 {
        Table::empty(headings)
    } else {
        with_process(
            context,
            tables,
            physical,
            reported(context, tables, physical, headings, processes, count - 1),
            processes[count - 1],
        )
    }
}

impl Plugin for Iat {
    open spec fn named(&self) -> Seq<char> {
        "windows.iat.IAT"@
    }

    open spec fn described(&self) -> Seq<char> {
        "Extract Import Address Table to list API (functions) used by a program contained in external libraries"@
    }

    open spec fn needs(&self) -> Seq<RequirementView> {
        seq![RequirementView::kernel(), RequirementView::pid_filter("Process ID to include (all other processes are excluded)"@)]
    }

    open spec fn headings(&self) -> Seq<Column> {
        seq![
            Column::integer("PID"),
            Column::string("Name"),
            Column::string("Library"),
            Column::boolean("Bound"),
            Column::string("Function"),
            Column::new("Address", ColumnType::UInt),
        ]
    }

    open spec fn system(&self) -> OperatingSystem {
        OperatingSystem::Windows
    }

    open spec fn report(&self, context: &Context, config: &Configuration) -> Result<Table, Failure> {
        match plugins::windows::kernel_of(context, config) {
            Some(kernel) => match plugins::windows::chosen(context, &kernel, config) {
                Some(processes) => Ok(
                    reported(
                        context,
                        tables_of(context.windows.ordinals@),
                        plugins::windows::physical_name(config),
                        self.headings(),
                        processes,
                        processes.len() as int,
                    ),
                ),
                None => Err(Failure::Unavailable),
            },
            None => Err(plugins::windows::no_kernel()),
        }
    }

    fn name(&self) -> (name: &'static str) {
        "windows.iat.IAT"
    }

    fn description(&self) -> (description: &'static str) {
        "Extract Import Address Table to list API (functions) used by a program contained in external libraries"
    }

    fn requirements(&self) -> (requirements: Vec<Requirement>) {
        vec![Requirement::kernel(), Requirement::pid_filter("Process ID to include (all other processes are excluded)")]
    }

    fn operating_system(&self) -> (system: OperatingSystem) {
        OperatingSystem::Windows
    }

    fn columns(&self) -> (columns: Vec<Column>) {
        vec![
            Column::integer("PID"),
            Column::string("Name"),
            Column::string("Library"),
            Column::boolean("Bound"),
            Column::string("Function"),
            Column::new("Address", ColumnType::UInt),
        ]
    }

    fn epilog(&self) -> (epilog: Option<&'static str>) {
        None
    }

    fn timeline(&self, context: &Context, config: &Configuration) -> (timeline: Option<
        plugins::Timeline,
    >) {
        None
    }

    fn needs_kernel(&self) -> (needed: bool) {
        false
    }

    fn run(&self, context: &Context, config: &Configuration) -> (result: Result<TreeGrid, VolatilityError>) {
        let kernel = kernel_module(context, config)?;
        let physical = physical_layer(config);
        let processes = chosen_processes(context, kernel, config)?;
        let tables = ordinal_tables(&context.windows.ordinals);
        let mut grid = TreeGrid::new(self.columns());
        let ghost headings = self.headings();
        let ghost said = table_views(tables@);
        for i in 0..processes.len()
            invariant
                said == table_views(tables@),
                grid@ == reported(context, said, physical@, headings, processes@, i as int),
        {
            add_process(context, &tables, &physical, &mut grid, processes[i]);
        }
        Ok(grid)
    }
}

} // verus!
