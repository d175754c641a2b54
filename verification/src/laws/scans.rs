//! Laws on what the pools are scanned for: files, mutants, drivers and the requests they
//! answer, and the allocations too large for the pools.

use crate::config::Configuration;
use crate::context::{Context, Module, Object};
use crate::laws::{
    adds, cells_of, flat, lemma_adds_both, lemma_adds_none, lemma_adds_one, lemma_flat_adds, names_of,
};
use crate::plugins::windows::driverirp::{self, DriverIrp};
use crate::plugins::windows::driverscan::{self, DriverScan};
use crate::plugins::windows::filescan::{self, FileScan};
use crate::plugins::windows::modules::kernel_space_start;
use crate::plugins::windows::mutantscan::{self, MutantScan};
use crate::plugins::windows::poolscanner::{self, PoolScanner};
use crate::plugins::windows::psscan::objects_of;
use crate::plugins::windows::{attributed, kernel_of, AttributionView};
use crate::plugins::Plugin;
use crate::renderers::{Cell, Table};
use crate::symbols::windows::{scanned, scanned_tags, CodeModule, PoolHit};
use vstd::prelude::*;

verus! {

/// A name, or an empty one.
pub open spec fn or_empty(name: Option<Seq<char>>) -> Cell {
    match name {
        Some(name) => Cell::Text(name),
        None => Cell::Text(Seq::empty()),
    }
}

/// A name, or that there is none to speak of.
pub open spec fn or_not_applicable(name: Option<Seq<char>>) -> Cell {
    match name {
        Some(name) => Cell::Text(name),
        None => Cell::not_applicable(),
    }
}

/// The rows of the files that the pools hold.
pub open spec fn rows_of_files_are_reported(
    context: &Context,
    kernel: Module,
    hits: Seq<&PoolHit>,
) -> spec_fn(int) -> Seq<Seq<Cell>> {
    |k: int|
        seq![
            seq![
                Cell::hex(hits[k].object.offset),
                or_empty(context.member_unicode_of(hits[k].object, "FileName")),
            ]
        ]
}

/// Every kernel object under the tag `File` is reported, with the name it is open under.
pub proof fn law_files_are_reported(
    context: &Context,
    config: &Configuration,
    kernel: Module,
    hits: Seq<&PoolHit>,
)
    requires
        kernel_of(context, config) == Some(kernel),
        scanned_tags(context, seq![0x656c_6946u32]) == Some(hits),
    ensures
        FileScan.report(context, config) is Ok,
        names_of(FileScan.report(context, config)->Ok_0.columns) == seq!["Offset"@, "Name"@],
        cells_of(FileScan.report(context, config)->Ok_0) == flat(
            rows_of_files_are_reported(context, kernel, hits),
            hits.len() as int,
        ),
{
    let steps = |k: int| filescan::reported(
        context,
        &kernel,
        FileScan.headings(),
        objects_of(hits),
        k,
    );
    let rows = rows_of_files_are_reported(context, kernel, hits);
    assert forall|k: int| 0 <= k < hits.len() implies adds(
        steps(k),
        steps(k + 1),
        #[trigger] rows(k),
    ) by {
        lemma_adds_none(steps(k));
        assert(
            filescan::object_row(context, &kernel, objects_of(hits)[k]) =~= seq![
                Cell::hex(hits[k].object.offset),
                or_empty(context.member_unicode_of(hits[k].object, "FileName")),
            ]
        );
        lemma_adds_one(
            steps(k),
            0,
            seq![
                Cell::hex(hits[k].object.offset),
                or_empty(context.member_unicode_of(hits[k].object, "FileName")),
            ],
        );
    }
    lemma_flat_adds(steps, rows, hits.len() as int);
}

/// The rows of the mutants that the pools hold.
pub open spec fn rows_of_mutants_are_reported(
    context: &Context,
    kernel: Module,
    hits: Seq<&PoolHit>,
) -> spec_fn(int) -> Seq<Seq<Cell>> {
    |k: int|
        seq![
            seq![
                Cell::hex(hits[k].object.offset),
                or_not_applicable(context.object_name_of(hits[k].object, &kernel)),
            ]
        ]
}

/// Every kernel object under the tag `Muta` is reported, with the name on its header.
pub proof fn law_mutants_are_reported(
    context: &Context,
    config: &Configuration,
    kernel: Module,
    hits: Seq<&PoolHit>,
)
    requires
        kernel_of(context, config) == Some(kernel),
        scanned_tags(context, seq![0x6174_754du32]) == Some(hits),
    ensures
        MutantScan.report(context, config) is Ok,
        names_of(MutantScan.report(context, config)->Ok_0.columns) == seq!["Offset"@, "Name"@],
        cells_of(MutantScan.report(context, config)->Ok_0) == flat(
            rows_of_mutants_are_reported(context, kernel, hits),
            hits.len() as int,
        ),
{
    let steps = |k: int| mutantscan::reported(
        context,
        &kernel,
        MutantScan.headings(),
        objects_of(hits),
        k,
    );
    let rows = rows_of_mutants_are_reported(context, kernel, hits);
    assert forall|k: int| 0 <= k < hits.len() implies adds(
        steps(k),
        steps(k + 1),
        #[trigger] rows(k),
    ) by {
        lemma_adds_none(steps(k));
        assert(
            mutantscan::object_row(context, &kernel, objects_of(hits)[k]) =~= seq![
                Cell::hex(hits[k].object.offset),
                or_not_applicable(context.object_name_of(hits[k].object, &kernel)),
            ]
        );
        lemma_adds_one(
            steps(k),
            0,
            seq![
                Cell::hex(hits[k].object.offset),
                or_not_applicable(context.object_name_of(hits[k].object, &kernel)),
            ],
        );
    }
    lemma_flat_adds(steps, rows, hits.len() as int);
}


/// Whether an object is a driver: where its image begins can be read, and is either zero or
/// in the kernel's part of memory.
pub open spec fn is_a_driver(
    context: &Context,
    kernel: &Module,
    field: u64,
    object: Object,
) -> bool {
    &&& context.is_valid(object.layer, object.offset.wrapping_add(field), 8)
    &&& context.member_pointer(object, "DriverStart") matches Some(start) && (start == 0 || start
        > kernel_space_start(context, kernel))
}

proof fn lemma_drivers(context: &Context, kernel: &Module, field: u64, objects: Seq<Object>)
    ensures
        driverscan::drivers_among(context, kernel, field, objects) == objects.filter(
            |object: Object| is_a_driver(context, kernel, field, object),
        ),
    decreases objects.len(),
{
    reveal(Seq::filter);
    if objects.len() > 0 {
        lemma_drivers(context, kernel, field, objects.drop_last());
    }
}

/// The drivers that a scan finds are the kernel objects under the tag `Driv` and its
/// protected form that name an image a driver can have.
pub proof fn law_drivers_are_scanned_by_their_tags(
    context: &Context,
    kernel: &Module,
    hits: Seq<&PoolHit>,
    field: u64,
)
    requires
        scanned_tags(context, seq![0xf669_7244u32, 0x7669_7244u32]) == Some(hits),
        driverscan::start_field(context, kernel) == Some(field),
    ensures
        driverscan::drivers(context, kernel) == Some(
            hits.map_values(|hit: &PoolHit| hit.object).filter(
                |object: Object| is_a_driver(context, kernel, field, object),
            ),
        ),
{
    lemma_drivers(context, kernel, field, objects_of(hits));
    assert(objects_of(hits) =~= hits.map_values(|hit: &PoolHit| hit.object));
}

/// A name that says something.
pub open spec fn worth_showing(name: Option<Seq<char>>) -> Cell {
    match name {
        Some(name) => if name.len() == 0 {
            Cell::not_available()
        } else {
            Cell::Text(name)
        },
        None => Cell::not_available(),
    }
}

/// The key that a driver's service has in the registry.
pub open spec fn service_of(context: &Context, driver: Object) -> Option<Seq<char>> {
    match context.member_target(driver, "DriverExtension") {
        Some(extension) => context.member_unicode_of(extension, "ServiceKeyName"),
        None => None,
    }
}

/// Whether a driver has a name of any kind.
pub open spec fn is_named(context: &Context, kernel: &Module, driver: Object) -> bool {
    ||| worth_showing(service_of(context, driver)) is Text
    ||| worth_showing(context.object_name_of(driver, kernel)) is Text
    ||| worth_showing(context.member_unicode_of(driver, "DriverName")) is Text
}

/// What is told of a driver.
pub open spec fn driver_of(context: &Context, kernel: &Module, driver: Object) -> Seq<Cell> {
    seq![
        Cell::hex(driver.offset),
        Cell::hex_or_unreadable(context.member_pointer(driver, "DriverStart")),
        Cell::hex_or_unreadable(context.member_u64(driver, "DriverSize")),
        worth_showing(service_of(context, driver)),
        worth_showing(context.object_name_of(driver, kernel)),
        worth_showing(context.member_unicode_of(driver, "DriverName")),
    ]
}

proof fn lemma_driver_row(context: &Context, kernel: &Module, driver: Object)
    ensures
        driverscan::driver_row(context, kernel, driver) == (if is_named(context, kernel, driver) {
            Some(driver_of(context, kernel, driver))
        } else {
            None
        }),
{
    reveal(driverscan::header_name_of);
    reveal(driverscan::service_key_of);
    reveal(driverscan::own_name_of);
}

/// The rows of the drivers that have a name.
pub open spec fn rows_of_drivers_are_reported(
    context: &Context,
    kernel: Module,
    drivers: Seq<Object>,
) -> spec_fn(int) -> Seq<Seq<Cell>> {
    |k: int|
        if is_named(context, &kernel, drivers[k]) {
            seq![driver_of(context, &kernel, drivers[k])]
        } else {
            Seq::empty()
        }
}

/// Every driver that has a name is reported, with its place, its image and its three names.
pub proof fn law_drivers_are_reported(
    context: &Context,
    config: &Configuration,
    kernel: Module,
    drivers: Seq<Object>,
)
    requires
        kernel_of(context, config) == Some(kernel),
        driverscan::drivers(context, &kernel) == Some(drivers),
    ensures
        DriverScan.report(context, config) is Ok,
        names_of(DriverScan.report(context, config)->Ok_0.columns) == seq![
            "Offset"@,
            "Start"@,
            "Size"@,
            "Service Key"@,
            "Driver Name"@,
            "Name"@,
        ],
        cells_of(DriverScan.report(context, config)->Ok_0) == flat(
            rows_of_drivers_are_reported(context, kernel, drivers),
            drivers.len() as int,
        ),
{
    let steps = |k: int| driverscan::reported(context, &kernel, DriverScan.headings(), drivers, k);
    let rows = rows_of_drivers_are_reported(context, kernel, drivers);
    assert forall|k: int| 0 <= k < drivers.len() implies adds(
        steps(k),
        steps(k + 1),
        #[trigger] rows(k),
    ) by {
        lemma_adds_none(steps(k));
        lemma_driver_row(context, &kernel, drivers[k]);
        lemma_adds_one(steps(k), 0, driver_of(context, &kernel, drivers[k]));
    }
    lemma_flat_adds(steps, rows, drivers.len() as int);
}


/// The kinds of request a driver answers, in the order of its table.
pub open spec fn kinds_of_request() -> Seq<Seq<char>> {
    seq![
        "IRP_MJ_CREATE"@,
        "IRP_MJ_CREATE_NAMED_PIPE"@,
        "IRP_MJ_CLOSE"@,
        "IRP_MJ_READ"@,
        "IRP_MJ_WRITE"@,
        "IRP_MJ_QUERY_INFORMATION"@,
        "IRP_MJ_SET_INFORMATION"@,
        "IRP_MJ_QUERY_EA"@,
        "IRP_MJ_SET_EA"@,
        "IRP_MJ_FLUSH_BUFFERS"@,
        "IRP_MJ_QUERY_VOLUME_INFORMATION"@,
        "IRP_MJ_SET_VOLUME_INFORMATION"@,
        "IRP_MJ_DIRECTORY_CONTROL"@,
        "IRP_MJ_FILE_SYSTEM_CONTROL"@,
        "IRP_MJ_DEVICE_CONTROL"@,
        "IRP_MJ_INTERNAL_DEVICE_CONTROL"@,
        "IRP_MJ_SHUTDOWN"@,
        "IRP_MJ_LOCK_CONTROL"@,
        "IRP_MJ_CLEANUP"@,
        "IRP_MJ_CREATE_MAILSLOT"@,
        "IRP_MJ_QUERY_SECURITY"@,
        "IRP_MJ_SET_SECURITY"@,
        "IRP_MJ_POWER"@,
        "IRP_MJ_SYSTEM_CONTROL"@,
        "IRP_MJ_DEVICE_CHANGE"@,
        "IRP_MJ_QUERY_QUOTA"@,
        "IRP_MJ_SET_QUOTA"@,
        "IRP_MJ_PNP"@,
    ]
}

/// The handler of a kind of request, where it is in the kernel's part of memory.
pub open spec fn handler_of(
    context: &Context,
    kernel: &Module,
    table: Object,
    index: int,
) -> Option<
    u64,
> {
    match context.index(table, index as u64) {
        Some(entry) => match context.pointer_value(entry) {
            Some(address) => if address >= kernel_space_start(context, kernel) {
                Some(address)
            } else {
                None
            },
            None => None,
        },
        None => None,
    }
}

/// What is told of a handler, once for each module and name that its address has.
pub open spec fn handler_rows(
    driver: Object,
    name: Cell,
    kind: Seq<char>,
    address: u64,
    owners: Seq<AttributionView>,
) -> Seq<Seq<Cell>> {
    Seq::new(
        owners.len(),
        |m: int|
            seq![
                Cell::hex(driver.offset),
                name,
                Cell::Text(kind),
                Cell::hex(address),
                owners[m].module,
                owners[m].symbol,
            ],
    )
}

proof fn lemma_handler(
    table: Table,
    driver: Object,
    name: Cell,
    kind: Seq<char>,
    address: u64,
    owners: Seq<AttributionView>,
    count: int,
)
    requires
        0 <= count <= owners.len(),
    ensures
        adds(
            table,
            driverirp::with_owners(table, driver, name, kind, address, owners, count),
            handler_rows(driver, name, kind, address, owners).subrange(0, count),
        ),
    decreases count,
{
    let rows = handler_rows(driver, name, kind, address, owners);
    let after = driverirp::with_owners(table, driver, name, kind, address, owners, count);
    if count <= 0 {
        lemma_adds_none(table);
        assert(rows.subrange(0, count) =~= Seq::empty());
    } else {
        lemma_handler(table, driver, name, kind, address, owners, count - 1);
        let before = driverirp::with_owners(
            table,
            driver,
            name,
            kind,
            address,
            owners,
            count - 1,
        );
        let row = driverirp::handler_row(driver, name, kind, address, owners[count - 1]);
        assert(row =~= rows[count - 1]);
        assert(rows.subrange(0, count) =~= rows.subrange(0, count - 1) + seq![row]);
        lemma_adds_one(before, 0, row);
        lemma_adds_both(table, before, after, rows.subrange(0, count - 1), seq![row]);
    }
}

/// The rows of the requests that a driver answers from the kernel's part of memory.
pub open spec fn parts_of_handlers(
    context: &Context,
    kernel: &Module,
    modules: Seq<CodeModule>,
    driver: Object,
    name: Cell,
    functions: Object,
) -> spec_fn(int) -> Seq<Seq<Cell>> {
    |j: int|
        match handler_of(context, kernel, functions, j) {
            Some(address) => handler_rows(
                driver,
                name,
                kinds_of_request()[j],
                address,
                attributed(modules, address),
            ),
            None => Seq::empty(),
        }
}

proof fn lemma_handlers(
    context: &Context,
    kernel: &Module,
    modules: Seq<CodeModule>,
    driver: Object,
    name: Cell,
    functions: Object,
    table: Table,
)
    ensures
        adds(
            table,
            driverirp::with_handlers(context, kernel, modules, table, driver, name, functions, 28),
            flat(parts_of_handlers(context, kernel, modules, driver, name, functions), 28 as int),
        ),
{
    let steps = |j: int| driverirp::with_handlers(
        context,
        kernel,
        modules,
        table,
        driver,
        name,
        functions,
        j,
    );
    let parts = parts_of_handlers(context, kernel, modules, driver, name, functions);
    assert forall|j: int| 0 <= j < 28 implies adds(steps(j), steps(j + 1), #[trigger] parts(j)) by {
        lemma_adds_none(steps(j));
        if let Some(address) = handler_of(context, kernel, functions, j) {
            let owners = attributed(modules, address);
            let kind = kinds_of_request()[j];
            assert(driverirp::request_kinds()[j]@ == kind);
            lemma_handler(steps(j), driver, name, kind, address, owners, owners.len() as int);
            let rows = handler_rows(driver, name, kind, address, owners);
            assert(rows.subrange(0, owners.len() as int) =~= rows);
        }
    }
    lemma_flat_adds(steps, parts, 28 as int);
}

/// The rows of the requests that some drivers answer.
pub open spec fn rows_of_request_handlers_are_reported(
    context: &Context,
    kernel: Module,
    modules: Seq<CodeModule>,
    drivers: Seq<Object>,
) -> spec_fn(int) -> Seq<Seq<Cell>> {
    |k: int|
        if context.member(drivers[k], "MajorFunction") is Some {
            flat(
                parts_of_handlers(
                    context,
                    &kernel,
                    modules,
                    drivers[k],
                    or_not_applicable(context.object_name_of(drivers[k], &kernel)),
                    context.member(drivers[k], "MajorFunction")->0,
                ),
                28,
            )
        } else {
            Seq::empty()
        }
}

/// Every handler that a driver has in the kernel's part of memory is reported, under the kind of
/// request it answers, for each module that its address lies in.
pub proof fn law_request_handlers_are_reported(
    context: &Context,
    config: &Configuration,
    kernel: Module,
    modules: Vec<CodeModule>,
    drivers: Seq<Object>,
)
    requires
        kernel_of(context, config) == Some(kernel),
        context.windows.code == Some(modules),
        driverscan::drivers(context, &kernel) == Some(drivers),
    ensures
        DriverIrp.report(context, config) is Ok,
        names_of(DriverIrp.report(context, config)->Ok_0.columns) == seq![
            "Offset"@,
            "Driver Name"@,
            "IRP"@,
            "Address"@,
            "Module"@,
            "Symbol"@,
        ],
        cells_of(DriverIrp.report(context, config)->Ok_0) == flat(
            rows_of_request_handlers_are_reported(context, kernel, modules@, drivers),
            drivers.len() as int,
        ),
{
    let steps = |k: int| driverirp::reported(
        context,
        &kernel,
        modules@,
        DriverIrp.headings(),
        drivers,
        k,
    );
    let rows = rows_of_request_handlers_are_reported(context, kernel, modules@, drivers);
    assert forall|k: int| 0 <= k < drivers.len() implies adds(
        steps(k),
        steps(k + 1),
        #[trigger] rows(k),
    ) by {
        lemma_adds_none(steps(k));
        reveal(driverirp::with_driver);
        if let Some(functions) = context.member(drivers[k], "MajorFunction") {
            lemma_handlers(
                context,
                &kernel,
                modules@,
                drivers[k],
                or_not_applicable(context.object_name_of(drivers[k], &kernel)),
                functions,
                steps(k),
            );
        }
    }
    lemma_flat_adds(steps, rows, drivers.len() as int);
}


/// The name of an object that a scan of the pools finds: a process goes by its image, a file
/// by its name, and nothing else has one.
pub open spec fn goes_by(context: &Context, hit: &PoolHit) -> Cell {
    match hit.object_type {
        Some(kind) => if kind@ == "Process"@ {
            match context.member(hit.object, "ImageFileName") {
                Some(name) => or_not_applicable(context.string_of(name)),
                None => Cell::not_applicable(),
            }
        } else if kind@ == "File"@ {
            or_not_applicable(context.member_unicode_of(hit.object, "FileName"))
        } else {
            Cell::not_applicable()
        },
        None => Cell::not_applicable(),
    }
}

/// The rows of what a scan finds.
pub open spec fn rows_of_everything_found_is_reported(
    context: &Context,
    kernel: Module,
    hits: Seq<&PoolHit>,
) -> spec_fn(int) -> Seq<Seq<Cell>> {
    |k: int|
        seq![
            seq![
                Cell::Text(context.tables@[kernel.table as int].name@ + "!"@ + hits[k].structure@),
                Cell::hex(hits[k].header.offset),
                Cell::Text(context.layers@[hits[k].header.layer as int].name@),
                goes_by(context, hits[k]),
            ]
        ]
}

/// Everything that a scan for all kernel objects finds is reported: its structure, where its
/// header stands and in which layer, and the name it goes by.
pub proof fn law_everything_found_is_reported(
    context: &Context,
    config: &Configuration,
    kernel: Module,
    hits: Seq<&PoolHit>,
)
    requires
        kernel_of(context, config) == Some(kernel),
        kernel.table < context.tables@.len(),
        scanned(context, context.windows.builtin@) == Some(hits),
        forall|k: int| 0 <= k < hits.len()
            ==> (#[trigger] hits[k]).header.layer < context.layers@.len(),
    ensures
        PoolScanner.report(context, config) is Ok,
        names_of(
            PoolScanner.report(context, config)->Ok_0.columns,
        ) == seq!["Tag"@, "Offset"@, "Layer"@, "Name"@],
        cells_of(PoolScanner.report(context, config)->Ok_0) == flat(
            rows_of_everything_found_is_reported(context, kernel, hits),
            hits.len() as int,
        ),
{
    let steps = |k: int| poolscanner::reported(context, &kernel, PoolScanner.headings(), hits, k);
    let rows = rows_of_everything_found_is_reported(context, kernel, hits);
    assert forall|k: int| 0 <= k < hits.len() implies adds(
        steps(k),
        steps(k + 1),
        #[trigger] rows(k),
    ) by {
        lemma_adds_none(steps(k));
        reveal_strlit("!");
        assert("!"@ =~= seq!['!']);
        assert(
            poolscanner::hit_row(context, &kernel, hits[k]) =~= seq![
                Cell::Text(context.tables@[kernel.table as int].name@ + "!"@ + hits[k].structure@),
                Cell::hex(hits[k].header.offset),
                Cell::Text(context.layers@[hits[k].header.layer as int].name@),
                goes_by(context, hits[k]),
            ]
        );
        lemma_adds_one(
            steps(k),
            0,
            seq![
                Cell::Text(context.tables@[kernel.table as int].name@ + "!"@ + hits[k].structure@),
                Cell::hex(hits[k].header.offset),
                Cell::Text(context.layers@[hits[k].header.layer as int].name@),
                goes_by(context, hits[k]),
            ],
        );
    }
    lemma_flat_adds(steps, rows, hits.len() as int);
}


} // verus!
