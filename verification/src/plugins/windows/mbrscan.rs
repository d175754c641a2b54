//! Find master boot records by the signature that closes them.

use crate::config::Configuration;
use crate::context::{self, copy_bytes, Context, Object};
use crate::digest::{self, hex_string, md5_digest};
use crate::error::{Failure, VolatilityError};
use crate::plugins::{
    self, KindView, OperatingSystem, Plugin, Requirement, RequirementKind, RequirementView,
};
use crate::plugins::windows::{kernel_module, physical_layer};
use crate::renderers::{Cell, Column, ColumnType, Row, Table, TreeGrid, Value};
use crate::text::{self, hex_two};
use vstd::prelude::*;

verus! {

/// Scans for master boot records.
pub struct MbrScan;

/// A sector is 512 bytes, and the record's signature closes it.
pub const SECTOR_SIZE: usize = 0x200;

/// Where the signature stands in the sector.
pub const SIGNATURE_OFFSET: u64 = 0x1fe;

/// Where the boot code ends.
pub const BOOTCODE_LENGTH: usize = 0x1b8;

/// The columns, which depend on how much of each entry is reported.
#[verifier::opaque]
pub open spec fn headings_for(full: bool) -> Seq<Column> {
    let columns = seq![
        Column::new("Potential MBR at Physical Offset", ColumnType::UInt),
        Column::string("Disk Signature"),
        Column::string("Bootcode MD5"),
        Column::string("Full MBR MD5"),
        Column::integer("PartitionIndex"),
        Column::boolean("Bootable"),
    ];
    if full {
        columns + seq![
            Column::new("BootFlag", ColumnType::UInt),
            Column::string("PartitionType"),
            Column::new("PartitionTypeRaw", ColumnType::UInt),
            Column::new("StartingLBA", ColumnType::UInt),
            Column::integer("StartingCylinder"),
            Column::integer("StartingCHS"),
            Column::integer("StartingSector"),
            Column::integer("EndingCylinder"),
            Column::integer("EndingCHS"),
            Column::integer("EndingSector"),
            Column::new("SectorInSize", ColumnType::UInt),
            Column::string("Disasm"),
            Column::bytes("Bootcode"),
        ]
    } else {
        columns + seq![
            Column::string("PartitionType"),
            Column::new("SectorInSize", ColumnType::UInt),
            Column::string("Disasm"),
        ]
    }
}

/// The columns, which depend on how much of each entry is reported.
pub fn columns_for(full: bool) -> (columns: Vec<Column>)
    ensures
        columns@ == headings_for(full),
{
    reveal(headings_for);
    let mut columns = vec![
        Column::new("Potential MBR at Physical Offset", ColumnType::UInt),
        Column::string("Disk Signature"),
        Column::string("Bootcode MD5"),
        Column::string("Full MBR MD5"),
        Column::integer("PartitionIndex"),
        Column::boolean("Bootable"),
    ];
    if full {
        columns.push(Column::new("BootFlag", ColumnType::UInt));
    }
    columns.push(Column::string("PartitionType"));
    if full {
        columns.push(Column::new("PartitionTypeRaw", ColumnType::UInt));
        columns.push(Column::new("StartingLBA", ColumnType::UInt));
        columns.push(Column::integer("StartingCylinder"));
        columns.push(Column::integer("StartingCHS"));
        columns.push(Column::integer("StartingSector"));
        columns.push(Column::integer("EndingCylinder"));
        columns.push(Column::integer("EndingCHS"));
        columns.push(Column::integer("EndingSector"));
    }
    columns.push(Column::new("SectorInSize", ColumnType::UInt));
    columns.push(Column::string("Disasm"));
    if full {
        columns.push(Column::bytes("Bootcode"));
    }
    columns
}

pub open spec fn spec_field(context: &Context, entry: Object, name: &str) -> u64 {
    match context.member_u64(entry, name) {
        Some(value) => value,
        None => 0,
    }
}

/// A number of a record, or zero where it is not there.
#[verifier::when_used_as_spec(spec_field)]
pub fn field(context: &Context, entry: Object, name: &str) -> (value: u64)
    ensures
        value == spec_field(context, entry, name),
{
    match context.member_u64(entry, name) {
        Some(value) => value,
        None => 0,
    }
}

pub open spec fn spec_element(context: &Context, entry: Object, name: &str, at: u64) -> u64 {
    match context.member(entry, name) {
        Some(array) => match context.index(array, at) {
            Some(place) => match context.as_u64(place) {
                Some(value) => value,
                None => 0,
            },
            None => 0,
        },
        None => 0,
    }
}

/// A byte of a record, or zero where it is not there.
#[verifier::when_used_as_spec(spec_element)]
pub fn element(context: &Context, entry: Object, name: &str, at: u64) -> (value: u64)
    ensures
        value == spec_element(context, entry, name, at),
{
    match context.member(entry, name) {
        Some(array) => match context.index(array, at) {
            Some(place) => match context.as_u64(place) {
                Some(value) => value,
                None => 0,
            },
            None => 0,
        },
        None => 0,
    }
}

/// The four bytes a disk is identified by.
pub open spec fn signature_text(context: &Context, table: Object) -> Seq<char> {
    text::two_digits(element(context, table, "DiskSignature", 0) as nat) + seq!['-']
        + text::two_digits(element(context, table, "DiskSignature", 1) as nat) + seq!['-']
        + text::two_digits(element(context, table, "DiskSignature", 2) as nat) + seq!['-']
        + text::two_digits(element(context, table, "DiskSignature", 3) as nat)
}

/// The four bytes a disk is identified by.
pub fn disk_signature(context: &Context, table: Object) -> (signature: String)
    ensures
        signature@ == signature_text(context, table),
{
    let mut signature = hex_two(element(context, table, "DiskSignature", 0));
    signature.push('-');
    signature.append(&hex_two(element(context, table, "DiskSignature", 1)));
    signature.push('-');
    signature.append(&hex_two(element(context, table, "DiskSignature", 2)));
    signature.push('-');
    signature.append(&hex_two(element(context, table, "DiskSignature", 3)));
    assert(signature@ =~= signature_text(context, table));
    signature
}

/// What a partition says it holds.
pub open spec fn partition_text(context: &Context, entry: Object) -> Seq<char> {
    match context.member(entry, "PartitionType") {
        Some(kind) => match context.choice_of(kind) {
            Some(name) => name,
            None => "Not Defined PartitionType"@,
        },
        None => "Not Defined PartitionType"@,
    }
}

/// What a partition says it holds.
pub fn partition_type(context: &Context, entry: Object) -> (name: String)
    ensures
        name@ == partition_text(context, entry),
{
    match context.member(entry, "PartitionType") {
        Some(kind) => match context.enum_name(kind) {
            Some(name) => name,
            None => "Not Defined PartitionType".to_owned(),
        },
        None => "Not Defined PartitionType".to_owned(),
    }
}

/// The digest a record is identified by.
pub open spec fn hash_text(data: Seq<u8>) -> Seq<char> {
    digest::hex_of(digest::md5_of(data))
}

/// The digest a record is identified by.
pub fn hash(data: &[u8]) -> (text: String)
    ensures
        text@ == hash_text(data@),
{
    hex_string(&md5_digest(data))
}

/// What the rows of one record begin with: where it is found, the signature of
/// its disk, and its two digests.
pub open spec fn record_cells(
    context: &Context,
    hit: u64,
    table: Object,
    sector: Seq<u8>,
) -> Seq<Cell> {
    seq![
        Cell::hex(hit),
        Cell::Text(signature_text(context, table)),
        Cell::Text(hash_text(sector.take(BOOTCODE_LENGTH as int))),
        Cell::Text(hash_text(sector)),
    ]
}

fn record_row(context: &Context, hit: u64, table: Object, sector: &Vec<u8>, bootcode: &Vec<u8>) -> (
    row: Row)
    requires
        sector@.len() == SECTOR_SIZE,
        bootcode@ == sector@.take(BOOTCODE_LENGTH as int),
    ensures
        row@ == record_cells(context, hit, table, sector@),
{
    Row::new().with(Value::hex(hit)).with(Value::String(disk_signature(context, table))).with(
        Value::String(hash(bootcode)),
    ).with(Value::String(hash(sector)))
}

/// A row that goes on with questions that do not arise.
pub open spec fn with_blanks(cells: Seq<Cell>, count: int) -> Seq<Cell>
    decreases count,
{
    if count <= 0 {
        cells
    } else {
        with_blanks(cells, count - 1).push(Cell::not_applicable())
    }
}

/// What the row of a record says: its own digests, and its boot code.
pub open spec fn head_cells(
    context: &Context,
    hit: u64,
    table: Object,
    sector: Seq<u8>,
    full: bool,
) -> Seq<Cell> {
    let bootcode = sector.take(BOOTCODE_LENGTH as int);
    let first = record_cells(context, hit, table, sector);
    if full {
        with_blanks(first, 12).push(Cell::HexPairs(bootcode)).push(Cell::HexDump(bootcode))
    } else {
        with_blanks(first, 4).push(Cell::HexPairs(bootcode))
    }
}

/// What the row of one partition of a record says.
pub open spec fn entry_cells(
    context: &Context,
    hit: u64,
    table: Object,
    sector: Seq<u8>,
    full: bool,
    entry: Object,
    index: int,
) -> Seq<Cell> {
    let starting_sector = element(context, entry, "StartingCHS", 1) % 64;
    let ending_sector = element(context, entry, "EndingCHS", 1) % 64;
    let flag = field(context, entry, "BootableFlag");
    let first = record_cells(context, hit, table, sector).push(
        Cell::integer((index + 1) as i64),
    ).push(Cell::Bool(flag == 0x80));
    if full {
        first.push(Cell::hex(flag)).push(Cell::Text(partition_text(context, entry))).push(
            Cell::hex(field(context, entry, "PartitionType")),
        ).push(Cell::hex(field(context, entry, "StartingLBA"))).push(
            Cell::integer(
                cylinder(
                    element(context, entry, "StartingCHS", 1),
                    element(context, entry, "StartingCHS", 2),
                ) as i64,
            ),
        ).push(Cell::integer(element(context, entry, "StartingCHS", 0) as i64)).push(
            Cell::integer(starting_sector as i64),
        ).push(
            Cell::integer(
                cylinder(
                    element(context, entry, "EndingCHS", 1),
                    element(context, entry, "EndingCHS", 2),
                ) as i64,
            ),
        ).push(Cell::integer(element(context, entry, "EndingCHS", 0) as i64)).push(
            Cell::integer(ending_sector as i64),
        ).push(Cell::hex(field(context, entry, "SizeInSectors"))).push(
            Cell::not_applicable(),
        ).push(Cell::not_applicable())
    } else {
        first.push(Cell::Text(partition_text(context, entry))).push(
            Cell::hex(field(context, entry, "SizeInSectors")),
        ).push(Cell::not_applicable())
    }
}

/// The cylinder that a packed address names: the high bits of its second byte
/// stand in front of its third.
#[verifier::allow_in_spec]
pub fn cylinder(second: u64, third: u64) -> (number: u64)
    returns
        ((second - second % 64) as u64).wrapping_mul(4).wrapping_add(third),
{
    (second - second % 64).wrapping_mul(4).wrapping_add(third)
}

fn head_row(
    context: &Context,
    hit: u64,
    table: Object,
    sector: &Vec<u8>,
    bootcode: &Vec<u8>,
    full: bool,
) -> (row: Row)
    requires
        sector@.len() == SECTOR_SIZE,
        bootcode@ == sector@.take(BOOTCODE_LENGTH as int),
    ensures
        row@ == head_cells(context, hit, table, sector@, full),
{
    let mut row = record_row(context, hit, table, sector, bootcode);
    let ghost first = row@;
    let count: usize = if full {
        12
    } else {
        4
    };
    for i in 0..count
        invariant
            row@ == with_blanks(first, i as int),
    {
        row = row.with(Value::not_applicable());
    }
    // Boot code is shown as instructions where they can be decoded and as the
    // bytes themselves otherwise.
    row = row.with(Value::HexPairs(copy_bytes(bootcode)));
    if full {
        row = row.with(Value::HexDump(copy_bytes(bootcode)));
    }
    row
}

fn entry_row(
    context: &Context,
    hit: u64,
    table: Object,
    sector: &Vec<u8>,
    bootcode: &Vec<u8>,
    full: bool,
    entry: Object,
    index: u64,
) -> (row: Row)
    requires
        sector@.len() == SECTOR_SIZE,
        bootcode@ == sector@.take(BOOTCODE_LENGTH as int),
        index < 4,
    ensures
        row@ == entry_cells(context, hit, table, sector@, full, entry, index as int),
{
    let flag = field(context, entry, "BootableFlag");
    let starting: u64 = element(context, entry, "StartingCHS", 1);
    let ending: u64 = element(context, entry, "EndingCHS", 1);
    let mut row = record_row(context, hit, table, sector, bootcode).with(
        Value::integer(index as i64 + 1),
    ).with(Value::Bool(flag == 0x80));
    if full {
        row = row.with(Value::hex(flag));
    }
    row = row.with(Value::String(partition_type(context, entry)));
    if full {
        row = row.with(Value::hex(field(context, entry, "PartitionType"))).with(
            Value::hex(field(context, entry, "StartingLBA")),
        ).with(
            Value::integer(
                cylinder(starting, element(context, entry, "StartingCHS", 2)) as i64,
            ),
        ).with(Value::integer(element(context, entry, "StartingCHS", 0) as i64)).with(
            Value::integer((starting % 64) as i64),
        ).with(
            Value::integer(cylinder(ending, element(context, entry, "EndingCHS", 2)) as i64),
        ).with(Value::integer(element(context, entry, "EndingCHS", 0) as i64)).with(
            Value::integer((ending % 64) as i64),
        );
    }
    row = row.with(Value::hex(field(context, entry, "SizeInSectors"))).with(
        Value::not_applicable(),
    );
    if full {
        row = row.with(Value::not_applicable());
    }
    row
}

pub open spec fn spec_entry_name(index: u64) -> &'static str {
    if index == 0 {
        "FirstEntry"
    } else if index == 1 {
        "SecondEntry"
    } else if index == 2 {
        "ThirdEntry"
    } else {
        "FourthEntry"
    }
}

/// The member of a record that holds one of its four partitions.
#[verifier::when_used_as_spec(spec_entry_name)]
pub fn entry_name(index: u64) -> (name: &'static str)
    ensures
        name == spec_entry_name(index),
{
    if index == 0 {
        "FirstEntry"
    } else if index == 1 {
        "SecondEntry"
    } else if index == 2 {
        "ThirdEntry"
    } else {
        "FourthEntry"
    }
}

/// The report once the first of a record's partitions are in it.
pub open spec fn with_entries(
    context: &Context,
    report: Table,
    hit: u64,
    table: Object,
    sector: Seq<u8>,
    full: bool,
    count: int,
) -> Table
    decreases count,
{
    if count <= 0 {
        report
    } else {
        let before = with_entries(context, report, hit, table, sector, full, count - 1);
        match context.member(table, entry_name((count - 1) as u64)) {
            Some(entry) => before.push(
                1,
                entry_cells(context, hit, table, sector, full, entry, count - 1),
            ),
            None => before,
        }
    }
}

/// Whether bytes are all zero.
pub open spec fn is_blank(bytes: Seq<u8>) -> bool {
    forall|i: int| 0 <= i < bytes.len() ==> bytes[i] == 0
}

/// The sector that a signature closes, where it can hold a record: the sector
/// lies in memory, and its boot code is more than zeroes.
pub open spec fn sector_of(context: &Context, layer: usize, hit: u64) -> Option<Seq<u8>> {
    if hit < SIGNATURE_OFFSET {
        None
    } else {
        match context.bytes_of(layer, (hit - SIGNATURE_OFFSET) as u64, SECTOR_SIZE, true) {
            Some(sector) => if is_blank(sector.take(BOOTCODE_LENGTH as int)) {
                None
            } else {
                Some(sector)
            },
            None => None,
        }
    }
}

/// The report once a record that ends in a signature is in it.
#[verifier::opaque]
pub open spec fn with_record(
    context: &Context,
    report: Table,
    layer: usize,
    hit: u64,
    full: bool,
) -> Table {
    match sector_of(context, layer, hit) {
        Some(sector) => match context.object(
            context.table_type("mbr", "PARTITION_TABLE"),
            layer,
            (hit - SIGNATURE_OFFSET) as u64,
        ) {
            Some(table) => with_entries(
                context,
                report.push(0, head_cells(context, hit, table, sector, full)),
                hit,
                table,
                sector,
                full,
                4,
            ),
            None => report,
        },
        None => report,
    }
}

/// The report once the first of some records are in it.
pub open spec fn with_records(
    context: &Context,
    layer: usize,
    hits: Seq<u64>,
    full: bool,
    count: int,
) -> Table
    decreases count,
{
    if count <= 0 {
        Table::empty(headings_for(full))
    } else {
        with_record(
            context,
            with_records(context, layer, hits, full, count - 1),
            layer,
            hits[count - 1],
            full,
        )
    }
}

fn all_zero(bytes: &Vec<u8>) -> (zero: bool)
    ensures
        zero == is_blank(bytes@),
{
    for i in 0..bytes.len()
        invariant
            forall|j: int| 0 <= j < i ==> bytes@[j] == 0,
    {
        if bytes[i] != 0 {
            return false;
        }
    }
    true
}

fn add_record(context: &Context, grid: &mut TreeGrid, layer: usize, hit: u64, full: bool)
    ensures
        final(grid)@ == with_record(context, old(grid)@, layer, hit, full),
{
    reveal(with_record);
    // The signature closes the sector, so the record begins before it.
    if hit < SIGNATURE_OFFSET {
        return;
    }
    let start: u64 = hit - SIGNATURE_OFFSET;
    let sector = match context.read(layer, start, SECTOR_SIZE, true) {
        Some(sector) => sector,
        None => return,
    };
    let mut bootcode = copy_bytes(&sector);
    bootcode.truncate(BOOTCODE_LENGTH);
    assert(bootcode@ =~= sector@.take(BOOTCODE_LENGTH as int));
    if all_zero(&bootcode) {
        return;
    }
    let table = match context.object(
        context.table_type("mbr", "PARTITION_TABLE"),
        layer,
        start,
    ) {
        Some(table) => table,
        None => return,
    };
    // The record itself, and then each of the four entries beneath it.
    grid.push(0, head_row(context, hit, table, &sector, &bootcode, full));
    let ghost before = grid@;
    for index in 0..4u64
        invariant
            sector@.len() == SECTOR_SIZE,
            bootcode@ == sector@.take(BOOTCODE_LENGTH as int),
            grid@ == with_entries(context, before, hit, table, sector@, full, index as int),
    {
        if let Some(entry) = context.member(table, entry_name(index)) {
            grid.push(
                1,
                entry_row(context, hit, table, &sector, &bootcode, full, entry, index),
            );
        }
    }
}

/// The report of every record that the signature leads to. The signature is
/// only two bytes, so most hits are coincidence.
pub open spec fn records(context: &Context, layer: usize, full: bool) -> Table {
    let hits = context.layers@[layer as int].occurrences(seq![0x55u8, 0xaau8]);
    with_records(context, layer, hits, full, hits.len() as int)
}

fn scan_records(context: &Context, layer: usize, full: bool) -> (grid: TreeGrid)
    requires
        layer < context.layers@.len(),
    ensures
        grid@ == records(context, layer, full),
{
    let signature: [u8; 2] = [0x55, 0xaa];
    assert(signature@ =~= seq![0x55u8, 0xaau8]);
    let hits = context.layers[layer].scan(&signature);
    let mut grid = TreeGrid::new(columns_for(full));
    for i in 0..hits.len()
        invariant
            grid@ == with_records(context, layer, hits@, full, i as int),
    {
        add_record(context, &mut grid, layer, hits[i], full);
    }
    grid
}

impl Plugin for MbrScan {
    open spec fn named(&self) -> Seq<char> {
        "windows.mbrscan.MBRScan"@
    }

    open spec fn described(&self) -> Seq<char> {
        "Scans for and parses potential Master Boot Records (MBRs)"@
    }

    open spec fn needs(&self) -> Seq<RequirementView> {
        seq![
            RequirementView::kernel(),
            RequirementView::new(
                "full"@,
                "It analyzes and provides all the information in the partition entry and bootcode hexdump. (It returns a lot of information, so we recommend you render it in CSV.)"@,
                KindView::Bool,
            ),
        ]
    }

    open spec fn headings(&self) -> Seq<Column> {
        headings_for(false)
    }

    open spec fn system(&self) -> OperatingSystem {
        OperatingSystem::Windows
    }

    open spec fn report(&self, context: &Context, config: &Configuration) -> Result<Table, Failure> {
        match plugins::windows::kernel_of(context, config) {
            Some(_) => match context::named_from(
                context.layers@,
                plugins::windows::physical_name(config),
                0,
            ) {
                Some(layer) => if context.table_named("mbr") is None {
                    Err(Failure::Unavailable)
                } else {
                    Ok(records(context, layer as usize, config.flag("full"@)))
                },
                None => Err(Failure::Unavailable),
            },
            None => Err(plugins::windows::no_kernel()),
        }
    }

    fn name(&self) -> (name: &'static str) {
        "windows.mbrscan.MBRScan"
    }

    fn description(&self) -> (description: &'static str) {
        "Scans for and parses potential Master Boot Records (MBRs)"
    }

    fn requirements(&self) -> (requirements: Vec<Requirement>) {
        vec![
            Requirement::kernel(),
            Requirement::new(
                "full",
                "It analyzes and provides all the information in the partition entry and bootcode hexdump. (It returns a lot of information, so we recommend you render it in CSV.)",
                RequirementKind::Bool,
            ),
        ]
    }

    fn operating_system(&self) -> (system: OperatingSystem) {
        OperatingSystem::Windows
    }

    fn columns(&self) -> (columns: Vec<Column>) {
        columns_for(false)
    }

    fn epilog(&self) -> (epilog: Option<&'static str>) {
        None
    }

    fn timeline(&self, context: &Context, config: &Configuration) -> (timeline: Option<
        plugins::Timeline,
    >) {
        None
    }

    fn needs_kernel(&self) -> (needed: bool) {
        false
    }

    fn run(&self, context: &Context, config: &Configuration) -> (result: Result<TreeGrid, VolatilityError>) {
        let _kernel = kernel_module(context, config)?;
        let physical = physical_layer(config);
        let full = config.is_set("full");
        let layer = match context.layer_named(&physical) {
            Some(layer) => layer,
            None => return Err(VolatilityError::Unavailable),
        };
        // The record's own structures are described by a table of their own.
        if context.table_named("mbr").is_none() {
            return Err(VolatilityError::Unavailable);
        }
        proof {
            context::lemma_named_from(context.layers@, physical@, 0);
        }
        Ok(scan_records(context, layer, full))
    }
}

} // verus!
