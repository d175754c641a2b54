//! Report the header of a Windows crash dump.
//!
//! The header records how the dump was produced and where the kernel's key
//! structures were, which is useful for confirming an image is what it claims
//! to be before trusting anything else read from it.

use crate::config::Configuration;
use crate::context::{Context, Layer};
use crate::error::{Failure, VolatilityError};
use crate::plugins::{
    self, KindView, OperatingSystem, Plugin, Requirement, RequirementKind, RequirementView,
};
use crate::renderers::{Cell, Column, ColumnType, Row, Table, TreeGrid, Value};
use crate::symbols;
use crate::symbols::windows::{check_header, CrashHeader};
use crate::text::{self, starts_with};
use vstd::prelude::*;

verus! {

/// Reports the header of a Windows crash dump.
pub struct CrashInfo;

/// Offsets of the header fields, which the on-disk format fixes. The 64-bit
/// layout widens the pointers but keeps the same ordering.
#[derive(Clone, Copy, PartialEq, Eq, Structural, Debug)]
pub struct Fields {
    pub word: u64,
    pub pfn_database: u64,
    pub ps_loaded_module_list: u64,
    pub ps_active_process_head: u64,
    pub machine_image_type: u64,
    pub number_processors: u64,
    pub kd_debugger_data_block: u64,
}

/// Where the header fields of a dump stand.
#[verifier::allow_in_spec]
pub fn fields(is_64bit: bool) -> (fields: Fields)
    returns
        (if is_64bit {
            Fields {
                word: 8,
                pfn_database: 0x18,
                ps_loaded_module_list: 0x20,
                ps_active_process_head: 0x28,
                machine_image_type: 0x30,
                number_processors: 0x34,
                kd_debugger_data_block: 0x80,
            }
        } else {
            Fields {
                word: 4,
                pfn_database: 0x14,
                ps_loaded_module_list: 0x18,
                ps_active_process_head: 0x1c,
                machine_image_type: 0x20,
                number_processors: 0x24,
                kd_debugger_data_block: 0x60,
            }
        }),
{
    if is_64bit {
        Fields {
            word: 8,
            pfn_database: 0x18,
            ps_loaded_module_list: 0x20,
            ps_active_process_head: 0x28,
            machine_image_type: 0x30,
            number_processors: 0x34,
            kd_debugger_data_block: 0x80,
        }
    } else {
        Fields {
            word: 4,
            pfn_database: 0x14,
            ps_loaded_module_list: 0x18,
            ps_active_process_head: 0x1c,
            machine_image_type: 0x20,
            number_processors: 0x24,
            kd_debugger_data_block: 0x60,
        }
    }
}

/// The first layer, from a place on, whose name begins with `base`. The crash
/// layer sits directly on the file, so that is the one carrying the header.
pub open spec fn base_from(layers: Seq<Layer>, from: int) -> Option<int>
    decreases layers.len() - from,
{
    if from < 0 || from >= layers.len() {
        None
    } else if text::begins(layers[from].name@, "base"@) {
        Some(from)
    } else {
        base_from(layers, from + 1)
    }
}

fn find_base(layers: &Vec<Layer>) -> (layer: Option<usize>)
    ensures
        match layer {
            Some(layer) => base_from(layers@, 0) == Some(layer as int),
            None => base_from(layers@, 0) is None,
        },
{
    let mut i: usize = 0;
    while i < layers.len()
        invariant
            i <= layers@.len(),
            base_from(layers@, 0) == base_from(layers@, i as int),
        decreases layers@.len() - i,
    {
        if starts_with(&layers[i].name, "base") {
            return Some(i);
        }
        i = i + 1;
    }
    None
}

/// A number of the header, in hexadecimal.
pub open spec fn address_cell(context: &Context, layer: usize, offset: u64, size: u64) -> Cell {
    Cell::hex_or_unreadable(context.number_at(layer, offset, size))
}

/// A 32 bit number of the header.
pub open spec fn number_cell(context: &Context, layer: usize, offset: u64) -> Cell {
    Cell::integer_or_unreadable(context.number_at(layer, offset, 4))
}

/// The first cells of the row: what is read straight from the header.
pub open spec fn first_cells(context: &Context, layer: usize, header: CrashHeader) -> Seq<Cell> {
    seq![
        Cell::Text("PAGE"@),
        number_cell(context, layer, 0x08),
        number_cell(context, layer, 0x0c),
        Cell::hex(header.directory_table_base),
        address_cell(
            context,
            layer,
            fields(header.is_64bit).pfn_database,
            fields(header.is_64bit).word,
        ),
        address_cell(
            context,
            layer,
            fields(header.is_64bit).ps_loaded_module_list,
            fields(header.is_64bit).word,
        ),
        address_cell(
            context,
            layer,
            fields(header.is_64bit).ps_active_process_head,
            fields(header.is_64bit).word,
        ),
        number_cell(context, layer, fields(header.is_64bit).machine_image_type),
        number_cell(context, layer, fields(header.is_64bit).number_processors),
        address_cell(
            context,
            layer,
            fields(header.is_64bit).kd_debugger_data_block,
            fields(header.is_64bit).word,
        ),
        Cell::integer(header.dump_type as i64),
    ]
}

/// The row of the header. The trailing fields sit at offsets that vary across
/// Windows versions. Reporting them as unavailable is preferable to reading a
/// fixed offset that may be wrong.
pub open spec fn header_row(context: &Context, layer: usize, header: CrashHeader) -> Seq<Cell> {
    first_cells(context, layer, header) + Seq::new(6, |i: int| Cell::not_available())
}

fn make_row(context: &Context, layer: usize, header: CrashHeader) -> (row: Row)
    ensures
        row@ == header_row(context, layer, header),
{
    let places = fields(header.is_64bit);
    let first = Row::new().with(Value::string("PAGE")).with(
        Value::integer_or_unreadable(context.number_at(layer, 0x08, 4)),
    ).with(Value::integer_or_unreadable(context.number_at(layer, 0x0c, 4))).with(
        Value::hex(header.directory_table_base),
    ).with(
        Value::hex_or_unreadable(context.number_at(layer, places.pfn_database, places.word)),
    ).with(
        Value::hex_or_unreadable(
            context.number_at(layer, places.ps_loaded_module_list, places.word),
        ),
    ).with(
        Value::hex_or_unreadable(
            context.number_at(layer, places.ps_active_process_head, places.word),
        ),
    ).with(
        Value::integer_or_unreadable(context.number_at(layer, places.machine_image_type, 4)),
    ).with(
        Value::integer_or_unreadable(context.number_at(layer, places.number_processors, 4)),
    ).with(
        Value::hex_or_unreadable(
            context.number_at(layer, places.kd_debugger_data_block, places.word),
        ),
    ).with(Value::integer(header.dump_type as i64));
    assert(first@ =~= first_cells(context, layer, header));
    let row = first.with(Value::not_available()).with(Value::not_available()).with(
        Value::not_available(),
    ).with(Value::not_available()).with(Value::not_available()).with(Value::not_available());
    assert(row@ =~= header_row(context, layer, header));
    row
}

impl Plugin for CrashInfo {
    open spec fn named(&self) -> Seq<char> {
        "windows.crashinfo.Crashinfo"@
    }

    open spec fn described(&self) -> Seq<char> {
        "Lists the information from a Windows crash dump."@
    }

    open spec fn needs(&self) -> Seq<RequirementView> {
        seq![
            RequirementView::new(
                "primary"@,
                "Memory layer for the kernel"@,
                KindView::TranslationLayer,
            ).for_architectures(seq!["Intel32", "Intel64"]),
        ]
    }

    open spec fn headings(&self) -> Seq<Column> {
        seq![
            Column::string("Signature"),
            Column::integer("MajorVersion"),
            Column::integer("MinorVersion"),
            Column::new("DirectoryTableBase", ColumnType::UInt),
            Column::new("PfnDataBase", ColumnType::UInt),
            Column::new("PsLoadedModuleList", ColumnType::UInt),
            Column::new("PsActiveProcessHead", ColumnType::UInt),
            Column::new("MachineImageType", ColumnType::UInt),
            Column::integer("NumberProcessors"),
            Column::new("KdDebuggerDataBlock", ColumnType::UInt),
            Column::integer("DumpType"),
            Column::integer("SystemUpTime"),
            Column::string("Comment"),
            Column::datetime("SystemTime"),
            Column::integer("BitmapHeaderSize"),
            Column::integer("BitmapSize"),
            Column::integer("BitmapPages"),
        ]
    }

    open spec fn system(&self) -> OperatingSystem {
        OperatingSystem::Windows
    }

    open spec fn report(&self, context: &Context, config: &Configuration) -> Result<Table, Failure> {
        match base_from(context.layers@, 0) {
            Some(layer) => match symbols::windows::crash_from(
                context.windows.crashes@,
                layer as usize,
                0,
            ) {
                Some(header) => Ok(
                    Table::empty(self.headings()).push(
                        0,
                        header_row(context, layer as usize, header),
                    ),
                ),
                None => Err(
                    Failure::Other(
                        "This image is not a Windows crash dump; crashinfo has nothing to report"@,
                    ),
                ),
            },
            None => Err(Failure::Other("No base layer"@)),
        }
    }

    fn name(&self) -> (name: &'static str) {
        "windows.crashinfo.Crashinfo"
    }

    fn description(&self) -> (description: &'static str) {
        "Lists the information from a Windows crash dump."
    }

    fn requirements(&self) -> (requirements: Vec<Requirement>) {
        vec![
            Requirement::new(
                "primary",
                "Memory layer for the kernel",
                RequirementKind::TranslationLayer,
            ).for_architectures(&["Intel32", "Intel64"]),
        ]
    }

    fn operating_system(&self) -> (system: OperatingSystem) {
        OperatingSystem::Windows
    }

    fn columns(&self) -> (columns: Vec<Column>) {
        vec![
            Column::string("Signature"),
            Column::integer("MajorVersion"),
            Column::integer("MinorVersion"),
            Column::new("DirectoryTableBase", ColumnType::UInt),
            Column::new("PfnDataBase", ColumnType::UInt),
            Column::new("PsLoadedModuleList", ColumnType::UInt),
            Column::new("PsActiveProcessHead", ColumnType::UInt),
            Column::new("MachineImageType", ColumnType::UInt),
            Column::integer("NumberProcessors"),
            Column::new("KdDebuggerDataBlock", ColumnType::UInt),
            Column::integer("DumpType"),
            Column::integer("SystemUpTime"),
            Column::string("Comment"),
            Column::datetime("SystemTime"),
            Column::integer("BitmapHeaderSize"),
            Column::integer("BitmapSize"),
            Column::integer("BitmapPages"),
        ]
    }

    fn epilog(&self) -> (epilog: Option<&'static str>) {
        None
    }

    fn timeline(&self, context: &Context, config: &Configuration) -> (timeline: Option<
        plugins::Timeline,
    >) {
        None
    }

    fn needs_kernel(&self) -> (needed: bool) {
        false
    }

    fn run(&self, context: &Context, config: &Configuration) -> (result: Result<TreeGrid, VolatilityError>) {
        let layer = match find_base(&context.layers) {
            Some(layer) => layer,
            None => return Err(VolatilityError::other("No base layer")),
        };
        let header = match check_header(context, layer) {
            Some(header) => header,
            None => return Err(
                VolatilityError::other(
                    "This image is not a Windows crash dump; crashinfo has nothing to report",
                ),
            ),
        };
        let mut grid = TreeGrid::new(self.columns());
        grid.push(0, make_row(context, layer, header));
        Ok(grid)
    }
}

} // verus!
