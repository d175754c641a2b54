//! Laws on the kernel's own tables and on what lies outside of it: large allocations,
//! processors, crash dumps, boot records and services.

use crate::config::Configuration;
use crate::context::{Choice, Context, Module, Object, TypeId};
use crate::laws::{
    adds, cells_of, flat, lemma_adds_none, lemma_adds_one, lemma_flat_adds, names_of,
};
use crate::plugins::windows::bigpools::{self, AllocationView, BigPools};
use crate::plugins::windows::crashinfo::{self, CrashInfo};
use crate::plugins::windows::getservicesids::{self, GetServiceSids};
use crate::plugins::windows::kpcrs::{self, Kpcrs};
use crate::plugins::windows::mbrscan;
use crate::plugins::windows::{info, kernel_of};
use crate::plugins::Plugin;
use crate::renderers::{Cell, Table};
use crate::symbols::registry::{descended, RegistryKey};
use crate::symbols::windows::CrashHeader;
use crate::text::{self, precedes};
use vstd::prelude::*;

verus! {

/// Whether an entry of the table of large allocations is one to list: it has been used, it is
/// in use or free ones are asked for, and its tag is among those asked for.
pub open spec fn is_recorded(
    context: &Context,
    entry: Object,
    tags: Option<Seq<Seq<char>>>,
    free: bool,
) -> bool {
    &&& context.member_u64(entry, "Key") matches Some(key) && key != 0 && (tags matches Some(wanted)
        ==> wanted.contains(bigpools::tag_text(key, 4)))
    &&& context.member_u64(entry, "Va") matches Some(address) && address >= 2 && (address % 2 == 1
        ==> free)
}

/// An entry of the table of large allocations records where the allocation stands, the tag
/// that its key spells, and by the lowest bit of the address whether it is free.
pub proof fn law_a_large_allocation_says_whether_it_is_free(
    context: &Context,
    entry: Object,
    tags: Option<Seq<Seq<char>>>,
    free: bool,
)
    ensures
        bigpools::allocation_of(context, entry, tags, free) is Some <==> is_recorded(
            context,
            entry,
            tags,
            free,
        ),
        bigpools::allocation_of(context, entry, tags, free) matches Some(found) ==> Some(
            found.address,
        ) == context.member_u64(entry, "Va") && found.tag == bigpools::tag_text(
            context.member_u64(entry, "Key")->0,
            4,
        ) && (found.free <==> found.address % 2 == 1) && found.entry == entry,
{
    if let Some(address) = context.member_u64(entry, "Va") {
        assert(address & 0xffff_ffff_ffff_fffeu64 == 0 <==> address < 2) by (bit_vector);
        assert(address & 1 != 0 <==> address % 2 == 1) by (bit_vector);
    }
}

/// A tag of four printable characters reads as those, the one in the lowest byte first.
pub proof fn law_a_tag_is_its_four_bytes(key: u64, a: u8, b: u8, c: u8, d: u8)
    requires
        key == a + 0x100 * b + 0x1_0000 * c + 0x100_0000 * d,
        0x21 <= a <= 0x7e,
        0x21 <= b <= 0x7e,
        0x21 <= c <= 0x7e,
        0x21 <= d <= 0x7e,
    ensures
        bigpools::tag_text(key, 4) == seq![a as char, b as char, c as char, d as char],
{
    assert(((key >> 0u64) & 0xff) as u8 == a && ((key >> 8u64) & 0xff) as u8 == b && ((key
        >> 16u64) & 0xff) as u8 == c && ((key >> 24u64) & 0xff) as u8 == d) by (bit_vector)
        requires
            key == a + 0x100 * b + 0x1_0000 * c + 0x100_0000 * d,
    ;
    reveal_with_fuel(bigpools::tag_text, 5);
    assert(bigpools::tag_text(key, 4) =~= seq![a as char, b as char, c as char, d as char]);
}

/// Of the names that a kind of pool goes by, the first in order is the one it is reported
/// under.
pub proof fn law_a_kind_of_pool_goes_by_its_first_name(
    choices: Seq<Choice>,
    value: u64,
    count: int,
    i: int,
)
    requires
        0 <= count <= choices.len(),
    ensures
        0 <= i < count && choices[i].value as u64 == value ==> bigpools::least_name(
            choices,
            value,
            count,
        ) is Some && !precedes(choices[i].name@, bigpools::least_name(choices, value, count)->0),
        bigpools::least_name(choices, value, count) matches Some(name) ==> exists|k: int|
            0 <= k < count && (#[trigger] choices[k]).value as u64 == value && choices[k].name@
                == name,
    decreases count,
{
    if count > 0 {
        law_a_kind_of_pool_goes_by_its_first_name(choices, value, count - 1, i);
        let before = bigpools::least_name(choices, value, count - 1);
        let last = choices[count - 1];
        if last.value as u64 == value {
            if precedes(last.name@, last.name@) {
                text::lemma_precedes_one_way(last.name@, last.name@);
            }
            if before is Some && precedes(last.name@, before->0) {
                text::lemma_precedes_one_way(last.name@, before->0);
                if 0 <= i < count - 1 && choices[i].value as u64 == value {
                    text::lemma_precedes_chain(last.name@, before->0, choices[i].name@);
                }
            }
        }
    }
}


/// What is told of a large allocation.
#[verifier::opaque]
pub open spec fn allocation_cells(context: &Context, kernel: &Module, found: AllocationView) -> Seq<
    Cell,
> {
    seq![
        Cell::hex(found.address),
        Cell::Text(found.tag),
        match context.member_u64(found.entry, "PoolType") {
            Some(kind) => Cell::Text(bigpools::pool_type_text(context, kernel, kind)),
            None => Cell::unreadable(),
        },
        Cell::hex_or_unreadable(context.member_u64(found.entry, "NumberOfBytes")),
        if found.free {
            Cell::Text("Free"@)
        } else {
            Cell::Text("Allocated"@)
        },
    ]
}

proof fn lemma_allocation_cells(context: &Context, kernel: &Module, found: AllocationView)
    ensures
        bigpools::allocation_row(context, kernel, found) == allocation_cells(
            context,
            kernel,
            found,
        ),
{
    reveal(allocation_cells);
    assert(bigpools::allocation_row(context, kernel, found) =~= allocation_cells(
        context,
        kernel,
        found,
    ));
}

/// The rows of some large allocations.
pub open spec fn rows_of_large_allocations_are_reported(
    context: &Context,
    kernel: Module,
    list: Seq<AllocationView>,
) -> spec_fn(int) -> Seq<Seq<Cell>> {
    |k: int|
        seq![allocation_cells(context, &kernel, list[k])]
}

/// Every large allocation that is listed is reported, in the order of the table.
pub proof fn law_large_allocations_are_reported(
    context: &Context,
    config: &Configuration,
    kernel: Module,
    list: Seq<AllocationView>,
)
    requires
        kernel_of(context, config) == Some(kernel),
        bigpools::big_pools(
            context,
            &kernel,
            bigpools::asked_tags(config),
            config.flag("show-free"@),
        ) == Some(list),
    ensures
        BigPools.report(context, config) is Ok,
        names_of(BigPools.report(context, config)->Ok_0.columns) == seq![
            "Allocation"@,
            "Tag"@,
            "PoolType"@,
            "NumberOfBytes"@,
            "Status"@,
        ],
        cells_of(BigPools.report(context, config)->Ok_0) == flat(
            rows_of_large_allocations_are_reported(context, kernel, list),
            list.len() as int,
        ),
{
    let steps = |k: int| bigpools::reported(context, &kernel, BigPools.headings(), list, k);
    let rows = rows_of_large_allocations_are_reported(context, kernel, list);
    assert forall|k: int| 0 <= k < list.len() implies adds(
        steps(k),
        steps(k + 1),
        #[trigger] rows(k),
    ) by {
        lemma_adds_none(steps(k));
        lemma_allocation_cells(context, &kernel, list[k]);
        lemma_adds_one(steps(k), 0, allocation_cells(context, &kernel, list[k]));
    }
    lemma_flat_adds(steps, rows, list.len() as int);
}


/// The entry of a table of large allocations at an index.
pub open spec fn slot(kind: TypeId, size: u64, layer: usize, table: u64, index: int) -> Object {
    Object {
        kind,
        layer,
        native: layer,
        offset: ((table + index * size) % 0x1_0000_0000_0000_0000) as u64,
    }
}

/// Every entry of the table is looked at, and each that is to be listed is.
pub proof fn law_every_slot_of_the_table_is_looked_at(
    context: &Context,
    kind: TypeId,
    size: u64,
    layer: usize,
    table: u64,
    tags: Option<Seq<Seq<char>>>,
    free: bool,
    count: nat,
    i: int,
)
    requires
        0 <= i < count <= 0x10_0000,
        is_recorded(context, slot(kind, size, layer, table, i), tags, free),
    ensures
        exists|m: int|
            0 <= m < bigpools::allocations(
                context,
                kind,
                size,
                layer,
                table,
                tags,
                free,
                count,
            ).len() && (#[trigger] bigpools::allocations(
                context,
                kind,
                size,
                layer,
                table,
                tags,
                free,
                count,
            )[m]).entry == slot(kind, size, layer, table, i),
    decreases count,
{
    let all = bigpools::allocations(context, kind, size, layer, table, tags, free, count);
    let before = bigpools::allocations(
        context,
        kind,
        size,
        layer,
        table,
        tags,
        free,
        (count - 1) as nat,
    );
    if i < count - 1 {
        law_every_slot_of_the_table_is_looked_at(
            context,
            kind,
            size,
            layer,
            table,
            tags,
            free,
            (count - 1) as nat,
            i,
        );
        let m = choose|m: int|
            0 <= m < before.len() && (#[trigger] before[m]).entry == slot(
                kind,
                size,
                layer,
                table,
                i,
            );
        assert(all[m] == before[m]);
    } else {
        let at = (count - 1) as u64;
        let offset = table.wrapping_add(at.wrapping_mul(size));
        assert(offset == (table + i * size) % 0x1_0000_0000_0000_0000) by {
            vstd::arithmetic::div_mod::lemma_add_mod_noop(
                table as int,
                at * size,
                0x1_0000_0000_0000_0000,
            );
            assert(at.wrapping_mul(size) == (at * size) % 0x1_0000_0000_0000_0000);
            assert(at * size == i * size);
            vstd::arithmetic::div_mod::lemma_small_mod(table as nat, 0x1_0000_0000_0000_0000);
        }
        let entry = slot(kind, size, layer, table, i);
        law_a_large_allocation_says_whether_it_is_free(context, entry, tags, free);
        assert(all[before.len() as int].entry == entry);
    }
}

/// The block of a processor is named in a table of pointers, and its control region is the
/// structure that the block is a part of.
pub proof fn law_a_control_region_holds_its_block(
    context: &Context,
    kernel: &Module,
    kind: TypeId,
    blocks: u64,
    part: u64,
    index: u64,
    raw: u64,
    region: Object,
)
    requires
        context.get_type(kernel.table, "_KPCR") == Some(kind),
        context.symbol_offset(kernel, "KiProcessorBlock") == Some(blocks),
        context.find_member(kind, "Prcb") matches Some((offset, _)) && offset == part,
        context.number_at(
            kernel.layer,
            blocks.wrapping_add(index.wrapping_mul(context.pointer_size(kernel))),
            context.pointer_size(kernel),
        ) == Some(raw),
        raw & context.address_mask(kernel.layer) != 0,
        context.is_valid(kernel.layer, raw & context.address_mask(kernel.layer), 1),
        region == (Object {
            kind,
            layer: kernel.layer,
            native: kernel.layer,
            offset: (raw & context.address_mask(kernel.layer)).wrapping_sub(part),
        }),
    ensures
        kpcrs::processor_walk(context, kernel) is Some,
        kpcrs::region_at(context, kernel, kpcrs::processor_walk(context, kernel)->0, index)
            matches Some(found) && found.0 == region && (context.find_member(kind, "CurrentPrcb")
            is Some && context.member_u64(region, "CurrentPrcb") is Some ==> Some(found.1)
            == context.member_u64(region, "CurrentPrcb")) && (context.find_member(
            kind,
            "CurrentPrcb",
        ) is None && context.member_u64(region, "Prcb") is Some ==> Some(found.1)
            == context.member_u64(region, "Prcb")),
{
}

proof fn lemma_regions(
    context: &Context,
    kernel: &Module,
    walk: kpcrs::ProcessorWalk,
    count: nat,
    i: int,
)
    requires
        0 <= i < count <= u64::MAX,
        kpcrs::region_at(context, kernel, walk, i as u64) is Some,
    ensures
        kpcrs::regions(context, kernel, walk, count).contains(
            kpcrs::region_at(context, kernel, walk, i as u64)->0,
        ),
    decreases count,
{
    let all = kpcrs::regions(context, kernel, walk, count);
    let before = kpcrs::regions(context, kernel, walk, (count - 1) as nat);
    let found = kpcrs::region_at(context, kernel, walk, i as u64)->0;
    if i < count - 1 {
        lemma_regions(context, kernel, walk, (count - 1) as nat, i);
        let m = choose|m: int| 0 <= m < before.len() && before[m] == found;
        assert(all[m] == found);
    } else {
        assert(all[before.len() as int] == found);
    }
}

/// Every processor that the machine has is looked at: as many as `KeNumberProcessors` says, or
/// one.
pub proof fn law_every_processor_is_looked_at(
    context: &Context,
    kernel: &Module,
    walk: kpcrs::ProcessorWalk,
    count: u64,
    i: int,
)
    requires
        kpcrs::processor_walk(context, kernel) == Some(walk),
        match context.typed_symbol(kernel, "KeNumberProcessors", "unsigned int") {
            Some(number) => match context.as_u64(number) {
                Some(said) => said == count,
                None => count == 1,
            },
            None => count == 1,
        },
        0 <= i < count,
        kpcrs::region_at(context, kernel, walk, i as u64) is Some,
    ensures
        kpcrs::control_regions(context, kernel) matches Some(list) && list.contains(
            kpcrs::region_at(context, kernel, walk, i as u64)->0,
        ),
{
    lemma_regions(context, kernel, walk, count as nat, i);
}

/// The rows of some control regions.
pub open spec fn rows_of_control_regions_are_reported(
    list: Seq<(Object, u64)>,
) -> spec_fn(int) -> Seq<Seq<Cell>> {
    |k: int|
        seq![seq![Cell::hex(list[k].0.offset), Cell::hex(list[k].1)]]
}

/// Every control region that is found is reported, with the block it names.
pub proof fn law_control_regions_are_reported(
    context: &Context,
    config: &Configuration,
    kernel: Module,
    list: Seq<(Object, u64)>,
)
    requires
        kernel_of(context, config) == Some(kernel),
        kpcrs::control_regions(context, &kernel) == Some(list),
    ensures
        Kpcrs.report(context, config) is Ok,
        names_of(Kpcrs.report(context, config)->Ok_0.columns) == seq!["Offset"@, "PRCB Offset"@],
        cells_of(Kpcrs.report(context, config)->Ok_0) == flat(
            rows_of_control_regions_are_reported(list),
            list.len() as int,
        ),
{
    let steps = |k: int| kpcrs::reported(Kpcrs.headings(), list, k);
    let rows = rows_of_control_regions_are_reported(list);
    assert forall|k: int| 0 <= k < list.len() implies adds(
        steps(k),
        steps(k + 1),
        #[trigger] rows(k),
    ) by {
        lemma_adds_none(steps(k));
        lemma_adds_one(steps(k), 0, seq![Cell::hex(list[k].0.offset), Cell::hex(list[k].1)]);
    }
    lemma_flat_adds(steps, rows, list.len() as int);
}


/// Where the header of a crash dump of 64 bit words keeps what is reported of it.
#[verifier::rlimit(60)]
#[verifier::spinoff_prover]
pub proof fn law_the_header_of_a_crash_dump_of_64_bits(
    context: &Context,
    layer: usize,
    header: CrashHeader,
)
    requires
        header.is_64bit,
    ensures
        crashinfo::first_cells(context, layer, header) == seq![
            Cell::Text("PAGE"@),
            Cell::integer_or_unreadable(context.number_at(layer, 0x8, 4)),
            Cell::integer_or_unreadable(context.number_at(layer, 0xc, 4)),
            Cell::hex(header.directory_table_base),
            Cell::hex_or_unreadable(context.number_at(layer, 0x18, 8)),
            Cell::hex_or_unreadable(context.number_at(layer, 0x20, 8)),
            Cell::hex_or_unreadable(context.number_at(layer, 0x28, 8)),
            Cell::integer_or_unreadable(context.number_at(layer, 0x30, 4)),
            Cell::integer_or_unreadable(context.number_at(layer, 0x34, 4)),
            Cell::hex_or_unreadable(context.number_at(layer, 0x80, 8)),
            Cell::integer(header.dump_type as i64),
        ],
{
}

/// Where the header of a crash dump of 32 bit words keeps what is reported of it.
#[verifier::rlimit(60)]
#[verifier::spinoff_prover]
pub proof fn law_the_header_of_a_crash_dump_of_32_bits(
    context: &Context,
    layer: usize,
    header: CrashHeader,
)
    requires
        !header.is_64bit,
    ensures
        crashinfo::first_cells(context, layer, header) == seq![
            Cell::Text("PAGE"@),
            Cell::integer_or_unreadable(context.number_at(layer, 0x8, 4)),
            Cell::integer_or_unreadable(context.number_at(layer, 0xc, 4)),
            Cell::hex(header.directory_table_base),
            Cell::hex_or_unreadable(context.number_at(layer, 0x14, 4)),
            Cell::hex_or_unreadable(context.number_at(layer, 0x18, 4)),
            Cell::hex_or_unreadable(context.number_at(layer, 0x1c, 4)),
            Cell::integer_or_unreadable(context.number_at(layer, 0x20, 4)),
            Cell::integer_or_unreadable(context.number_at(layer, 0x24, 4)),
            Cell::hex_or_unreadable(context.number_at(layer, 0x60, 4)),
            Cell::integer(header.dump_type as i64),
        ],
{
}

/// The columns of a crash dump. What follows the first eleven is not available.
pub proof fn law_columns_of_crash_dumps(context: &Context, layer: usize, header: CrashHeader)
    ensures
        names_of(CrashInfo.headings()) == seq![
            "Signature"@,
            "MajorVersion"@,
            "MinorVersion"@,
            "DirectoryTableBase"@,
            "PfnDataBase"@,
            "PsLoadedModuleList"@,
            "PsActiveProcessHead"@,
            "MachineImageType"@,
            "NumberProcessors"@,
            "KdDebuggerDataBlock"@,
            "DumpType"@,
            "SystemUpTime"@,
            "Comment"@,
            "SystemTime"@,
            "BitmapHeaderSize"@,
            "BitmapSize"@,
            "BitmapPages"@,
        ],
        crashinfo::header_row(context, layer, header) == crashinfo::first_cells(
            context,
            layer,
            header,
        ) + Seq::new(6, |i: int| Cell::not_available()),
{
}

/// A boot record is the sector that ends with its signature: it begins 510 bytes in front of
/// it, and counts where the 440 bytes of its boot code are not all zero.
pub proof fn law_a_boot_record_ends_with_its_signature(context: &Context, layer: usize, hit: u64)
    ensures
        mbrscan::sector_of(context, layer, hit) matches Some(sector) ==> hit >= 510
            && context.bytes_of(layer, (hit - 510) as u64, 512, true) == Some(sector) && exists|
            i: int,
        |
            0 <= i < 440 && i < sector.len() && #[trigger] sector[i] != 0,
        hit >= 510 && (context.bytes_of(layer, (hit - 510) as u64, 512, true) matches Some(sector)
            && sector[0] != 0) ==> mbrscan::sector_of(context, layer, hit) is Some,
{
    if hit >= 510 {
        if let Some(sector) = context.bytes_of(layer, (hit - 510) as u64, 512, true) {
            let code = sector.take(440);
            if sector[0] != 0 {
                assert(code[0] != 0);
            }
            if !mbrscan::is_blank(code) {
                let i = choose|i: int| 0 <= i < code.len() && code[i] != 0;
                assert(sector[i] != 0);
            }
        }
    }
}

/// An element of an array of an entry, or zero.
#[verifier::opaque]
pub open spec fn byte_in(context: &Context, entry: Object, name: &str, at: u64) -> u64 {
    match context.member(entry, name) {
        Some(array) => match context.index(array, at) {
            Some(place) => match context.as_u64(place) {
                Some(value) => value,
                None => 0,
            },
            None => 0,
        },
        None => 0,
    }
}

/// A number of an entry, or zero.
#[verifier::opaque]
pub open spec fn number_in(context: &Context, entry: Object, name: &str) -> u64 {
    match context.member_u64(entry, name) {
        Some(value) => value,
        None => 0,
    }
}

/// What a partition says it holds.
#[verifier::opaque]
pub open spec fn holds(context: &Context, entry: Object) -> Cell {
    match context.member(entry, "PartitionType") {
        Some(kind) => match context.choice_of(kind) {
            Some(name) => Cell::Text(name),
            None => Cell::Text("Not Defined PartitionType"@),
        },
        None => Cell::Text("Not Defined PartitionType"@),
    }
}

/// The cylinder that a packed address names: ten bits, of which the upper two stand in the
/// upper two bits of its second byte.
pub proof fn law_a_cylinder_has_ten_bits(high: u64, sector: u64, low: u64)
    requires
        high < 4,
        sector < 64,
        low < 256,
    ensures
        mbrscan::cylinder((64 * high + sector) as u64, low) == 256 * high + low,
        ((64 * high + sector) as u64) % 64 == sector,
{
}

proof fn lemma_number_in(context: &Context, entry: Object, name: &str)
    ensures
        mbrscan::field(context, entry, name) == number_in(context, entry, name),
{
    reveal(number_in);
}

proof fn lemma_byte_in(context: &Context, entry: Object, name: &str, at: u64)
    ensures
        mbrscan::element(context, entry, name, at) == byte_in(context, entry, name, at),
{
    reveal(byte_in);
}

proof fn lemma_holds(context: &Context, entry: Object)
    ensures
        Cell::Text(mbrscan::partition_text(context, entry)) == holds(context, entry),
{
    reveal(holds);
}

/// What is told of a partition in the short report.
#[verifier::rlimit(40)]
#[verifier::spinoff_prover]
pub proof fn law_what_is_told_of_a_partition(
    context: &Context,
    hit: u64,
    table: Object,
    sector: Seq<u8>,
    entry: Object,
    index: int,
)
    ensures
        mbrscan::entry_cells(context, hit, table, sector, false, entry, index) == seq![
            Cell::hex(hit),
            Cell::Text(mbrscan::signature_text(context, table)),
            Cell::Text(mbrscan::hash_text(sector.take(440))),
            Cell::Text(mbrscan::hash_text(sector)),
            Cell::integer((index + 1) as i64),
            Cell::Bool(number_in(context, entry, "BootableFlag") == 128),
            holds(context, entry),
            Cell::hex(number_in(context, entry, "SizeInSectors")),
            Cell::not_applicable(),
        ],
{
    lemma_number_in(context, entry, "BootableFlag");
    lemma_number_in(context, entry, "SizeInSectors");
    lemma_holds(context, entry);
}

/// What is told of a partition in the full report.
#[verifier::rlimit(60)]
#[verifier::spinoff_prover]
pub proof fn law_all_that_is_told_of_a_partition(
    context: &Context,
    hit: u64,
    table: Object,
    sector: Seq<u8>,
    entry: Object,
    index: int,
)
    ensures
        mbrscan::entry_cells(context, hit, table, sector, true, entry, index) == seq![
            Cell::hex(hit),
            Cell::Text(mbrscan::signature_text(context, table)),
            Cell::Text(mbrscan::hash_text(sector.take(440))),
            Cell::Text(mbrscan::hash_text(sector)),
            Cell::integer((index + 1) as i64),
            Cell::Bool(number_in(context, entry, "BootableFlag") == 128),
            Cell::hex(number_in(context, entry, "BootableFlag")),
            holds(context, entry),
            Cell::hex(number_in(context, entry, "PartitionType")),
            Cell::hex(number_in(context, entry, "StartingLBA")),
            Cell::integer(
                mbrscan::cylinder(
                    byte_in(context, entry, "StartingCHS", 1),
                    byte_in(context, entry, "StartingCHS", 2),
                ) as i64,
            ),
            Cell::integer(byte_in(context, entry, "StartingCHS", 0) as i64),
            Cell::integer((byte_in(context, entry, "StartingCHS", 1) % 64) as i64),
            Cell::integer(
                mbrscan::cylinder(
                    byte_in(context, entry, "EndingCHS", 1),
                    byte_in(context, entry, "EndingCHS", 2),
                ) as i64,
            ),
            Cell::integer(byte_in(context, entry, "EndingCHS", 0) as i64),
            Cell::integer((byte_in(context, entry, "EndingCHS", 1) % 64) as i64),
            Cell::hex(number_in(context, entry, "SizeInSectors")),
            Cell::not_applicable(),
            Cell::not_applicable(),
        ],
{
    lemma_number_in(context, entry, "BootableFlag");
    lemma_number_in(context, entry, "SizeInSectors");
    lemma_number_in(context, entry, "PartitionType");
    lemma_number_in(context, entry, "StartingLBA");
    lemma_byte_in(context, entry, "StartingCHS", 0);
    lemma_byte_in(context, entry, "StartingCHS", 1);
    lemma_byte_in(context, entry, "StartingCHS", 2);
    lemma_byte_in(context, entry, "EndingCHS", 0);
    lemma_byte_in(context, entry, "EndingCHS", 1);
    lemma_byte_in(context, entry, "EndingCHS", 2);
    lemma_holds(context, entry);
}

/// The four partitions of a record, in order.
pub proof fn law_a_boot_record_has_four_entries()
    ensures
        mbrscan::entry_name(0) == "FirstEntry",
        mbrscan::entry_name(1) == "SecondEntry",
        mbrscan::entry_name(2) == "ThirdEntry",
        mbrscan::entry_name(3) == "FourthEntry",
{
}

/// The columns of boot records.
pub proof fn law_columns_of_boot_records()
    ensures
        names_of(mbrscan::headings_for(false)) == seq![
            "Potential MBR at Physical Offset"@,
            "Disk Signature"@,
            "Bootcode MD5"@,
            "Full MBR MD5"@,
            "PartitionIndex"@,
            "Bootable"@,
            "PartitionType"@,
            "SectorInSize"@,
            "Disasm"@,
        ],
        names_of(mbrscan::headings_for(true)) == seq![
            "Potential MBR at Physical Offset"@,
            "Disk Signature"@,
            "Bootcode MD5"@,
            "Full MBR MD5"@,
            "PartitionIndex"@,
            "Bootable"@,
            "BootFlag"@,
            "PartitionType"@,
            "PartitionTypeRaw"@,
            "StartingLBA"@,
            "StartingCylinder"@,
            "StartingCHS"@,
            "StartingSector"@,
            "EndingCylinder"@,
            "EndingCHS"@,
            "EndingSector"@,
            "SectorInSize"@,
            "Disasm"@,
            "Bootcode"@,
        ],
{
    reveal(mbrscan::headings_for);
}

/// The identifier of a service is spelled by the five words of the digest of its name, the
/// lowest byte of each first.
pub proof fn law_a_service_is_identified_by_its_digest(digest: Seq<u8>, i: int)
    requires
        digest.len() == 20,
        0 <= i < 5,
    ensures
        getservicesids::authorities(digest).len() == 5,
        getservicesids::authorities(digest)[i] == text::decimal_text(
            digest[4 * i] + 0x100 * digest[4 * i + 1] + 0x1_0000 * digest[4 * i + 2] + 0x100_0000
                * digest[4 * i + 3],
        ),
        getservicesids::sid_text(digest) == "S-1-5-80-"@ + text::joined(
            getservicesids::authorities(digest),
            "-"@,
        ),
{
    let part = digest.subrange(4 * i, 4 * i + 4);
    assert(part[0] == digest[4 * i] && part[1] == digest[4 * i + 1] && part[2] == digest[4 * i + 2]
        && part[3] == digest[4 * i + 3]);
}

/// Services are looked for under the control set in use, and under the first one where there is
/// none.
pub proof fn law_services_are_named_under_the_control_set(root: RegistryKey)
    ensures
        descended(root, seq!["CurrentControlSet", "Services"], 2) is Some
            ==> getservicesids::services_key(root) == descended(
            root,
            seq!["CurrentControlSet", "Services"],
            2,
        ),
        descended(root, seq!["CurrentControlSet", "Services"], 2) is None
            ==> getservicesids::services_key(root) == descended(
            root,
            seq!["ControlSet001", "Services"],
            2,
        ),
        names_of(GetServiceSids.headings()) == seq!["SID"@, "Service"@],
{
}

/// The rows of the services that the system does not know by itself.
pub open spec fn parts_of_services(
    known: Seq<Seq<char>>,
    services: Seq<RegistryKey>,
) -> spec_fn(int) -> Seq<Seq<Cell>> {
    |j: int|
        if services[j].name is Some && !known.contains(services[j].name->0@) {
            seq![
                seq![
                    Cell::Text(getservicesids::sid_of(text::uppercase_text(services[j].name->0@))),
                    Cell::Text(services[j].name->0@),
                ]
            ]
        } else {
            Seq::empty()
        }
}

/// Every service that the registry names and the system does not know by itself is reported, by
/// the digest of its name in upper case.
pub proof fn law_services_are_reported(
    known: Seq<Seq<char>>,
    services: Seq<RegistryKey>,
    table: Table,
)
    ensures
        adds(
            table,
            getservicesids::with_services(known, table, services, services.len() as int),
            flat(parts_of_services(known, services), services.len() as int),
        ),
{
    let steps = |j: int| getservicesids::with_services(known, table, services, j);
    let parts = parts_of_services(known, services);
    assert forall|j: int| 0 <= j < services.len() implies adds(
        steps(j),
        steps(j + 1),
        #[trigger] parts(j),
    ) by {
        lemma_adds_none(steps(j));
        lemma_adds_one(
            steps(j),
            0,
            seq![
                Cell::Text(getservicesids::sid_of(text::uppercase_text(services[j].name->0@))),
                Cell::Text(services[j].name->0@),
            ],
        );
    }
    lemma_flat_adds(steps, parts, services.len() as int);
}


/// The system time is written in two halves of 32 bits, the upper of which counts 2^32.
pub proof fn law_the_system_time_has_two_halves(
    context: &Context,
    shared: Object,
    time: Object,
    low: u64,
    high: u64,
)
    requires
        context.member(shared, "SystemTime") == Some(time),
        context.member_u64(time, "LowPart") == Some(low),
        context.member_u64(time, "High1Time") == Some(high),
        low < 0x1_0000_0000,
        high < 0x1_0000_0000,
    ensures
        info::system_time(context, shared) == match crate::time::wintime_moment(
            (0x1_0000_0000 * high + low) as u64,
        ) {
            Some(moment) => crate::time::calendar_text(moment.seconds, "%Y-%m-%d %H:%M:%S%:z"@),
            None => None,
        },
{
    assert((high << 32u64) | low == 0x1_0000_0000 * high + low) by (bit_vector)
        requires
            low < 0x1_0000_0000,
            high < 0x1_0000_0000,
    ;
}

/// A row that says something of the machine.
pub open spec fn says(name: Seq<char>, value: Seq<char>) -> Seq<Cell> {
    seq![Cell::Text(name), Cell::Text(value)]
}

/// What is told of the kernel itself, each thing under its name.
pub proof fn law_what_is_told_of_the_machine(
    context: &Context,
    kernel: &Module,
    map: u64,
    source: String,
)
    requires
        kernel.layer < context.layers@.len(),
        kernel.table < context.tables@.len(),
        context.layers@[kernel.layer as int].page_map == Some(map),
        context.tables@[kernel.table as int].source == Some(source),
    ensures
        info::kernel_rows(context, kernel) == seq![
            seq![Cell::Text("Kernel Base"@), Cell::hex(kernel.offset)],
            seq![Cell::Text("DTB"@), Cell::hex(map)],
            says("Symbols"@, source@),
            says(
                "Is64Bit"@,
                if context.tables@[kernel.table as int].pointer_size == 8 {
                    "True"@
                } else {
                    "False"@
                },
            ),
            says(
                "IsPAE"@,
                if context.layers@[kernel.layer as int].pae {
                    "True"@
                } else {
                    "False"@
                },
            ),
        ],
{
}

/// What is told of the kernel's version.
pub proof fn law_what_is_told_of_the_version(
    context: &Context,
    kernel: &Module,
    rows: Seq<Seq<Cell>>,
    version: Object,
    major: u64,
    minor: u64,
    machine: u64,
    processors: Object,
    count: u64,
)
    requires
        context.typed_symbol(kernel, "KdVersionBlock", "_DBGKD_GET_VERSION64") == Some(version),
        context.member_u64(version, "MajorVersion") == Some(major),
        context.member_u64(version, "MinorVersion") == Some(minor),
        context.member_u64(version, "MachineType") == Some(machine),
        context.typed_symbol(kernel, "KeNumberProcessors", "unsigned int") == Some(processors),
        context.as_u64(processors) == Some(count),
    ensures
        info::with_version(context, kernel, rows) == Some(
            rows + seq![
                seq![Cell::Text("KdVersionBlock"@), Cell::hex(version.offset)],
                says(
                    "Major/Minor"@,
                    text::decimal_text(major as int) + seq!['.'] + text::decimal_text(
                        minor as int,
                    ),
                ),
                says("MachineType"@, text::decimal_text(machine as int)),
                says("KeNumberProcessors"@, text::decimal_text(count as int)),
            ],
        ),
{
    let all = info::with_version(context, kernel, rows)->0;
    assert(all =~= rows + seq![
        seq![Cell::Text("KdVersionBlock"@), Cell::hex(version.offset)],
        says(
            "Major/Minor"@,
            text::decimal_text(major as int) + seq!['.'] + text::decimal_text(minor as int),
        ),
        says("MachineType"@, text::decimal_text(machine as int)),
        says("KeNumberProcessors"@, text::decimal_text(count as int)),
    ]);
}

/// The system time, or that there is none.
pub open spec fn time_or_none(context: &Context, shared: Object) -> Cell {
    match info::system_time(context, shared) {
        Some(time) => Cell::Text(time),
        None => Cell::not_available(),
    }
}

/// What is told of the page that the kernel shares with processes.
pub proof fn law_what_is_told_of_the_shared_page(
    context: &Context,
    shared: Object,
    rows: Seq<Seq<Cell>>,
    major: u64,
    minor: u64,
)
    requires
        context.member_u64(shared, "NtMajorVersion") == Some(major),
        context.member_u64(shared, "NtMinorVersion") == Some(minor),
    ensures
        info::with_shared(context, shared, rows) == rows + seq![
            seq![Cell::Text("SystemTime"@), time_or_none(context, shared)],
            says("NtSystemRoot"@, info::root_text(context, shared)),
            says("NtProductType"@, info::edition(context, shared)),
            says("NtMajorVersion"@, text::decimal_text(major as int)),
            says("NtMinorVersion"@, text::decimal_text(minor as int)),
        ],
{
    let time = time_or_none(context, shared);
    let first = seq![Cell::Text("SystemTime"@), time];
    let root = says("NtSystemRoot"@, info::root_text(context, shared));
    let product = says("NtProductType"@, info::edition(context, shared));
    let upper = says("NtMajorVersion"@, text::decimal_text(major as int));
    let lower = says("NtMinorVersion"@, text::decimal_text(minor as int));
    assert(info::named_row("SystemTime"@, time) =~= first);
    assert(info::with_shared(context, shared, rows) == rows.push(first).push(root).push(
        product,
    ).push(upper).push(lower));
    assert(rows.push(first).push(root).push(product).push(upper).push(lower) =~= rows + seq![
        first,
        root,
        product,
        upper,
        lower,
    ]);
}

/// The page that the kernel shares with processes stands at a fixed address.
pub proof fn law_the_shared_page_stands_at_a_fixed_address(
    context: &Context,
    kernel: &Module,
    kind: TypeId,
)
    requires
        context.get_type(kernel.table, "_KUSER_SHARED_DATA") == Some(kind),
    ensures
        info::shared_user_data(context, kernel) matches Some(shared) && shared.kind == kind
            && shared.layer == kernel.layer && (context.pointer_size(kernel) == 8 ==> shared.offset
            == 0xffff_f780_0000_0000) && (context.pointer_size(kernel) == 4 ==> shared.offset
            == 0xffdf_0000),
{
}


} // verus!
