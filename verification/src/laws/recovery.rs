//! Laws on what is recovered from memory: the contents of files, maps of memory, command
//! histories, and the moments that reports contribute to a timeline.

use crate::context::{Context, MappingEntry, Module, Object, TypeId};
use crate::laws::processes::{image_of, lemma_told, moment_of, number_of, told_of};
use crate::laws::{adds, cells_of, flat, lemma_adds_none, lemma_adds_one, lemma_flat_adds, names_of};
use crate::plugins::timeline_helpers::{plain_number, plain_text};
use crate::plugins::windows::consoles;
use crate::plugins::windows::devicetree::{self, DeviceTree};
use crate::plugins::windows::dlllist;
use crate::plugins::windows::dumpfiles::{self, DumpFiles, Page};
use crate::plugins::windows::memmap::{self, MemMap};
use crate::plugins::windows::netscan;
use crate::plugins::windows::netstat;
use crate::plugins::windows::pslist;
use crate::plugins::windows::pstree::{self, PsTree};
use crate::plugins::tree::Node;
use crate::plugins::{Plugin, TimeKind};
use crate::renderers::{Cell, LineView, Table};
use crate::symbols::windows::Vad;
use crate::text::{self, decimal_text, holds};
use vstd::prelude::*;

verus! {

/// A page's bytes stand in the file where the page says, unless a later page covers them.
pub proof fn law_a_page_stands_where_it_says(
    context: &Context,
    layer: usize,
    pages: Seq<Page>,
    count: int,
    k: int,
    i: int,
)
    requires
        0 <= k < count <= pages.len(),
        dumpfiles::contents_of(context, Some(layer), pages, count) is Some,
        context.bytes_of(layer, pages[k].memory_offset, pages[k].size as usize, true) matches Some(
            data,
        ) && 0 <= i < data.len(),
        forall|m: int|
            k < m < count ==> !covers(
                context,
                layer,
                #[trigger] pages[m],
                pages[k].file_offset as usize + i,
            ),
    ensures
        pages[k].file_offset as usize + i < dumpfiles::contents_of(
            context,
            Some(layer),
            pages,
            count,
        )->0.len(),
        dumpfiles::contents_of(context, Some(layer), pages, count)->0[pages[k].file_offset as usize
            + i] == context.bytes_of(
            layer,
            pages[k].memory_offset,
            pages[k].size as usize,
            true,
        )->0[i],
    decreases count,
{
    if k < count - 1 {
        law_a_page_stands_where_it_says(context, layer, pages, count - 1, k, i);
        assert(!covers(context, layer, pages[count - 1], pages[k].file_offset as usize + i));
    }
}

/// Whether a page covers a place of its file.
pub open spec fn covers(context: &Context, layer: usize, page: Page, place: int) -> bool {
    match context.bytes_of(layer, page.memory_offset, page.size as usize, true) {
        Some(data) => page.file_offset as usize <= place < page.file_offset as usize + data.len(),
        None => false,
    }
}

/// What no page covers is zero.
pub proof fn law_what_no_page_covers_is_zero(
    context: &Context,
    layer: usize,
    pages: Seq<Page>,
    count: int,
    place: int,
)
    requires
        0 <= count <= pages.len(),
        dumpfiles::contents_of(context, Some(layer), pages, count) matches Some(contents) && 0
            <= place < contents.len(),
        forall|m: int|
            0 <= m < count ==> !covers(context, layer, #[trigger] pages[m], place),
    ensures
        dumpfiles::contents_of(context, Some(layer), pages, count)->0[place] == 0,
    decreases count,
{
    if count > 0 {
        assert(!covers(context, layer, pages[count - 1], place));
        let before = dumpfiles::contents_of(context, Some(layer), pages, count - 1)->0;
        if place < before.len() {
            law_what_no_page_covers_is_zero(context, layer, pages, count - 1, place);
        }
    }
}

/// A view of the cache is 256 KiB at the base address it names, and stands in its file where it
/// says, down to a multiple of 64 KiB.
pub proof fn law_where_a_view_stands(
    context: &Context,
    view: Object,
    overlay: Object,
    part: Object,
    address: u64,
    offset: u64,
)
    requires
        context.member_pointer(view, "BaseAddress") == Some(address),
        context.member(view, "Overlay") == Some(overlay),
        context.member(overlay, "FileOffset") == Some(part),
        context.member_u64(part, "QuadPart") == Some(offset),
    ensures
        dumpfiles::view_pages(context, view).len() == 1,
        dumpfiles::view_pages(context, view)[0].memory_offset == address,
        dumpfiles::view_pages(context, view)[0].file_offset == offset - offset % 0x1_0000,
        dumpfiles::view_pages(context, view)[0].size == 0x4_0000,
{
    assert(offset & 0xffff_ffff_ffff_0000u64 == offset - offset % 0x1_0000) by (bit_vector);
}

/// How many views a section has: one for each 256 KiB and one for the rest.
pub proof fn law_how_many_views_a_section_has(size: u64)
    ensures
        dumpfiles::view_count(size) * 0x4_0000 >= size,
        size > 0 ==> (dumpfiles::view_count(size) - 1) * 0x4_0000 < size,
{
}

/// A file is only recovered from a disk or from a network file system.
pub proof fn law_what_files_are_recovered(
    context: &Context,
    file: Object,
    device: Object,
    kind: u64,
)
    requires
        context.member_target(file, "DeviceObject") == Some(device),
        context.member_u64(device, "DeviceType") == Some(kind),
    ensures
        dumpfiles::is_on_disk(context, file) <==> kind == 7 || kind == 20,
{
}

/// A file is recovered from the pages of its data, then from those of its image, and then from
/// the views of its cache, each under a name of its own.
pub proof fn law_a_file_has_three_caches(
    context: &Context,
    kernel: &Module,
    physical: Option<usize>,
    file: Object,
    pointers: Object,
    table: Table,
)
    requires
        dumpfiles::is_on_disk(context, file),
        context.member_target(file, "SectionObjectPointer") == Some(pointers),
    ensures
        ({
            let base = dlllist::last_part(
                crate::plugins::windows::handles::device_file_name(context, kernel, file),
            );
            let data = dumpfiles::with_section(
                context,
                kernel,
                physical,
                pointers,
                file,
                "DataSectionObject",
                "dat"@,
                base,
                table,
            );
            let image = dumpfiles::with_section(
                context,
                kernel,
                physical,
                pointers,
                file,
                "ImageSectionObject",
                "img"@,
                base,
                data,
            );
            dumpfiles::with_file(context, kernel, physical, file, table) == dumpfiles::with_views(
                context,
                kernel,
                pointers,
                file,
                base,
                image,
            )
        }),
        names_of(DumpFiles.headings()) == seq!["Cache"@, "FileObject"@, "FileName"@, "Result"@],
{
    reveal(dumpfiles::with_file);
}

/// What is told of a cache of a file.
pub proof fn law_what_is_told_of_a_cache(
    file: Object,
    cache: Seq<char>,
    name: Seq<char>,
    result: Option<Seq<char>>,
)
    ensures
        dumpfiles::cache_cells(file, cache, name, result) == seq![
            Cell::Text(cache),
            Cell::hex(file.offset),
            Cell::Text(name),
            match result {
                Some(kept) => Cell::Text(kept),
                None => Cell::Text("Error dumping file"@),
            },
        ],
{
    assert(dumpfiles::cache_cells(file, cache, name, result) =~= seq![
        Cell::Text(cache),
        Cell::hex(file.offset),
        Cell::Text(name),
        match result {
            Some(kept) => Cell::Text(kept),
            None => Cell::Text("Error dumping file"@),
        },
    ]);
}

/// The rows of the regions of a map of memory.
pub open spec fn parts_of_mapped(regions: Seq<MappingEntry>) -> spec_fn(int) -> Seq<Seq<Cell>> {
    |j: int|
        seq![
            seq![
                Cell::hex(regions[j].offset),
                Cell::hex(regions[j].mapped_offset),
                Cell::hex(regions[j].mapped_size),
                Cell::hex(memmap::file_offset(regions, j)),
                Cell::Text("Disabled"@),
            ]
        ]
}

/// Every region of a map of memory is reported: where it stands in either space, how large it is,
/// and where it stands in a file that holds them all.
pub proof fn law_mapped_regions_are_reported(
    regions: Seq<MappingEntry>,
    table: Table,
    name: Seq<char>,
    written: bool,
)
    ensures
        adds(
            table,
            memmap::with_regions(table, regions, false, name, written, regions.len() as int),
            flat(parts_of_mapped(regions), regions.len() as int),
        ),
{
    let steps = |j: int| memmap::with_regions(table, regions, false, name, written, j);
    let parts = parts_of_mapped(regions);
    assert forall|j: int| 0 <= j < regions.len() implies adds(
        steps(j),
        steps(j + 1),
        #[trigger] parts(j),
    ) by {
        lemma_adds_none(steps(j));
        assert(
            memmap::region_cells(regions[j], memmap::file_offset(regions, j), false, name, written) =~= seq![
                Cell::hex(regions[j].offset),
                Cell::hex(regions[j].mapped_offset),
                Cell::hex(regions[j].mapped_size),
                Cell::hex(memmap::file_offset(regions, j)),
                Cell::Text("Disabled"@),
            ]
        );
        lemma_adds_one(
            steps(j),
            0,
            seq![
                Cell::hex(regions[j].offset),
                Cell::hex(regions[j].mapped_offset),
                Cell::hex(regions[j].mapped_size),
                Cell::hex(memmap::file_offset(regions, j)),
                Cell::Text("Disabled"@),
            ],
        );
    }
    lemma_flat_adds(steps, parts, regions.len() as int);
}


/// The regions of a map stand in its file end to end.
pub proof fn law_regions_stand_end_to_end(regions: Seq<MappingEntry>, k: int)
    requires
        0 <= k < regions.len(),
    ensures
        memmap::file_offset(regions, 0) == 0,
        memmap::file_offset(regions, k) + regions[k].mapped_size <= u64::MAX
            ==> memmap::file_offset(
            regions,
            k + 1,
        ) == memmap::file_offset(regions, k) + regions[k].mapped_size,
        names_of(MemMap.headings()) == seq![
            "Virtual"@,
            "Physical"@,
            "Size"@,
            "Offset in File"@,
            "File output"@,
        ],
{
}

/// A range of memory is searched for histories where it can be written and no file backs it,
/// from its start and for no more than 4 MiB.
pub proof fn law_where_histories_are_looked_for(vad: &Vad, start: u64, end: u64)
    requires
        vad.start == Some(start),
        vad.end == Some(end),
        start <= end,
        vad.protection is Some,
    ensures
        consoles::searched(vad) is Some <==> holds(vad.protection->0@, "READWRITE"@)
            && vad.file_name is None,
        consoles::searched(vad) matches Some(range) ==> range.0 == start && range.1 == (if end
            - start + 1 <= 0x40_0000 {
            end - start + 1
        } else {
            0x40_0000
        }),
{
}

/// A command of a history is a count of bytes, a word that is passed over, and as many bytes of
/// UTF-16, which read as a line.
pub proof fn law_a_command_is_counted(data: Seq<u8>, at: int)
    requires
        0 <= at,
        at + 4 <= data.len(),
    ensures
        consoles::counted_at(data, at) matches Some((command, next)) ==> {
            let length = data[at] + 256 * data[at + 1];
            &&& 0 < length <= 1024
            &&& length % 2 == 0
            &&& next == at + 4 + length <= data.len()
            &&& command == text::utf16_text(text::units(data.subrange(at + 4, next)))
            &&& consoles::is_command(command)
        },
{
    let pair = data.subrange(at, at + 2);
    assert(pair[0] == data[at] && pair[1] == data[at + 1]);
}

/// What is told of a recovered command.
pub proof fn law_what_is_told_of_a_command(
    pid: u64,
    name: Seq<char>,
    address: u64,
    command: Seq<char>,
)
    ensures
        names_of(consoles::console_headings()) == seq![
            "PID"@,
            "Process"@,
            "ConsoleInfo"@,
            "Property"@,
            "Address"@,
            "Data"@,
        ],
        consoles::command_row(pid, name, address, command) == seq![
            Cell::integer(pid as i64),
            Cell::Text(name),
            Cell::hex(address),
            Cell::Text("HistoryBuffer"@),
            Cell::hex(address),
            Cell::Text(command),
        ],
{
}

/// The largest of some numbers is one of them, or zero, and none is larger.
pub proof fn law_the_largest_is_the_largest(numbers: Seq<i64>, i: int)
    ensures
        0 <= i < numbers.len() ==> numbers[i] <= consoles::largest(numbers),
        consoles::largest(numbers) == 0 || numbers.contains(consoles::largest(numbers)),
        consoles::largest(numbers) >= 0,
    decreases numbers.len(),
{
    if numbers.len() > 0 {
        let less = numbers.drop_last();
        law_the_largest_is_the_largest(less, i);
        if less.contains(consoles::largest(less)) {
            let k = choose|k: int| 0 <= k < less.len() && less[k] == consoles::largest(less);
            assert(numbers[k] == consoles::largest(less));
        }
        assert(numbers[numbers.len() - 1] == numbers.last());
    }
}

/// A port is in use where its bit is set: the eighth part of the number picks the byte, and the
/// rest the bit.
pub proof fn law_a_port_in_use_has_its_bit_set(
    context: &Context,
    layer: usize,
    buffer: u64,
    count: nat,
    byte: u64,
    at: int,
    bit: int,
)
    requires
        0 <= at < count <= 0x1_4000,
        0 <= bit < 8,
        context.number_at(layer, buffer.wrapping_add(at as u64), 1) == Some(byte),
        (byte as u8) & (1u8 << bit as u8) != 0,
    ensures
        netstat::bitmap_ports(context, layer, buffer, count).contains((8 * at + bit) as u64),
    decreases count,
{
    let before = netstat::bitmap_ports(context, layer, buffer, (count - 1) as nat);
    let all = netstat::bitmap_ports(context, layer, buffer, count);
    let port = (8 * at + bit) as u64;
    if at < count - 1 {
        law_a_port_in_use_has_its_bit_set(
            context,
            layer,
            buffer,
            (count - 1) as nat,
            byte,
            at,
            bit,
        );
        let m = choose|m: int| 0 <= m < before.len() && before[m] == port;
        assert(all[m] == port);
    } else {
        let start = (at as u64).wrapping_mul(8);
        assert(start == 8 * at);
        lemma_set_bit(byte as u8, start, 8, bit);
        let bits = netstat::set_bits(byte as u8, start, 8);
        let m = choose|m: int| 0 <= m < bits.len() && bits[m] == port;
        assert(all[before.len() + m] == port);
    }
}

proof fn lemma_set_bit(byte: u8, start: u64, count: nat, bit: int)
    requires
        0 <= bit < count <= 8,
        start <= 0x10_0000,
        byte & (1u8 << bit as u8) != 0,
    ensures
        netstat::set_bits(byte, start, count).contains((start + bit) as u64),
    decreases count,
{
    let before = netstat::set_bits(byte, start, (count - 1) as nat);
    let all = netstat::set_bits(byte, start, count);
    let port = (start + bit) as u64;
    if bit < count - 1 {
        lemma_set_bit(byte, start, (count - 1) as nat, bit);
        let m = choose|m: int| 0 <= m < before.len() && before[m] == port;
        assert(all[m] == port);
    } else {
        assert(all[before.len() as int] == port);
    }
}

/// A bucket of a table of connections points at the link of its first connection, which is the
/// structure that holds the link. One that points at itself is empty.
pub proof fn law_a_bucket_points_at_a_link(
    context: &Context,
    layer: usize,
    kind: TypeId,
    link: u64,
    at: u64,
    connection: u64,
)
    requires
        connection + link <= u64::MAX,
        context.number_at(layer, at, 8) == Some((connection + link) as u64),
        connection + link != 0,
    ensures
        connection + link != at ==> netstat::bucket_endpoint(context, layer, kind, link, at)
            == Some(Object { kind, layer, native: layer, offset: connection }),
        connection + link == at
            ==> netstat::bucket_endpoint(context, layer, kind, link, at) is None,
{
}

/// Listeners come from the pool of stream ports and other sockets from that of datagram ports.
pub proof fn law_which_sockets_a_pool_holds(
    context: &Context,
    kernel: &Module,
    table: &str,
    tables: netstat::Tables,
    datagrams: u64,
    streams: u64,
    udp: u64,
    tcp: u64,
)
    requires
        tables.udp_pool == Some(datagrams),
        tables.tcp_pool == Some(streams),
        context.number_at(kernel.layer, datagrams, 8) == Some(udp),
        context.number_at(kernel.layer, streams, 8) == Some(tcp),
    ensures
        netstat::pooled(context, kernel, table, tables) == netstat::pool_sockets(
            context,
            kernel,
            table,
            tcp,
            true,
        ) + netstat::pool_sockets(context, kernel, table, udp, false),
{
}

/// A process contributes the moment it was made and the moment it ended to a timeline.
pub proof fn law_the_moments_of_a_process(context: &Context, process: Object, place: u64)
    requires
        number_of(context, process) is Some,
    ensures
        ({
            let moments = pslist::process_moments(told_of(context, process, place));
            &&& moments.len() == 2
            &&& moments[0].kind == TimeKind::Created
            &&& moments[0].time == moment_of(context, process, "CreateTime")
            &&& moments[1].kind == TimeKind::Modified
            &&& moments[1].time == moment_of(context, process, "ExitTime")
            &&& moments[0].description == moments[1].description
            &&& moments[0].description == "Process: "@ + plain_number(
                Cell::integer(number_of(context, process)->0 as i64),
            ) + seq![' '] + plain_text(
                Cell::text_or_unreadable(image_of(context, process)),
            ) + " ("@ + decimal_text(place as int) + seq![')']
        }),
{
    reveal(told_of);
    let cells = told_of(context, process, place);
    assert(cells[3] == Cell::hex(place));
    assert(plain_number(cells[3]) == decimal_text(place as int));
}

/// Every row of processes contributes its moments, in order.
pub proof fn law_every_process_is_in_the_timeline(lines: Seq<LineView>, count: int, i: int)
    requires
        0 <= i < count <= lines.len(),
        lines[i].cells.len() >= 10,
    ensures
        exists|m: int|
            0 <= m < pslist::moments_of(lines, count).len() - 1 && #[trigger] pslist::moments_of(
                lines,
                count,
            )[m] == pslist::process_moments(lines[i].cells)[0] && pslist::moments_of(
                lines,
                count,
            )[m + 1] == pslist::process_moments(lines[i].cells)[1],
    decreases count,
{
    let all = pslist::moments_of(lines, count);
    let before = pslist::moments_of(lines, count - 1);
    if i < count - 1 {
        law_every_process_is_in_the_timeline(lines, count - 1, i);
        let m = choose|m: int|
            0 <= m < before.len() - 1 && #[trigger] before[m] == pslist::process_moments(
                lines[i].cells,
            )[0] && before[m + 1] == pslist::process_moments(lines[i].cells)[1];
        assert(all[m] == before[m] && all[m + 1] == before[m + 1]);
    } else {
        let m = before.len() as int;
        assert(all[m] == pslist::process_moments(lines[i].cells)[0]);
        assert(all[m + 1] == pslist::process_moments(lines[i].cells)[1]);
    }
}

/// Every row of modules that has a load time contributes it.
pub proof fn law_every_load_is_in_the_timeline(lines: Seq<LineView>, count: int, i: int)
    requires
        0 <= i < count <= lines.len(),
        lines[i].cells.len() == 9,
        lines[i].cells[7] is Time,
    ensures
        exists|m: int|
            0 <= m < dlllist::load_moments(lines, count).len() && (#[trigger] dlllist::load_moments(
                lines,
                count,
            )[m]).time == lines[i].cells[7] && dlllist::load_moments(lines, count)[m].kind
                == TimeKind::Created && dlllist::load_moments(lines, count)[m].description
                == dlllist::load_words(lines[i].cells),
    decreases count,
{
    let all = dlllist::load_moments(lines, count);
    let before = dlllist::load_moments(lines, count - 1);
    if i < count - 1 {
        law_every_load_is_in_the_timeline(lines, count - 1, i);
        let m = choose|m: int|
            0 <= m < before.len() && (#[trigger] before[m]).time == lines[i].cells[7]
                && before[m].kind == TimeKind::Created && before[m].description
                == dlllist::load_words(lines[i].cells);
        assert(all[m] == before[m]);
    } else {
        assert(all[before.len() as int].time == lines[i].cells[7]);
    }
}

/// Every row of sockets that has a time contributes it: the last of its ten columns.
pub proof fn law_every_connection_is_in_the_timeline(
    lines: Seq<LineView>,
    named: bool,
    count: int,
    i: int,
)
    requires
        0 <= i < count <= lines.len(),
        lines[i].cells.len() == 10,
        lines[i].cells[9] is Time,
    ensures
        exists|m: int|
            0 <= m < netscan::connection_moments(lines, named, count).len() && (
            #[trigger] netscan::connection_moments(lines, named, count)[m]).time
                == lines[i].cells[9] && netscan::connection_moments(lines, named, count)[m].kind
                == TimeKind::Created,
    decreases count,
{
    let all = netscan::connection_moments(lines, named, count);
    let before = netscan::connection_moments(lines, named, count - 1);
    if i < count - 1 {
        law_every_connection_is_in_the_timeline(lines, named, count - 1, i);
        let m = choose|m: int|
            0 <= m < before.len() && (#[trigger] before[m]).time == lines[i].cells[9]
                && before[m].kind == TimeKind::Created;
        assert(all[m] == before[m]);
    } else {
        assert(all[before.len() as int].time == lines[i].cells[9]);
    }
}

/// What a timeline says of a connection names the process first, then this end, then the other
/// one.
pub proof fn law_how_a_timeline_tells_of_a_connection(fields: Seq<Seq<char>>)
    requires
        fields.len() == 10,
    ensures
        netscan::connection_words(fields) == "Network connection: Process "@ + fields[7] + seq![
            ' ',
        ] + fields[8] + " Local Address "@ + fields[2] + seq![':'] + fields[3]
            + " Remote Address "@ + fields[4] + seq![':'] + fields[5] + " State "@ + fields[6]
            + " Protocol "@ + fields[1] + seq![' '],
{
}

/// A row of a driver's tree has the driver's own place and name, whatever it is of.
pub proof fn law_what_is_told_of_a_device(
    context: &Context,
    kernel: &Module,
    driver: Object,
    sort: Seq<char>,
    device: Cell,
    attached: Cell,
    kind: Cell,
)
    ensures
        names_of(DeviceTree.headings()) == seq![
            "Offset"@,
            "Type"@,
            "DriverName"@,
            "DeviceName"@,
            "DriverNameOfAttDevice"@,
            "DeviceType"@,
        ],
        devicetree::tree_row(context, kernel, driver, sort, device, attached, kind) == seq![
            Cell::hex(driver.offset),
            Cell::Text(sort),
            match context.object_name_of(driver, kernel) {
                Some(name) => Cell::Text(name),
                None => Cell::unparsable(),
            },
            device,
            attached,
            kind,
        ],
{
    assert(devicetree::tree_row(context, kernel, driver, sort, device, attached, kind) =~= seq![
        Cell::hex(driver.offset),
        Cell::Text(sort),
        match context.object_name_of(driver, kernel) {
            Some(name) => Cell::Text(name),
            None => Cell::unparsable(),
        },
        device,
        attached,
        kind,
    ]);
}

/// A device that is attached above another is told by the driver it belongs to and by its own
/// name and kind.
pub proof fn law_what_is_told_of_an_attached_device(
    context: &Context,
    kernel: &Module,
    driver: Object,
    attached: Object,
    other: Object,
    kind: u64,
    name: Seq<char>,
)
    requires
        context.member_target(attached, "DriverObject") == Some(other),
        context.member_u64(attached, "DeviceType") == Some(kind),
        context.member_unicode_of(other, "DriverName") == Some(name),
    ensures
        devicetree::attached_row(context, kernel, driver, attached) == Some(
            devicetree::tree_row(
                context,
                kernel,
                driver,
                "ATT"@,
                devicetree::header_cell(context, kernel, attached),
                Cell::Text(name),
                Cell::Text(devicetree::device_type_name(kind)@),
            ),
        ),
{
}

/// The devices of a driver follow each other by their next device, and those attached above one
/// by their attached device.
pub proof fn law_how_devices_follow_each_other(
    context: &Context,
    current: Object,
    seen: Seq<u64>,
    left: nat,
    next: u64,
)
    requires
        left > 0,
        next != 0,
        !seen.contains(current.offset),
        !seen.contains(next),
    ensures
        context.member_pointer(current, "NextDevice") == Some(next) ==> devicetree::devices_from(
            context,
            current,
            seen,
            left,
        ) == seq![current] + devicetree::devices_from(
            context,
            Object { offset: next, ..current },
            seen.push(current.offset),
            (left - 1) as nat,
        ),
        context.member_pointer(current, "AttachedDevice") == Some(next)
            ==> devicetree::attached_from(context, current, seen, left) == seq![
            Object { offset: next, ..current },
        ] + devicetree::attached_from(
            context,
            Object { offset: next, ..current },
            seen.push(next),
            (left - 1) as nat,
        ),
{
}

/// The columns of a tree of processes.
pub proof fn law_columns_of_process_trees()
    ensures
        names_of(PsTree.headings()) == seq![
            "PID"@,
            "PPID"@,
            "ImageFileName"@,
            "Offset(V)"@,
            "Threads"@,
            "Handles"@,
            "SessionId"@,
            "Wow64"@,
            "CreateTime"@,
            "ExitTime"@,
            "Audit"@,
            "Cmd"@,
            "Path"@,
        ],
{
}

/// What is told of a process of a tree begins as in the listing of processes, and goes on with
/// its audit path, its command line and the path of its image.
#[verifier::rlimit(60)]
#[verifier::spinoff_prover]
pub proof fn law_what_is_told_of_a_process_of_a_tree(
    context: &Context,
    physical: Seq<char>,
    node: Node,
)
    requires
        number_of(context, node.process) == Some(node.pid),
        context.member_pointer(node.process, "InheritedFromUniqueProcessId") == Some(node.ppid),
    ensures
        pstree::node_row(context, physical, false, node) == told_of(
            context,
            node.process,
            node.process.offset,
        ).subrange(0, 10) + seq![
            pstree::audit_cell(context, node.process),
            pstree::user_cell(context, physical, node.process, "CommandLine"),
            pstree::user_cell(context, physical, node.process, "ImagePathName"),
        ],
{
    let process = node.process;
    let cells = pslist::process_cells(
        context,
        process,
        node.pid,
        process.offset,
        Cell::Text("Disabled"@),
    );
    lemma_told(context, process, process.offset);
    let parent = Cell::integer_or_unreadable(context.parent_pid(process));
    assert(parent == Cell::integer(node.ppid as i64));
    assert(pstree::node_row(context, physical, false, node) =~= cells.subrange(0, 10) + seq![
        pstree::audit_cell(context, process),
        pstree::user_cell(context, physical, process, "CommandLine"),
        pstree::user_cell(context, physical, process, "ImagePathName"),
    ]);
}


} // verus!
