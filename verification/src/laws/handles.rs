//! Laws on the handles of processes.

use crate::context::{Context, Module, Object, TypeId};
use crate::plugins::windows::handles::{
    collected, handle_at, handle_cells, handles_of, item, kind_of_header, shown_name, table_walk,
    Handle, Handles, Walk,
};
use crate::plugins::Plugin;
use crate::renderers::{Cell, Column, ColumnType};
use crate::text;
use vstd::prelude::*;

verus! {

/// An entry without a pointer of its own on a 64 bit kernel packs the address of the
/// header as a sixteenth of it: one that packs an address that is a multiple of sixteen
/// leads to the header at that address, with the rights that the entry records.
pub proof fn law_packed_addresses_are_unpacked(
    context: &Context,
    kernel: &Module,
    entry: Object,
    value: u64,
    address: u64,
    access: u64,
)
    requires
        !context.has_member(entry, "Object"),
        context.pointer_size(kernel) == 8,
        address != 0,
        address % 16 == 0,
        context.member_u64(entry, "ObjectPointerBits") == Some((address / 16) as u64),
        context.member_u64(entry, "GrantedAccessBits") == Some(access),
        context.get_type(kernel.table, "_OBJECT_HEADER") is Some,
    ensures
        item(context, kernel, entry, value) matches Some(handle) && handle.header == (Object {
            kind: context.get_type(kernel.table, "_OBJECT_HEADER")->0,
            layer: kernel.layer,
            native: kernel.layer,
            offset: address,
        }) && handle.value == value && handle.granted_access == access,
{
    let bits = (address / 16) as u64;
    assert(bits << 4u64 == address) by (bit_vector)
        requires
            bits == address / 16,
            address % 16 == 0,
    ;
}

/// An entry without a pointer of its own on a 32 bit kernel holds the address of the
/// header with flags in its lowest three bits.
pub proof fn law_flagged_addresses_lose_their_flags(
    context: &Context,
    kernel: &Module,
    entry: Object,
    value: u64,
    address: u64,
    flags: u64,
    access: u64,
)
    requires
        !context.has_member(entry, "Object"),
        context.pointer_size(kernel) == 4,
        address % 8 == 0,
        flags < 8,
        address + flags <= u64::MAX,
        address + flags > 0,
        context.member_u64(entry, "InfoTable") == Some((address + flags) as u64),
        context.member_u64(entry, "GrantedAccessBits") == Some(access),
        context.get_type(kernel.table, "_OBJECT_HEADER") is Some,
    ensures
        item(context, kernel, entry, value) matches Some(handle) && handle.header.offset == address
            && handle.value == value && handle.granted_access == access,
{
    let table = (address + flags) as u64;
    assert(table & !7u64 == address) by (bit_vector)
        requires
            table == address + flags,
            address % 8 == 0,
            flags < 8,
    ;
}

/// An entry with a pointer of its own leads to the header at that address without its
/// lowest four bits, which count references, where there is memory at the address.
pub proof fn law_fast_references_lose_their_counts(
    context: &Context,
    kernel: &Module,
    entry: Object,
    value: u64,
    address: u64,
    count: u64,
    access: u64,
)
    requires
        context.has_member(entry, "Object"),
        address % 16 == 0,
        count < 16,
        address + count <= u64::MAX,
        context.member_pointer(entry, "Object") == Some((address + count) as u64),
        context.is_valid(kernel.layer, (address + count) as u64, 1),
        context.member_u64(entry, "GrantedAccess") == Some(access),
        context.get_type(kernel.table, "_OBJECT_HEADER") is Some,
    ensures
        item(context, kernel, entry, value) matches Some(handle) && handle.header.offset == address
            && handle.value == value && handle.granted_access == access,
{
    let raw = (address + count) as u64;
    assert(raw & !0xfu64 == address) by (bit_vector)
        requires
            raw == address + count,
            address % 16 == 0,
            count < 16,
    ;
}

/// The handle in slot number `index` of the first table has the number `4 * index`, and
/// the tables behind it go on counting: entries are sixteen bytes on a 64 bit kernel, so a
/// page of them holds two hundred and fifty-six handles.
pub proof fn law_handles_count_in_fours(
    context: &Context,
    kernel: &Module,
    kind: TypeId,
    size: u64,
    address: u64,
    index: u64,
    tables: u64,
)
    requires
        size == 16 || size == 8,
        index < 4096int / size as int,
        address + 4096 <= u64::MAX,
        address & context.address_mask(kernel.layer) == address,
        tables < 0x100_0000,
        handle_at(
            context,
            kernel,
            kind,
            size,
            address,
            (address + index * size) as u64,
            tables,
        ) is Some,
    ensures
        handle_at(
            context,
            kernel,
            kind,
            size,
            address,
            (address + index * size) as u64,
            tables,
        )->0.value == 4 * index + 4 * tables * (4096int / size as int),
{
    let at = (address + index * size) as u64;
    assert(index * size <= 4096) by (nonlinear_arith)
        requires
            index < 4096int / size as int,
            size == 16 || size == 8,
    ;
    assert(at.wrapping_sub(address) == index * size);
    if size == 16 {
        assert(tables.wrapping_mul(256).wrapping_mul(4) == 4 * tables * 256);
        assert((index * 16) / 4 == 4 * index);
    } else {
        assert(tables.wrapping_mul(512).wrapping_mul(4) == 4 * tables * 512);
        assert((index * 8) / 2 == 4 * index);
    }
}

proof fn lemma_collected(
    context: &Context,
    kernel: &Module,
    address: u64,
    walk: Walk,
    count: nat,
    index: nat,
)
    requires
        index < count,
        context.get_type(kernel.table, "_HANDLE_TABLE_ENTRY") matches Some(kind)
            && context.size_of(kind) matches Some(size) && size >= 4,
        context.is_valid(kernel.layer, address, 1),
    ensures
        ({
            let kind = context.get_type(kernel.table, "_HANDLE_TABLE_ENTRY")->0;
            let size = context.size_of(kind)->0;
            let at = address.wrapping_add((index as u64).wrapping_mul(size));
            let after = collected(context, kernel, address, 0, walk, count);
            &&& after.depth == walk.depth
            &&& context.is_valid(kernel.layer, at, 1) && handle_at(
                context,
                kernel,
                kind,
                size,
                address,
                at,
                walk.depth,
            ) is Some ==> after.found.contains(
                handle_at(context, kernel, kind, size, address, at, walk.depth)->0,
            )
        }),
    decreases count,
{
    let kind = context.get_type(kernel.table, "_HANDLE_TABLE_ENTRY")->0;
    let size = context.size_of(kind)->0;
    let at = address.wrapping_add((index as u64).wrapping_mul(size));
    let before = collected(context, kernel, address, 0, walk, (count - 1) as nat);
    let after = collected(context, kernel, address, 0, walk, count);
    lemma_depth(context, kernel, address, walk, (count - 1) as nat);
    let wanted = handle_at(context, kernel, kind, size, address, at, walk.depth);
    if index == count - 1 {
        if context.is_valid(kernel.layer, at, 1) && wanted is Some {
            assert(after.found[before.found.len() as int] == wanted->0);
        }
    } else {
        lemma_collected(context, kernel, address, walk, (count - 1) as nat, index);
        if wanted is Some && before.found.contains(wanted->0) {
            let n = choose|n: int| 0 <= n < before.found.len() && before.found[n] == wanted->0;
            assert(after.found[n] == wanted->0);
        }
    }
}

proof fn lemma_depth(context: &Context, kernel: &Module, address: u64, walk: Walk, count: nat)
    ensures
        collected(context, kernel, address, 0, walk, count).depth == walk.depth,
    decreases count,
{
    if count > 0 {
        lemma_depth(context, kernel, address, walk, (count - 1) as nat);
    }
}

/// Every used slot of a table of one level is a handle of the process: those of the
/// 4096 bytes that the table takes.
pub proof fn law_every_slot_of_a_table_is_listed(
    context: &Context,
    kernel: &Module,
    object_table: Object,
    table: Object,
    address: u64,
    index: u64,
)
    requires
        context.dereference(object_table) == Some(table),
        context.member_u64(table, "TableCode") == Some(address),
        address % 8 == 0,
        address & context.address_mask(kernel.layer) == address,
        context.is_valid(kernel.layer, address, 1),
        context.get_type(kernel.table, "_HANDLE_TABLE_ENTRY") matches Some(kind)
            && context.size_of(kind) matches Some(size) && size >= 4 && index < 4096int / size as int,
    ensures
        ({
            let kind = context.get_type(kernel.table, "_HANDLE_TABLE_ENTRY")->0;
            let size = context.size_of(kind)->0;
            let at = address.wrapping_add(index.wrapping_mul(size));
            context.is_valid(kernel.layer, at, 1) && handle_at(
                context,
                kernel,
                kind,
                size,
                address,
                at,
                0,
            ) is Some ==> handles_of(context, kernel, object_table).contains(
                handle_at(context, kernel, kind, size, address, at, 0)->0,
            )
        }),
{
    let kind = context.get_type(kernel.table, "_HANDLE_TABLE_ENTRY")->0;
    let size = context.size_of(kind)->0;
    assert(address & !7u64 == address && address & 7u64 == 0) by (bit_vector)
        requires
            address % 8 == 0,
    ;
    let start = Walk { found: Seq::empty(), depth: 0 };
    assert(table_walk(context, kernel, address, 0, start) == collected(
        context,
        kernel,
        address,
        0,
        start,
        (4096int / size as int) as nat,
    ));
    lemma_collected(context, kernel, address, start, (4096int / size as int) as nat, index as nat);
}

/// The seven columns of the listing.
pub proof fn law_columns_of_handles()
    ensures
        Handles.headings() == seq![
            Column::integer("PID"),
            Column::string("Process"),
            Column::new("Offset", ColumnType::UInt),
            Column::new("HandleValue", ColumnType::UInt),
            Column::string("Type"),
            Column::new("GrantedAccess", ColumnType::UInt),
            Column::string("Name"),
        ],
{
}

/// A handle's row names its process, where its object stands (behind the header), its
/// number, the kind of its object, and its rights.
pub proof fn law_a_row_says_what_the_handle_is(
    context: &Context,
    kernel: &Module,
    pid: u64,
    process: Seq<char>,
    handle: Handle,
    kind: Seq<char>,
    body: u64,
)
    requires
        kind_of_header(
            context,
            handle.header,
            context.windows.type_names@,
            context.windows.cookie,
        ) == Some(kind),
        context.get_type(kernel.table, "_OBJECT_HEADER") matches Some(header)
            && context.find_member(header, "Body") matches Some(found) && found.0 == body,
        handle.header.offset + body <= u64::MAX,
        handle_cells(context, kernel, pid, process, handle) is Some,
    ensures
        ({
            let row = handle_cells(context, kernel, pid, process, handle)->0;
            &&& row.len() == 7
            &&& row[0] == Cell::integer(pid as i64)
            &&& row[1] == Cell::Text(process)
            &&& row[2] == Cell::hex((handle.header.offset + body) as u64)
            &&& row[3] == Cell::hex(handle.value)
            &&& row[4] == Cell::Text(kind)
            &&& row[5] == Cell::hex(handle.granted_access)
        }),
{
}

/// A handle on a process is named by the process's name and number, one on a thread by
/// the thread's number and its process's, in that order.
pub proof fn law_processes_and_threads_have_names(
    context: &Context,
    kernel: &Module,
    header: Object,
    body: Object,
)
    requires
        context.get_type(kernel.table, "_EPROCESS") is Some,
        context.get_type(kernel.table, "_ETHREAD") is Some,
    ensures
        ({
            let process = Object { kind: context.get_type(kernel.table, "_EPROCESS")->0, ..body };
            (context.image_name_of(process) is Some && context.member_pointer(
                process,
                "UniqueProcessId",
            ) is Some) ==> shown_name(context, kernel, "Process"@, header, body) == Some(
                Some(
                    context.image_name_of(process)->0 + " Pid "@ + text::decimal_text(
                        context.member_pointer(process, "UniqueProcessId")->0 as int,
                    ),
                ),
            )
        }),
        ({
            let thread = Object { kind: context.get_type(kernel.table, "_ETHREAD")->0, ..body };
            let cid = context.member(thread, "Cid")->0;
            (context.member(thread, "Cid") is Some && context.member_pointer(cid, "UniqueThread") is Some
                && context.member_pointer(cid, "UniqueProcess") is Some) ==> shown_name(
                context,
                kernel,
                "Thread"@,
                header,
                body,
            ) == Some(
                Some(
                    "Tid "@ + text::decimal_text(
                        context.member_pointer(cid, "UniqueThread")->0 as int,
                    ) + " Pid "@ + text::decimal_text(
                        context.member_pointer(cid, "UniqueProcess")->0 as int,
                    ),
                ),
            )
        }),
{
    lemma_kinds_differ();
}

proof fn lemma_kinds_differ()
    ensures
        "Process"@ != "File"@,
        "Thread"@ != "File"@,
        "Thread"@ != "Process"@,
        "Key"@ != "File"@,
        "Key"@ != "Process"@,
        "Key"@ != "Thread"@,
{
    reveal_strlit("Process");
    reveal_strlit("Thread");
    reveal_strlit("File");
    reveal_strlit("Key");
    assert("Process"@.len() == 7);
    assert("Thread"@.len() == 6);
    assert("File"@.len() == 4);
    assert("Key"@.len() == 3);
}

/// A handle on a file is named by the device it lives on, in front of its path.
pub proof fn law_files_are_named_behind_their_device(
    context: &Context,
    kernel: &Module,
    header: Object,
    body: Object,
    address: u64,
    device: Object,
    name: Seq<char>,
    path: Seq<char>,
)
    requires
        context.get_type(kernel.table, "_FILE_OBJECT") is Some,
        ({
            let file = Object { kind: context.get_type(kernel.table, "_FILE_OBJECT")->0, ..body };
            &&& context.member_pointer(file, "DeviceObject") == Some(address)
            &&& context.is_valid(file.native, address, 1)
            &&& context.member_target(file, "DeviceObject") == Some(device)
            &&& context.object_name_of(device, kernel) == Some(name)
            &&& context.member_unicode_of(file, "FileName") == Some(path)
        }),
    ensures
        shown_name(context, kernel, "File"@, header, body) == Some(
            Some("\\Device\\"@ + name + path),
        ),
{
}

/// Windows 10 hides what kind an object is behind the second lowest byte of its header's
/// address and a number drawn at every boot: with both taken off again, the index is the
/// one that the kernel's table names. Without such a number the index stands for itself.
pub proof fn law_hidden_kinds_are_told(
    context: &Context,
    header: Object,
    cookie: u64,
    index: u64,
    at: int,
)
    requires
        context.member_target(header, "Type") is None,
        index < 256,
        0 <= at < context.windows.type_names@.len(),
        context.windows.type_names@[at].index == index,
        forall|j: int| 0 <= j < at ==> (#[trigger] context.windows.type_names@[j]).index != index,
    ensures
        context.member_u64(header, "TypeIndex") == Some(
            (index ^ (header.offset >> 8u64) ^ cookie) & 0xffu64,
        ) ==> kind_of_header(context, header, context.windows.type_names@, Some(cookie)) == Some(
            context.windows.type_names@[at].name@,
        ),
        context.member_u64(header, "TypeIndex") == Some(index) ==> kind_of_header(
            context,
            header,
            context.windows.type_names@,
            None,
        ) == Some(context.windows.type_names@[at].name@),
{
    let place = header.offset;
    assert(((place >> 8u64) ^ cookie ^ ((index ^ (place >> 8u64) ^ cookie) & 0xffu64)) & 0xffu64
        == index) by (bit_vector)
        requires
            index < 256,
    ;
    lemma_type_name(context.windows.type_names@, index, at, 0);
}

proof fn lemma_type_name(
    names: Seq<crate::symbols::windows::TypeName>,
    index: u64,
    at: int,
    from: int,
)
    requires
        0 <= from <= at < names.len(),
        names[at].index == index,
        forall|j: int| 0 <= j < at ==> (#[trigger] names[j]).index != index,
    ensures
        crate::symbols::windows::type_name_from(names, index, from) == Some(names[at].name@),
    decreases at - from,
{
    if from < at {
        lemma_type_name(names, index, at, from + 1);
    }
}

} // verus!
