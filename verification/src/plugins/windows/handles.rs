//! List the handles each process holds.
//!
//! The handle table is a sparse, multi-level array of `_HANDLE_TABLE_ENTRY`.
//! Each entry encodes a pointer to the kernel object it refers to, with the low
//! bits used as flags.

use crate::config::Configuration;
use crate::context::{Context, Module, Object, TypeId};
use crate::error::{Failure, VolatilityError};
use crate::lists::is_among;
use crate::plugins::{
    self, KindView, OperatingSystem, Plugin, Requirement, RequirementKind, RequirementView,
};
use crate::plugins::windows::{kernel_module, selected_processes};
use crate::renderers::{Cell, Column, ColumnType, Row, Table, TreeGrid, Value};
use crate::symbols;
use crate::symbols::windows::{header_name, name_of_type, TypeName};
use crate::text::{self, decimal, join, push_text, same_text, utf8_lossy};
use vstd::prelude::*;

verus! {

/// Lists the handles each process holds.
pub struct Handles;

/// The table's low bits record its depth rather than forming part of the
/// address.
pub const LEVEL_MASK: u64 = 7;

/// A handle table is one page wide at every level.
pub const TABLE_PAGE: u64 = 0x1000;

/// Handle values count in fours, one per pointer-sized slot.
pub const HANDLE_MULTIPLIER: u64 = 4;

/// The flag a key's control block carries when it stands for a hive's entry.
pub const KEY_HIVE_ENTRY: u64 = 0x04;

/// One entry of a process's handle table.
#[derive(Clone, Copy, PartialEq, Eq, Structural, Debug)]
pub struct Handle {
    /// The object header the handle refers to.
    pub header: Object,
    /// The value the process knows the handle by.
    pub value: u64,
    /// The rights the handle was opened with.
    pub granted_access: u64,
}

pub open spec fn spec_item(context: &Context, kernel: &Module, entry: Object, value: u64) -> Option<
    Handle,
> {
    let kind = context.get_type(kernel.table, "_OBJECT_HEADER");
    if context.has_member(entry, "Object") {
        match context.member_pointer(entry, "Object") {
            Some(raw) => if context.is_valid(kernel.layer, raw, 1) {
                match context.object(kind, kernel.layer, raw & !0xfu64) {
                    Some(header) => Some(
                        Handle {
                            header,
                            value,
                            granted_access: match context.member_u64(entry, "GrantedAccess") {
                                Some(access) => access,
                                None => 0,
                            },
                        },
                    ),
                    None => None,
                }
            } else {
                None
            },
            None => None,
        }
    } else {
        match if context.pointer_size(kernel) == 8 {
            match context.member_u64(entry, "ObjectPointerBits") {
                Some(bits) if bits != 0 => Some(bits << 4u64),
                _ => None,
            }
        } else {
            match context.member_u64(entry, "InfoTable") {
                Some(table) if table != 0 => Some(table & !7u64),
                _ => None,
            }
        } {
            Some(address) => match (
                context.object(kind, kernel.layer, address),
                context.member_u64(entry, "GrantedAccessBits"),
            ) {
                (Some(header), Some(granted_access)) => Some(
                    Handle { header, value, granted_access },
                ),
                _ => None,
            },
            None => None,
        }
    }
}

/// Turn a table entry into the object header it refers to.
///
/// Before Windows 8 the entry holds the pointer itself, packed as a fast
/// reference. From Windows 8 it holds only the bits of the address that vary.
#[verifier::when_used_as_spec(spec_item)]
pub fn item(context: &Context, kernel: &Module, entry: Object, value: u64) -> (handle: Option<Handle>)
    ensures
        handle == spec_item(context, kernel, entry, value),
{
    let kind = context.get_type(kernel.table, "_OBJECT_HEADER");
    if context.has_member(entry, "Object") {
        match context.member_pointer(entry, "Object") {
            Some(raw) => if context.is_valid(kernel.layer, raw, 1) {
                match context.object(kind, kernel.layer, raw & !0xfu64) {
                    Some(header) => Some(
                        Handle {
                            header,
                            value,
                            granted_access: match context.member_u64(entry, "GrantedAccess") {
                                Some(access) => access,
                                None => 0,
                            },
                        },
                    ),
                    None => None,
                }
            } else {
                None
            },
            None => None,
        }
    } else {
        let address = if context.pointer_size(kernel) == 8 {
            match context.member_u64(entry, "ObjectPointerBits") {
                Some(bits) => if bits != 0 {
                    Some(bits << 4u64)
                } else {
                    None
                },
                None => None,
            }
        } else {
            match context.member_u64(entry, "InfoTable") {
                Some(table) => if table != 0 {
                    Some(table & !7u64)
                } else {
                    None
                },
                None => None,
            }
        };
        match address {
            Some(address) => match (
                context.object(kind, kernel.layer, address),
                context.member_u64(entry, "GrantedAccessBits"),
            ) {
                (Some(header), Some(granted_access)) => Some(
                    Handle { header, value, granted_access },
                ),
                _ => None,
            },
            None => None,
        }
    }
}

/// What a walk of a handle table has come to: the handles found, and how many
/// tables of the lowest level were passed.
#[verifier::ext_equal]
pub struct Walk {
    pub found: Seq<Handle>,
    pub depth: u64,
}

/// The type of the entries of a level of a handle table, and their size, where
/// a table of that level can be walked at all.
pub open spec fn entry_kind(context: &Context, kernel: &Module, level: u64) -> Option<
    (TypeId, u64),
> {
    match if level > 0 {
        context.get_type(kernel.table, "pointer")
    } else {
        context.get_type(kernel.table, "_HANDLE_TABLE_ENTRY")
    } {
        Some(kind) => match context.size_of(kind) {
            Some(size) => if size == 0 || (level == 0 && size < HANDLE_MULTIPLIER) {
                None
            } else {
                Some((kind, size))
            },
            None => None,
        },
        None => None,
    }
}

/// The handle that an entry of a table is, where it is one. The value a process
/// knows a handle by is its position in the table. A slot naming no kind of
/// object was never used.
pub open spec fn handle_at(
    context: &Context,
    kernel: &Module,
    kind: TypeId,
    size: u64,
    address: u64,
    at: u64,
    depth: u64,
) -> Option<Handle> {
    let entry = Object { kind, layer: kernel.layer, native: kernel.layer, offset: at };
    let base = depth.wrapping_mul(TABLE_PAGE / size).wrapping_mul(HANDLE_MULTIPLIER);
    let place = at.wrapping_sub(address & context.address_mask(kernel.layer));
    let value = (place / (size / HANDLE_MULTIPLIER)).wrapping_add(base);
    match item(context, kernel, entry, value) {
        Some(handle) => match context.member_u64(handle.header, "TypeIndex") {
            Some(index) if index != 0 => Some(handle),
            _ => None,
        },
        None => None,
    }
}

fn read_handle(
    context: &Context,
    kernel: &Module,
    kind: TypeId,
    size: u64,
    address: u64,
    at: u64,
    depth: u64,
) -> (handle: Option<Handle>)
    requires
        size >= HANDLE_MULTIPLIER,
    ensures
        handle == handle_at(context, kernel, kind, size, address, at, depth),
{
    let entry = Object { kind, layer: kernel.layer, native: kernel.layer, offset: at };
    let base: u64 = depth.wrapping_mul(TABLE_PAGE / size).wrapping_mul(HANDLE_MULTIPLIER);
    let place: u64 = at.wrapping_sub(address & context.address_mask(kernel.layer));
    let value: u64 = (place / (size / HANDLE_MULTIPLIER)).wrapping_add(base);
    match item(context, kernel, entry, value) {
        Some(handle) => match context.member_u64(handle.header, "TypeIndex") {
            Some(index) => if index != 0 {
                Some(handle)
            } else {
                None
            },
            None => None,
        },
        None => None,
    }
}

/// A table holds no more entries than it has bytes.
pub proof fn lemma_entry_count(size: u64)
    requires
        size > 0,
    ensures
        TABLE_PAGE / size <= TABLE_PAGE,
{
    assert(0x1000u64 / size <= 0x1000) by (nonlinear_arith)
        requires
            size > 0,
    ;
}

/// The walk once the first entries of a table are behind it. An entry above the
/// lowest level points to a table of the level below, which numbers its handles
/// from where this level left off.
pub open spec fn collected(
    context: &Context,
    kernel: &Module,
    address: u64,
    level: u64,
    walk: Walk,
    count: nat,
) -> Walk
    decreases level, count,
{
    match entry_kind(context, kernel, level) {
        Some((kind, size)) => if count == 0 || !context.is_valid(kernel.layer, address, 1) {
            walk
        } else {
            let before = collected(context, kernel, address, level, walk, (count - 1) as nat);
            let at = address.wrapping_add(((count - 1) as u64).wrapping_mul(size));
            if !context.is_valid(kernel.layer, at, 1) {
                before
            } else if level > 0 {
                match context.as_u64(
                    Object { kind, layer: kernel.layer, native: kernel.layer, offset: at },
                ) {
                    Some(value) => {
                        let below = table_walk(
                            context,
                            kernel,
                            value & context.address_mask(kernel.layer),
                            (level - 1) as u64,
                            before,
                        );
                        Walk { depth: below.depth.wrapping_add(1), ..below }
                    },
                    None => before,
                }
            } else {
                match handle_at(context, kernel, kind, size, address, at, before.depth) {
                    Some(handle) => Walk { found: before.found.push(handle), ..before },
                    None => before,
                }
            }
        },
        None => walk,
    }
}

/// The walk once a whole table is behind it.
pub open spec fn table_walk(
    context: &Context,
    kernel: &Module,
    address: u64,
    level: u64,
    walk: Walk,
) -> Walk
    decreases level, 0x1_0000nat,
{
    match entry_kind(context, kernel, level) {
        Some((_, size)) => {
            proof {
                lemma_entry_count(size);
            }
            collected(context, kernel, address, level, walk, (TABLE_PAGE / size) as nat)
        },
        None => walk,
    }
}

/// Walk one level of a handle table.
#[verifier::rlimit(60)]
pub fn collect(
    context: &Context,
    kernel: &Module,
    address: u64,
    level: u64,
    depth: &mut u64,
    found: &mut Vec<Handle>,
)
    ensures
        (Walk { found: final(found)@, depth: *final(depth) }) == table_walk(
            context,
            kernel,
            address,
            level,
            Walk { found: old(found)@, depth: *old(depth) },
        ),
    decreases level,
{
    let kind = if level > 0 {
        context.get_type(kernel.table, "pointer")
    } else {
        context.get_type(kernel.table, "_HANDLE_TABLE_ENTRY")
    };
    let kind = match kind {
        Some(kind) => kind,
        None => return,
    };
    let size = match context.size_of(kind) {
        Some(size) => size,
        None => return,
    };
    if size == 0 || (level == 0 && size < HANDLE_MULTIPLIER) {
        return;
    }
    let count: u64 = TABLE_PAGE / size;
    proof {
        lemma_entry_count(size);
    }
    let ghost start = Walk { found: found@, depth: *depth };
    if !context.is_valid(kernel.layer, address, 1) {
        assert(collected(context, kernel, address, level, start, count as nat) == start);
        return;
    }
    for index in 0..count
        invariant
            level > 0 || size >= HANDLE_MULTIPLIER,
            entry_kind(context, kernel, level) == Some((kind, size)),
            context.is_valid(kernel.layer, address, 1),
            (Walk { found: found@, depth: *depth }) == collected(
                context,
                kernel,
                address,
                level,
                start,
                index as nat,
            ),
    {
        let at: u64 = address.wrapping_add(index.wrapping_mul(size));
        if context.is_valid(kernel.layer, at, 1) {
            if level > 0 {
                let entry = Object { kind, layer: kernel.layer, native: kernel.layer, offset: at };
                if let Some(value) = context.as_u64(entry) {
                    // The pointer names a table in this layer, so only the bits
                    // the layer addresses are part of it.
                    collect(
                        context,
                        kernel,
                        value & context.address_mask(kernel.layer),
                        level - 1,
                        depth,
                        found,
                    );
                    *depth = depth.wrapping_add(1);
                }
            } else {
                if let Some(handle) = read_handle(context, kernel, kind, size, address, at, *depth) {
                    found.push(handle);
                }
            }
        }
    }
}

/// The handles that a table holds.
pub open spec fn handles_of(context: &Context, kernel: &Module, object_table: Object) -> Seq<Handle> {
    match context.dereference(object_table) {
        Some(table) => match context.member_u64(table, "TableCode") {
            Some(code) => table_walk(
                context,
                kernel,
                (code & !LEVEL_MASK) & context.address_mask(kernel.layer),
                code & LEVEL_MASK,
                Walk { found: Seq::empty(), depth: 0 },
            ).found,
            None => Seq::empty(),
        },
        None => Seq::empty(),
    }
}

/// Every handle a table holds, descending through however many levels it has.
pub fn handles(context: &Context, kernel: &Module, object_table: Object) -> (found: Vec<Handle>)
    ensures
        found@ == handles_of(context, kernel, object_table),
{
    let mut found: Vec<Handle> = Vec::new();
    if let Some(table) = context.dereference(object_table) {
        if let Some(code) = context.member_u64(table, "TableCode") {
            // The bottom bits give the number of levels. The rest is the
            // address, in the form the layer addresses it.
            let mut depth: u64 = 0;
            let base: u64 = (code & !LEVEL_MASK) & context.address_mask(kernel.layer);
            collect(context, kernel, base, code & LEVEL_MASK, &mut depth, &mut found);
        }
    }
    found
}

/// How many bytes a text takes.
pub open spec fn byte_length(text: Seq<char>) -> usize {
    vstd::utf8::encode_utf8(text).len() as usize
}

/// What the kernel's own table says an object header describes.
///
/// Vista and earlier point straight at the type object. Later systems keep an
/// index into the table of types, and Windows 10 hides that index behind the
/// header's own address and a number drawn at every boot.
pub open spec fn kind_of_header(
    context: &Context,
    header: Object,
    names: Seq<TypeName>,
    cookie: Option<u64>,
) -> Option<Seq<char>> {
    match pointed_kind(context, header) {
        Some(name) => Some(name),
        None => match context.member_u64(header, "TypeIndex") {
            Some(index) => symbols::windows::type_name_from(
                names,
                match cookie {
                    Some(cookie) => ((header.offset >> 8u64) ^ cookie ^ index) & 0xff,
                    None => index,
                },
                0,
            ),
            None => None,
        },
    }
}

/// The name of the type object that a header points straight at.
pub open spec fn pointed_kind(context: &Context, header: Object) -> Option<Seq<char>> {
    match context.member_target(header, "Type") {
        Some(kind) => match context.member_unicode_of(kind, "Name") {
            Some(name) => if name.len() > 0 && byte_length(name) <= 128 {
                Some(name)
            } else {
                None
            },
            None => None,
        },
        None => None,
    }
}

fn read_pointed_kind(context: &Context, header: Object) -> (name: Option<String>)
    ensures
        text::maybe_text(name) == pointed_kind(context, header),
{
    match context.member_target(header, "Type") {
        Some(kind) => match context.member_unicode(kind, "Name") {
            Some(name) => if !name.as_str().is_empty() && name.as_str().len() <= 128 {
                Some(name)
            } else {
                None
            },
            None => None,
        },
        None => None,
    }
}

/// What the kernel's own table says an object header describes.
pub fn object_type_of_header(
    context: &Context,
    header: Object,
    names: &Vec<TypeName>,
    cookie: Option<u64>,
) -> (kind: Option<String>)
    ensures
        text::maybe_text(kind) == kind_of_header(context, header, names@, cookie),
{
    match read_pointed_kind(context, header) {
        Some(name) => Some(name),
        None => match context.member_u64(header, "TypeIndex") {
            Some(index) => {
                let shown: u64 = match cookie {
                    Some(cookie) => ((header.offset >> 8u64) ^ cookie ^ index) & 0xff,
                    None => index,
                };
                name_of_type(names, shown)
            },
            None => None,
        },
    }
}

pub open spec fn spec_body_of(context: &Context, kernel: &Module, header: Object) -> Option<Object> {
    match context.get_type(kernel.table, "_OBJECT_HEADER") {
        Some(kind) => Some(
            Object {
                kind,
                layer: header.layer,
                native: header.layer,
                offset: header.offset.wrapping_add(
                    match context.find_member(kind, "Body") {
                        Some((offset, _)) => offset,
                        None => 0,
                    },
                ),
            },
        ),
        None => None,
    }
}

/// The object an object header precedes.
#[verifier::when_used_as_spec(spec_body_of)]
pub fn body_of(context: &Context, kernel: &Module, header: Object) -> (body: Option<Object>)
    ensures
        body == spec_body_of(context, kernel, header),
{
    match context.get_type(kernel.table, "_OBJECT_HEADER") {
        Some(kind) => Some(
            Object {
                kind,
                layer: header.layer,
                native: header.layer,
                offset: header.offset.wrapping_add(
                    match context.find_member(kind, "Body") {
                        Some((offset, _)) => offset,
                        None => 0,
                    },
                ),
            },
        ),
        None => None,
    }
}

/// The device that a file lives on, as the front of the file's name. A device
/// that cannot be read leaves the file named by its path alone.
pub open spec fn device_prefix(context: &Context, kernel: &Module, file: Object) -> Seq<char> {
    match (
        context.member_pointer(file, "DeviceObject"),
        context.member_target(file, "DeviceObject"),
    ) {
        (Some(address), Some(device)) => if context.is_valid(file.native, address, 1) {
            match context.object_name_of(device, kernel) {
                Some(name) => "\\Device\\"@ + name,
                None => Seq::empty(),
            }
        } else {
            Seq::empty()
        },
        _ => Seq::empty(),
    }
}

/// A file object's name, prefixed by the device it lives on.
pub open spec fn device_file_name(context: &Context, kernel: &Module, file: Object) -> Seq<char> {
    device_prefix(context, kernel, file) + match context.member_unicode_of(file, "FileName") {
        Some(path) => path,
        None => Seq::empty(),
    }
}

/// A file object's name, prefixed by the device it lives on.
pub fn file_name_with_device(context: &Context, kernel: &Module, file: Object) -> (name: String)
    ensures
        name@ == device_file_name(context, kernel, file),
{
    let mut name = String::new();
    if let (Some(address), Some(device)) = (
        context.member_pointer(file, "DeviceObject"),
        context.member_target(file, "DeviceObject"),
    ) {
        if context.is_valid(file.native, address, 1) {
            if let Some(device_name) = context.object_name(device, kernel) {
                name = "\\Device\\".to_owned();
                name.append(&device_name);
            }
        }
    }
    if let Some(path) = context.member_unicode(file, "FileName") {
        name.append(&path);
    }
    assert(name@ =~= device_file_name(context, kernel, file));
    name
}

/// The text of one control block of a key, where all of it can be read.
pub open spec fn block_name(context: &Context, block: Object) -> Option<Seq<char>> {
    match context.member_target(block, "NameBlock") {
        Some(name_block) => match (
            context.member_u64(name_block, "NameLength"),
            context.member(name_block, "Name"),
        ) {
            (Some(length), Some(name)) => match context.bytes_of(
                name.layer,
                name.offset,
                length as usize,
                false,
            ) {
                Some(bytes) => Some(text::utf8_lossy_text(bytes)),
                None => None,
            },
            _ => None,
        },
        None => None,
    }
}

fn read_block_name(context: &Context, block: Object) -> (name: Option<String>)
    ensures
        text::maybe_text(name) == block_name(context, block),
{
    match context.member_target(block, "NameBlock") {
        Some(name_block) => match (
            context.member_u64(name_block, "NameLength"),
            context.member(name_block, "Name"),
        ) {
            (Some(length), Some(name)) => match context.read(
                name.layer,
                name.offset,
                length as usize,
                false,
            ) {
                Some(bytes) => Some(utf8_lossy(&bytes)),
                None => None,
            },
            _ => None,
        },
        None => None,
    }
}

/// What a step up a key's control blocks comes to.
pub enum KeyStep {
    /// A read that fails abandons the handle altogether.
    Failed,
    /// The top was reached.
    Top,
    /// The block whose name is the next part of the path.
    Part(Object),
}

/// The step from a block, given its parent. Reaching the name at all is what
/// says the chain is still real. A block that stands for a hive's own entry
/// carries the name of the hive rather than a component, and is stepped over.
pub open spec fn key_step(context: &Context, hive_entries: bool, block: Object, parent: Object) -> KeyStep {
    match context.member_target(block, "NameBlock") {
        Some(name_block) => if !context.has_member(name_block, "Name") {
            KeyStep::Failed
        } else if !hive_entries {
            KeyStep::Part(block)
        } else {
            match context.member_u64(block, "Flags") {
                Some(flags) => if flags & KEY_HIVE_ENTRY == KEY_HIVE_ENTRY {
                    if parent.offset == 0 {
                        KeyStep::Top
                    } else {
                        KeyStep::Part(parent)
                    }
                } else {
                    KeyStep::Part(block)
                },
                None => KeyStep::Failed,
            }
        },
        None => KeyStep::Failed,
    }
}

fn take_step(context: &Context, hive_entries: bool, block: Object, parent: Object) -> (step: KeyStep)
    ensures
        step == key_step(context, hive_entries, block, parent),
{
    match context.member_target(block, "NameBlock") {
        Some(name_block) => if !context.has_member(name_block, "Name") {
            KeyStep::Failed
        } else if !hive_entries {
            KeyStep::Part(block)
        } else {
            match context.member_u64(block, "Flags") {
                Some(flags) => if flags & KEY_HIVE_ENTRY == KEY_HIVE_ENTRY {
                    if parent.offset == 0 {
                        KeyStep::Top
                    } else {
                        KeyStep::Part(parent)
                    }
                } else {
                    KeyStep::Part(block)
                },
                None => KeyStep::Failed,
            }
        },
        None => KeyStep::Failed,
    }
}

/// The parts of a key's path from a block up, the lowest first. Nothing comes
/// of it where a read fails; a path that ran in a circle or ran too deep has no
/// parts.
pub open spec fn key_parts(
    context: &Context,
    hive_entries: bool,
    block: Object,
    seen: Seq<u64>,
    parts: Seq<Seq<char>>,
) -> Option<Option<Seq<Seq<char>>>>
    decreases 130 - parts.len(),
{
    match context.member_pointer(block, "ParentKcb") {
        Some(address) => if address == 0 {
            Some(Some(parts))
        } else {
            match context.member_target(block, "ParentKcb") {
                Some(parent) => if seen.contains(parent.offset) || parts.len() > 128 {
                    Some(None)
                } else {
                    match key_step(context, hive_entries, block, parent) {
                        KeyStep::Failed => None,
                        KeyStep::Top => Some(Some(parts)),
                        KeyStep::Part(named) => match (
                            block_name(context, named),
                            context.member_target(named, "ParentKcb"),
                        ) {
                            (Some(part), Some(next)) => key_parts(
                                context,
                                hive_entries,
                                next,
                                seen.push(parent.offset),
                                parts.push(part),
                            ),
                            _ => None,
                        },
                    }
                },
                None => None,
            }
        },
        None => None,
    }
}

/// A list of texts the other way round.
pub open spec fn reversed(parts: Seq<Seq<char>>) -> Seq<Seq<char>> {
    parts.reverse()
}

/// The whole path of an open registry key.
pub open spec fn key_path(context: &Context, key: Object) -> Option<Option<Seq<char>>> {
    match context.member_target(key, "KeyControlBlock") {
        Some(block) => match key_parts(
            context,
            context.has_member(key, "Trans"),
            block,
            Seq::empty(),
            Seq::empty(),
        ) {
            Some(Some(parts)) => Some(Some(text::joined(reversed(parts), seq!['\\']))),
            Some(None) => Some(None),
            None => None,
        },
        None => None,
    }
}

/// What an optional optional string says.
pub open spec fn maybe_maybe(name: Option<Option<String>>) -> Option<Option<Seq<char>>> {
    match name {
        Some(name) => Some(text::maybe_text(name)),
        None => None,
    }
}

fn join_reversed(parts: &Vec<String>) -> (path: String)
    ensures
        path@ == text::joined(reversed(text::texts(parts@)), seq!['\\']),
{
    let mut turned: Vec<String> = Vec::new();
    let mut i: usize = parts.len();
    while i > 0
        invariant
            i <= parts@.len(),
            text::texts(turned@) == reversed(text::texts(parts@)).take(parts@.len() - i),
        decreases i,
    {
        i = i - 1;
        push_text(&mut turned, parts[i].clone());
        assert(text::texts(turned@) =~= reversed(text::texts(parts@)).take(parts@.len() - i));
    }
    assert(text::texts(turned@) =~= reversed(text::texts(parts@)));
    let mut between = String::new();
    between.push('\\');
    assert(between@ =~= seq!['\\']);
    join(&turned, &between)
}

/// The whole path of an open registry key, built from its control blocks.
///
/// Each block names one component and points at its parent, so the path is
/// read from the key upwards. A block that stands for a hive's own entry
/// carries the name of the hive rather than a component, and is stepped over.
///
/// A read that fails abandons the handle altogether, since a key whose path
/// cannot be followed is not reported at all. `Some(None)` marks a path that ran
/// in a circle or ran too deep.
#[verifier::loop_isolation(false)]
pub fn full_key_name(context: &Context, key: Object) -> (name: Option<Option<String>>)
    ensures
        maybe_maybe(name) == key_path(context, key),
{
    // Only kernels new enough to have this member have the extra element.
    let hive_entries = context.has_member(key, "Trans");
    let mut parts: Vec<String> = Vec::new();
    let mut seen: Vec<u64> = Vec::new();
    let first = match context.member_target(key, "KeyControlBlock") {
        Some(block) => block,
        None => return None,
    };
    let mut block = first;
    assert(text::texts(parts@) =~= Seq::<Seq<char>>::empty());
    let ghost whole = key_parts(context, hive_entries, first, Seq::empty(), Seq::empty());
    loop
        invariant
            parts@.len() <= 129,
            whole == key_parts(context, hive_entries, block, seen@, text::texts(parts@)),
        decreases 130 - parts@.len(),
    {
        assert(text::texts(parts@).len() == parts@.len());
        match context.member_pointer(block, "ParentKcb") {
            Some(address) => {
                if address == 0 {
                    return Some(Some(join_reversed(&parts)));
                }
            },
            None => {
                return None;
            },
        }
        let parent = match context.member_target(block, "ParentKcb") {
            Some(parent) => parent,
            None => return None,
        };
        if is_among(&seen, parent.offset) || parts.len() > 128 {
            return Some(None);
        }
        seen.push(parent.offset);
        let named = match take_step(context, hive_entries, block, parent) {
            KeyStep::Failed => return None,
            KeyStep::Top => return Some(Some(join_reversed(&parts))),
            KeyStep::Part(named) => named,
        };
        match (read_block_name(context, named), context.member_target(named, "ParentKcb")) {
            (Some(part), Some(next)) => {
                push_text(&mut parts, part);
                block = next;
            },
            _ => {
                return None;
            },
        }
    }
}

/// The name that a handle's object shows. Nothing comes of it where the handle
/// is not reported at all.
pub open spec fn shown_name(
    context: &Context,
    kernel: &Module,
    kind: Seq<char>,
    header: Object,
    body: Object,
) -> Option<Option<Seq<char>>> {
    if kind == "File"@ {
        match context.cast(body, context.get_type(kernel.table, "_FILE_OBJECT")) {
            Some(file) => Some(Some(device_file_name(context, kernel, file))),
            None => Some(None),
        }
    } else if kind == "Process"@ {
        match context.cast(body, context.get_type(kernel.table, "_EPROCESS")) {
            Some(process) => Some(
                match (context.image_name_of(process), context.pid(process)) {
                    (Some(name), Some(pid)) => Some(
                        name + " Pid "@ + text::decimal_text(pid as int),
                    ),
                    _ => None,
                },
            ),
            None => Some(None),
        }
    } else if kind == "Thread"@ {
        match context.cast(body, context.get_type(kernel.table, "_ETHREAD")) {
            Some(thread) => Some(thread_name(context, thread)),
            None => Some(None),
        }
    } else if kind == "Key"@ {
        match context.cast(body, context.get_type(kernel.table, "_CM_KEY_BODY")) {
            Some(key) => key_path(context, key),
            None => None,
        }
    } else {
        Some(symbols::windows::named_by_header(context, header))
    }
}

/// What a thread shows as.
pub open spec fn thread_name(context: &Context, thread: Object) -> Option<Seq<char>> {
    match context.member(thread, "Cid") {
        Some(cid) => match (
            context.member_pointer(cid, "UniqueThread"),
            context.member_pointer(cid, "UniqueProcess"),
        ) {
            (Some(tid), Some(pid)) => Some(
                "Tid "@ + text::decimal_text(tid as int) + " Pid "@ + text::decimal_text(
                    pid as int,
                ),
            ),
            _ => None,
        },
        None => None,
    }
}

fn show_thread(context: &Context, thread: Object) -> (name: Option<String>)
    ensures
        text::maybe_text(name) == thread_name(context, thread),
{
    match context.member(thread, "Cid") {
        Some(cid) => match (
            context.member_pointer(cid, "UniqueThread"),
            context.member_pointer(cid, "UniqueProcess"),
        ) {
            (Some(tid), Some(pid)) => {
                let mut name = "Tid ".to_owned();
                name.append(&decimal(tid));
                name.append(" Pid ");
                name.append(&decimal(pid));
                Some(name)
            },
            _ => None,
        },
        None => None,
    }
}

fn show_name(context: &Context, kernel: &Module, kind: &str, header: Object, body: Object) -> (name:
    Option<Option<String>>)
    ensures
        maybe_maybe(name) == shown_name(context, kernel, kind@, header, body),
{
    if same_text(kind, "File") {
        match context.cast(body, context.get_type(kernel.table, "_FILE_OBJECT")) {
            Some(file) => Some(Some(file_name_with_device(context, kernel, file))),
            None => Some(None),
        }
    } else if same_text(kind, "Process") {
        match context.cast(body, context.get_type(kernel.table, "_EPROCESS")) {
            Some(process) => match (context.image_file_name(process), context.pid(process)) {
                (Some(name), Some(pid)) => {
                    let mut shown = name;
                    shown.append(" Pid ");
                    shown.append(&decimal(pid));
                    Some(Some(shown))
                },
                _ => Some(None),
            },
            None => Some(None),
        }
    } else if same_text(kind, "Thread") {
        match context.cast(body, context.get_type(kernel.table, "_ETHREAD")) {
            Some(thread) => Some(show_thread(context, thread)),
            None => Some(None),
        }
    } else if same_text(kind, "Key") {
        match context.cast(body, context.get_type(kernel.table, "_CM_KEY_BODY")) {
            // A key whose path cannot be followed is not reported.
            Some(key) => full_key_name(context, key),
            None => None,
        }
    } else {
        Some(header_name(context, header))
    }
}

/// A name, or that there is none to speak of.
pub open spec fn name_cell(name: Option<Seq<char>>) -> Cell {
    match name {
        Some(name) => if name.len() == 0 {
            Cell::not_available()
        } else {
            Cell::Text(name)
        },
        None => Cell::not_available(),
    }
}

/// A name, or that there is none to speak of.
pub fn name_value(name: Option<String>) -> (value: Value)
    ensures
        value@ == name_cell(text::maybe_text(name)),
{
    match name {
        Some(name) => if name.as_str().is_empty() {
            Value::not_available()
        } else {
            Value::String(name)
        },
        None => Value::not_available(),
    }
}

/// What the row of a handle says, where it is reported. An object whose kind the
/// kernel's own table does not name is not.
pub open spec fn handle_cells(
    context: &Context,
    kernel: &Module,
    pid: u64,
    process_name: Seq<char>,
    handle: Handle,
) -> Option<Seq<Cell>> {
    match (
        kind_of_header(
            context,
            handle.header,
            context.windows.type_names@,
            context.windows.cookie,
        ),
        body_of(context, kernel, handle.header),
    ) {
        (Some(kind), Some(body)) => match shown_name(context, kernel, kind, handle.header, body) {
            Some(name) => Some(
                seq![
                    Cell::integer(pid as i64),
                    Cell::Text(process_name),
                    Cell::hex(body.offset),
                    Cell::hex(handle.value),
                    Cell::Text(kind),
                    Cell::hex(handle.granted_access),
                    name_cell(name),
                ],
            ),
            None => None,
        },
        _ => None,
    }
}

/// The report once a handle is in it.
pub open spec fn with_handle(
    context: &Context,
    kernel: &Module,
    pid: u64,
    process_name: Seq<char>,
    table: Table,
    handle: Handle,
) -> Table {
    match handle_cells(context, kernel, pid, process_name, handle) {
        Some(cells) => table.push(0, cells),
        None => table,
    }
}

fn add_handle(
    context: &Context,
    kernel: &Module,
    pid: u64,
    process_name: &str,
    grid: &mut TreeGrid,
    handle: Handle,
)
    ensures
        final(grid)@ == with_handle(context, kernel, pid, process_name@, old(grid)@, handle),
{
    let kind = match object_type_of_header(
        context,
        handle.header,
        &context.windows.type_names,
        context.windows.cookie,
    ) {
        Some(kind) => kind,
        None => return,
    };
    let body = match body_of(context, kernel, handle.header) {
        Some(body) => body,
        None => return,
    };
    let name = match show_name(context, kernel, &kind, handle.header, body) {
        Some(name) => name,
        None => return,
    };
    let row = Row::new().with(Value::integer(pid as i64)).with(Value::string(process_name)).with(
        Value::hex(body.offset),
    ).with(Value::hex(handle.value)).with(Value::String(kind)).with(
        Value::hex(handle.granted_access),
    ).with(name_value(name));
    assert(handle_cells(context, kernel, pid, process_name@, handle) == Some(row@));
    grid.push(0, row);
}

/// The report once the first of some handles are in it.
pub open spec fn with_handles(
    context: &Context,
    kernel: &Module,
    pid: u64,
    process_name: Seq<char>,
    table: Table,
    handles: Seq<Handle>,
    count: int,
) -> Table
    decreases count,
{
    if count <= 0 {
        table
    } else {
        with_handle(
            context,
            kernel,
            pid,
            process_name,
            with_handles(context, kernel, pid, process_name, table, handles, count - 1),
            handles[count - 1],
        )
    }
}

/// The report once the first of some processes are in it.
pub open spec fn reported(
    context: &Context,
    kernel: &Module,
    headings: Seq<Column>,
    processes: Seq<Object>,
    count: int,
) -> Table
    decreases count,
{
    if count <= 0 {
        Table::empty(headings)
    } else {
        let table = reported(context, kernel, headings, processes, count - 1);
        let process = processes[count - 1];
        match (
            context.pid(process),
            context.member(process, "ObjectTable"),
            context.image_name_of(process),
        ) {
            (Some(pid), Some(object_table), Some(name)) => {
                let found = handles_of(context, kernel, object_table);
                with_handles(context, kernel, pid, name, table, found, found.len() as int)
            },
            _ => table,
        }
    }
}

impl Plugin for Handles {
    open spec fn named(&self) -> Seq<char> {
        "windows.handles.Handles"@
    }

    open spec fn described(&self) -> Seq<char> {
        "Lists process open handles."@
    }

    open spec fn needs(&self) -> Seq<RequirementView> {
        seq![
            RequirementView::kernel(),
            RequirementView::pid_filter("Process IDs to include (all other processes are excluded)"@),
            RequirementView::new(
                "offset"@,
                "Process offset in the physical address space"@,
                KindView::Int,
            ),
        ]
    }

    open spec fn headings(&self) -> Seq<Column> {
        seq![
            Column::integer("PID"),
            Column::string("Process"),
            Column::new("Offset", ColumnType::UInt),
            Column::new("HandleValue", ColumnType::UInt),
            Column::string("Type"),
            Column::new("GrantedAccess", ColumnType::UInt),
            Column::string("Name"),
        ]
    }

    open spec fn system(&self) -> OperatingSystem {
        OperatingSystem::Windows
    }

    open spec fn report(&self, context: &Context, config: &Configuration) -> Result<Table, Failure> {
        match plugins::windows::kernel_of(context, config) {
            Some(kernel) => match plugins::windows::selected(context, &kernel, config) {
                Some(processes) => Ok(
                    reported(
                        context,
                        &kernel,
                        self.headings(),
                        processes,
                        processes.len() as int,
                    ),
                ),
                None => Err(Failure::Unavailable),
            },
            None => Err(plugins::windows::no_kernel()),
        }
    }

    fn name(&self) -> (name: &'static str) {
        "windows.handles.Handles"
    }

    fn description(&self) -> (description: &'static str) {
        "Lists process open handles."
    }

    fn requirements(&self) -> (requirements: Vec<Requirement>) {
        vec![
            Requirement::kernel(),
            Requirement::pid_filter("Process IDs to include (all other processes are excluded)"),
            Requirement::new(
                "offset",
                "Process offset in the physical address space",
                RequirementKind::Int,
            ),
        ]
    }

    fn operating_system(&self) -> (system: OperatingSystem) {
        OperatingSystem::Windows
    }

    fn columns(&self) -> (columns: Vec<Column>) {
        vec![
            Column::integer("PID"),
            Column::string("Process"),
            Column::new("Offset", ColumnType::UInt),
            Column::new("HandleValue", ColumnType::UInt),
            Column::string("Type"),
            Column::new("GrantedAccess", ColumnType::UInt),
            Column::string("Name"),
        ]
    }

    fn epilog(&self) -> (epilog: Option<&'static str>) {
        None
    }

    fn timeline(&self, context: &Context, config: &Configuration) -> (timeline: Option<
        plugins::Timeline,
    >) {
        None
    }

    fn needs_kernel(&self) -> (needed: bool) {
        false
    }

    fn run(&self, context: &Context, config: &Configuration) -> (result: Result<TreeGrid, VolatilityError>) {
        let kernel = kernel_module(context, config)?;
        let processes = selected_processes(context, kernel, config)?;
        let mut grid = TreeGrid::new(self.columns());
        let ghost headings = self.headings();
        for i in 0..processes.len()
            invariant
                grid@ == reported(context, kernel, headings, processes@, i as int),
        {
            let process = processes[i];
            if let (Some(pid), Some(object_table), Some(name)) = (
                context.pid(process),
                context.member(process, "ObjectTable"),
                context.image_file_name(process),
            ) {
                let found = handles(context, kernel, object_table);
                let ghost before = grid@;
                for j in 0..found.len()
                    invariant
                        grid@ == with_handles(
                            context,
                            kernel,
                            pid,
                            name@,
                            before,
                            found@,
                            j as int,
                        ),
                {
                    add_handle(context, kernel, pid, &name, &mut grid, found[j]);
                }
            }
        }
        Ok(grid)
    }
}

} // verus!
