//! Report what is known about the image and the system it came from.

use crate::config::Configuration;
use crate::context::{self, cut_at_zero, find_named, Context, Module, Object};
use crate::error::{Failure, VolatilityError};
use crate::plugins::{self, OperatingSystem, Plugin, Requirement, RequirementView};
use crate::plugins::windows::kernel_module;
use crate::renderers::{self, push_row, Cell, Column, Row, Table, TreeGrid, Value};
use crate::text::{self, cut_at_nul, decimal, units_of, utf16, utf8_lossy};
use crate::time::{self, format_time, wintime_to_datetime};
use vstd::prelude::*;

verus! {

/// Reports what is known about the image and the system it came from.
pub struct Info;

/// The tag by which a debugger data block names itself: `KDBG`.
pub const BLOCK_TAG: u64 = 0x4742_444b;

/// A row of a name and what is known of it.
pub open spec fn named_row(name: Seq<char>, cell: Cell) -> Seq<Cell> {
    seq![Cell::Text(name), cell]
}

fn add_named(rows: &mut Vec<Row>, name: &str, value: Value)
    ensures
        renderers::row_views(final(rows)@) == renderers::row_views(old(rows)@).push(
            named_row(name@, value@),
        ),
{
    let row = Row::new().with(Value::string(name)).with(value);
    assert(row@ == named_row(name@, value@));
    push_row(rows, row);
}

/// How a truth is spelled.
pub open spec fn spelled(value: bool) -> Seq<char> {
    if value {
        "True"@
    } else {
        "False"@
    }
}

/// How a truth is spelled.
pub fn capitalised(value: bool) -> (text: &'static str)
    ensures
        text@ == spelled(value),
{
    if value {
        "True"
    } else {
        "False"
    }
}

/// What is known of the kernel itself.
pub open spec fn kernel_rows(context: &Context, kernel: &Module) -> Seq<Seq<Cell>> {
    let layer = context.layers@[kernel.layer as int];
    let table = context.tables@[kernel.table as int];
    let base = seq![named_row("Kernel Base"@, Cell::hex(kernel.offset))];
    let with_map = match layer.page_map {
        Some(offset) => base.push(named_row("DTB"@, Cell::hex(offset))),
        None => base,
    };
    let with_source = match table.source {
        Some(source) => with_map.push(named_row("Symbols"@, Cell::Text(source@))),
        None => with_map,
    };
    with_source.push(
        named_row("Is64Bit"@, Cell::Text(spelled(table.pointer_size == 8))),
    ).push(named_row("IsPAE"@, Cell::Text(spelled(layer.pae))))
}

fn add_kernel_rows(context: &Context, kernel: &Module, rows: &mut Vec<Row>)
    requires
        kernel.layer < context.layers@.len(),
        kernel.table < context.tables@.len(),
        old(rows)@.len() == 0,
    ensures
        renderers::row_views(final(rows)@) == kernel_rows(context, kernel),
{
    let layer = &context.layers[kernel.layer];
    let table = &context.tables[kernel.table];
    add_named(rows, "Kernel Base", Value::hex(kernel.offset));
    assert(renderers::row_views(rows@) =~= seq![
        named_row("Kernel Base"@, Cell::hex(kernel.offset)),
    ]);
    if let Some(offset) = layer.page_map {
        add_named(rows, "DTB", Value::hex(offset));
    }
    if let Some(source) = &table.source {
        add_named(rows, "Symbols", Value::string(source));
    }
    add_named(rows, "Is64Bit", Value::string(capitalised(table.pointer_size == 8)));
    add_named(rows, "IsPAE", Value::string(capitalised(layer.pae)));
}

/// A layer's name and how far below the kernel's it is.
#[verifier::ext_equal]
pub struct DepthView {
    pub depth: nat,
    pub name: Seq<char>,
}

/// A layer and every layer beneath it, with how far down each is, no more than
/// `most` steps below the first.
///
/// The layer itself comes first, then whatever it rests on, in the order the layer
/// names them, so an image is described the way it was assembled.
pub open spec fn depths(context: &Context, name: Seq<char>, depth: nat, most: nat) -> Seq<DepthView>
    decreases most, 0int,
{
    seq![DepthView { depth, name }] + match context::named(context.layers@, name) {
        Some(layer) => if most == 0 {
            Seq::empty()
        } else {
            depths_all(
                context,
                text::texts(layer.below@),
                layer.below@.len() as int,
                depth + 1,
                (most - 1) as nat,
            )
        },
        None => Seq::empty(),
    }
}

/// The first of some layers and every layer beneath them.
pub open spec fn depths_all(
    context: &Context,
    names: Seq<Seq<char>>,
    count: int,
    depth: nat,
    most: nat,
) -> Seq<DepthView>
    decreases most, count,
{
    if count <= 0 {
        Seq::empty()
    } else {
        depths_all(context, names, count - 1, depth, most) + depths(
            context,
            names[count - 1],
            depth,
            most,
        )
    }
}

/// A layer's name and how far below the kernel's it is.
#[derive(Debug)]
pub struct LayerDepth {
    pub depth: usize,
    pub name: String,
}

/// What is said of each of some layers.
pub open spec fn depth_views(list: Seq<LayerDepth>) -> Seq<DepthView> {
    Seq::new(
        list.len(),
        |i: int| DepthView { depth: list[i].depth as nat, name: list[i].name@ },
    )
}

fn add_depths(context: &Context, name: &str, depth: usize, most: usize, found: &mut Vec<LayerDepth>)
    requires
        depth + most <= usize::MAX,
    ensures
        depth_views(final(found)@) == depth_views(old(found)@) + depths(
            context,
            name@,
            depth as nat,
            most as nat,
        ),
    decreases most,
{
    let ghost start = depth_views(found@);
    found.push(LayerDepth { depth, name: name.to_owned() });
    let ghost first = start + seq![DepthView { depth: depth as nat, name: name@ }];
    assert(depth_views(found@) =~= first);
    proof {
        context::lemma_named_from(context.layers@, name@, 0);
    }
    if most > 0 {
        if let Some(at) = find_named(&context.layers, name) {
            let below = &context.layers[at].below;
            assert(first =~= first + Seq::<DepthView>::empty());
            for i in 0..below.len()
                invariant
                    0 < most,
                    depth + most <= usize::MAX,
                    depth_views(found@) == first + depths_all(
                        context,
                        text::texts(below@),
                        i as int,
                        (depth + 1) as nat,
                        (most - 1) as nat,
                    ),
            {
                let ghost earlier = depths_all(
                    context,
                    text::texts(below@),
                    i as int,
                    (depth + 1) as nat,
                    (most - 1) as nat,
                );
                add_depths(context, &below[i], depth + 1, most - 1, found);
                assert(depth_views(found@) =~= first + (earlier + depths(
                    context,
                    below@[i as int]@,
                    (depth + 1) as nat,
                    (most - 1) as nat,
                )));
            }
        }
    }
    assert(depth_views(found@) =~= start + depths(context, name@, depth as nat, most as nat));
}

/// Every layer beneath one, with how far below it is. Layers rest on each other
/// no deeper than there are layers.
pub open spec fn layer_list(context: &Context, layer: usize) -> Seq<DepthView> {
    depths(context, context.layers@[layer as int].name@, 0, context.layers@.len())
}

proof fn lemma_depths(context: &Context, name: Seq<char>, depth: nat, most: nat)
    ensures
        depths(context, name, depth, most).len() > 0,
        depths(context, name, depth, most)[0] == (DepthView { depth, name }),
        forall|i: int|
            1 <= i < depths(context, name, depth, most).len() ==> (#[trigger] depths(
                context,
                name,
                depth,
                most,
            )[i]).depth > depth,
    decreases most, 0int,
{
    if let Some(layer) = context::named(context.layers@, name) {
        if most > 0 {
            lemma_depths_all(
                context,
                text::texts(layer.below@),
                layer.below@.len() as int,
                depth + 1,
                (most - 1) as nat,
            );
            let all = depths(context, name, depth, most);
            let rest = depths_all(
                context,
                text::texts(layer.below@),
                layer.below@.len() as int,
                depth + 1,
                (most - 1) as nat,
            );
            assert forall|i: int| 1 <= i < all.len() implies (#[trigger] all[i]).depth > depth by {
                assert(all[i] == rest[i - 1]);
            }
        }
    }
}

proof fn lemma_depths_all(
    context: &Context,
    names: Seq<Seq<char>>,
    count: int,
    depth: nat,
    most: nat,
)
    ensures
        forall|i: int|
            0 <= i < depths_all(context, names, count, depth, most).len() ==> (#[trigger] depths_all(
                context,
                names,
                count,
                depth,
                most,
            )[i]).depth >= depth,
    decreases most, count,
{
    if count > 0 {
        lemma_depths_all(context, names, count - 1, depth, most);
        lemma_depths(context, names[count - 1], depth, most);
        let before = depths_all(context, names, count - 1, depth, most);
        let added = depths(context, names[count - 1], depth, most);
        assert forall|i: int| 0 <= i < (before + added).len() implies (#[trigger] (before
            + added)[i]).depth >= depth by {
            if i >= before.len() {
                assert((before + added)[i] == added[i - before.len()]);
            }
        }
    }
}

/// The kernel's own layer comes first, and every other one stands below it.
pub proof fn law_the_kernels_layer_comes_first(context: &Context, layer: usize)
    ensures
        layer_list(context, layer).len() > 0,
        layer_list(context, layer)[0] == (DepthView {
            depth: 0,
            name: context.layers@[layer as int].name@,
        }),
        forall|i: int|
            1 <= i < layer_list(context, layer).len() ==> (#[trigger] layer_list(
                context,
                layer,
            )[i]).depth > 0,
{
    lemma_depths(context, context.layers@[layer as int].name@, 0, context.layers@.len());
}

/// Every layer beneath one, with how far below it is.
pub fn layer_depths(context: &Context, layer: usize) -> (found: Vec<LayerDepth>)
    requires
        layer < context.layers@.len(),
    ensures
        depth_views(found@) == layer_list(context, layer),
{
    let mut found: Vec<LayerDepth> = Vec::new();
    add_depths(context, &context.layers[layer].name, 0, context.layers.len(), &mut found);
    assert(depth_views(found@) =~= layer_list(context, layer));
    found
}

/// A row for each of the first of some layers, if all of them are there.
pub open spec fn layer_rows(context: &Context, list: Seq<DepthView>, count: int) -> Option<
    Seq<Seq<Cell>>,
>
    decreases count,
{
    if count <= 0 {
        Some(Seq::empty())
    } else {
        match (
            layer_rows(context, list, count - 1),
            context::named(context.layers@, list[count - 1].name),
        ) {
            (Some(before), Some(layer)) => Some(
                before.push(
                    named_row(
                        list[count - 1].name,
                        Cell::Text(
                            text::decimal_text(list[count - 1].depth as int) + seq![' ']
                                + layer.kind@,
                        ),
                    ),
                ),
            ),
            _ => None,
        }
    }
}

proof fn lemma_layer_missing(context: &Context, list: Seq<DepthView>, count: int, total: int)
    requires
        layer_rows(context, list, count) is None,
        count <= total,
    ensures
        layer_rows(context, list, total) is None,
    decreases total - count,
{
    if count < total {
        lemma_layer_missing(context, list, count + 1, total);
    }
}

#[verifier::loop_isolation(false)]
fn add_layer_rows(context: &Context, layer: usize, rows: &mut Vec<Row>) -> (all: bool)
    requires
        layer < context.layers@.len(),
    ensures
        match layer_rows(
            context,
            layer_list(context, layer),
            layer_list(context, layer).len() as int,
        ) {
            Some(more) => all && renderers::row_views(final(rows)@) == renderers::row_views(
                old(rows)@,
            ) + more,
            None => !all,
        },
{
    let ghost start = renderers::row_views(rows@);
    let list = layer_depths(context, layer);
    let ghost said = layer_list(context, layer);
    assert(start =~= start + Seq::<Seq<Cell>>::empty());
    for i in 0..list.len()
        invariant
            layer_rows(context, said, i as int) is Some,
            renderers::row_views(rows@) == start + layer_rows(context, said, i as int)->0,
    {
        proof {
            context::lemma_named_from(context.layers@, list@[i as int].name@, 0);
        }
        assert(said[i as int].name == list@[i as int].name@);
        match find_named(&context.layers, &list[i].name) {
            Some(at) => {
                let ghost before = layer_rows(context, said, i as int)->0;
                let mut text = decimal(list[i].depth as u64);
                text.push(' ');
                text.append(&context.layers[at].kind);
                assert(text@ =~= text::decimal_text(said[i as int].depth as int) + seq![' ']
                    + context.layers@[at as int].kind@);
                let ghost row = named_row(list@[i as int].name@, Cell::Text(text@));
                add_named(rows, &list[i].name, Value::String(text));
                assert(renderers::row_views(rows@) =~= start + before.push(row));
            },
            None => {
                proof {
                    lemma_layer_missing(context, said, i + 1, said.len() as int);
                }
                return false;
            },
        }
    }
    true
}

/// The debugger data block, if this kernel carries one that reads. The block names
/// itself. Anything else means it was not really there.
pub open spec fn spec_debugger_data_block(context: &Context, kernel: &Module) -> Option<Object> {
    match context.typed_symbol(kernel, "KdDebuggerDataBlock", "_KDDEBUGGER_DATA64") {
        Some(block) => match context.member(block, "Header") {
            Some(header) => match context.member_u64(header, "OwnerTag") {
                Some(tag) => if tag == BLOCK_TAG {
                    Some(block)
                } else {
                    None
                },
                None => None,
            },
            None => None,
        },
        None => None,
    }
}

/// The debugger data block, if this kernel carries one that reads.
#[verifier::when_used_as_spec(spec_debugger_data_block)]
pub fn debugger_data_block(context: &Context, kernel: &Module) -> (block: Option<Object>)
    ensures
        block == spec_debugger_data_block(context, kernel),
{
    match context.typed_symbol(kernel, "KdDebuggerDataBlock", "_KDDEBUGGER_DATA64") {
        Some(block) => match context.member(block, "Header") {
            Some(header) => match context.member_u64(header, "OwnerTag") {
                Some(tag) => if tag == BLOCK_TAG {
                    Some(block)
                } else {
                    None
                },
                None => None,
            },
            None => None,
        },
        None => None,
    }
}

/// A NUL-terminated string a structure points at.
pub open spec fn string_behind(context: &Context, object: Object, member: &str) -> Option<Seq<char>> {
    match context.member_pointer(object, member) {
        Some(address) => if address == 0 {
            None
        } else {
            match context.bytes_of(object.native, address, 128, true) {
                Some(bytes) => Some(text::utf8_lossy_text(context::before_zero(bytes))),
                None => None,
            }
        },
        None => None,
    }
}

/// A NUL-terminated string a structure points at.
pub fn read_string(context: &Context, object: Object, member: &str) -> (text: Option<String>)
    ensures
        text::maybe_text(text) == string_behind(context, object, member),
{
    match context.member_pointer(object, member) {
        Some(address) => if address == 0 {
            None
        } else {
            match context.read(object.native, address, 128, true) {
                Some(bytes) => Some(utf8_lossy(&cut_at_zero(&bytes))),
                None => None,
            }
        },
        None => None,
    }
}

/// What the debugger data block says, when this kernel still carries a readable
/// one.
pub open spec fn with_block(context: &Context, kernel: &Module, rows: Seq<Seq<Cell>>) -> Seq<
    Seq<Cell>,
> {
    match debugger_data_block(context, kernel) {
        Some(block) => {
            let named = rows.push(named_row("KdDebuggerDataBlock"@, Cell::hex(block.offset)));
            let built = match string_behind(context, block, "NtBuildLab") {
                Some(build) => named.push(named_row("NTBuildLab"@, Cell::Text(build))),
                None => named,
            };
            match context.member_u64(block, "CmNtCSDVersion") {
                Some(version) => built.push(
                    named_row("CSDVersion"@, Cell::Text(text::decimal_text(version as int))),
                ),
                None => built,
            }
        },
        None => rows,
    }
}

fn add_block(context: &Context, kernel: &Module, rows: &mut Vec<Row>)
    ensures
        renderers::row_views(final(rows)@) == with_block(
            context,
            kernel,
            renderers::row_views(old(rows)@),
        ),
{
    if let Some(block) = debugger_data_block(context, kernel) {
        add_named(rows, "KdDebuggerDataBlock", Value::hex(block.offset));
        if let Some(build) = read_string(context, block, "NtBuildLab") {
            add_named(rows, "NTBuildLab", Value::String(build));
        }
        if let Some(version) = context.member_u64(block, "CmNtCSDVersion") {
            add_named(rows, "CSDVersion", Value::String(decimal(version)));
        }
    }
}

/// What the version block and the count of processors say.
pub open spec fn with_version(context: &Context, kernel: &Module, rows: Seq<Seq<Cell>>) -> Option<
    Seq<Seq<Cell>>,
> {
    match context.typed_symbol(kernel, "KdVersionBlock", "_DBGKD_GET_VERSION64") {
        Some(version) => match (
            context.member_u64(version, "MajorVersion"),
            context.member_u64(version, "MinorVersion"),
            context.member_u64(version, "MachineType"),
            processors(context, kernel),
        ) {
            (Some(major), Some(minor), Some(machine), Some(count)) => Some(
                rows.push(named_row("KdVersionBlock"@, Cell::hex(version.offset))).push(
                    named_row(
                        "Major/Minor"@,
                        Cell::Text(
                            text::decimal_text(major as int) + seq!['.'] + text::decimal_text(
                                minor as int,
                            ),
                        ),
                    ),
                ).push(
                    named_row("MachineType"@, Cell::Text(text::decimal_text(machine as int))),
                ).push(
                    named_row("KeNumberProcessors"@, Cell::Text(text::decimal_text(count as int))),
                ),
            ),
            _ => None,
        },
        None => None,
    }
}

pub open spec fn spec_processors(context: &Context, kernel: &Module) -> Option<u64> {
    match context.typed_symbol(kernel, "KeNumberProcessors", "unsigned int") {
        Some(value) => context.as_u64(value),
        None => None,
    }
}

/// How many processors the machine has.
#[verifier::when_used_as_spec(spec_processors)]
pub fn processors(context: &Context, kernel: &Module) -> (count: Option<u64>)
    ensures
        count == spec_processors(context, kernel),
{
    match context.typed_symbol(kernel, "KeNumberProcessors", "unsigned int") {
        Some(value) => context.as_u64(value),
        None => None,
    }
}

fn add_version(context: &Context, kernel: &Module, rows: &mut Vec<Row>) -> (read: bool)
    ensures
        match with_version(context, kernel, renderers::row_views(old(rows)@)) {
            Some(more) => read && renderers::row_views(final(rows)@) == more,
            None => !read,
        },
{
    match context.typed_symbol(kernel, "KdVersionBlock", "_DBGKD_GET_VERSION64") {
        Some(version) => match (
            context.member_u64(version, "MajorVersion"),
            context.member_u64(version, "MinorVersion"),
            context.member_u64(version, "MachineType"),
            processors(context, kernel),
        ) {
            (Some(major), Some(minor), Some(machine), Some(count)) => {
                let mut text = decimal(major);
                text.push('.');
                text.append(&decimal(minor));
                assert(text@ =~= text::decimal_text(major as int) + seq!['.']
                    + text::decimal_text(minor as int));
                add_named(rows, "KdVersionBlock", Value::hex(version.offset));
                add_named(rows, "Major/Minor", Value::String(text));
                add_named(rows, "MachineType", Value::String(decimal(machine)));
                add_named(rows, "KeNumberProcessors", Value::String(decimal(count)));
                true
            },
            _ => false,
        },
        None => false,
    }
}

pub open spec fn spec_shared_user_data(context: &Context, kernel: &Module) -> Option<Object> {
    context.object(
        context.get_type(kernel.table, "_KUSER_SHARED_DATA"),
        kernel.layer,
        if context.pointer_size(kernel) == 4 {
            0xffdf_0000
        } else {
            0xffff_f780_0000_0000
        },
    )
}

/// The shared user data page, which every Windows kernel maps at a fixed
/// address.
#[verifier::when_used_as_spec(spec_shared_user_data)]
pub fn shared_user_data(context: &Context, kernel: &Module) -> (shared: Option<Object>)
    ensures
        shared == spec_shared_user_data(context, kernel),
{
    context.object(
        context.get_type(kernel.table, "_KUSER_SHARED_DATA"),
        kernel.layer,
        if context.pointer_size(kernel) == 4 {
            0xffdf_0000
        } else {
            0xffff_f780_0000_0000
        },
    )
}

/// The system time the shared page records. The value is written in two halves
/// and read back the same way.
pub open spec fn system_time(context: &Context, shared: Object) -> Option<Seq<char>> {
    match context.member(shared, "SystemTime") {
        Some(time) => match (
            context.member_u64(time, "LowPart"),
            context.member_u64(time, "High1Time"),
        ) {
            (Some(low), Some(high)) => match time::wintime_moment((high << 32u64) | low) {
                Some(moment) => time::calendar_text(moment.seconds, "%Y-%m-%d %H:%M:%S%:z"@),
                None => None,
            },
            _ => None,
        },
        None => None,
    }
}

/// The system time the shared page records.
pub fn shared_system_time(context: &Context, shared: Object) -> (time: Option<String>)
    ensures
        text::maybe_text(time) == system_time(context, shared),
{
    match context.member(shared, "SystemTime") {
        Some(time) => match (
            context.member_u64(time, "LowPart"),
            context.member_u64(time, "High1Time"),
        ) {
            (Some(low), Some(high)) => match wintime_to_datetime((high << 32u64) | low) {
                Some(moment) => format_time(moment.seconds, "%Y-%m-%d %H:%M:%S%:z"),
                None => None,
            },
            _ => None,
        },
        None => None,
    }
}

/// The Windows directory, as the shared page records it.
pub open spec fn root_text(context: &Context, shared: Object) -> Seq<char> {
    match context.member(shared, "NtSystemRoot") {
        Some(field) => match context.bytes_of(shared.layer, field.offset, 520, true) {
            Some(bytes) => text::before_nul(text::utf16_text(text::units(bytes))),
            None => Seq::empty(),
        },
        None => Seq::empty(),
    }
}

/// The Windows directory, as the shared page records it.
pub fn system_root(context: &Context, shared: Object) -> (root: String)
    ensures
        root@ == root_text(context, shared),
{
    match context.member(shared, "NtSystemRoot") {
        Some(field) => match context.read(shared.layer, field.offset, 520, true) {
            Some(bytes) => cut_at_nul(&utf16(units_of(bytes.as_slice()).as_slice())),
            None => String::new(),
        },
        None => String::new(),
    }
}

/// Which edition of Windows this is.
pub open spec fn edition(context: &Context, shared: Object) -> Seq<char> {
    match context.member(shared, "NtProductType") {
        Some(field) => match context.choice_of(field) {
            Some(name) => name,
            None => Seq::empty(),
        },
        None => Seq::empty(),
    }
}

/// Which edition of Windows this is.
pub fn product_type(context: &Context, shared: Object) -> (name: String)
    ensures
        name@ == edition(context, shared),
{
    match context.member(shared, "NtProductType") {
        Some(field) => match context.enum_name(field) {
            Some(name) => name,
            None => String::new(),
        },
        None => String::new(),
    }
}

/// A number of the shared page, as text.
pub open spec fn shared_number(context: &Context, shared: Object, name: &str) -> Cell {
    match context.member_u64(shared, name) {
        Some(value) => Cell::Text(text::decimal_text(value as int)),
        None => Cell::not_available(),
    }
}

fn read_shared_number(context: &Context, shared: Object, name: &str) -> (value: Value)
    ensures
        value@ == shared_number(context, shared, name),
{
    match context.member_u64(shared, name) {
        Some(value) => Value::String(decimal(value)),
        None => Value::not_available(),
    }
}

/// What the shared page says.
pub open spec fn with_shared(context: &Context, shared: Object, rows: Seq<Seq<Cell>>) -> Seq<
    Seq<Cell>,
> {
    rows.push(
        named_row(
            "SystemTime"@,
            match system_time(context, shared) {
                Some(time) => Cell::Text(time),
                None => Cell::not_available(),
            },
        ),
    ).push(named_row("NtSystemRoot"@, Cell::Text(root_text(context, shared)))).push(
        named_row("NtProductType"@, Cell::Text(edition(context, shared))),
    ).push(named_row("NtMajorVersion"@, shared_number(context, shared, "NtMajorVersion"))).push(
        named_row("NtMinorVersion"@, shared_number(context, shared, "NtMinorVersion")),
    )
}

fn add_shared(context: &Context, shared: Object, rows: &mut Vec<Row>)
    ensures
        renderers::row_views(final(rows)@) == with_shared(
            context,
            shared,
            renderers::row_views(old(rows)@),
        ),
{
    let time = match shared_system_time(context, shared) {
        Some(time) => Value::String(time),
        None => Value::not_available(),
    };
    add_named(rows, "SystemTime", time);
    add_named(rows, "NtSystemRoot", Value::String(system_root(context, shared)));
    add_named(rows, "NtProductType", Value::String(product_type(context, shared)));
    add_named(rows, "NtMajorVersion", read_shared_number(context, shared, "NtMajorVersion"));
    add_named(rows, "NtMinorVersion", read_shared_number(context, shared, "NtMinorVersion"));
}

/// What the kernel's own PE headers say it was built for. The time is spelled the
/// way C's asctime does.
pub open spec fn with_headers(context: &Context, kernel: &Module, rows: Seq<Seq<Cell>>) -> Seq<
    Seq<Cell>,
> {
    match context.pe_of(kernel.layer, kernel.offset) {
        Some(header) => match time::calendar_text(
            header.time_date_stamp as i64,
            "%a %b %e %H:%M:%S %Y"@,
        ) {
            Some(built) => rows.push(
                named_row(
                    "PE MajorOperatingSystemVersion"@,
                    Cell::Text(
                        text::decimal_text(header.major_operating_system_version as int),
                    ),
                ),
            ).push(
                named_row(
                    "PE MinorOperatingSystemVersion"@,
                    Cell::Text(
                        text::decimal_text(header.minor_operating_system_version as int),
                    ),
                ),
            ).push(
                named_row(
                    "PE Machine"@,
                    Cell::Text(text::decimal_text(header.machine_value as int)),
                ),
            ).push(named_row("PE TimeDateStamp"@, Cell::Text(built))),
            None => rows,
        },
        None => rows,
    }
}

/// What the kernel's own PE headers say it was built for.
pub fn pe_headers(context: &Context, kernel: &Module, rows: &mut Vec<Row>)
    ensures
        renderers::row_views(final(rows)@) == with_headers(
            context,
            kernel,
            renderers::row_views(old(rows)@),
        ),
{
    if let Some(header) = context.pe_image(kernel.layer, kernel.offset) {
        if let Some(built) = format_time(header.time_date_stamp as i64, "%a %b %e %H:%M:%S %Y") {
            add_named(
                rows,
                "PE MajorOperatingSystemVersion",
                Value::String(decimal(header.major_operating_system_version as u64)),
            );
            add_named(
                rows,
                "PE MinorOperatingSystemVersion",
                Value::String(decimal(header.minor_operating_system_version as u64)),
            );
            add_named(rows, "PE Machine", Value::String(decimal(header.machine_value as u64)));
            add_named(rows, "PE TimeDateStamp", Value::String(built));
        }
    }
}

/// Everything that is known, in order, where what must be readable is.
pub open spec fn known_rows(context: &Context, kernel: &Module) -> Option<Seq<Seq<Cell>>> {
    if kernel.layer >= context.layers@.len() || kernel.table >= context.tables@.len() {
        None
    } else {
        match layer_rows(
            context,
            layer_list(context, kernel.layer),
            layer_list(context, kernel.layer).len() as int,
        ) {
            Some(layers) => match with_version(
                context,
                kernel,
                with_block(context, kernel, kernel_rows(context, kernel) + layers),
            ) {
                Some(rows) => match shared_user_data(context, kernel) {
                    Some(shared) => Some(
                        with_headers(context, kernel, with_shared(context, shared, rows)),
                    ),
                    None => None,
                },
                None => None,
            },
            None => None,
        }
    }
}

fn collect_rows(context: &Context, kernel: &Module) -> (rows: Option<Vec<Row>>)
    ensures
        match rows {
            Some(rows) => known_rows(context, kernel) == Some(renderers::row_views(rows@)),
            None => known_rows(context, kernel) is None,
        },
{
    if kernel.layer >= context.layers.len() || kernel.table >= context.tables.len() {
        return None;
    }
    let mut rows: Vec<Row> = Vec::new();
    add_kernel_rows(context, kernel, &mut rows);
    if !add_layer_rows(context, kernel.layer, &mut rows) {
        return None;
    }
    add_block(context, kernel, &mut rows);
    if !add_version(context, kernel, &mut rows) {
        return None;
    }
    match shared_user_data(context, kernel) {
        Some(shared) => {
            add_shared(context, shared, &mut rows);
        },
        None => return None,
    }
    pe_headers(context, kernel, &mut rows);
    Some(rows)
}

impl Plugin for Info {
    open spec fn named(&self) -> Seq<char> {
        "windows.info.Info"@
    }

    open spec fn described(&self) -> Seq<char> {
        "Show OS & kernel details of the memory sample being analyzed."@
    }

    open spec fn needs(&self) -> Seq<RequirementView> {
        seq![RequirementView::kernel()]
    }

    open spec fn headings(&self) -> Seq<Column> {
        seq![Column::string("Variable"), Column::string("Value")]
    }

    open spec fn system(&self) -> OperatingSystem {
        OperatingSystem::Windows
    }

    open spec fn report(&self, context: &Context, config: &Configuration) -> Result<Table, Failure> {
        match plugins::windows::kernel_of(context, config) {
            Some(kernel) => match known_rows(context, &kernel) {
                Some(rows) => Ok(Table::empty(self.headings()).push_all(rows)),
                None => Err(Failure::Unavailable),
            },
            None => Err(plugins::windows::no_kernel()),
        }
    }

    fn name(&self) -> (name: &'static str) {
        "windows.info.Info"
    }

    fn description(&self) -> (description: &'static str) {
        "Show OS & kernel details of the memory sample being analyzed."
    }

    fn requirements(&self) -> (requirements: Vec<Requirement>) {
        vec![Requirement::kernel()]
    }

    fn operating_system(&self) -> (system: OperatingSystem) {
        OperatingSystem::Windows
    }

    fn columns(&self) -> (columns: Vec<Column>) {
        vec![Column::string("Variable"), Column::string("Value")]
    }

    fn epilog(&self) -> (epilog: Option<&'static str>) {
        None
    }

    fn timeline(&self, context: &Context, config: &Configuration) -> (timeline: Option<
        plugins::Timeline,
    >) {
        None
    }

    fn needs_kernel(&self) -> (needed: bool) {
        false
    }

    fn run(&self, context: &Context, config: &Configuration) -> (result: Result<TreeGrid, VolatilityError>) {
        let kernel = kernel_module(context, config)?;
        match collect_rows(context, kernel) {
            Some(rows) => {
                let mut grid = TreeGrid::new(self.columns());
                grid.push_all(rows);
                Ok(grid)
            },
            None => Err(VolatilityError::Unavailable),
        }
    }
}

} // verus!
