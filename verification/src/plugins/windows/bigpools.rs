//! List the kernel's allocations that are too large for its pools.
//!
//! The kernel keeps a table of them, with the tag each was made under, so they
//! are listed rather than searched for.

use crate::config::{ConfigValue, Configuration};
use crate::context::{Choice, Context, Module, Object, Shape, TypeId};
use crate::error::{Failure, VolatilityError};
use crate::plugins::{
    self, ConfigView, KindView, OperatingSystem, Plugin, Requirement, RequirementKind,
    RequirementView,
};
use crate::plugins::windows::kernel_module;
use crate::renderers::{Cell, Column, ColumnType, Row, Table, TreeGrid, Value};
use crate::text::{self, comes_before, decimal, is_listed, split};
use vstd::prelude::*;

verus! {

/// Lists the kernel's allocations that are too large for its pools.
pub struct BigPools;

/// A table larger than this means its size was misread.
pub const MOST_ENTRIES: u64 = 0x100000;

/// One allocation from the kernel's big pool table.
#[derive(Debug)]
pub struct BigPoolAllocation {
    /// Where the allocation begins, as the table records it.
    pub address: u64,
    /// The four characters the allocator was tagged with.
    pub tag: String,
    /// Whether the slot has been freed.
    pub free: bool,
    /// The table entry itself, for callers that want the rest of it.
    pub entry: Object,
}

/// What is said of an allocation.
#[verifier::ext_equal]
pub struct AllocationView {
    pub address: u64,
    pub tag: Seq<char>,
    pub free: bool,
    pub entry: Object,
}

impl View for BigPoolAllocation {
    type V = AllocationView;

    open spec fn view(&self) -> AllocationView {
        AllocationView {
            address: self.address,
            tag: self.tag@,
            free: self.free,
            entry: self.entry,
        }
    }
}

/// What is said of each of some allocations.
pub open spec fn allocation_views(list: Seq<BigPoolAllocation>) -> Seq<AllocationView> {
    Seq::new(list.len(), |i: int| list[i]@)
}

/// A byte of a number, counted from the lowest.
#[verifier::allow_in_spec]
pub fn byte_of(key: u64, index: u64) -> (byte: u8)
    requires
        index < 8,
    returns
        ((key >> (8 * index) as u64) & 0xff) as u8,
{
    ((key >> (8 * index)) & 0xff) as u8
}

/// The printable characters among the first bytes of a tag. The tag is four
/// characters packed into a word. A byte that is not printable is dropped rather
/// than stood in for, so a three-letter tag reads as three letters.
pub open spec fn tag_text(key: u64, count: int) -> Seq<char>
    decreases count,
{
    if count <= 0 {
        Seq::empty()
    } else {
        let byte = byte_of(key, (count - 1) as u64);
        if 0x21 <= byte <= 0x7e {
            tag_text(key, count - 1).push(byte as char)
        } else {
            tag_text(key, count - 1)
        }
    }
}

/// The characters of a tag.
pub fn read_tag(key: u64) -> (tag: String)
    ensures
        tag@ == tag_text(key, 4),
{
    let mut tag = String::new();
    for i in 0..4u64
        invariant
            tag@ == tag_text(key, i as int),
    {
        let byte: u8 = byte_of(key, i);
        if 0x21 <= byte && byte <= 0x7e {
            tag.push(byte as char);
        }
    }
    tag
}

/// Whether a tag is among those that are wanted.
pub open spec fn is_wanted(tags: Option<Seq<Seq<char>>>, tag: Seq<char>) -> bool {
    tags is Some ==> tags->0.contains(tag)
}

/// The tags that are wanted.
pub open spec fn wanted_view(tags: Option<Vec<String>>) -> Option<Seq<Seq<char>>> {
    match tags {
        Some(tags) => Some(text::texts(tags@)),
        None => None,
    }
}

fn wants(tags: &Option<Vec<String>>, tag: &str) -> (wanted: bool)
    ensures
        wanted == is_wanted(wanted_view(*tags), tag@),
{
    match tags {
        Some(tags) => is_listed(tags, tag),
        None => true,
    }
}

/// The allocation that an entry of the table records, if it is one to list.
///
/// An entry with no key is a slot that has never been used. The low bit of the
/// address marks a free slot. It is part of the address as the table records it,
/// and is reported as such. Only whether the slot is free is read from it.
pub open spec fn allocation_of(
    context: &Context,
    entry: Object,
    tags: Option<Seq<Seq<char>>>,
    show_free: bool,
) -> Option<AllocationView> {
    match (context.member_u64(entry, "Key"), context.member_u64(entry, "Va")) {
        (Some(key), Some(address)) => if key == 0 || address & 0xffff_ffff_ffff_fffeu64 == 0 || (
        address & 1 != 0 && !show_free) || !is_wanted(tags, tag_text(key, 4)) {
            None
        } else {
            Some(
                AllocationView {
                    address,
                    tag: tag_text(key, 4),
                    free: address & 1 != 0,
                    entry,
                },
            )
        },
        _ => None,
    }
}

fn read_allocation(context: &Context, entry: Object, tags: &Option<Vec<String>>, show_free: bool) -> (
    allocation: Option<BigPoolAllocation>)
    ensures
        match allocation {
            Some(allocation) => allocation_of(context, entry, wanted_view(*tags), show_free)
                == Some(allocation@),
            None => allocation_of(context, entry, wanted_view(*tags), show_free) is None,
        },
{
    match (context.member_u64(entry, "Key"), context.member_u64(entry, "Va")) {
        (Some(key), Some(address)) => {
            let free = address & 1 != 0;
            let tag = read_tag(key);
            if key == 0 || address & 0xffff_ffff_ffff_fffeu64 == 0 || (free && !show_free)
                || !wants(tags, &tag) {
                None
            } else {
                Some(BigPoolAllocation { address, tag, free, entry })
            }
        },
        _ => None,
    }
}

/// The allocations that the first entries of a table record.
pub open spec fn allocations(
    context: &Context,
    kind: TypeId,
    size: u64,
    layer: usize,
    table: u64,
    tags: Option<Seq<Seq<char>>>,
    show_free: bool,
    count: nat,
) -> Seq<AllocationView>
    decreases count,
{
    if count == 0 {
        Seq::empty()
    } else {
        let before = allocations(
            context,
            kind,
            size,
            layer,
            table,
            tags,
            show_free,
            (count - 1) as nat,
        );
        let entry = Object {
            kind,
            layer,
            native: layer,
            offset: table.wrapping_add(((count - 1) as u64).wrapping_mul(size)),
        };
        match allocation_of(context, entry, tags, show_free) {
            Some(allocation) => before.push(allocation),
            None => before,
        }
    }
}

/// A slot that is free is listed only where free ones are asked for, and every tag
/// that is listed is one of those that are wanted.
pub proof fn law_only_what_is_wanted_is_listed(
    context: &Context,
    kind: TypeId,
    size: u64,
    layer: usize,
    table: u64,
    tags: Option<Seq<Seq<char>>>,
    show_free: bool,
    count: nat,
    i: int,
)
    requires
        0 <= i < allocations(context, kind, size, layer, table, tags, show_free, count).len(),
    ensures
        ({
            let listed = allocations(context, kind, size, layer, table, tags, show_free, count)[i];
            (listed.free ==> show_free) && is_wanted(tags, listed.tag)
        }),
    decreases count,
{
    if count > 0 {
        let before = (count - 1) as nat;
        if i < allocations(context, kind, size, layer, table, tags, show_free, before).len() {
            law_only_what_is_wanted_is_listed(
                context,
                kind,
                size,
                layer,
                table,
                tags,
                show_free,
                before,
                i,
            );
        }
    }
}

/// Where the table stands and how many entries it has. The two are held in
/// separate symbols.
pub open spec fn big_page_table(context: &Context, kernel: &Module) -> Option<(u64, u64)> {
    match context.typed_symbol(kernel, "PoolBigPageTable", "pointer") {
        Some(pointer) => match context.pointer_value(pointer) {
            Some(address) => Some(
                (
                    address,
                    match context.typed_symbol(
                        kernel,
                        "PoolBigPageTableSize",
                        "unsigned long long",
                    ) {
                        Some(value) => match context.as_u64(value) {
                            Some(size) => size,
                            None => 0,
                        },
                        None => 0,
                    },
                ),
            ),
            None => None,
        },
        None => None,
    }
}

fn find_table(context: &Context, kernel: &Module) -> (table: Option<(u64, u64)>)
    ensures
        table == big_page_table(context, kernel),
{
    match context.typed_symbol(kernel, "PoolBigPageTable", "pointer") {
        Some(pointer) => match context.pointer_value(pointer) {
            Some(address) => {
                let size: u64 = match context.typed_symbol(
                    kernel,
                    "PoolBigPageTableSize",
                    "unsigned long long",
                ) {
                    Some(value) => match context.as_u64(value) {
                        Some(size) => size,
                        None => 0,
                    },
                    None => 0,
                };
                Some((address, size))
            },
            None => None,
        },
        None => None,
    }
}

/// The kernel's table of allocations too large for the pools.
pub open spec fn big_pools(
    context: &Context,
    kernel: &Module,
    tags: Option<Seq<Seq<char>>>,
    show_free: bool,
) -> Option<Seq<AllocationView>> {
    match big_page_table(context, kernel) {
        Some((table, size)) => if table == 0 || size == 0 {
            Some(Seq::empty())
        } else {
            match context.get_type(kernel.table, "_POOL_TRACKER_BIG_PAGES") {
                Some(kind) => match context.size_of(kind) {
                    Some(entry_size) => Some(
                        allocations(
                            context,
                            kind,
                            entry_size,
                            kernel.layer,
                            table,
                            tags,
                            show_free,
                            (if size > MOST_ENTRIES {
                                MOST_ENTRIES
                            } else {
                                size
                            }) as nat,
                        ),
                    ),
                    None => None,
                },
                None => None,
            }
        },
        None => None,
    }
}

/// The kernel's table of allocations too large for the pools.
///
/// Several plugins look for their own structures here rather than scanning,
/// because an allocation of this size is recorded rather than searched for.
pub fn list_big_pools(
    context: &Context,
    kernel: &Module,
    tags: &Option<Vec<String>>,
    show_free: bool,
) -> (found: Result<Vec<BigPoolAllocation>, VolatilityError>)
    ensures
        match found {
            Ok(list) => big_pools(context, kernel, wanted_view(*tags), show_free) == Some(
                allocation_views(list@),
            ),
            Err(error) => big_pools(context, kernel, wanted_view(*tags), show_free) is None
                && error@ == Failure::Unavailable,
        },
{
    let mut results: Vec<BigPoolAllocation> = Vec::new();
    assert(allocation_views(results@) =~= Seq::<AllocationView>::empty());
    let (table, size) = match find_table(context, kernel) {
        Some(found) => found,
        None => return Err(VolatilityError::Unavailable),
    };
    if table == 0 || size == 0 {
        return Ok(results);
    }
    let kind = match context.get_type(kernel.table, "_POOL_TRACKER_BIG_PAGES") {
        Some(kind) => kind,
        None => return Err(VolatilityError::Unavailable),
    };
    let entry_size: u64 = match context.size_of(kind) {
        Some(entry_size) => entry_size,
        None => return Err(VolatilityError::Unavailable),
    };
    let count: u64 = if size > MOST_ENTRIES {
        MOST_ENTRIES
    } else {
        size
    };
    let ghost wanted = wanted_view(*tags);
    for index in 0..count
        invariant
            wanted == wanted_view(*tags),
            allocation_views(results@) == allocations(
                context,
                kind,
                entry_size,
                kernel.layer,
                table,
                wanted,
                show_free,
                index as nat,
            ),
    {
        let entry = Object {
            kind,
            layer: kernel.layer,
            native: kernel.layer,
            offset: table.wrapping_add(index.wrapping_mul(entry_size)),
        };
        let ghost before = allocation_views(results@);
        if let Some(allocation) = read_allocation(context, entry, tags, show_free) {
            let ghost said = allocation@;
            results.push(allocation);
            assert(allocation_views(results@) =~= before.push(said));
        }
    }
    Ok(results)
}

/// The first name in order that the first of some choices have for a value.
pub open spec fn least_name(choices: Seq<Choice>, value: u64, count: int) -> Option<Seq<char>>
    decreases count,
{
    if count <= 0 {
        None
    } else {
        let before = least_name(choices, value, count - 1);
        if choices[count - 1].value as u64 == value {
            match before {
                Some(name) => if text::precedes(choices[count - 1].name@, name) {
                    Some(choices[count - 1].name@)
                } else {
                    before
                },
                None => Some(choices[count - 1].name@),
            }
        } else {
            before
        }
    }
}

fn find_least_name(choices: &Vec<Choice>, value: u64) -> (name: Option<String>)
    ensures
        text::maybe_text(name) == least_name(choices@, value, choices@.len() as int),
{
    let mut least: Option<String> = None;
    for i in 0..choices.len()
        invariant
            text::maybe_text(least) == least_name(choices@, value, i as int),
    {
        if choices[i].value as u64 == value {
            let better = match &least {
                Some(name) => comes_before(&choices[i].name, name),
                None => true,
            };
            if better {
                least = Some(choices[i].name.clone());
            }
        }
    }
    least
}

/// What the kernel calls a pool type.
///
/// Several names share a value in the kernel's own enumeration, so the
/// alphabetically first of them is used.
pub open spec fn pool_type_text(context: &Context, kernel: &Module, value: u64) -> Seq<char> {
    let unknown = "Unknown choice "@ + text::decimal_text(value as int);
    match context.get_type(kernel.table, "_POOL_TYPE") {
        Some(kind) => match context.definition(kind) {
            Some(definition) => match definition.shape {
                Shape::Enumeration { size: _, choices } => match least_name(
                    choices@,
                    value,
                    choices@.len() as int,
                ) {
                    Some(name) => name,
                    None => unknown,
                },
                _ => unknown,
            },
            None => unknown,
        },
        None => unknown,
    }
}

/// What the kernel calls a pool type.
pub fn pool_type_name(context: &Context, kernel: &Module, value: u64) -> (name: String)
    ensures
        name@ == pool_type_text(context, kernel, value),
{
    if let Some(kind) = context.get_type(kernel.table, "_POOL_TYPE") {
        if let Some(definition) = context.define(kind) {
            if let Shape::Enumeration { size: _, choices } = &definition.shape {
                if let Some(name) = find_least_name(choices, value) {
                    return name;
                }
            }
        }
    }
    let mut name = "Unknown choice ".to_owned();
    name.append(&decimal(value));
    name
}

/// The row of an allocation.
pub open spec fn allocation_row(
    context: &Context,
    kernel: &Module,
    allocation: AllocationView,
) -> Seq<Cell> {
    seq![
        Cell::hex(allocation.address),
        Cell::Text(allocation.tag),
        match context.member_u64(allocation.entry, "PoolType") {
            Some(kind) => Cell::Text(pool_type_text(context, kernel, kind)),
            None => Cell::unreadable(),
        },
        Cell::hex_or_unreadable(context.member_u64(allocation.entry, "NumberOfBytes")),
        Cell::Text(
            if allocation.free {
                "Free"@
            } else {
                "Allocated"@
            },
        ),
    ]
}

fn make_row(context: &Context, kernel: &Module, allocation: &BigPoolAllocation) -> (row: Row)
    ensures
        row@ == allocation_row(context, kernel, allocation@),
{
    let kind = match context.member_u64(allocation.entry, "PoolType") {
        Some(kind) => Value::String(pool_type_name(context, kernel, kind)),
        None => Value::unreadable(),
    };
    Row::new().with(Value::hex(allocation.address)).with(Value::string(&allocation.tag)).with(
        kind,
    ).with(
        Value::hex_or_unreadable(context.member_u64(allocation.entry, "NumberOfBytes")),
    ).with(
        Value::string(
            if allocation.free {
                "Free"
            } else {
                "Allocated"
            },
        ),
    )
}

/// The report on the first of some allocations.
pub open spec fn reported(
    context: &Context,
    kernel: &Module,
    headings: Seq<Column>,
    list: Seq<AllocationView>,
    count: int,
) -> Table
    decreases count,
{
    if count <= 0 {
        Table::empty(headings)
    } else {
        reported(context, kernel, headings, list, count - 1).push(
            0,
            allocation_row(context, kernel, list[count - 1]),
        )
    }
}

/// The tags that a configuration asks for: the parts of one list that has commas
/// between them.
pub open spec fn asked_tags(config: &Configuration) -> Option<Seq<Seq<char>>> {
    match config.text_of("tags"@) {
        Some(tags) => if tags.len() == 0 {
            None
        } else {
            Some(text::pieces_from(tags, ',', 0))
        },
        None => None,
    }
}

fn read_tags(config: &Configuration) -> (tags: Option<Vec<String>>)
    ensures
        wanted_view(tags) == asked_tags(config),
{
    match config.get_string("tags") {
        Some(tags) => if tags.unicode_len() == 0 {
            None
        } else {
            Some(split(&tags, ','))
        },
        None => None,
    }
}

impl Plugin for BigPools {
    open spec fn named(&self) -> Seq<char> {
        "windows.bigpools.BigPools"@
    }

    open spec fn described(&self) -> Seq<char> {
        "List big page pools."@
    }

    open spec fn needs(&self) -> Seq<RequirementView> {
        seq![
            RequirementView::kernel(),
            RequirementView::new(
                "tags"@,
                "Comma separated list of pool tags to filter pools returned"@,
                KindView::String,
            ),
            RequirementView::new(
                "show-free"@,
                "Show freed regions (otherwise only show allocations in use)"@,
                KindView::Bool,
            )
            .with_default(ConfigView::Bool(false)),
        ]
    }

    open spec fn headings(&self) -> Seq<Column> {
        seq![
            Column::new("Allocation", ColumnType::UInt),
            Column::string("Tag"),
            Column::string("PoolType"),
            Column::new("NumberOfBytes", ColumnType::UInt),
            Column::string("Status"),
        ]
    }

    open spec fn system(&self) -> OperatingSystem {
        OperatingSystem::Windows
    }

    open spec fn report(&self, context: &Context, config: &Configuration) -> Result<Table, Failure> {
        match plugins::windows::kernel_of(context, config) {
            Some(kernel) => match big_pools(
                context,
                &kernel,
                asked_tags(config),
                config.flag("show-free"@),
            ) {
                Some(list) => Ok(
                    reported(context, &kernel, self.headings(), list, list.len() as int),
                ),
                None => Err(Failure::Unavailable),
            },
            None => Err(plugins::windows::no_kernel()),
        }
    }

    fn name(&self) -> (name: &'static str) {
        "windows.bigpools.BigPools"
    }

    fn description(&self) -> (description: &'static str) {
        "List big page pools."
    }

    fn requirements(&self) -> (requirements: Vec<Requirement>) {
        vec![
            Requirement::kernel(),
            Requirement::new(
                "tags",
                "Comma separated list of pool tags to filter pools returned",
                RequirementKind::String,
            ),
            Requirement::new(
                "show-free",
                "Show freed regions (otherwise only show allocations in use)",
                RequirementKind::Bool,
            )
            .with_default(ConfigValue::Bool(false)),
        ]
    }

    fn operating_system(&self) -> (system: OperatingSystem) {
        OperatingSystem::Windows
    }

    fn columns(&self) -> (columns: Vec<Column>) {
        vec![
            Column::new("Allocation", ColumnType::UInt),
            Column::string("Tag"),
            Column::string("PoolType"),
            Column::new("NumberOfBytes", ColumnType::UInt),
            Column::string("Status"),
        ]
    }

    fn epilog(&self) -> (epilog: Option<&'static str>) {
        None
    }

    fn timeline(&self, context: &Context, config: &Configuration) -> (timeline: Option<
        plugins::Timeline,
    >) {
        None
    }

    fn needs_kernel(&self) -> (needed: bool) {
        false
    }

    fn run(&self, context: &Context, config: &Configuration) -> (result: Result<TreeGrid, VolatilityError>) {
        let kernel = kernel_module(context, config)?;
        let wanted = read_tags(config);
        // Freed allocations are left out unless the caller asks for them.
        let show_free = config.is_set("show-free");
        let list = list_big_pools(context, kernel, &wanted, show_free)?;
        let mut grid = TreeGrid::new(self.columns());
        let ghost headings = self.headings();
        let ghost said = allocation_views(list@);
        for i in 0..list.len()
            invariant
                said == allocation_views(list@),
                grid@ == reported(context, kernel, headings, said, i as int),
        {
            grid.push(0, make_row(context, kernel, &list[i]));
        }
        Ok(grid)
    }
}

} // verus!
