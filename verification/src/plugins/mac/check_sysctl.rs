//! List the kernel's sysctl knobs and their handlers.
//!
//! These entries expose kernel state and let it be changed. A handler owned by no
//! loaded extension has been redirected, which lets an attacker intercept or
//! falsify what the system reports about itself.

use crate::config::Configuration;
use crate::context::{self, signed_word_of, Context, Module, Object, TypeId};
use crate::error::{Failure, VolatilityError};
use crate::lists::is_among;
use crate::plugins::{self, OperatingSystem, Plugin, Requirement, RequirementView};
use crate::plugins::mac::kernel_module;
use crate::renderers::{Cell, Column, ColumnType, Row, Table, TreeGrid, Value};
use crate::symbols;
use crate::symbols::mac::describe;
use crate::text::{self, same_text, signed_decimal};
use vstd::prelude::*;

verus! {

/// Lists the kernel's sysctl knobs and their handlers.
pub struct CheckSysctl;

/// Guard against a corrupt tree. The real set is a few thousand entries.
pub const MAX_ENTRIES: usize = 20_000;

/// How many lists can hang below each other, the topmost one counted. The tree is
/// only a few levels deep, and a longer chain means corruption.
pub const MAX_LEVELS: u8 = 9;

/// A knob, with its name and its value.
#[derive(Debug)]
pub struct Knob {
    pub entry: Object,
    pub name: String,
    pub value: String,
}

/// A knob as a report sees it.
pub ghost struct KnobView {
    pub entry: Object,
    pub name: Seq<char>,
    pub value: Seq<char>,
}

impl View for Knob {
    type V = KnobView;

    open spec fn view(&self) -> KnobView {
        KnobView { entry: self.entry, name: self.name@, value: self.value@ }
    }
}

/// Knobs as a report sees them.
pub open spec fn knob_views(knobs: Seq<Knob>) -> Seq<KnobView> {
    Seq::new(knobs.len(), |i: int| knobs[i]@)
}

/// The value of a knob that the kernel keeps in a variable of its own.
pub open spec fn global_text(context: &Context, kernel: &Module, name: Seq<char>) -> Seq<char> {
    let variable = if name == "hostname"@ {
        context.object_from_symbol(kernel, "hostname")
    } else if name == "nisdomainname"@ {
        context.object_from_symbol(kernel, "domainname")
    } else {
        None
    };
    match variable {
        Some(variable) => match context.string_of(variable) {
            Some(text) => text,
            None => ""@,
        },
        None => ""@,
    }
}

/// The value of a knob that the kernel keeps in a variable of its own.
pub fn global_value(context: &Context, kernel: &Module, name: &str) -> (value: String)
    ensures
        value@ == global_text(context, kernel, name@),
{
    let variable = if same_text(name, "hostname") {
        context.object_from_symbol(kernel, "hostname")
    } else if same_text(name, "nisdomainname") {
        context.object_from_symbol(kernel, "domainname")
    } else {
        None
    };
    match variable {
        Some(variable) => match context.as_string(variable) {
            Some(text) => text,
            None => "".to_owned(),
        },
        None => "".to_owned(),
    }
}

pub open spec fn spec_kind_of(context: &Context, entry: Object) -> u64 {
    match context.member_u64(entry, "oid_kind") {
        Some(kind) => kind,
        None => 0,
    }
}

/// What an entry is: the kind of value it holds and who may use it.
#[verifier::when_used_as_spec(spec_kind_of)]
pub fn kind_of(context: &Context, entry: Object) -> (kind: u64)
    ensures
        kind == spec_kind_of(context, entry),
{
    match context.member_u64(entry, "oid_kind") {
        Some(kind) => kind,
        None => 0,
    }
}

pub open spec fn spec_pointer_or_zero(context: &Context, entry: Object, name: &str) -> u64 {
    match context.member_pointer(entry, name) {
        Some(address) => address,
        None => 0,
    }
}

/// The address that a member holds, or zero.
#[verifier::when_used_as_spec(spec_pointer_or_zero)]
pub fn pointer_or_zero(context: &Context, entry: Object, name: &str) -> (address: u64)
    ensures
        address == spec_pointer_or_zero(context, entry, name),
{
    match context.member_pointer(entry, name) {
        Some(address) => address,
        None => 0,
    }
}

pub open spec fn spec_following(context: &Context, entry: Object) -> Option<u64> {
    match context.member(entry, "oid_link") {
        Some(link) => context.member_pointer(link, "sle_next"),
        None => None,
    }
}

/// The entry behind an entry.
#[verifier::when_used_as_spec(spec_following)]
pub fn following(context: &Context, entry: Object) -> (next: Option<u64>)
    ensures
        next == spec_following(context, entry),
{
    match context.member(entry, "oid_link") {
        Some(link) => context.member_pointer(link, "sle_next"),
        None => None,
    }
}

/// An entry's access flags. The top two bits carry read and write permission, and
/// the third position marks an entry the kernel locks against concurrent access.
pub open spec fn permission_text(kind: u64) -> Seq<char> {
    seq![
        if kind & 0x8000_0000 != 0 {
            'R'
        } else {
            '-'
        },
        if kind & 0x4000_0000 != 0 {
            'W'
        } else {
            '-'
        },
        if kind & 0x0080_0000 != 0 {
            'L'
        } else {
            '-'
        },
    ]
}

/// Render an entry's access flags.
pub fn permissions(kind: u64) -> (text: String)
    ensures
        text@ == permission_text(kind),
{
    let mut text = String::new();
    text.push(
        if kind & 0x8000_0000 != 0 {
            'R'
        } else {
            '-'
        },
    );
    text.push(
        if kind & 0x4000_0000 != 0 {
            'W'
        } else {
            '-'
        },
    );
    text.push(
        if kind & 0x0080_0000 != 0 {
            'L'
        } else {
            '-'
        },
    );
    assert(text@ =~= permission_text(kind));
    text
}

/// An entry's name, or nothing.
pub open spec fn name_of(context: &Context, entry: Object) -> Seq<char> {
    match context.member(entry, "oid_name") {
        Some(name) => match context.pointed_text(name, 128) {
            Some(text) => text,
            None => ""@,
        },
        None => ""@,
    }
}

fn read_name(context: &Context, entry: Object) -> (name: String)
    ensures
        name@ == name_of(context, entry),
{
    match context.member(entry, "oid_name") {
        Some(name) => match context.pointer_to_string(name, 128) {
            Some(text) => text,
            None => "".to_owned(),
        },
        None => "".to_owned(),
    }
}

/// An entry's value. One with nowhere to read from is one of the few the kernel
/// keeps in a variable of its own, and a node holds the list below it rather than
/// a value.
pub open spec fn value_text(context: &Context, kernel: &Module, entry: Object) -> Seq<char> {
    let argument = pointer_or_zero(context, entry, "oid_arg1");
    let kind = kind_of(context, entry) & 0xf;
    if argument == 0 {
        global_text(context, kernel, name_of(context, entry))
    } else if kind == 1 {
        "Node"@
    } else if kind == 2 || kind == 4 || kind == 5 {
        match context.number_at(kernel.layer, argument, 4) {
            Some(number) => text::decimal_text(context::signed_word(number, 4) as int),
            None => "-1"@,
        }
    } else if kind == 3 {
        match context.member(entry, "oid_arg1") {
            Some(argument) => match context.pointed_text(argument, 64) {
                Some(text) => text,
                None => ""@,
            },
            None => ""@,
        }
    } else {
        ""@
    }
}

fn read_value(context: &Context, kernel: &Module, entry: Object) -> (value: String)
    ensures
        value@ == value_text(context, kernel, entry),
{
    let argument: u64 = pointer_or_zero(context, entry, "oid_arg1");
    let kind: u64 = kind_of(context, entry) & 0xf;
    if argument == 0 {
        global_value(context, kernel, &read_name(context, entry))
    } else if kind == 1 {
        "Node".to_owned()
    } else if kind == 2 || kind == 4 || kind == 5 {
        match context.number_at(kernel.layer, argument, 4) {
            Some(number) => signed_decimal(signed_word_of(number, 4)),
            None => "-1".to_owned(),
        }
    } else if kind == 3 {
        match context.member(entry, "oid_arg1") {
            Some(argument) => match context.pointer_to_string(argument, 64) {
                Some(text) => text,
                None => "".to_owned(),
            },
            None => "".to_owned(),
        }
    } else {
        "".to_owned()
    }
}

pub open spec fn spec_children_of(context: &Context, kernel: &Module, entry: Object) -> Option<Object> {
    if pointer_or_zero(context, entry, "oid_arg1") != 0 && kind_of(context, entry) & 0xf == 1
        && pointer_or_zero(context, entry, "oid_handler") == 0 {
        match context.member_target(entry, "oid_arg1") {
            Some(list) => context.cast(
                list,
                context.get_type(kernel.table, "sysctl_oid_list"),
            ),
            None => None,
        }
    } else {
        None
    }
}

/// The list below an entry. Only a node without a handler of its own has one.
#[verifier::when_used_as_spec(spec_children_of)]
pub fn children_of(context: &Context, kernel: &Module, entry: Object) -> (children: Option<Object>)
    ensures
        children == spec_children_of(context, kernel, entry),
{
    if pointer_or_zero(context, entry, "oid_arg1") != 0 && kind_of(context, entry) & 0xf == 1
        && pointer_or_zero(context, entry, "oid_handler") == 0 {
        match context.member_target(entry, "oid_arg1") {
            Some(list) => context.cast(
                list,
                context.get_type(kernel.table, "sysctl_oid_list"),
            ),
            None => None,
        }
    } else {
        None
    }
}

pub open spec fn spec_first_of(
    context: &Context,
    kernel: &Module,
    kind: TypeId,
    head: Object,
    nested: bool,
) -> u64 {
    let first = pointer_or_zero(context, head, "slh_first");
    if nested && first != 0 {
        match following(
            context,
            Object { kind, layer: kernel.layer, native: kernel.layer, offset: first },
        ) {
            Some(next) => next,
            None => 0,
        }
    } else {
        first
    }
}

/// Where a list starts. One reached from an entry above it starts at its second
/// member.
#[verifier::when_used_as_spec(spec_first_of)]
pub fn first_of(context: &Context, kernel: &Module, kind: TypeId, head: Object, nested: bool) -> (
    address: u64)
    ensures
        address == spec_first_of(context, kernel, kind, head, nested),
{
    let first: u64 = pointer_or_zero(context, head, "slh_first");
    if nested && first != 0 {
        match following(
            context,
            Object { kind, layer: kernel.layer, native: kernel.layer, offset: first },
        ) {
            Some(next) => next,
            None => 0,
        }
    } else {
        first
    }
}

/// Some knobs, and those of a list and of the lists below it, of which `levels`
/// can still hang below each other.
pub open spec fn with_list(
    context: &Context,
    kernel: &Module,
    kind: TypeId,
    head: Object,
    nested: bool,
    levels: nat,
    knobs: Seq<KnobView>,
) -> Seq<KnobView>
    decreases levels, MAX_ENTRIES + 1,
{
    if levels == 0 {
        knobs
    } else {
        with_entries(
            context,
            kernel,
            kind,
            first_of(context, kernel, kind, head, nested),
            Seq::empty(),
            levels,
            MAX_ENTRIES as nat,
            knobs,
        )
    }
}

/// Some knobs, and those of a list from an entry on: up to its end, the first entry
/// without a name, or one that was seen before. Every entry adds a knob, so no list
/// takes more than `left` steps.
pub open spec fn with_entries(
    context: &Context,
    kernel: &Module,
    kind: TypeId,
    address: u64,
    seen: Seq<u64>,
    levels: nat,
    left: nat,
    knobs: Seq<KnobView>,
) -> Seq<KnobView>
    decreases levels, left,
{
    let entry = Object { kind, layer: kernel.layer, native: kernel.layer, offset: address };
    if levels == 0 || left == 0 || address == 0 || knobs.len() >= MAX_ENTRIES || seen.contains(
        address,
    ) || name_of(context, entry).len() == 0 {
        knobs
    } else {
        let below = match children_of(context, kernel, entry) {
            Some(children) => with_list(
                context,
                kernel,
                kind,
                children,
                true,
                (levels - 1) as nat,
                knobs,
            ),
            None => knobs,
        };
        with_entries(
            context,
            kernel,
            kind,
            match following(context, entry) {
                Some(next) => next,
                None => 0,
            },
            seen.push(address),
            levels,
            (left - 1) as nat,
            below.push(
                KnobView {
                    entry,
                    name: name_of(context, entry),
                    value: value_text(context, kernel, entry),
                },
            ),
        )
    }
}

proof fn lemma_list_ends(
    context: &Context,
    kernel: &Module,
    kind: TypeId,
    head: Object,
    nested: bool,
    levels: nat,
    knobs: Seq<KnobView>,
)
    requires
        knobs.len() <= MAX_ENTRIES + levels,
    ensures
        with_list(context, kernel, kind, head, nested, levels, knobs).len() <= MAX_ENTRIES + levels,
    decreases levels, MAX_ENTRIES + 1,
{
    if levels > 0 {
        lemma_entries_end(
            context,
            kernel,
            kind,
            first_of(context, kernel, kind, head, nested),
            Seq::empty(),
            levels,
            MAX_ENTRIES as nat,
            knobs,
        );
    }
}

proof fn lemma_entries_end(
    context: &Context,
    kernel: &Module,
    kind: TypeId,
    address: u64,
    seen: Seq<u64>,
    levels: nat,
    left: nat,
    knobs: Seq<KnobView>,
)
    requires
        knobs.len() <= MAX_ENTRIES + levels,
    ensures
        with_entries(context, kernel, kind, address, seen, levels, left, knobs).len() <= MAX_ENTRIES
            + levels,
    decreases levels, left,
{
    let entry = Object { kind, layer: kernel.layer, native: kernel.layer, offset: address };
    if levels == 0 || left == 0 || address == 0 || knobs.len() >= MAX_ENTRIES || seen.contains(
        address,
    ) || name_of(context, entry).len() == 0 {
    } else {
        let below = match children_of(context, kernel, entry) {
            Some(children) => {
                lemma_list_ends(
                    context,
                    kernel,
                    kind,
                    children,
                    true,
                    (levels - 1) as nat,
                    knobs,
                );
                with_list(context, kernel, kind, children, true, (levels - 1) as nat, knobs)
            },
            None => knobs,
        };
        lemma_entries_end(
            context,
            kernel,
            kind,
            match following(context, entry) {
                Some(next) => next,
                None => 0,
            },
            seen.push(address),
            levels,
            (left - 1) as nat,
            below.push(
                KnobView {
                    entry,
                    name: name_of(context, entry),
                    value: value_text(context, kernel, entry),
                },
            ),
        );
    }
}

/// A corrupt tree cannot make the walk go on for ever: past the bound on the knobs,
/// each list that is still open adds the one it stands at and no more.
pub proof fn law_the_walk_is_bounded(
    context: &Context,
    kernel: &Module,
    kind: TypeId,
    head: Object,
    nested: bool,
    levels: nat,
)
    ensures
        with_list(context, kernel, kind, head, nested, levels, Seq::empty()).len() <= MAX_ENTRIES
            + levels,
{
    lemma_list_ends(context, kernel, kind, head, nested, levels, Seq::empty());
}

fn add_knob(knobs: &mut Vec<Knob>, knob: Knob)
    ensures
        knob_views(final(knobs)@) == knob_views(old(knobs)@).push(knob@),
        final(knobs)@.len() == old(knobs)@.len() + 1,
{
    let ghost before = knobs@;
    knobs.push(knob);
    assert(knob_views(knobs@) =~= knob_views(before).push(knob@));
}

/// Follow one list of entries, and the lists hanging below it.
pub fn walk_oid_list(
    context: &Context,
    kernel: &Module,
    kind: TypeId,
    head: Object,
    nested: bool,
    levels: u8,
    knobs: &mut Vec<Knob>,
)
    ensures
        knob_views(final(knobs)@) == with_list(
            context,
            kernel,
            kind,
            head,
            nested,
            levels as nat,
            knob_views(old(knobs)@),
        ),
        final(knobs)@.len() >= old(knobs)@.len(),
    decreases levels,
{
    if levels == 0 {
        return;
    }
    let ghost whole = with_list(
        context,
        kernel,
        kind,
        head,
        nested,
        levels as nat,
        knob_views(knobs@),
    );
    let ghost held = knobs@.len();
    let mut seen: Vec<u64> = Vec::new();
    let mut address: u64 = first_of(context, kernel, kind, head, nested);
    let ghost mut left: nat = MAX_ENTRIES as nat;
    let mut going = true;
    while going
        invariant
            0 < levels,
            knobs@.len() >= held,
            knobs@.len() + left >= MAX_ENTRIES,
            going ==> whole == with_entries(
                context,
                kernel,
                kind,
                address,
                seen@,
                levels as nat,
                left,
                knob_views(knobs@),
            ),
            !going ==> whole == knob_views(knobs@),
        decreases
                (if going {
                    left + 1
                } else {
                    0
                }),
    {
        if address == 0 || knobs.len() >= MAX_ENTRIES || is_among(&seen, address) {
            going = false;
        } else {
            let entry = Object {
                kind,
                layer: kernel.layer,
                native: kernel.layer,
                offset: address,
            };
            let name = read_name(context, entry);
            if name.unicode_len() == 0 {
                going = false;
            } else {
                if let Some(children) = children_of(context, kernel, entry) {
                    walk_oid_list(context, kernel, kind, children, true, levels - 1, knobs);
                }
                let value = read_value(context, kernel, entry);
                add_knob(knobs, Knob { entry, name, value });
                seen.push(address);
                address = match following(context, entry) {
                    Some(next) => next,
                    None => 0,
                };
                proof {
                    left = (left - 1) as nat;
                }
            }
        }
    }
}

/// The knobs that the kernel has.
pub open spec fn knobs_of(context: &Context, kernel: &Module) -> Option<Seq<KnobView>> {
    match (
        context.object_from_symbol(kernel, "sysctl__children"),
        context.get_type(kernel.table, "sysctl_oid"),
    ) {
        (Some(head), Some(kind)) => Some(
            with_list(context, kernel, kind, head, false, MAX_LEVELS as nat, Seq::empty()),
        ),
        _ => None,
    }
}

/// The row of a knob.
pub open spec fn knob_row(context: &Context, knob: KnobView) -> Seq<Cell> {
    let handler = pointer_or_zero(context, knob.entry, "oid_handler");
    let owner = symbols::mac::described(context.mac.resolver, handler);
    seq![
        Cell::Text(knob.name),
        Cell::signed_or_unreadable(context.member_i64(knob.entry, "oid_number")),
        Cell::Text(permission_text(kind_of(context, knob.entry))),
        Cell::hex(handler),
        Cell::Text(knob.value),
        Cell::Text(owner.0),
        Cell::Text(owner.1),
    ]
}

fn make_row(context: &Context, knob: &Knob) -> (row: Row)
    ensures
        row@ == knob_row(context, knob@),
{
    let handler: u64 = pointer_or_zero(context, knob.entry, "oid_handler");
    let owner = describe(&context.mac.resolver, handler);
    Row::new().with(Value::string(&knob.name)).with(
        Value::signed_or_unreadable(context.member_i64(knob.entry, "oid_number")),
    ).with(Value::String(permissions(kind_of(context, knob.entry)))).with(
        Value::hex(handler),
    ).with(Value::string(&knob.value)).with(Value::String(owner.0)).with(
        Value::String(owner.1),
    )
}

/// The report on the first of some knobs.
pub open spec fn reported(
    context: &Context,
    headings: Seq<Column>,
    knobs: Seq<KnobView>,
    count: int,
) -> Table
    decreases count,
{
    if count <= 0 {
        Table::empty(headings)
    } else {
        reported(context, headings, knobs, count - 1).push(
            0,
            knob_row(context, knobs[count - 1]),
        )
    }
}

impl Plugin for CheckSysctl {
    open spec fn named(&self) -> Seq<char> {
        "mac.check_sysctl.Check_sysctl"@
    }

    open spec fn described(&self) -> Seq<char> {
        "Check sysctl handlers for hooks."@
    }

    open spec fn needs(&self) -> Seq<RequirementView> {
        seq![RequirementView::kernel()]
    }

    open spec fn headings(&self) -> Seq<Column> {
        seq![
            Column::string("Name"),
            Column::integer("Number"),
            Column::string("Perms"),
            Column::new("Handler Address", ColumnType::UInt),
            Column::string("Value"),
            Column::string("Handler Module"),
            Column::string("Handler Symbol"),
        ]
    }

    open spec fn system(&self) -> OperatingSystem {
        OperatingSystem::Mac
    }

    open spec fn report(&self, context: &Context, config: &Configuration) -> Result<Table, Failure> {
        match plugins::mac::kernel_of(context, config) {
            Some(kernel) => match knobs_of(context, &kernel) {
                Some(knobs) => Ok(
                    reported(context, self.headings(), knobs, knobs.len() as int),
                ),
                None => Err(Failure::Unavailable),
            },
            None => Err(plugins::mac::no_kernel()),
        }
    }

    fn name(&self) -> (name: &'static str) {
        "mac.check_sysctl.Check_sysctl"
    }

    fn description(&self) -> (description: &'static str) {
        "Check sysctl handlers for hooks."
    }

    fn requirements(&self) -> (requirements: Vec<Requirement>) {
        vec![Requirement::kernel()]
    }

    fn operating_system(&self) -> (system: OperatingSystem) {
        OperatingSystem::Mac
    }

    fn columns(&self) -> (columns: Vec<Column>) {
        vec![
            Column::string("Name"),
            Column::integer("Number"),
            Column::string("Perms"),
            Column::new("Handler Address", ColumnType::UInt),
            Column::string("Value"),
            Column::string("Handler Module"),
            Column::string("Handler Symbol"),
        ]
    }

    fn epilog(&self) -> (epilog: Option<&'static str>) {
        None
    }

    fn timeline(&self, context: &Context, config: &Configuration) -> (timeline: Option<
        plugins::Timeline,
    >) {
        None
    }

    fn needs_kernel(&self) -> (needed: bool) {
        false
    }

    fn run(&self, context: &Context, config: &Configuration) -> (result: Result<TreeGrid, VolatilityError>) {
        let kernel = kernel_module(context, config)?;
        let (head, kind) = match (
            context.object_from_symbol(kernel, "sysctl__children"),
            context.get_type(kernel.table, "sysctl_oid"),
        ) {
            (Some(head), Some(kind)) => (head, kind),
            _ => return Err(VolatilityError::Unavailable),
        };
        let mut knobs: Vec<Knob> = Vec::new();
        assert(knob_views(knobs@) =~= Seq::<KnobView>::empty());
        walk_oid_list(context, kernel, kind, head, false, MAX_LEVELS, &mut knobs);
        let mut grid = TreeGrid::new(self.columns());
        let ghost headings = self.headings();
        let ghost all = knob_views(knobs@);
        for i in 0..knobs.len()
            invariant
                all == knob_views(knobs@),
                grid@ == reported(context, headings, all, i as int),
        {
            assert(all[i as int] == knobs@[i as int]@);
            grid.push(0, make_row(context, &knobs[i]));
        }
        Ok(grid)
    }
}

} // verus!
