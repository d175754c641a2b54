//! Check the TrustedBSD policy hooks.
//!
//! TrustedBSD lets an extension register a callback for almost every security
//! decision the kernel makes. It is a legitimate mechanism that antivirus uses,
//! but also a complete interception point, so which extension owns each hook
//! matters.

use crate::config::Configuration;
use crate::context::{Context, Member, Module, Object, Shape, TypeId};
use crate::error::{Failure, VolatilityError};
use crate::plugins::{self, OperatingSystem, Plugin, Requirement, RequirementView};
use crate::plugins::mac::kernel_module;
use crate::renderers::{Cell, Column, ColumnType, Row, Table, TreeGrid, Value};
use crate::symbols;
use crate::symbols::mac::{describe, drop_null};
use vstd::prelude::*;

verus! {

/// Checks the TrustedBSD policy hooks.
pub struct TrustedBsd;

/// What a policy is called.
pub open spec fn policy_name(context: &Context, policy: Object) -> Seq<char> {
    match context.member(policy, "mpc_name") {
        Some(name) => match context.pointed_text(name, 255) {
            Some(text) => text,
            None => "N/A"@,
        },
        None => "N/A"@,
    }
}

fn read_policy_name(context: &Context, policy: Object) -> (name: String)
    ensures
        name@ == policy_name(context, policy),
{
    match context.member(policy, "mpc_name") {
        Some(name) => match context.pointer_to_string(name, 255) {
            Some(text) => text,
            None => "N/A".to_owned(),
        },
        None => "N/A".to_owned(),
    }
}

/// The parts of a structure.
pub open spec fn members_of(context: &Context, object: Object) -> Seq<Member> {
    match context.definition(object.kind) {
        Some(definition) => match definition.shape {
            Shape::Structure(members) => members@,
            _ => Seq::empty(),
        },
        None => Seq::empty(),
    }
}

/// The row of a hook.
pub open spec fn hook_row(context: &Context, policy: Object, member: Seq<char>, handler: u64) -> Seq<
    Cell,
> {
    let owner = symbols::mac::described(context.mac.resolver, handler);
    seq![
        Cell::Text(member),
        Cell::Text(policy_name(context, policy)),
        Cell::hex(handler),
        Cell::Text(owner.0),
        Cell::Text(owner.1),
    ]
}

pub open spec fn spec_hook_of(context: &Context, operations: Object, member: &Member) -> Option<u64> {
    symbols::mac::unless_null(
        context.pointer_value(
            Object {
                kind: TypeId { table: operations.kind.table, index: member.kind },
                layer: operations.layer,
                native: operations.native,
                offset: operations.offset.wrapping_add(member.offset),
            },
        ),
    )
}

/// What a hook of a policy's operations calls, if anything.
#[verifier::when_used_as_spec(spec_hook_of)]
pub fn hook_of(context: &Context, operations: Object, member: &Member) -> (handler: Option<u64>)
    ensures
        handler == spec_hook_of(context, operations, member),
{
    drop_null(
        context.pointer_value(
            Object {
                kind: TypeId { table: operations.kind.table, index: member.kind },
                layer: operations.layer,
                native: operations.native,
                offset: operations.offset.wrapping_add(member.offset),
            },
        ),
    )
}

/// A report with the first of a policy's hooks. The operations hold one pointer per
/// hook, and each one that is not null is a decision that the policy intercepts.
pub open spec fn with_hooks(
    context: &Context,
    table: Table,
    policy: Object,
    operations: Object,
    members: Seq<Member>,
    count: int,
) -> Table
    decreases count,
{
    if count <= 0 {
        table
    } else {
        let before = with_hooks(context, table, policy, operations, members, count - 1);
        match hook_of(context, operations, &members[count - 1]) {
            Some(handler) => before.push(
                0,
                hook_row(context, policy, members[count - 1].name@, handler),
            ),
            None => before,
        }
    }
}

fn add_hooks(
    context: &Context,
    grid: &mut TreeGrid,
    policy: Object,
    operations: Object,
    members: &Vec<Member>,
)
    ensures
        final(grid)@ == with_hooks(
            context,
            old(grid)@,
            policy,
            operations,
            members@,
            members@.len() as int,
        ),
{
    let ghost before = grid@;
    for i in 0..members.len()
        invariant
            grid@ == with_hooks(context, before, policy, operations, members@, i as int),
    {
        if let Some(handler) = hook_of(context, operations, &members[i]) {
            let owner = describe(&context.mac.resolver, handler);
            let row = Row::new().with(Value::string(members[i].name.as_str())).with(
                Value::String(read_policy_name(context, policy)),
            ).with(Value::hex(handler)).with(Value::String(owner.0)).with(
                Value::String(owner.1),
            );
            assert(row@ == hook_row(context, policy, members@[i as int].name@, handler));
            grid.push(0, row);
        }
    }
}

/// A report with one more policy. A policy with no operations decides nothing.
#[verifier::opaque]
pub open spec fn with_policy(context: &Context, table: Table, policy: Object) -> Table {
    match context.member_target(policy, "mpc_ops") {
        Some(operations) => {
            let members = members_of(context, operations);
            with_hooks(context, table, policy, operations, members, members.len() as int)
        },
        None => table,
    }
}

fn add_policy(context: &Context, grid: &mut TreeGrid, policy: Object)
    ensures
        final(grid)@ == with_policy(context, old(grid)@, policy),
{
    reveal(with_policy);
    if let Some(operations) = context.member_target(policy, "mpc_ops") {
        if let Some(definition) = context.define(operations.kind) {
            if let Shape::Structure(members) = &definition.shape {
                add_hooks(context, grid, policy, operations, members);
            }
        }
    }
}

/// The table of policies: the type of an entry, its size, where the first stands
/// and how many there are.
pub struct Policies {
    pub kind: TypeId,
    pub size: u64,
    pub first: u64,
    pub count: u64,
}

/// The table of policies: nothing where it cannot be read, and none where the
/// kernel has not made one. The table has one more slot than its highest index.
pub open spec fn spec_find_policies(context: &Context, kernel: &Module) -> Option<Option<Policies>> {
    match context.typed_symbol(kernel, "mac_policy_list", "mac_policy_list") {
        Some(head) => match (
            context.member_u64(head, "staticmax"),
            context.member_pointer(head, "entries"),
        ) {
            (Some(highest), Some(first)) => if first == 0 {
                Some(None)
            } else {
                match context.get_type(kernel.table, "mac_policy_list_element") {
                    Some(kind) => match context.size_of(kind) {
                        Some(size) => Some(
                            Some(
                                Policies { kind, size, first, count: highest.wrapping_add(1) },
                            ),
                        ),
                        None => None,
                    },
                    None => None,
                }
            },
            _ => None,
        },
        None => None,
    }
}

/// Find the table of policies.
#[verifier::when_used_as_spec(spec_find_policies)]
pub fn find_policies(context: &Context, kernel: &Module) -> (found: Option<Option<Policies>>)
    ensures
        found == spec_find_policies(context, kernel),
{
    match context.typed_symbol(kernel, "mac_policy_list", "mac_policy_list") {
        Some(head) => match (
            context.member_u64(head, "staticmax"),
            context.member_pointer(head, "entries"),
        ) {
            (Some(highest), Some(first)) => if first == 0 {
                Some(None)
            } else {
                match context.get_type(kernel.table, "mac_policy_list_element") {
                    Some(kind) => match context.size_of(kind) {
                        Some(size) => Some(
                            Some(
                                Policies { kind, size, first, count: highest.wrapping_add(1) },
                            ),
                        ),
                        None => None,
                    },
                    None => None,
                }
            },
            _ => None,
        },
        None => None,
    }
}

pub open spec fn spec_policy_at(
    context: &Context,
    kernel: &Module,
    policies: &Policies,
    at: u64,
) -> Option<Object> {
    context.member_target(
        Object {
            kind: policies.kind,
            layer: kernel.layer,
            native: kernel.layer,
            offset: policies.first.wrapping_add(at.wrapping_mul(policies.size)),
        },
        "mpc",
    )
}

/// The policy that a place of the table names.
#[verifier::when_used_as_spec(spec_policy_at)]
pub fn policy_at(context: &Context, kernel: &Module, policies: &Policies, at: u64) -> (policy:
    Option<Object>)
    ensures
        policy == spec_policy_at(context, kernel, policies, at),
{
    context.member_target(
        Object {
            kind: policies.kind,
            layer: kernel.layer,
            native: kernel.layer,
            offset: policies.first.wrapping_add(at.wrapping_mul(policies.size)),
        },
        "mpc",
    )
}

/// The report on the first places of the table.
pub open spec fn reported(
    context: &Context,
    kernel: &Module,
    headings: Seq<Column>,
    policies: &Policies,
    count: int,
) -> Table
    decreases count,
{
    if count <= 0 {
        Table::empty(headings)
    } else {
        let before = reported(context, kernel, headings, policies, count - 1);
        match policy_at(context, kernel, policies, (count - 1) as u64) {
            Some(policy) => with_policy(context, before, policy),
            None => before,
        }
    }
}

impl Plugin for TrustedBsd {
    open spec fn named(&self) -> Seq<char> {
        "mac.trustedbsd.Trustedbsd"@
    }

    open spec fn described(&self) -> Seq<char> {
        "Checks for malicious trustedbsd modules"@
    }

    open spec fn needs(&self) -> Seq<RequirementView> {
        seq![RequirementView::kernel()]
    }

    open spec fn headings(&self) -> Seq<Column> {
        seq![
            Column::string("Member"),
            Column::string("Policy Name"),
            Column::new("Handler Address", ColumnType::UInt),
            Column::string("Handler Module"),
            Column::string("Handler Symbol"),
        ]
    }

    open spec fn system(&self) -> OperatingSystem {
        OperatingSystem::Mac
    }

    open spec fn report(&self, context: &Context, config: &Configuration) -> Result<Table, Failure> {
        match plugins::mac::kernel_of(context, config) {
            Some(kernel) => match find_policies(context, &kernel) {
                Some(Some(policies)) => Ok(
                    reported(
                        context,
                        &kernel,
                        self.headings(),
                        &policies,
                        policies.count as int,
                    ),
                ),
                Some(None) => Ok(Table::empty(self.headings())),
                None => Err(Failure::Unavailable),
            },
            None => Err(plugins::mac::no_kernel()),
        }
    }

    fn name(&self) -> (name: &'static str) {
        "mac.trustedbsd.Trustedbsd"
    }

    fn description(&self) -> (description: &'static str) {
        "Checks for malicious trustedbsd modules"
    }

    fn requirements(&self) -> (requirements: Vec<Requirement>) {
        vec![Requirement::kernel()]
    }

    fn operating_system(&self) -> (system: OperatingSystem) {
        OperatingSystem::Mac
    }

    fn columns(&self) -> (columns: Vec<Column>) {
        vec![
            Column::string("Member"),
            Column::string("Policy Name"),
            Column::new("Handler Address", ColumnType::UInt),
            Column::string("Handler Module"),
            Column::string("Handler Symbol"),
        ]
    }

    fn epilog(&self) -> (epilog: Option<&'static str>) {
        None
    }

    fn timeline(&self, context: &Context, config: &Configuration) -> (timeline: Option<
        plugins::Timeline,
    >) {
        None
    }

    fn needs_kernel(&self) -> (needed: bool) {
        false
    }

    fn run(&self, context: &Context, config: &Configuration) -> (result: Result<TreeGrid, VolatilityError>) {
        let kernel = kernel_module(context, config)?;
        let mut grid = TreeGrid::new(self.columns());
        let policies = match find_policies(context, kernel) {
            Some(Some(policies)) => policies,
            Some(None) => return Ok(grid),
            None => return Err(VolatilityError::Unavailable),
        };
        let ghost headings = self.headings();
        for at in 0..policies.count
            invariant
                grid@ == reported(context, kernel, headings, &policies, at as int),
        {
            if let Some(policy) = policy_at(context, kernel, &policies, at) {
                add_policy(context, &mut grid, policy);
            }
        }
        Ok(grid)
    }
}

} // verus!
