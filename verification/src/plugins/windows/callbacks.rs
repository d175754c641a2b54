//! List the kernel's notification callbacks.
//!
//! The kernel lets drivers register for events, process creation, image
//! loading, registry access, shutdown, a bug check. Each registration is a
//! function pointer in a kernel array, a list, or a pool allocation. Malware
//! registers here to gain execution on events it cares about, so a callback
//! owned by no loaded module is worth attention.

use crate::config::Configuration;
use crate::context::{Context, Module, Object, TypeId};
use crate::error::{Failure, VolatilityError};
use crate::lists::{self, walk_list};
use crate::plugins::{self, OperatingSystem, Plugin, Requirement, RequirementView};
use crate::plugins::windows::{attribute, kernel_module, AttributionView};
use crate::plugins::windows::handles::object_type_of_header;
use crate::renderers::{Cell, Column, ColumnType, Row, Table, TreeGrid, Value};
use crate::symbols;
use crate::symbols::windows::{
    generate_pool_scan, header_name, CodeModule, FREE, NONPAGED, PAGED, PoolConstraint, PoolHit,
};
use crate::text::{self, ends_with, same_text};
use vstd::prelude::*;

verus! {

/// Lists the kernel's notification callbacks.
pub struct Callbacks;

/// One callback, before its address is attributed to a module.
#[derive(Debug)]
pub struct Callback {
    pub kind: Value,
    pub address: u64,
    pub detail: Value,
}

/// What is said of a callback.
#[verifier::ext_equal]
pub struct CallbackView {
    pub kind: Cell,
    pub address: u64,
    pub detail: Cell,
}

impl View for Callback {
    type V = CallbackView;

    open spec fn view(&self) -> CallbackView {
        CallbackView { kind: self.kind@, address: self.address, detail: self.detail@ }
    }
}

/// What is said of each of some callbacks.
pub open spec fn callback_views(list: Seq<Callback>) -> Seq<CallbackView> {
    Seq::new(list.len(), |i: int| list[i]@)
}

fn add_callback(list: &mut Vec<Callback>, callback: Callback)
    ensures
        callback_views(final(list)@) == callback_views(old(list)@).push(callback@),
{
    let ghost before = callback_views(list@);
    let ghost said = callback@;
    list.push(callback);
    assert(callback_views(list@) =~= before.push(said));
}

fn add_found(list: &mut Vec<Callback>, callback: Option<Callback>)
    ensures
        callback_views(final(list)@) == with_found(
            callback_views(old(list)@),
            found_view(callback),
        ),
{
    if let Some(callback) = callback {
        add_callback(list, callback);
    }
}

/// What is said of a callback that may have been found.
pub open spec fn found_view(callback: Option<Callback>) -> Option<CallbackView> {
    match callback {
        Some(callback) => Some(callback@),
        None => None,
    }
}

/// Some callbacks and another one, if it was found.
pub open spec fn with_found(list: Seq<CallbackView>, callback: Option<CallbackView>) -> Seq<
    CallbackView,
> {
    match callback {
        Some(callback) => list.push(callback),
        None => list,
    }
}

/// Where the shutdown handler sits in a driver's dispatch table.
pub const IRP_MJ_SHUTDOWN: u64 = 0x10;

/// The name of the table that describes the callback structures.
pub open spec fn spec_callback_table(context: &Context, kernel: &Module) -> &'static str {
    if context.pointer_size(kernel) == 8 {
        "callbacks-x64"
    } else {
        "callbacks-x86"
    }
}

/// The name of the table that describes the callback structures.
#[verifier::when_used_as_spec(spec_callback_table)]
pub fn callback_table(context: &Context, kernel: &Module) -> (table: &'static str)
    ensures
        table == spec_callback_table(context, kernel),
{
    if context.pointer_size(kernel) == 8 {
        "callbacks-x64"
    } else {
        "callbacks-x86"
    }
}

pub open spec fn spec_fast_reference(context: &Context, reference: Object) -> Option<u64> {
    match context.member_pointer(reference, "Object") {
        Some(raw) => Some(raw & 0xffff_ffff_ffff_fff0u64),
        None => match context.pointer_value(reference) {
            Some(raw) => Some(raw & 0xffff_ffff_ffff_fff0u64),
            None => None,
        },
    }
}

/// What an `_EX_FAST_REF` points at, with the reference count masked off.
#[verifier::when_used_as_spec(spec_fast_reference)]
pub fn fast_reference(context: &Context, reference: Object) -> (address: Option<u64>)
    ensures
        address == spec_fast_reference(context, reference),
{
    match context.member_pointer(reference, "Object") {
        Some(raw) => Some(raw & 0xffff_ffff_ffff_fff0u64),
        None => match context.pointer_value(reference) {
            Some(raw) => Some(raw & 0xffff_ffff_ffff_fff0u64),
            None => None,
        },
    }
}

pub open spec fn spec_referenced(
    context: &Context,
    kernel: &Module,
    kind: Option<TypeId>,
    slot: u64,
    member: &str,
) -> Option<u64> {
    match context.object(context.get_type(kernel.table, "_EX_FAST_REF"), kernel.layer, slot) {
        Some(reference) => match fast_reference(context, reference) {
            Some(block) => match context.object(kind, kernel.layer, block) {
                Some(block) => match context.member_pointer(block, member) {
                    Some(routine) => if routine != 0 {
                        Some(routine)
                    } else {
                        None
                    },
                    None => None,
                },
                None => None,
            },
            None => None,
        },
        None => None,
    }
}

/// The routine in the block that a slot of an array refers to, if there is one.
#[verifier::when_used_as_spec(spec_referenced)]
pub fn referenced(
    context: &Context,
    kernel: &Module,
    kind: Option<TypeId>,
    slot: u64,
    member: &str,
) -> (routine: Option<u64>)
    ensures
        routine == spec_referenced(context, kernel, kind, slot, member),
{
    match context.object(context.get_type(kernel.table, "_EX_FAST_REF"), kernel.layer, slot) {
        Some(reference) => match fast_reference(context, reference) {
            Some(block) => match context.object(kind, kernel.layer, block) {
                Some(block) => match context.member_pointer(block, member) {
                    Some(routine) => if routine != 0 {
                        Some(routine)
                    } else {
                        None
                    },
                    None => None,
                },
                None => None,
            },
            None => None,
        },
        None => None,
    }
}

/// The callbacks that the first slots of an array refer to.
pub open spec fn slot_callbacks(
    context: &Context,
    kernel: &Module,
    kind: Option<TypeId>,
    base: u64,
    member: &str,
    says: Seq<char>,
    count: nat,
) -> Seq<CallbackView>
    decreases count,
{
    if count == 0 {
        Seq::empty()
    } else {
        let before = slot_callbacks(
            context,
            kernel,
            kind,
            base,
            member,
            says,
            (count - 1) as nat,
        );
        match referenced(
            context,
            kernel,
            kind,
            base.wrapping_add(((count - 1) as u64).wrapping_mul(8)),
            member,
        ) {
            Some(routine) => before.push(
                CallbackView {
                    kind: Cell::Text(says),
                    address: routine,
                    detail: Cell::not_applicable(),
                },
            ),
            None => before,
        }
    }
}

fn add_slots(
    context: &Context,
    kernel: &Module,
    kind: Option<TypeId>,
    base: u64,
    member: &str,
    says: &str,
    count: u64,
    list: &mut Vec<Callback>,
)
    ensures
        callback_views(final(list)@) == callback_views(old(list)@) + slot_callbacks(
            context,
            kernel,
            kind,
            base,
            member,
            says@,
            count as nat,
        ),
{
    let ghost start = callback_views(list@);
    assert(start =~= start + Seq::<CallbackView>::empty());
    for index in 0..count
        invariant
            callback_views(list@) == start + slot_callbacks(
                context,
                kernel,
                kind,
                base,
                member,
                says@,
                index as nat,
            ),
    {
        if let Some(routine) = referenced(
            context,
            kernel,
            kind,
            base.wrapping_add(index.wrapping_mul(8)),
            member,
        ) {
            add_callback(
                list,
                Callback {
                    kind: Value::string(says),
                    address: routine,
                    detail: Value::not_applicable(),
                },
            );
        }
        assert(callback_views(list@) =~= start + slot_callbacks(
            context,
            kernel,
            kind,
            base,
            member,
            says@,
            (index + 1) as nat,
        ));
    }
}

/// The callbacks of one notification array. A kernel that does not name the array
/// simply has none.
pub open spec fn array_callbacks(
    context: &Context,
    kernel: &Module,
    table: &str,
    symbol: &str,
    count: nat,
) -> Seq<CallbackView> {
    match context.symbol_offset(kernel, symbol) {
        Some(base) => slot_callbacks(
            context,
            kernel,
            context.table_type(table, "_GENERIC_CALLBACK"),
            base,
            "Callback",
            symbol@,
            count,
        ),
        None => Seq::empty(),
    }
}

/// The routines the kernel calls when a process, thread, or image appears.
pub open spec fn notified(context: &Context, kernel: &Module, table: &str) -> Seq<CallbackView> {
    array_callbacks(context, kernel, table, "PspLoadImageNotifyRoutine", 8) + array_callbacks(
        context,
        kernel,
        table,
        "PspCreateThreadNotifyRoutine",
        64,
    ) + array_callbacks(context, kernel, table, "PspCreateProcessNotifyRoutine", 64)
}

fn add_array(
    context: &Context,
    kernel: &Module,
    table: &str,
    symbol: &str,
    count: u64,
    list: &mut Vec<Callback>,
)
    ensures
        callback_views(final(list)@) == callback_views(old(list)@) + array_callbacks(
            context,
            kernel,
            table,
            symbol,
            count as nat,
        ),
{
    match context.symbol_offset(kernel, symbol) {
        Some(base) => {
            add_slots(
                context,
                kernel,
                context.table_type(table, "_GENERIC_CALLBACK"),
                base,
                "Callback",
                symbol,
                count,
                list,
            );
        },
        None => {
            assert(callback_views(list@) =~= callback_views(list@)
                + Seq::<CallbackView>::empty());
        },
    }
}

/// The routines the kernel calls when a process, thread, or image appears.
pub fn notify_routines(context: &Context, kernel: &Module, table: &str) -> (found: Vec<Callback>)
    ensures
        callback_views(found@) == notified(context, kernel, table),
{
    let mut found: Vec<Callback> = Vec::new();
    add_array(context, kernel, table, "PspLoadImageNotifyRoutine", 8, &mut found);
    // Vista lengthened the process and thread arrays.
    add_array(context, kernel, table, "PspCreateThreadNotifyRoutine", 64, &mut found);
    add_array(context, kernel, table, "PspCreateProcessNotifyRoutine", 64, &mut found);
    assert(callback_views(found@) =~= notified(context, kernel, table));
    found
}

/// The records of a list whose head is a record's own link member.
pub open spec fn record_list(context: &Context, kernel: &Module, kind: Option<TypeId>, symbol: &str) -> Seq<
    Object,
> {
    match context.symbol_offset(kernel, symbol) {
        Some(head) => match context.object(kind, kernel.layer, head) {
            Some(record) => match context.member(record, "Entry") {
                Some(head) => match lists::listed(context, head, kind, "Entry", true) {
                    Some(records) => records,
                    None => Seq::empty(),
                },
                None => Seq::empty(),
            },
            None => Seq::empty(),
        },
        None => Seq::empty(),
    }
}

/// Walk a list whose head is the record's own link member.
pub fn list_of(context: &Context, kernel: &Module, kind: Option<TypeId>, symbol: &str) -> (records: Vec<
    Object,
>)
    ensures
        records@ == record_list(context, kernel, kind, symbol),
{
    match context.symbol_offset(kernel, symbol) {
        Some(head) => match context.object(kind, kernel.layer, head) {
            Some(record) => match context.member(record, "Entry") {
                Some(head) => match walk_list(context, head, kind, "Entry", true) {
                    Some(records) => records,
                    None => Vec::new(),
                },
                None => Vec::new(),
            },
            None => Vec::new(),
        },
        None => Vec::new(),
    }
}

/// A callback that a bug check record holds. The component name is read at a
/// distance from where the record points.
pub open spec fn bugcheck_callback(
    context: &Context,
    kernel: &Module,
    record: Object,
    says: &str,
    distance: u64,
) -> Option<CallbackView> {
    match context.member_pointer(record, "CallbackRoutine") {
        Some(routine) => if context.is_valid(kernel.layer, routine, 64) {
            Some(
                CallbackView {
                    kind: Cell::Text(says@),
                    address: routine,
                    detail: Cell::text_or_unreadable(
                        match context.member_pointer(record, "Component") {
                            Some(address) => context.text_at(
                                kernel.layer,
                                distance.wrapping_add(address),
                                64,
                            ),
                            None => None,
                        },
                    ),
                },
            )
        } else {
            None
        },
        None => None,
    }
}

fn read_bugcheck(
    context: &Context,
    kernel: &Module,
    record: Object,
    says: &str,
    distance: u64,
) -> (callback: Option<Callback>)
    ensures
        found_view(callback) == bugcheck_callback(context, kernel, record, says, distance),
{
    match context.member_pointer(record, "CallbackRoutine") {
        Some(routine) => if context.is_valid(kernel.layer, routine, 64) {
            let component = match context.member_pointer(record, "Component") {
                Some(address) => context.read_text(
                    kernel.layer,
                    distance.wrapping_add(address),
                    64,
                ),
                None => None,
            };
            Some(
                Callback {
                    kind: Value::string(says),
                    address: routine,
                    detail: Value::text_or_unreadable(&component),
                },
            )
        } else {
            None
        },
        None => None,
    }
}

/// The callbacks that the first of some bug check records hold.
pub open spec fn bugcheck_among(
    context: &Context,
    kernel: &Module,
    records: Seq<Object>,
    says: &str,
    distance: u64,
    count: int,
) -> Seq<CallbackView>
    decreases count,
{
    if count <= 0 {
        Seq::empty()
    } else {
        with_found(
            bugcheck_among(context, kernel, records, says, distance, count - 1),
            bugcheck_callback(context, kernel, records[count - 1], says, distance),
        )
    }
}

/// The callbacks of a list of bug check records.
pub open spec fn bugchecks(
    context: &Context,
    kernel: &Module,
    kind: Option<TypeId>,
    symbol: &str,
    distance: u64,
) -> Seq<CallbackView> {
    let records = record_list(context, kernel, kind, symbol);
    bugcheck_among(context, kernel, records, symbol, distance, records.len() as int)
}

fn collect_bugchecks(
    context: &Context,
    kernel: &Module,
    kind: Option<TypeId>,
    symbol: &str,
    distance: u64,
) -> (found: Vec<Callback>)
    ensures
        callback_views(found@) == bugchecks(context, kernel, kind, symbol, distance),
{
    let records = list_of(context, kernel, kind, symbol);
    let mut found: Vec<Callback> = Vec::new();
    for i in 0..records.len()
        invariant
            callback_views(found@) == bugcheck_among(
                context,
                kernel,
                records@,
                symbol,
                distance,
                i as int,
            ),
    {
        let callback = read_bugcheck(context, kernel, records[i], symbol, distance);
        add_found(&mut found, callback);
    }
    found
}

/// The routines called when the machine stops with a bug check.
///
/// The component name is read as though it sat inside the kernel image rather
/// than where the record points.
pub fn bugcheck_callbacks(context: &Context, kernel: &Module, table: &str) -> (found: Vec<Callback>)
    ensures
        callback_views(found@) == bugchecks(
            context,
            kernel,
            context.table_type(table, "_KBUGCHECK_CALLBACK_RECORD"),
            "KeBugCheckCallbackListHead",
            kernel.offset,
        ),
{
    collect_bugchecks(
        context,
        kernel,
        context.table_type(table, "_KBUGCHECK_CALLBACK_RECORD"),
        "KeBugCheckCallbackListHead",
        kernel.offset,
    )
}

/// The routines called to add data to a crash dump.
pub fn bugcheck_reason_callbacks(context: &Context, kernel: &Module, table: &str) -> (found: Vec<
    Callback,
>)
    ensures
        callback_views(found@) == bugchecks(
            context,
            kernel,
            context.table_type(table, "_KBUGCHECK_REASON_CALLBACK_RECORD"),
            "KeBugCheckReasonCallbackListHead",
            0,
        ),
{
    collect_bugchecks(
        context,
        kernel,
        context.table_type(table, "_KBUGCHECK_REASON_CALLBACK_RECORD"),
        "KeBugCheckReasonCallbackListHead",
        0,
    )
}

/// A registration for registry access that carries the altitude it was made at.
/// An altitude that cannot be read is still reported, as a word.
pub open spec fn altitude_callback(context: &Context, entry: Object) -> Option<CallbackView> {
    match context.member_pointer(entry, "Function") {
        Some(function) => Some(
            CallbackView {
                kind: Cell::Text("CmRegisterCallbackEx"@),
                address: function,
                detail: Cell::Text(
                    match context.member_unicode_of(entry, "Altitude") {
                        Some(altitude) => "Altitude: "@ + altitude,
                        None => "Altitude: None"@,
                    },
                ),
            },
        ),
        None => None,
    }
}

fn read_altitude(context: &Context, entry: Object) -> (callback: Option<Callback>)
    ensures
        found_view(callback) == altitude_callback(context, entry),
{
    match context.member_pointer(entry, "Function") {
        Some(function) => {
            let detail = match context.member_unicode(entry, "Altitude") {
                Some(altitude) => {
                    let mut detail = "Altitude: ".to_owned();
                    detail.append(&altitude);
                    detail
                },
                None => "Altitude: None".to_owned(),
            };
            Some(
                Callback {
                    kind: Value::string("CmRegisterCallbackEx"),
                    address: function,
                    detail: Value::String(detail),
                },
            )
        },
        None => None,
    }
}

/// The registrations for registry access among the first of some entries.
pub open spec fn altitudes_among(context: &Context, entries: Seq<Object>, count: int) -> Seq<
    CallbackView,
>
    decreases count,
{
    if count <= 0 {
        Seq::empty()
    } else {
        with_found(
            altitudes_among(context, entries, count - 1),
            altitude_callback(context, entries[count - 1]),
        )
    }
}

/// The registrations for registry access that later kernels link.
pub open spec fn linked_registrations(context: &Context, kernel: &Module, table: &str) -> Seq<
    CallbackView,
> {
    match context.typed_symbol(kernel, "CallbackListHead", "_LIST_ENTRY") {
        Some(head) => match lists::listed(
            context,
            head,
            context.table_type(table, "_CM_CALLBACK_ENTRY"),
            "Link",
            true,
        ) {
            Some(entries) => altitudes_among(context, entries, entries.len() as int),
            None => Seq::empty(),
        },
        None => Seq::empty(),
    }
}

fn collect_registrations(context: &Context, kernel: &Module, table: &str) -> (found: Vec<Callback>)
    ensures
        callback_views(found@) == linked_registrations(context, kernel, table),
{
    let mut found: Vec<Callback> = Vec::new();
    if let Some(head) = context.typed_symbol(kernel, "CallbackListHead", "_LIST_ENTRY") {
        if let Some(entries) = walk_list(
            context,
            head,
            context.table_type(table, "_CM_CALLBACK_ENTRY"),
            "Link",
            true,
        ) {
            for i in 0..entries.len()
                invariant
                    callback_views(found@) == altitudes_among(context, entries@, i as int),
            {
                let callback = read_altitude(context, entries[i]);
                add_found(&mut found, callback);
            }
        }
    }
    found
}

pub open spec fn spec_registration_count(context: &Context, kernel: &Module) -> u64 {
    match context.typed_symbol(kernel, "CmpCallBackCount", "unsigned int") {
        Some(value) => match context.as_u64(value) {
            Some(count) => count,
            None => 0,
        },
        None => 0,
    }
}

/// How many routines are registered for registry access.
#[verifier::when_used_as_spec(spec_registration_count)]
pub fn registration_count(context: &Context, kernel: &Module) -> (count: u64)
    ensures
        count == spec_registration_count(context, kernel),
{
    match context.typed_symbol(kernel, "CmpCallBackCount", "unsigned int") {
        Some(value) => match context.as_u64(value) {
            Some(count) => count,
            None => 0,
        },
        None => 0,
    }
}

/// The routines called on every registry access. The older kernels keep a vector
/// of registrations. Later kernels link them.
pub open spec fn registered(context: &Context, kernel: &Module, table: &str) -> Seq<CallbackView> {
    if registration_count(context, kernel) == 0 {
        Seq::empty()
    } else {
        match context.symbol_offset(kernel, "CmpCallBackVector") {
            Some(base) => slot_callbacks(
                context,
                kernel,
                context.table_type(table, "_EX_CALLBACK_ROUTINE_BLOCK"),
                base,
                "Function",
                "CmRegisterCallback"@,
                registration_count(context, kernel) as nat,
            ),
            None => linked_registrations(context, kernel, table),
        }
    }
}

/// The routines called on every registry access.
pub fn registry_callbacks(context: &Context, kernel: &Module, table: &str) -> (found: Vec<Callback>)
    ensures
        callback_views(found@) == registered(context, kernel, table),
{
    let count: u64 = registration_count(context, kernel);
    if count == 0 {
        return Vec::new();
    }
    match context.symbol_offset(kernel, "CmpCallBackVector") {
        Some(base) => {
            let mut found: Vec<Callback> = Vec::new();
            add_slots(
                context,
                kernel,
                context.table_type(table, "_EX_CALLBACK_ROUTINE_BLOCK"),
                base,
                "Function",
                "CmRegisterCallback",
                count,
                &mut found,
            );
            assert(callback_views(found@) =~= registered(context, kernel, table));
            found
        },
        None => collect_registrations(context, kernel, table),
    }
}

/// The shutdown handler a packet registers, and the driver it belongs to. The
/// handler is the driver's own, and a driver with no name of its own cannot be
/// named.
pub open spec fn shutdown_of(context: &Context, kernel: &Module, packet: Object) -> Option<
    CallbackView,
> {
    match context.member(packet, "DeviceObject") {
        Some(device) => match context.dereference_as(
            device,
            context.get_type(kernel.table, "_DEVICE_OBJECT"),
        ) {
            Some(device) => match context.member_target(device, "DriverObject") {
                Some(driver) => match indexed_pointer(
                    context,
                    driver,
                    "MajorFunction",
                    IRP_MJ_SHUTDOWN,
                ) {
                    Some(address) => Some(
                        CallbackView {
                            kind: Cell::Text("IoRegisterShutdownNotification"@),
                            address,
                            detail: match context.member_unicode_of(driver, "DriverName") {
                                Some(name) if name.len() > 0 => Cell::Text(name),
                                _ => Cell::unreadable(),
                            },
                        },
                    ),
                    None => None,
                },
                None => None,
            },
            None => None,
        },
        None => None,
    }
}

pub open spec fn spec_indexed_pointer(context: &Context, object: Object, name: &str, at: u64) -> Option<
    u64,
> {
    match context.member(object, name) {
        Some(array) => match context.index(array, at) {
            Some(entry) => context.pointer_value(entry),
            None => None,
        },
        None => None,
    }
}

/// The address that an element of an array of pointers holds.
#[verifier::when_used_as_spec(spec_indexed_pointer)]
pub fn indexed_pointer(context: &Context, object: Object, name: &str, at: u64) -> (address: Option<
    u64,
>)
    ensures
        address == spec_indexed_pointer(context, object, name, at),
{
    match context.member(object, name) {
        Some(array) => match context.index(array, at) {
            Some(entry) => context.pointer_value(entry),
            None => None,
        },
        None => None,
    }
}

/// The shutdown handler a packet registers, and the driver it belongs to.
pub fn shutdown_packet(context: &Context, kernel: &Module, packet: Object) -> (callback: Option<
    Callback,
>)
    ensures
        found_view(callback) == shutdown_of(context, kernel, packet),
{
    match context.member(packet, "DeviceObject") {
        Some(device) => match context.dereference_as(
            device,
            context.get_type(kernel.table, "_DEVICE_OBJECT"),
        ) {
            Some(device) => match context.member_target(device, "DriverObject") {
                Some(driver) => match indexed_pointer(
                    context,
                    driver,
                    "MajorFunction",
                    IRP_MJ_SHUTDOWN,
                ) {
                    Some(address) => {
                        let detail = match context.member_unicode(driver, "DriverName") {
                            Some(name) => if name.unicode_len() > 0 {
                                Value::String(name)
                            } else {
                                Value::unreadable()
                            },
                            None => Value::unreadable(),
                        };
                        Some(
                            Callback {
                                kind: Value::string("IoRegisterShutdownNotification"),
                                address,
                                detail,
                            },
                        )
                    },
                    None => None,
                },
                None => None,
            },
            None => None,
        },
        None => None,
    }
}

/// The name of the driver that registered a device notification.
pub open spec fn driver_cell(context: &Context, kernel: &Module, driver: Object) -> Cell {
    match context.object_header(driver, kernel) {
        Some(header) => match plugins::windows::handles::kind_of_header(
            context,
            header,
            context.windows.type_names@,
            context.windows.cookie,
        ) {
            Some(kind) => if kind == "Driver"@ {
                Cell::text_or_unreadable(symbols::windows::named_by_header(context, header))
            } else {
                Cell::not_applicable()
            },
            None => Cell::unreadable(),
        },
        None => Cell::unreadable(),
    }
}

/// The name of the driver that registered a device notification.
pub fn driver_name(context: &Context, kernel: &Module, driver: Object) -> (name: Value)
    ensures
        name@ == driver_cell(context, kernel, driver),
{
    match context.object_header(driver, kernel) {
        Some(header) => match object_type_of_header(
            context,
            header,
            &context.windows.type_names,
            context.windows.cookie,
        ) {
            Some(kind) => if same_text(&kind, "Driver") {
                Value::text_or_unreadable(&header_name(context, header))
            } else {
                Value::not_applicable()
            },
            None => Value::unreadable(),
        },
        None => Value::unreadable(),
    }
}

/// A device notification. The driver that registered names the callback, and the
/// event it registered for is its kind.
pub open spec fn notification_of(context: &Context, kernel: &Module, object: Object) -> Option<
    CallbackView,
> {
    match (context.member(object, "EventCategory"), context.member_pointer(object, "CallbackRoutine")) {
        (Some(category), Some(routine)) => Some(
            CallbackView {
                kind: match context.choice_of(category) {
                    Some(name) => Cell::Text(name),
                    None => Cell::unparsable(),
                },
                address: routine,
                detail: match context.member_target(object, "DriverObject") {
                    Some(driver) => if context.is_readable(driver) {
                        driver_cell(context, kernel, driver)
                    } else {
                        Cell::unreadable()
                    },
                    None => Cell::unreadable(),
                },
            },
        ),
        _ => None,
    }
}

fn read_notification(context: &Context, kernel: &Module, object: Object) -> (callback: Option<Callback>)
    ensures
        found_view(callback) == notification_of(context, kernel, object),
{
    match (context.member(object, "EventCategory"), context.member_pointer(object, "CallbackRoutine")) {
        (Some(category), Some(routine)) => {
            let kind = match context.enum_name(category) {
                Some(name) => Value::String(name),
                None => Value::unparsable(),
            };
            let detail = match context.member_target(object, "DriverObject") {
                Some(driver) => if context.is_readable(driver) {
                    driver_name(context, kernel, driver)
                } else {
                    Value::unreadable()
                },
                None => Value::unreadable(),
            };
            Some(Callback { kind, address: routine, detail })
        },
        _ => None,
    }
}

/// A callback whose routine a member of a structure holds.
pub open spec fn plain_callback(context: &Context, object: Object, member: &str, says: &str) -> Option<
    CallbackView,
> {
    match context.member_pointer(object, member) {
        Some(routine) => Some(
            CallbackView {
                kind: Cell::Text(says@),
                address: routine,
                detail: Cell::not_applicable(),
            },
        ),
        None => None,
    }
}

fn read_plain(context: &Context, object: Object, member: &str, says: &str) -> (callback: Option<
    Callback,
>)
    ensures
        found_view(callback) == plain_callback(context, object, member, says),
{
    match context.member_pointer(object, member) {
        Some(routine) => Some(
            Callback {
                kind: Value::string(says),
                address: routine,
                detail: Value::not_applicable(),
            },
        ),
        None => None,
    }
}

/// The callback that an object found in the pools registers.
pub open spec fn pooled_callback(context: &Context, kernel: &Module, object: Object) -> Option<
    CallbackView,
> {
    let kind = context.kind_text(object.kind);
    if text::ends(kind, "_SHUTDOWN_PACKET"@) {
        match shutdown_of(context, kernel, object) {
            Some(callback) => Some(callback),
            None => Some(
                CallbackView {
                    kind: Cell::Text("IoRegisterShutdownNotification"@),
                    address: object.offset,
                    detail: Cell::not_applicable(),
                },
            ),
        }
    } else if text::ends(kind, "_NOTIFICATION_PACKET"@) {
        plain_callback(context, object, "NotificationRoutine", "IoRegisterFsRegistrationChange")
    } else if text::ends(kind, "_NOTIFY_ENTRY_HEADER"@) {
        notification_of(context, kernel, object)
    } else if text::ends(kind, "_GENERIC_CALLBACK"@) {
        plain_callback(context, object, "Callback", "GenericKernelCallback")
    } else if text::ends(kind, "_DBGPRINT_CALLBACK"@) {
        plain_callback(context, object, "Function", "DbgSetDebugPrintCallback")
    } else {
        None
    }
}

fn read_pooled(context: &Context, kernel: &Module, object: Object) -> (callback: Option<Callback>)
    ensures
        found_view(callback) == pooled_callback(context, kernel, object),
{
    let kind = context.kind_name(object.kind);
    if ends_with(&kind, "_SHUTDOWN_PACKET") {
        match shutdown_packet(context, kernel, object) {
            Some(callback) => Some(callback),
            None => Some(
                Callback {
                    kind: Value::string("IoRegisterShutdownNotification"),
                    address: object.offset,
                    detail: Value::not_applicable(),
                },
            ),
        }
    } else if ends_with(&kind, "_NOTIFICATION_PACKET") {
        read_plain(context, object, "NotificationRoutine", "IoRegisterFsRegistrationChange")
    } else if ends_with(&kind, "_NOTIFY_ENTRY_HEADER") {
        read_notification(context, kernel, object)
    } else if ends_with(&kind, "_GENERIC_CALLBACK") {
        read_plain(context, object, "Callback", "GenericKernelCallback")
    } else if ends_with(&kind, "_DBGPRINT_CALLBACK") {
        read_plain(context, object, "Function", "DbgSetDebugPrintCallback")
    } else {
        None
    }
}

/// The callbacks that the first of some finds in the pools register.
pub open spec fn pooled_among(
    context: &Context,
    kernel: &Module,
    hits: Seq<&PoolHit>,
    count: int,
) -> Seq<CallbackView>
    decreases count,
{
    if count <= 0 {
        Seq::empty()
    } else {
        with_found(
            pooled_among(context, kernel, hits, count - 1),
            pooled_callback(context, kernel, hits[count - 1].object),
        )
    }
}

pub open spec fn spec_structure_size(context: &Context, table: &str, name: &str) -> u64 {
    match context.table_type(table, name) {
        Some(kind) => match context.size_of(kind) {
            Some(size) => size,
            None => 0,
        },
        None => 0,
    }
}

/// The size of a structure, or zero where it is not described.
#[verifier::when_used_as_spec(spec_structure_size)]
pub fn structure_size(context: &Context, table: &str, name: &str) -> (size: u64)
    ensures
        size == spec_structure_size(context, table, name),
{
    match context.table_type(table, name) {
        Some(kind) => match context.size_of(kind) {
            Some(size) => size,
            None => 0,
        },
        None => 0,
    }
}

/// An allocation of a size at least, in whichever pool it lies.
#[verifier::allow_in_spec]
pub fn anywhere(
    tag: u32,
    structure: &'static str,
    table: usize,
    least: u64,
    most: Option<u64>,
    index: Option<u64>,
) -> (constraint: PoolConstraint)
    returns
        (PoolConstraint {
            tag,
            structure,
            pool: NONPAGED | PAGED | FREE,
            table,
            least: Some(least),
            most,
            least_index: index,
            most_index: index,
        }),
{
    PoolConstraint {
        tag,
        structure,
        pool: NONPAGED | PAGED | FREE,
        table,
        least: Some(least),
        most,
        least_index: index,
        most_index: index,
    }
}

/// The pool allocations that hold callbacks: `IoFs`, `IoSh`, `Cbrb`, `DbCb`,
/// `Pnp9`, `PnpD` and `PnpC`.
pub open spec fn callback_constraints(context: &Context, table: &str, index: usize) -> Seq<
    PoolConstraint,
> {
    seq![
        anywhere(
            0x73466f49,
            "_NOTIFICATION_PACKET",
            index,
            structure_size(context, table, "_NOTIFICATION_PACKET"),
            None,
            None,
        ),
        anywhere(
            0x68536f49,
            "_SHUTDOWN_PACKET",
            index,
            structure_size(context, table, "_SHUTDOWN_PACKET"),
            None,
            Some(0),
        ),
        anywhere(
            0x62726243,
            "_GENERIC_CALLBACK",
            index,
            structure_size(context, table, "_GENERIC_CALLBACK"),
            None,
            None,
        ),
        anywhere(0x62436244, "_DBGPRINT_CALLBACK", index, 0x20, Some(0x40), None),
        anywhere(0x39706e50, "_NOTIFY_ENTRY_HEADER", index, 0x30, None, Some(1)),
        anywhere(0x44706e50, "_NOTIFY_ENTRY_HEADER", index, 0x40, None, Some(1)),
        anywhere(0x43706e50, "_NOTIFY_ENTRY_HEADER", index, 0x38, None, Some(1)),
    ]
}

/// The pool allocations that hold callbacks.
pub fn scan_constraints(context: &Context, table: &str, index: usize) -> (constraints: Vec<
    PoolConstraint,
>)
    ensures
        constraints@ == callback_constraints(context, table, index),
{
    vec![
        anywhere(
            0x73466f49,
            "_NOTIFICATION_PACKET",
            index,
            structure_size(context, table, "_NOTIFICATION_PACKET"),
            None,
            None,
        ),
        anywhere(
            0x68536f49,
            "_SHUTDOWN_PACKET",
            index,
            structure_size(context, table, "_SHUTDOWN_PACKET"),
            None,
            Some(0),
        ),
        anywhere(
            0x62726243,
            "_GENERIC_CALLBACK",
            index,
            structure_size(context, table, "_GENERIC_CALLBACK"),
            None,
            None,
        ),
        anywhere(0x62436244, "_DBGPRINT_CALLBACK", index, 0x20, Some(0x40), None),
        anywhere(0x39706e50, "_NOTIFY_ENTRY_HEADER", index, 0x30, None, Some(1)),
        anywhere(0x44706e50, "_NOTIFY_ENTRY_HEADER", index, 0x40, None, Some(1)),
        anywhere(0x43706e50, "_NOTIFY_ENTRY_HEADER", index, 0x38, None, Some(1)),
    ]
}

/// The callbacks that are only found by searching the pools for them.
pub open spec fn pooled(context: &Context, kernel: &Module, table: &str, index: usize) -> Seq<
    CallbackView,
> {
    match symbols::windows::scanned(context, callback_constraints(context, table, index)) {
        Some(hits) => pooled_among(context, kernel, hits, hits.len() as int),
        None => Seq::empty(),
    }
}

/// The callbacks that are only found by searching the pools for them.
pub fn scan(context: &Context, kernel: &Module, table: &str, index: usize) -> (found: Vec<Callback>)
    ensures
        callback_views(found@) == pooled(context, kernel, table, index),
{
    let mut found: Vec<Callback> = Vec::new();
    if let Some(hits) = generate_pool_scan(context, &scan_constraints(context, table, index)) {
        for i in 0..hits.len()
            invariant
                callback_views(found@) == pooled_among(context, kernel, hits@, i as int),
        {
            let callback = read_pooled(context, kernel, hits[i].object);
            add_found(&mut found, callback);
        }
    }
    found
}

/// Every callback, by where it is registered.
pub open spec fn all_callbacks(context: &Context, kernel: &Module, table: &str, index: usize) -> Seq<
    CallbackView,
> {
    notified(context, kernel, table) + bugchecks(
        context,
        kernel,
        context.table_type(table, "_KBUGCHECK_CALLBACK_RECORD"),
        "KeBugCheckCallbackListHead",
        kernel.offset,
    ) + bugchecks(
        context,
        kernel,
        context.table_type(table, "_KBUGCHECK_REASON_CALLBACK_RECORD"),
        "KeBugCheckReasonCallbackListHead",
        0,
    ) + registered(context, kernel, table) + pooled(context, kernel, table, index)
}

fn append_callbacks(list: &mut Vec<Callback>, more: Vec<Callback>)
    ensures
        callback_views(final(list)@) == callback_views(old(list)@) + callback_views(more@),
{
    let ghost before = callback_views(list@);
    let ghost added = callback_views(more@);
    let mut more = more;
    list.append(&mut more);
    assert(callback_views(list@) =~= before + added);
}

fn collect_callbacks(context: &Context, kernel: &Module, table: &str, index: usize) -> (list: Vec<
    Callback,
>)
    ensures
        callback_views(list@) == all_callbacks(context, kernel, table, index),
{
    let mut list = notify_routines(context, kernel, table);
    append_callbacks(&mut list, bugcheck_callbacks(context, kernel, table));
    append_callbacks(&mut list, bugcheck_reason_callbacks(context, kernel, table));
    append_callbacks(&mut list, registry_callbacks(context, kernel, table));
    append_callbacks(&mut list, scan(context, kernel, table, index));
    list
}

/// A row for a callback.
pub open spec fn callback_row(callback: CallbackView, owner: AttributionView) -> Seq<Cell> {
    seq![callback.kind, Cell::hex(callback.address), owner.module, owner.symbol, callback.detail]
}

/// A report with the first of the attributions of a callback.
pub open spec fn with_owners(
    table: Table,
    callback: CallbackView,
    owners: Seq<AttributionView>,
    count: int,
) -> Table
    decreases count,
{
    if count <= 0 {
        table
    } else {
        with_owners(table, callback, owners, count - 1).push(
            0,
            callback_row(callback, owners[count - 1]),
        )
    }
}

/// A report with one more callback.
pub open spec fn with_callback(
    modules: Seq<CodeModule>,
    table: Table,
    callback: CallbackView,
) -> Table {
    let owners = plugins::windows::attributed(modules, callback.address);
    with_owners(table, callback, owners, owners.len() as int)
}

fn add_row(modules: &Vec<CodeModule>, grid: &mut TreeGrid, callback: &Callback)
    ensures
        final(grid)@ == with_callback(modules@, old(grid)@, callback@),
{
    let ghost start = grid@;
    let owners = attribute(modules, callback.address);
    let ghost said = plugins::windows::attribution_views(owners@);
    for i in 0..owners.len()
        invariant
            said == plugins::windows::attribution_views(owners@),
            grid@ == with_owners(start, callback@, said, i as int),
    {
        let row = Row::new().with(callback.kind.copy()).with(Value::hex(callback.address)).with(
            owners[i].module.copy(),
        ).with(owners[i].symbol.copy()).with(callback.detail.copy());
        assert(row@ == callback_row(callback@, said[i as int]));
        grid.push(0, row);
    }
}

/// The report on the first of some callbacks.
pub open spec fn reported(
    modules: Seq<CodeModule>,
    headings: Seq<Column>,
    callbacks: Seq<CallbackView>,
    count: int,
) -> Table
    decreases count,
{
    if count <= 0 {
        Table::empty(headings)
    } else {
        with_callback(
            modules,
            reported(modules, headings, callbacks, count - 1),
            callbacks[count - 1],
        )
    }
}

impl Plugin for Callbacks {
    open spec fn named(&self) -> Seq<char> {
        "windows.callbacks.Callbacks"@
    }

    open spec fn described(&self) -> Seq<char> {
        "Lists kernel callbacks and notification routines."@
    }

    open spec fn needs(&self) -> Seq<RequirementView> {
        seq![RequirementView::kernel()]
    }

    open spec fn headings(&self) -> Seq<Column> {
        seq![
            Column::string("Type"),
            Column::new("Callback", ColumnType::UInt),
            Column::string("Module"),
            Column::string("Symbol"),
            Column::string("Detail"),
        ]
    }

    open spec fn system(&self) -> OperatingSystem {
        OperatingSystem::Windows
    }

    open spec fn report(&self, context: &Context, config: &Configuration) -> Result<Table, Failure> {
        match plugins::windows::kernel_of(context, config) {
            // The callback structures are not in the kernel's own symbols. They
            // ship as a small table of their own that refers back to it.
            Some(kernel) => match (
                context.table_named(callback_table(context, &kernel)),
                context.windows.code,
            ) {
                (Some(index), Some(modules)) => {
                    let callbacks = all_callbacks(
                        context,
                        &kernel,
                        callback_table(context, &kernel),
                        index,
                    );
                    Ok(reported(modules@, self.headings(), callbacks, callbacks.len() as int))
                },
                _ => Err(Failure::Unavailable),
            },
            None => Err(plugins::windows::no_kernel()),
        }
    }

    fn name(&self) -> (name: &'static str) {
        "windows.callbacks.Callbacks"
    }

    fn description(&self) -> (description: &'static str) {
        "Lists kernel callbacks and notification routines."
    }

    fn requirements(&self) -> (requirements: Vec<Requirement>) {
        vec![Requirement::kernel()]
    }

    fn operating_system(&self) -> (system: OperatingSystem) {
        OperatingSystem::Windows
    }

    fn columns(&self) -> (columns: Vec<Column>) {
        vec![
            Column::string("Type"),
            Column::new("Callback", ColumnType::UInt),
            Column::string("Module"),
            Column::string("Symbol"),
            Column::string("Detail"),
        ]
    }

    fn epilog(&self) -> (epilog: Option<&'static str>) {
        None
    }

    fn timeline(&self, context: &Context, config: &Configuration) -> (timeline: Option<
        plugins::Timeline,
    >) {
        None
    }

    fn needs_kernel(&self) -> (needed: bool) {
        false
    }

    fn run(&self, context: &Context, config: &Configuration) -> (result: Result<TreeGrid, VolatilityError>) {
        let kernel = kernel_module(context, config)?;
        let table = callback_table(context, kernel);
        let index = match context.table_named(table) {
            Some(index) => index,
            None => return Err(VolatilityError::Unavailable),
        };
        let modules = match &context.windows.code {
            Some(modules) => modules,
            None => return Err(VolatilityError::Unavailable),
        };
        let callbacks = collect_callbacks(context, kernel, table, index);
        let mut grid = TreeGrid::new(self.columns());
        let ghost headings = self.headings();
        let ghost said = callback_views(callbacks@);
        for i in 0..callbacks.len()
            invariant
                said == callback_views(callbacks@),
                grid@ == reported(modules@, headings, said, i as int),
        {
            add_row(modules, &mut grid, &callbacks[i]);
        }
        Ok(grid)
    }
}

} // verus!
