//! Laws on the kernel's callbacks.

use crate::config::Configuration;
use crate::context::{Context, Module, Object, TypeId};
use crate::laws::windows::law_code_belongs_to_no_other_module;
use crate::plugins::windows::callbacks::{
    all_callbacks, array_callbacks, callback_table, fast_reference, notified,
    pooled_callback, referenced, registered, reported, slot_callbacks, with_owners, CallbackView,
    Callbacks,
};
use crate::plugins::windows::{attributed, kernel_of, AttributionView};
use crate::plugins::Plugin;
use crate::renderers::{Cell, Column, ColumnType, Table};
use crate::symbols::windows::CodeModule;
use crate::text;
use vstd::prelude::*;

verus! {

/// Whether a report has a row of a kind, an address and a detail, for a module and a name
/// that its code is attributed to.
pub open spec fn tells_of(table: Table, callback: CallbackView, owner: AttributionView) -> bool {
    exists|n: int|
        0 <= n < table.lines.len() && (#[trigger] table.lines[n]).cells == seq![
            callback.kind,
            Cell::hex(callback.address),
            owner.module,
            owner.symbol,
            callback.detail,
        ]
}

/// The five columns of the listing.
pub proof fn law_columns_of_callbacks()
    ensures
        Callbacks.headings() == seq![
            Column::string("Type"),
            Column::new("Callback", ColumnType::UInt),
            Column::string("Module"),
            Column::string("Symbol"),
            Column::string("Detail"),
        ],
{
}

proof fn lemma_owners(
    table: Table,
    callback: CallbackView,
    owners: Seq<AttributionView>,
    count: int,
    k: int,
)
    requires
        count <= owners.len(),
    ensures
        crate::laws::grows(table, with_owners(table, callback, owners, count)),
        0 <= k < count ==> tells_of(
            with_owners(table, callback, owners, count),
            callback,
            owners[k],
        ),
    decreases count,
{
    if count > 0 {
        lemma_owners(table, callback, owners, count - 1, k);
        let before = with_owners(table, callback, owners, count - 1);
        let after = with_owners(table, callback, owners, count);
        if k == count - 1 {
            assert(after.lines[before.lines.len() as int].cells =~= seq![
                callback.kind,
                Cell::hex(callback.address),
                owners[k].module,
                owners[k].symbol,
                callback.detail,
            ]);
        } else if 0 <= k < count - 1 {
            lemma_tells(before, after, callback, owners[k]);
        }
    }
}

proof fn lemma_tells(before: Table, after: Table, callback: CallbackView, owner: AttributionView)
    requires
        crate::laws::grows(before, after),
        tells_of(before, callback, owner),
    ensures
        tells_of(after, callback, owner),
{
    let cells = seq![
        callback.kind,
        Cell::hex(callback.address),
        owner.module,
        owner.symbol,
        callback.detail,
    ];
    let n = choose|n: int|
        0 <= n < before.lines.len() && (#[trigger] before.lines[n]).cells == cells;
    assert(after.lines[n].cells == cells);
}

proof fn lemma_reported(
    modules: Seq<CodeModule>,
    headings: Seq<Column>,
    callbacks: Seq<CallbackView>,
    count: int,
    i: int,
    k: int,
)
    requires
        0 <= i < count <= callbacks.len(),
        0 <= k < attributed(modules, callbacks[i].address).len(),
    ensures
        tells_of(
            reported(modules, headings, callbacks, count),
            callbacks[i],
            attributed(modules, callbacks[i].address)[k],
        ),
    decreases count,
{
    let before = reported(modules, headings, callbacks, count - 1);
    let last = callbacks[count - 1];
    let owners = attributed(modules, last.address);
    if i == count - 1 {
        lemma_owners(before, last, owners, owners.len() as int, k);
    } else {
        lemma_reported(modules, headings, callbacks, count - 1, i, k);
        lemma_owners(before, last, owners, owners.len() as int, 0);
        lemma_tells(
            before,
            reported(modules, headings, callbacks, count),
            callbacks[i],
            attributed(modules, callbacks[i].address)[k],
        );
    }
}

/// Every callback that was found has a row for each module and name that its code is
/// attributed to, and at least one.
pub proof fn law_every_callback_is_reported(
    context: &Context,
    config: &Configuration,
    kernel: Module,
    index: usize,
    modules: Vec<CodeModule>,
    i: int,
)
    requires
        kernel_of(context, config) == Some(kernel),
        context.table_named(callback_table(context, &kernel)) == Some(index),
        context.windows.code == Some(modules),
        0 <= i < all_callbacks(context, &kernel, callback_table(context, &kernel), index).len(),
    ensures
        Callbacks.report(context, config) is Ok,
        ({
            let callback = all_callbacks(
                context,
                &kernel,
                callback_table(context, &kernel),
                index,
            )[i];
            &&& attributed(modules@, callback.address).len() > 0
            &&& forall|k: int|
                0 <= k < attributed(modules@, callback.address).len() ==> tells_of(
                    Callbacks.report(context, config)->Ok_0,
                    callback,
                    #[trigger] attributed(modules@, callback.address)[k],
                )
        }),
{
    let callbacks = all_callbacks(context, &kernel, callback_table(context, &kernel), index);
    law_code_belongs_to_no_other_module(modules@, callbacks[i].address);
    assert forall|k: int| 0 <= k < attributed(modules@, callbacks[i].address).len() implies tells_of(
        Callbacks.report(context, config)->Ok_0,
        callbacks[i],
        #[trigger] attributed(modules@, callbacks[i].address)[k],
    ) by {
        lemma_reported(
            modules@,
            Callbacks.headings(),
            callbacks,
            callbacks.len() as int,
            i,
            k,
        );
    }
}

/// Whether a slot of eight bytes holds a reference to a block, seen as a type, one of
/// whose members is the address of a routine. The lowest four bits of a reference count
/// how often it is held.
#[verifier::opaque]
pub open spec fn slot_leads_to(
    context: &Context,
    kernel: &Module,
    slot: u64,
    kind: TypeId,
    member: &str,
    routine: u64,
) -> bool {
    let reference = Object {
        kind: context.get_type(kernel.table, "_EX_FAST_REF")->0,
        layer: kernel.layer,
        native: kernel.layer,
        offset: slot,
    };
    &&& context.get_type(kernel.table, "_EX_FAST_REF") is Some
    &&& context.member_pointer(reference, "Object") matches Some(raw) && context.member_pointer(
        Object {
            kind,
            layer: kernel.layer,
            native: kernel.layer,
            offset: (raw - raw % 16) as u64,
        },
        member,
    ) == Some(routine)
}

proof fn lemma_place(base: u64, slot: u64)
    ensures
        base.wrapping_add(slot.wrapping_mul(8)) == (base + 8 * slot) % 0x1_0000_0000_0000_0000,
{
    vstd::arithmetic::div_mod::lemma_add_mod_noop(base as int, 8 * slot, 0x1_0000_0000_0000_0000);
}

proof fn lemma_referenced(
    context: &Context,
    kernel: &Module,
    slot: u64,
    kind: TypeId,
    member: &str,
    routine: u64,
)
    requires
        routine != 0,
        slot_leads_to(context, kernel, slot, kind, member, routine),
    ensures
        referenced(context, kernel, Some(kind), slot, member) == Some(routine),
{
    reveal(slot_leads_to);
    let reference = Object {
        kind: context.get_type(kernel.table, "_EX_FAST_REF")->0,
        layer: kernel.layer,
        native: kernel.layer,
        offset: slot,
    };
    let raw = context.member_pointer(reference, "Object")->0;
    assert(raw & 0xffff_ffff_ffff_fff0u64 == raw - raw % 16) by (bit_vector);
    assert(fast_reference(context, reference) == Some((raw - raw % 16) as u64));
}

#[verifier::spinoff_prover]
proof fn lemma_slots(
    context: &Context,
    kernel: &Module,
    kind: TypeId,
    base: u64,
    member: &str,
    says: Seq<char>,
    count: nat,
    slot: u64,
    routine: u64,
)
    requires
        slot < count,
        routine != 0,
        slot_leads_to(
            context,
            kernel,
            ((base + 8 * slot) % 0x1_0000_0000_0000_0000) as u64,
            kind,
            member,
            routine,
        ),
    ensures
        slot_callbacks(context, kernel, Some(kind), base, member, says, count).contains(
            CallbackView {
                kind: Cell::Text(says),
                address: routine,
                detail: Cell::not_applicable(),
            },
        ),
    decreases count,
{
    let wanted = CallbackView {
        kind: Cell::Text(says),
        address: routine,
        detail: Cell::not_applicable(),
    };
    let less = (count - 1) as nat;
    let before = slot_callbacks(context, kernel, Some(kind), base, member, says, less);
    let all = slot_callbacks(context, kernel, Some(kind), base, member, says, count);
    if slot == less {
        lemma_place(base, slot);
        lemma_referenced(
            context,
            kernel,
            base.wrapping_add(slot.wrapping_mul(8)),
            kind,
            member,
            routine,
        );
        assert(all[before.len() as int] == wanted);
    } else {
        lemma_slots(context, kernel, kind, base, member, says, less, slot, routine);
        let n = choose|n: int| 0 <= n < before.len() && before[n] == wanted;
        assert(all[n] == wanted);
    }
}

/// The three arrays of routines that are told of new images, threads and processes, and
/// how many slots each has.
pub open spec fn array_of(which: int) -> (&'static str, int) {
    if which == 0 {
        ("PspLoadImageNotifyRoutine", 8)
    } else if which == 1 {
        ("PspCreateThreadNotifyRoutine", 64)
    } else {
        ("PspCreateProcessNotifyRoutine", 64)
    }
}

/// Each slot of each of the three arrays that the kernel names is read: one that leads to
/// a routine gives a callback that is named after the array.
pub proof fn law_every_notification_slot_is_read(
    context: &Context,
    kernel: &Module,
    table: &str,
    index: usize,
    kind: TypeId,
    which: int,
    base: u64,
    slot: u64,
    routine: u64,
)
    requires
        0 <= which < 3,
        context.table_type(table, "_GENERIC_CALLBACK") == Some(kind),
        context.symbol_offset(kernel, array_of(which).0) == Some(base),
        slot < array_of(which).1,
        routine != 0,
        slot_leads_to(
            context,
            kernel,
            ((base + 8 * slot) % 0x1_0000_0000_0000_0000) as u64,
            kind,
            "Callback",
            routine,
        ),
    ensures
        all_callbacks(context, kernel, table, index).contains(
            CallbackView {
                kind: Cell::Text(array_of(which).0@),
                address: routine,
                detail: Cell::not_applicable(),
            },
        ),
{
    let wanted = CallbackView {
        kind: Cell::Text(array_of(which).0@),
        address: routine,
        detail: Cell::not_applicable(),
    };
    lemma_slots(
        context,
        kernel,
        kind,
        base,
        "Callback",
        array_of(which).0@,
        array_of(which).1 as nat,
        slot,
        routine,
    );
    let images = array_callbacks(context, kernel, table, "PspLoadImageNotifyRoutine", 8);
    let threads = array_callbacks(context, kernel, table, "PspCreateThreadNotifyRoutine", 64);
    let processes = array_callbacks(context, kernel, table, "PspCreateProcessNotifyRoutine", 64);
    let all = all_callbacks(context, kernel, table, index);
    let notices = notified(context, kernel, table);
    if which == 0 {
        let n = choose|n: int| 0 <= n < images.len() && images[n] == wanted;
        assert(notices[n] == wanted);
        assert(all[n] == wanted);
    } else if which == 1 {
        let n = choose|n: int| 0 <= n < threads.len() && threads[n] == wanted;
        assert(notices[images.len() + n] == wanted);
        assert(all[images.len() + n] == wanted);
    } else {
        let n = choose|n: int| 0 <= n < processes.len() && processes[n] == wanted;
        assert(notices[images.len() + threads.len() + n] == wanted);
        assert(all[images.len() + threads.len() + n] == wanted);
    }
}

/// Whether a report has a row of a kind and an address.
pub open spec fn has_callback(table: Table, kind: Cell, address: u64) -> bool {
    exists|n: int|
        0 <= n < table.lines.len() && (#[trigger] table.lines[n]).cells[0] == kind
            && table.lines[n].cells[1] == Cell::hex(address)
}

proof fn lemma_told(table: Table, callback: CallbackView, owner: AttributionView)
    requires
        tells_of(table, callback, owner),
    ensures
        has_callback(table, callback.kind, callback.address),
{
    let cells = seq![
        callback.kind,
        Cell::hex(callback.address),
        owner.module,
        owner.symbol,
        callback.detail,
    ];
    let n = choose|n: int| 0 <= n < table.lines.len() && (#[trigger] table.lines[n]).cells == cells;
    assert(table.lines[n].cells[0] == callback.kind);
}

proof fn lemma_row(
    context: &Context,
    config: &Configuration,
    kernel: Module,
    index: usize,
    modules: Vec<CodeModule>,
    wanted: CallbackView,
)
    requires
        kernel_of(context, config) == Some(kernel),
        context.table_named(callback_table(context, &kernel)) == Some(index),
        context.windows.code == Some(modules),
        all_callbacks(context, &kernel, callback_table(context, &kernel), index).contains(wanted),
    ensures
        Callbacks.report(context, config) matches Ok(table) && has_callback(
            table,
            wanted.kind,
            wanted.address,
        ),
{
    let all = all_callbacks(context, &kernel, callback_table(context, &kernel), index);
    let i = choose|i: int| 0 <= i < all.len() && all[i] == wanted;
    law_every_callback_is_reported(context, config, kernel, index, modules, i);
    let owner = attributed(modules@, wanted.address)[0];
    lemma_told(Callbacks.report(context, config)->Ok_0, wanted, owner);
}

/// A routine that is told of new images, threads or processes has a row in the report,
/// under the name of the array that it is registered in.
pub proof fn law_every_notification_routine_has_a_row(
    context: &Context,
    config: &Configuration,
    kernel: Module,
    index: usize,
    modules: Vec<CodeModule>,
    kind: TypeId,
    which: int,
    base: u64,
    slot: u64,
    routine: u64,
)
    requires
        kernel_of(context, config) == Some(kernel),
        context.table_named(callback_table(context, &kernel)) == Some(index),
        context.windows.code == Some(modules),
        0 <= which < 3,
        context.table_type(callback_table(context, &kernel), "_GENERIC_CALLBACK") == Some(kind),
        context.symbol_offset(&kernel, array_of(which).0) == Some(base),
        slot < array_of(which).1,
        routine != 0,
        slot_leads_to(
            context,
            &kernel,
            ((base + 8 * slot) % 0x1_0000_0000_0000_0000) as u64,
            kind,
            "Callback",
            routine,
        ),
    ensures
        Callbacks.report(context, config) matches Ok(table) && has_callback(
            table,
            Cell::Text(array_of(which).0@),
            routine,
        ),
{
    let table = callback_table(context, &kernel);
    law_every_notification_slot_is_read(
        context,
        &kernel,
        table,
        index,
        kind,
        which,
        base,
        slot,
        routine,
    );
    let wanted = CallbackView {
        kind: Cell::Text(array_of(which).0@),
        address: routine,
        detail: Cell::not_applicable(),
    };
    lemma_row(context, config, kernel, index, modules, wanted);
}

/// The older kernels keep the routines that are told of registry access in an array of as
/// many slots as they count.
pub proof fn law_every_registry_slot_is_read(
    context: &Context,
    kernel: &Module,
    table: &str,
    kind: TypeId,
    count: u64,
    counter: Object,
    base: u64,
    slot: u64,
    routine: u64,
)
    requires
        context.typed_symbol(kernel, "CmpCallBackCount", "unsigned int") == Some(counter),
        context.as_u64(counter) == Some(count),
        context.symbol_offset(kernel, "CmpCallBackVector") == Some(base),
        context.table_type(table, "_EX_CALLBACK_ROUTINE_BLOCK") == Some(kind),
        slot < count,
        routine != 0,
        slot_leads_to(
            context,
            kernel,
            ((base + 8 * slot) % 0x1_0000_0000_0000_0000) as u64,
            kind,
            "Function",
            routine,
        ),
    ensures
        registered(context, kernel, table).contains(
            CallbackView {
                kind: Cell::Text("CmRegisterCallback"@),
                address: routine,
                detail: Cell::not_applicable(),
            },
        ),
{
    lemma_slots(
        context,
        kernel,
        kind,
        base,
        "Function",
        "CmRegisterCallback"@,
        count as nat,
        slot,
        routine,
    );
}

/// Where there are no registrations for registry access, none is reported.
pub proof fn law_no_registry_callback_without_a_count(
    context: &Context,
    kernel: &Module,
    table: &str,
    counter: Object,
)
    requires
        context.typed_symbol(kernel, "CmpCallBackCount", "unsigned int") == Some(counter),
        context.as_u64(counter) == Some(0u64),
    ensures
        registered(context, kernel, table).len() == 0,
{
}

/// What the pools hold is told apart by its structure: each kind of packet registers
/// the routine that one of its members names.
pub proof fn law_pooled_structures_name_their_routine(
    context: &Context,
    kernel: &Module,
    object: Object,
    routine: u64,
)
    ensures
        context.kind_text(object.kind) == "_NOTIFICATION_PACKET"@ && context.member_pointer(
            object,
            "NotificationRoutine",
        ) == Some(routine) ==> pooled_callback(context, kernel, object) == Some(
            CallbackView {
                kind: Cell::Text("IoRegisterFsRegistrationChange"@),
                address: routine,
                detail: Cell::not_applicable(),
            },
        ),
        context.kind_text(object.kind) == "_GENERIC_CALLBACK"@ && context.member_pointer(
            object,
            "Callback",
        ) == Some(routine) ==> pooled_callback(context, kernel, object) == Some(
            CallbackView {
                kind: Cell::Text("GenericKernelCallback"@),
                address: routine,
                detail: Cell::not_applicable(),
            },
        ),
        context.kind_text(object.kind) == "_DBGPRINT_CALLBACK"@ && context.member_pointer(
            object,
            "Function",
        ) == Some(routine) ==> pooled_callback(context, kernel, object) == Some(
            CallbackView {
                kind: Cell::Text("DbgSetDebugPrintCallback"@),
                address: routine,
                detail: Cell::not_applicable(),
            },
        ),
        context.kind_text(object.kind) == "_SHUTDOWN_PACKET"@ ==> (pooled_callback(
            context,
            kernel,
            object,
        ) matches Some(callback) && callback.kind == Cell::Text("IoRegisterShutdownNotification"@)),
{
    reveal_strlit("_SHUTDOWN_PACKET");
    reveal_strlit("_NOTIFICATION_PACKET");
    reveal_strlit("_NOTIFY_ENTRY_HEADER");
    reveal_strlit("_GENERIC_CALLBACK");
    reveal_strlit("_DBGPRINT_CALLBACK");
    let kind = context.kind_text(object.kind);
    if kind == "_NOTIFICATION_PACKET"@ {
        lemma_not_ending(kind, "_SHUTDOWN_PACKET"@, 9);
        assert(kind.subrange(0, kind.len() as int) =~= kind);
    } else if kind == "_GENERIC_CALLBACK"@ {
        lemma_not_ending(kind, "_SHUTDOWN_PACKET"@, 1);
        lemma_not_ending(kind, "_NOTIFICATION_PACKET"@, 1);
        lemma_not_ending(kind, "_NOTIFY_ENTRY_HEADER"@, 1);
        assert(kind.subrange(0, kind.len() as int) =~= kind);
    } else if kind == "_DBGPRINT_CALLBACK"@ {
        lemma_not_ending(kind, "_SHUTDOWN_PACKET"@, 1);
        lemma_not_ending(kind, "_NOTIFICATION_PACKET"@, 1);
        lemma_not_ending(kind, "_NOTIFY_ENTRY_HEADER"@, 1);
        lemma_not_ending(kind, "_GENERIC_CALLBACK"@, 10);
        assert(kind.subrange(0, kind.len() as int) =~= kind);
    } else if kind == "_SHUTDOWN_PACKET"@ {
        assert(kind.subrange(0, kind.len() as int) =~= kind);
    }
}

/// Texts that differ in the character that stands some places in front of their ends do
/// not end in each other.
proof fn lemma_not_ending(whole: Seq<char>, part: Seq<char>, back: int)
    requires
        0 < back <= part.len(),
        back <= whole.len(),
        part[part.len() - back] != whole[whole.len() - back],
    ensures
        !text::ends(whole, part),
{
    if text::ends(whole, part) {
        let at = whole.len() - part.len();
        assert(whole.subrange(at, at + part.len())[part.len() - back] == part[part.len() - back]);
    }
}

} // verus!
