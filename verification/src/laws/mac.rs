//! Laws on the listings of a Mac image: processes, their files and memory, what is mounted,
//! the interfaces, and the tables of handlers.

use crate::config::Configuration;
use crate::context::{Context, Module, Object};
use crate::laws::{
    adds, cells_of, flat, lemma_adds_none, lemma_adds_one, lemma_flat_adds, names_of,
};
use crate::plugins::mac::check_syscall::CheckSyscall;
use crate::plugins::mac::check_trap_table::CheckTrapTable;
use crate::plugins::mac::ifconfig::{self, IfConfig};
use crate::plugins::mac::lsmod::{self, Lsmod};
use crate::plugins::mac::lsof::{self, Lsof};
use crate::plugins::mac::mount::{self, Mount};
use crate::plugins::mac::proc_maps::{self, Maps};
use crate::plugins::mac::psaux::{self, PsAux};
use crate::plugins::mac::pslist::{self, PsList};
use crate::plugins::mac::{chosen, entry_count, kernel_of, passing, with_handlers};
use crate::plugins::{option_numbers, pid_list, Plugin};
use crate::renderers::{Cell, Table};
use crate::symbols::mac::{
    described, descriptors_of, extensions, listed_processes, mounts, note_or_empty, processes_from,
    tail_queue, Descriptor, MapEntry,
};
use crate::text::{decimal_text, joined};
use crate::time::DateTime;
use vstd::prelude::*;

verus! {

/// The number of a process.
pub open spec fn number_of(context: &Context, process: Object) -> Option<u64> {
    context.member_u64(process, "p_pid")
}

/// The name of a process.
pub open spec fn name_of(context: &Context, process: Object) -> Option<Seq<char>> {
    match context.member(process, "p_comm") {
        Some(name) => context.string_of(name),
        None => None,
    }
}

/// The name of a process, or an empty one.
pub open spec fn name_or_empty(context: &Context, process: Object) -> Seq<char> {
    match name_of(context, process) {
        Some(name) => name,
        None => Seq::empty(),
    }
}

/// Whether a process is one of those asked for by number: all of them are, where none is
/// asked for.
pub open spec fn is_asked_for(context: &Context, config: &Configuration, process: Object) -> bool {
    match number_of(context, process) {
        Some(pid) => match pid_list(config.lookup("pid"@)) {
            Some(pids) => pids.contains(pid),
            None => true,
        },
        None => false,
    }
}

proof fn lemma_passing(context: &Context, config: &Configuration, processes: Seq<Object>)
    ensures
        passing(context, processes, pid_list(config.lookup("pid"@))) == processes.filter(
            |process: Object| is_asked_for(context, config, process),
        ),
    decreases processes.len(),
{
    reveal(Seq::filter);
    if processes.len() > 0 {
        lemma_passing(context, config, processes.drop_last());
    }
}

/// A listing that can be narrowed to some processes takes those of the kernel's list that
/// are asked for, in order, and no others.
pub proof fn law_only_what_is_asked_for_is_listed(
    context: &Context,
    config: &Configuration,
    listed: Seq<Object>,
)
    requires
        listed_processes(context) == Some(listed),
    ensures
        chosen(context, config) == Some(
            listed.filter(|process: Object| is_asked_for(context, config, process)),
        ),
        listed_processes(context) == processes_from(context.mac.lists@, "tasks"@, 0),
{
    lemma_passing(context, config, listed);
}

/// What is told of a process.
#[verifier::opaque]
pub open spec fn told_of(context: &Context, process: Object) -> Seq<Cell> {
    seq![
        Cell::hex(process.offset),
        Cell::text_or_unreadable(name_of(context, process)),
        Cell::integer(number_of(context, process)->0 as i64),
        Cell::integer_or_unreadable(context.member_u64(process, "p_uid")),
        Cell::integer_or_unreadable(context.member_u64(process, "p_gid")),
        start_of(context, process),
        Cell::integer_or_unreadable(context.member_u64(process, "p_ppid")),
    ]
}

/// When a process was started, in the time of whoever reads it.
pub open spec fn start_of(context: &Context, process: Object) -> Cell {
    match context.member(process, "p_start") {
        Some(start) => match (
            context.member_i64(start, "tv_sec"),
            context.member_u64(start, "tv_usec"),
        ) {
            (Some(seconds), Some(rest)) => Cell::LocalTime(
                DateTime { seconds, microseconds: rest as u32 },
            ),
            _ => Cell::unreadable(),
        },
        None => Cell::unreadable(),
    }
}

proof fn lemma_told(context: &Context, process: Object)
    requires
        number_of(context, process) is Some,
    ensures
        pslist::process_row(context, number_of(context, process)->0, process) == told_of(
            context,
            process,
        ),
{
    reveal(told_of);
}

/// The rows of some processes.
pub open spec fn rows_of_processes_are_reported(
    context: &Context,
    asked: Seq<Object>,
) -> spec_fn(int) -> Seq<Seq<Cell>> {
    |k: int|
        if number_of(context, asked[k]) is Some {
            seq![told_of(context, asked[k])]
        } else {
            Seq::empty()
        }
}

/// The processes of the list that is asked for are reported in its order, each with what the
/// process itself records.
pub proof fn law_processes_are_reported(
    context: &Context,
    config: &Configuration,
    kernel: Module,
    listed: Seq<Object>,
    asked: Seq<Object>,
)
    requires
        kernel_of(context, config) == Some(kernel),
        processes_from(
            context.mac.lists@,
            config.text_or("pslist_method"@, "tasks"@),
            0,
        ) == Some(listed),
        asked == listed.filter(|process: Object| is_asked_for(context, config, process)),
    ensures
        PsList.report(context, config) is Ok,
        names_of(PsList.report(context, config)->Ok_0.columns) == seq![
            "OFFSET"@,
            "NAME"@,
            "PID"@,
            "UID"@,
            "GID"@,
            "Start Time"@,
            "PPID"@,
        ],
        cells_of(PsList.report(context, config)->Ok_0) == flat(
            rows_of_processes_are_reported(context, asked),
            asked.len() as int,
        ),
{
    lemma_passing(context, config, listed);
    let steps = |k: int| pslist::reported(context, PsList.headings(), asked, k);
    let rows = rows_of_processes_are_reported(context, asked);
    assert forall|k: int| 0 <= k < asked.len() implies adds(
        steps(k),
        steps(k + 1),
        #[trigger] rows(k),
    ) by {
        lemma_adds_none(steps(k));
        if number_of(context, asked[k]) is Some {
            lemma_told(context, asked[k]);
        }
        lemma_adds_one(steps(k), 0, told_of(context, asked[k]));
    }
    lemma_flat_adds(steps, rows, asked.len() as int);
}


/// A text in a member of an object.
pub open spec fn text_of(context: &Context, object: Object, name: &str) -> Option<Seq<char>> {
    match context.member(object, name) {
        Some(text) => context.string_of(text),
        None => None,
    }
}

/// The rows of some extensions.
pub open spec fn rows_of_extensions_are_reported(
    context: &Context,
    list: Seq<Object>,
) -> spec_fn(int) -> Seq<Seq<Cell>> {
    |k: int|
        seq![
            seq![
                Cell::hex(list[k].offset),
                Cell::text_or_unreadable(text_of(context, list[k], "name")),
                Cell::integer_or_unreadable(context.member_u64(list[k], "size")),
            ]
        ]
}

/// The kernel's extensions are reported in the order it links them.
pub proof fn law_extensions_are_reported(
    context: &Context,
    config: &Configuration,
    kernel: Module,
    list: Seq<Object>,
)
    requires
        kernel_of(context, config) == Some(kernel),
        extensions(context, &kernel) == Some(list),
    ensures
        Lsmod.report(context, config) is Ok,
        names_of(Lsmod.report(context, config)->Ok_0.columns) == seq!["Offset"@, "Name"@, "Size"@],
        cells_of(Lsmod.report(context, config)->Ok_0) == flat(
            rows_of_extensions_are_reported(context, list),
            list.len() as int,
        ),
{
    let steps = |k: int| lsmod::reported(context, Lsmod.headings(), list, k);
    let rows = rows_of_extensions_are_reported(context, list);
    assert forall|k: int| 0 <= k < list.len() implies adds(
        steps(k),
        steps(k + 1),
        #[trigger] rows(k),
    ) by {
        lemma_adds_none(steps(k));
        assert(
            lsmod::extension_row(context, list[k]) =~= seq![
                Cell::hex(list[k].offset),
                Cell::text_or_unreadable(text_of(context, list[k], "name")),
                Cell::integer_or_unreadable(context.member_u64(list[k], "size")),
            ]
        );
        lemma_adds_one(
            steps(k),
            0,
            seq![
                Cell::hex(list[k].offset),
                Cell::text_or_unreadable(text_of(context, list[k], "name")),
                Cell::integer_or_unreadable(context.member_u64(list[k], "size")),
            ],
        );
    }
    lemma_flat_adds(steps, rows, list.len() as int);
}


/// What the statistics of a mounted file system say under a name.
pub open spec fn statistic(context: &Context, mounted: Object, name: &str) -> Cell {
    match context.member(mounted, "mnt_vfsstat") {
        Some(statistics) => Cell::text_or_unreadable(text_of(context, statistics, name)),
        None => Cell::unreadable(),
    }
}

/// The rows of some mounted file systems.
pub open spec fn rows_of_mounts_are_reported(
    context: &Context,
    list: Seq<Object>,
) -> spec_fn(int) -> Seq<Seq<Cell>> {
    |k: int|
        seq![
            seq![
                statistic(context, list[k], "f_mntonname"),
                statistic(context, list[k], "f_mntfromname"),
                statistic(context, list[k], "f_fstypename"),
            ]
        ]
}

/// The mounted file systems are reported in the order the kernel links them: where each is
/// mounted, what is mounted there, and its kind.
pub proof fn law_mounts_are_reported(
    context: &Context,
    config: &Configuration,
    kernel: Module,
    list: Seq<Object>,
)
    requires
        kernel_of(context, config) == Some(kernel),
        mounts(context, &kernel) == Some(list),
    ensures
        Mount.report(context, config) is Ok,
        names_of(
            Mount.report(context, config)->Ok_0.columns,
        ) == seq!["Device"@, "Mount Point"@, "Type"@],
        cells_of(Mount.report(context, config)->Ok_0) == flat(
            rows_of_mounts_are_reported(context, list),
            list.len() as int,
        ),
{
    let steps = |k: int| mount::reported(context, Mount.headings(), list, k);
    let rows = rows_of_mounts_are_reported(context, list);
    assert forall|k: int| 0 <= k < list.len() implies adds(
        steps(k),
        steps(k + 1),
        #[trigger] rows(k),
    ) by {
        lemma_adds_none(steps(k));
        assert(
            mount::mount_row(context, list[k]) =~= seq![
                statistic(context, list[k], "f_mntonname"),
                statistic(context, list[k], "f_mntfromname"),
                statistic(context, list[k], "f_fstypename"),
            ]
        );
        lemma_adds_one(
            steps(k),
            0,
            seq![
                statistic(context, list[k], "f_mntonname"),
                statistic(context, list[k], "f_mntfromname"),
                statistic(context, list[k], "f_fstypename"),
            ],
        );
    }
    lemma_flat_adds(steps, rows, list.len() as int);
}

/// The rows of the open files of a process that have a name.
pub open spec fn parts_of_files(
    context: &Context,
    process: Object,
    files: Seq<&Descriptor>,
) -> spec_fn(int) -> Seq<Seq<Cell>> {
    |j: int|
        if files[j].path is Some && files[j].path->0@.len() > 0 {
            seq![
                seq![
                    Cell::integer(number_of(context, process)->0 as i64),
                    Cell::integer(files[j].number as i64),
                    Cell::Text(files[j].path->0@),
                ]
            ]
        } else {
            Seq::empty()
        }
}

proof fn lemma_files(context: &Context, process: Object, files: Seq<&Descriptor>, table: Table)
    ensures
        adds(
            table,
            lsof::with_files(table, number_of(context, process)->0, files, files.len() as int),
            flat(parts_of_files(context, process, files), files.len() as int),
        ),
{
    let steps = |j: int| lsof::with_files(table, number_of(context, process)->0, files, j);
    let parts = parts_of_files(context, process, files);
    assert forall|j: int| 0 <= j < files.len() implies adds(
        steps(j),
        steps(j + 1),
        #[trigger] parts(j),
    ) by {
        lemma_adds_none(steps(j));
        lemma_adds_one(
            steps(j),
            0,
            seq![
                Cell::integer(number_of(context, process)->0 as i64),
                Cell::integer(files[j].number as i64),
                Cell::Text(files[j].path->0@),
            ],
        );
    }
    lemma_flat_adds(steps, parts, files.len() as int);
}


/// The open files of a process are those recorded for where the process stands.
pub proof fn law_files_belong_to_their_process(descriptors: Seq<Descriptor>, process: u64, n: int)
    ensures
        0 <= n < descriptors_of(descriptors, process).len() ==> descriptors_of(
            descriptors,
            process,
        )[n].process == process,
        descriptors_of(descriptors, process) == descriptors.filter(
            |descriptor: Descriptor| descriptor.process == process,
        ).map_values(|descriptor: Descriptor| &descriptor),
    decreases descriptors.len(),
{
    reveal(Seq::filter);
    if descriptors.len() > 0 {
        law_files_belong_to_their_process(descriptors.drop_last(), process, n);
        law_files_belong_to_their_process(
            descriptors.drop_last(),
            process,
            descriptors_of(descriptors.drop_last(), process).len() - 1,
        );
    }
    assert(descriptors_of(descriptors, process) =~= descriptors.filter(
        |descriptor: Descriptor| descriptor.process == process,
    ).map_values(|descriptor: Descriptor| &descriptor));
}

/// The rows of the open files of a process.
#[verifier::opaque]
pub open spec fn told_in_open_files_are_reported(
    context: &Context,
    process: Object,
) -> Seq<Seq<Cell>> {
    if number_of(context, process) is Some {
        flat(
            parts_of_files(
                context,
                process,
                descriptors_of(context.mac.descriptors@, process.offset),
            ),
            descriptors_of(context.mac.descriptors@, process.offset).len() as int,
        )
    } else {
        Seq::empty()
    }
}

proof fn lemma_open_files_are_reported(context: &Context, process: Object, table: Table)
    ensures
        adds(
            table,
            lsof::with_process(context, table, process),
            told_in_open_files_are_reported(context, process),
        ),
{
    reveal(told_in_open_files_are_reported);
    lemma_adds_none(table);
    reveal(lsof::with_process);
    if number_of(context, process) is Some {
        lemma_files(
            context,
            process,
            descriptors_of(context.mac.descriptors@, process.offset),
            table,
        );
    }
}
/// What is told of each in turn.
pub open spec fn rows_of_open_files_are_reported(
    context: &Context,
    processes: Seq<Object>,
) -> spec_fn(int) -> Seq<Seq<Cell>> {
    |k: int|
        told_in_open_files_are_reported(context, processes[k])
}

/// The open files of each process that is asked for are reported, with their numbers.
pub proof fn law_open_files_are_reported(
    context: &Context,
    config: &Configuration,
    kernel: Module,
    processes: Seq<Object>,
)
    requires
        kernel_of(context, config) == Some(kernel),
        chosen(context, config) == Some(processes),
    ensures
        Lsof.report(context, config) is Ok,
        names_of(
            Lsof.report(context, config)->Ok_0.columns,
        ) == seq!["PID"@, "File Descriptor"@, "File Path"@],
        cells_of(Lsof.report(context, config)->Ok_0) == flat(
            rows_of_open_files_are_reported(context, processes),
            processes.len() as int,
        ),
{
    let steps = |k: int| lsof::reported(context, Lsof.headings(), processes, k);
    let rows = rows_of_open_files_are_reported(context, processes);
    assert forall|k: int| 0 <= k < processes.len() implies adds(
        steps(k),
        steps(k + 1),
        #[trigger] rows(k),
    ) by {
        lemma_adds_none(steps(k));
        lemma_open_files_are_reported(context, processes[k], steps(k));
    }
    lemma_flat_adds(steps, rows, processes.len() as int);
}


/// Where the arguments of a process stand: below the top of its stack, as many bytes as it
/// says, where there are some and not too many.
pub proof fn law_arguments_stand_below_the_stack(
    context: &Context,
    process: Object,
    layer: usize,
    stack: u64,
    length: u64,
    count: u64,
)
    requires
        context.member_u64(process, "user_stack") == Some(stack),
        context.member_u64(process, "p_argslen") == Some(length),
        context.member_u64(process, "p_argc") == Some(count),
        length <= stack,
    ensures
        psaux::argument_block(context, process, layer) == (if context.is_valid(
            layer,
            (stack - length) as u64,
            1,
        ) && length > 0 && 0 < count < psaux::MOST_ARGUMENTS {
            Some((stack, (stack - length) as u64, count))
        } else {
            None
        }),
{
}

/// What is told of the arguments of a process.
#[verifier::opaque]
pub open spec fn arguments_of(
    context: &Context,
    process: Object,
    layer: usize,
    stack: u64,
    start: u64,
    count: u64,
) -> Seq<Cell> {
    seq![
        Cell::integer(number_of(context, process)->0 as i64),
        Cell::text_or_unreadable(name_of(context, process)),
        Cell::integer(count as i64),
        Cell::Text(
            joined(
                psaux::argument_texts(
                    psaux::arguments_from(
                        context,
                        layer,
                        stack,
                        start,
                        (count + 1) as nat,
                        Seq::empty(),
                    ),
                ),
                " "@,
            ),
        ),
    ]
}

/// The row of the arguments of a process.
#[verifier::opaque]
pub open spec fn told_in_arguments_are_reported(
    context: &Context,
    process: Object,
) -> Seq<Seq<Cell>> {
    match (number_of(context, process), context.process_space(process)) {
        (Some(_), Some(Some(layer))) => match psaux::argument_block(context, process, layer) {
            Some((stack, start, count)) => seq![
                arguments_of(context, process, layer, stack, start, count),
            ],
            None => Seq::empty(),
        },
        _ => Seq::empty(),
    }
}

proof fn lemma_arguments_are_reported(context: &Context, process: Object, table: Table)
    ensures
        adds(
            table,
            psaux::with_process(context, table, process),
            told_in_arguments_are_reported(context, process),
        ),
{
    reveal(told_in_arguments_are_reported);
    lemma_adds_none(table);
    reveal(psaux::with_process);
    reveal(arguments_of);
    if let (Some(pid), Some(Some(layer))) = (
        number_of(context, process),
        context.process_space(process),
    ) {
        if let Some((stack, start, count)) = psaux::argument_block(context, process, layer) {
            let row = arguments_of(context, process, layer, stack, start, count);
            assert(psaux::process_row(context, process, pid, layer, stack, start, count) =~= row);
            lemma_adds_one(table, 0, row);
        }
    }
}
/// What is told of each in turn.
pub open spec fn rows_of_arguments_are_reported(
    context: &Context,
    processes: Seq<Object>,
) -> spec_fn(int) -> Seq<Seq<Cell>> {
    |k: int|
        told_in_arguments_are_reported(context, processes[k])
}

/// The arguments of each process that is asked for are reported, where they can be read.
pub proof fn law_arguments_are_reported(
    context: &Context,
    config: &Configuration,
    kernel: Module,
    processes: Seq<Object>,
)
    requires
        kernel_of(context, config) == Some(kernel),
        chosen(context, config) == Some(processes),
    ensures
        PsAux.report(context, config) is Ok,
        names_of(
            PsAux.report(context, config)->Ok_0.columns,
        ) == seq!["PID"@, "Process"@, "Argc"@, "Arguments"@],
        cells_of(PsAux.report(context, config)->Ok_0) == flat(
            rows_of_arguments_are_reported(context, processes),
            processes.len() as int,
        ),
{
    let steps = |k: int| psaux::reported(context, PsAux.headings(), processes, k);
    let rows = rows_of_arguments_are_reported(context, processes);
    assert forall|k: int| 0 <= k < processes.len() implies adds(
        steps(k),
        steps(k + 1),
        #[trigger] rows(k),
    ) by {
        lemma_adds_none(steps(k));
        lemma_arguments_are_reported(context, processes[k], steps(k));
    }
    lemma_flat_adds(steps, rows, processes.len() as int);
}


/// What an interface is called: the name of its driver, and its number behind it.
pub open spec fn interface_name(context: &Context, interface: Object) -> Seq<char> {
    (match context.member(interface, "if_name") {
        Some(name) => match context.pointed_text(name, 32) {
            Some(text) => text,
            None => Seq::empty(),
        },
        None => Seq::empty(),
    }) + decimal_text(
        match context.member_u64(interface, "if_unit") {
            Some(unit) => unit as int,
            None => 0,
        },
    )
}

/// An address of an interface as text.
pub open spec fn interface_address(context: &Context, entry: Object) -> Seq<char> {
    match context.member_target(entry, "ifa_addr") {
        Some(address) => note_or_empty(context.mac.addresses@, address.offset),
        None => Seq::empty(),
    }
}

/// The hardware address of an interface: where the kernel keeps one for the link, that one,
/// and otherwise its first address.
pub open spec fn hardware_address(context: &Context, kernel: &Module, interface: Object) -> Cell {
    let entry = if context.has_member(interface, "if_lladdr") {
        context.member_target(interface, "if_lladdr")
    } else {
        match context.member(interface, "if_addrhead") {
            Some(head) => context.member_target(head, "tqh_first"),
            None => None,
        }
    };
    match entry {
        Some(entry) => match context.member_target(entry, "ifa_addr") {
            Some(address) => if context.get_type(kernel.table, "sockaddr_dl") is Some {
                Cell::Text(note_or_empty(context.mac.link_addresses@, address.offset))
            } else {
                Cell::not_available()
            },
            None => Cell::not_available(),
        },
        None => Cell::not_available(),
    }
}

/// Whether an interface takes everything that passes by: the ninth bit of its flags.
pub proof fn law_an_interface_that_takes_everything(
    context: &Context,
    interface: Object,
    flags: u64,
)
    requires
        context.member_u64(interface, "if_flags") == Some(flags),
    ensures
        ifconfig::is_promiscuous(context, interface) <==> (flags / 256) % 2 == 1,
{
    assert(flags & 0x100 == 0x100 <==> (flags / 256) % 2 == 1) by (bit_vector);
}

/// What is told of an address of an interface.
#[verifier::opaque]
pub open spec fn address_of(
    context: &Context,
    kernel: &Module,
    interface: Object,
    entry: Object,
) -> Seq<
    Cell,
> {
    seq![
        Cell::Text(interface_name(context, interface)),
        Cell::Text(interface_address(context, entry)),
        hardware_address(context, kernel, interface),
        Cell::Bool(ifconfig::is_promiscuous(context, interface)),
    ]
}

proof fn lemma_address(context: &Context, kernel: &Module, interface: Object, entry: Object)
    ensures
        ifconfig::address_row(context, kernel, interface, entry) == address_of(
            context,
            kernel,
            interface,
            entry,
        ),
{
    reveal(address_of);
    assert(ifconfig::label_of(context, interface) =~= interface_name(context, interface));
    assert(ifconfig::address_row(context, kernel, interface, entry) =~= address_of(
        context,
        kernel,
        interface,
        entry,
    ));
}

/// The addresses that an interface links.
pub open spec fn addresses_in(
    context: &Context,
    kernel: &Module,
    interface: Object,
) -> Seq<Object> {
    match context.member(interface, "if_addrhead") {
        Some(head) => match tail_queue(
            context,
            head,
            context.get_type(kernel.table, "ifaddr"),
            "ifa_link",
        ) {
            Some(list) => list,
            None => Seq::empty(),
        },
        None => Seq::empty(),
    }
}

/// The rows of the addresses of an interface.
pub open spec fn parts_of_addresses(
    context: &Context,
    kernel: &Module,
    interface: Object,
    entries: Seq<Object>,
) -> spec_fn(int) -> Seq<Seq<Cell>> {
    |j: int|
        seq![address_of(context, kernel, interface, entries[j])]
}

proof fn lemma_addresses(
    context: &Context,
    kernel: &Module,
    interface: Object,
    entries: Seq<Object>,
    table: Table,
)
    ensures
        adds(
            table,
            ifconfig::with_addresses(
                context,
                kernel,
                table,
                interface,
                entries,
                entries.len() as int,
            ),
            flat(parts_of_addresses(context, kernel, interface, entries), entries.len() as int),
        ),
{
    let steps = |j: int| ifconfig::with_addresses(context, kernel, table, interface, entries, j);
    let parts = parts_of_addresses(context, kernel, interface, entries);
    assert forall|j: int| 0 <= j < entries.len() implies adds(
        steps(j),
        steps(j + 1),
        #[trigger] parts(j),
    ) by {
        lemma_adds_none(steps(j));
        lemma_address(context, kernel, interface, entries[j]);
        lemma_adds_one(steps(j), 0, address_of(context, kernel, interface, entries[j]));
    }
    lemma_flat_adds(steps, parts, entries.len() as int);
}

/// The rows of an interface.
#[verifier::opaque]
pub open spec fn told_in_interfaces_are_reported(
    context: &Context,
    kernel: Module,
    interface: Object,
) -> Seq<Seq<Cell>> {
    flat(
        parts_of_addresses(
            context,
            &kernel,
            interface,
            addresses_in(context, &kernel, interface),
        ),
        addresses_in(context, &kernel, interface).len() as int,
    )
}

proof fn lemma_interfaces_are_reported(
    context: &Context,
    kernel: Module,
    interface: Object,
    table: Table,
)
    ensures
        adds(
            table,
            ifconfig::with_interface(context, &kernel, table, interface),
            told_in_interfaces_are_reported(context, kernel, interface),
        ),
{
    reveal(told_in_interfaces_are_reported);
    lemma_adds_none(table);
    reveal(ifconfig::with_interface);
    lemma_addresses(
        context,
        &kernel,
        interface,
        addresses_in(context, &kernel, interface),
        table,
    );
}
/// What is told of each in turn.
pub open spec fn rows_of_interfaces_are_reported(
    context: &Context,
    kernel: Module,
    interfaces: Seq<Object>,
) -> spec_fn(int) -> Seq<Seq<Cell>> {
    |k: int|
        told_in_interfaces_are_reported(context, kernel, interfaces[k])
}

/// Every address of every interface is reported.
pub proof fn law_interfaces_are_reported(
    context: &Context,
    config: &Configuration,
    kernel: Module,
    head: Object,
    interfaces: Seq<Object>,
)
    requires
        kernel_of(context, config) == Some(kernel),
        match context.object_from_symbol(
            &kernel,
            "ifnet_head",
        ) { Some(first) => head == first, None => context.object_from_symbol(&kernel, "dlil_ifnet_head") == Some(head) },
        tail_queue(
            context,
            head,
            context.get_type(kernel.table, "ifnet"),
            "if_link",
        ) == Some(interfaces),
    ensures
        IfConfig.report(context, config) is Ok,
        names_of(IfConfig.report(context, config)->Ok_0.columns) == seq![
            "Interface"@,
            "IP Address"@,
            "Mac Address"@,
            "Promiscuous"@,
        ],
        cells_of(IfConfig.report(context, config)->Ok_0) == flat(
            rows_of_interfaces_are_reported(context, kernel, interfaces),
            interfaces.len() as int,
        ),
{
    let steps = |k: int| ifconfig::reported(context, &kernel, IfConfig.headings(), interfaces, k);
    let rows = rows_of_interfaces_are_reported(context, kernel, interfaces);
    assert forall|k: int| 0 <= k < interfaces.len() implies adds(
        steps(k),
        steps(k + 1),
        #[trigger] rows(k),
    ) by {
        lemma_adds_none(steps(k));
        lemma_interfaces_are_reported(context, kernel, interfaces[k], steps(k));
    }
    lemma_flat_adds(steps, rows, interfaces.len() as int);
}


/// Whether a range of memory is one of those asked for: all of them where no address is, and
/// otherwise those in which one of the addresses lies.
pub open spec fn is_wanted(wanted: Seq<u64>, entry: MapEntry) -> bool {
    &&& entry.start is Some
    &&& entry.end is Some
    &&& wanted.len() > 0 ==> exists|i: int|
        0 <= i < wanted.len() && entry.start->0 <= #[trigger] wanted[i] <= entry.end->0
}

/// What is told of a range of memory. One that no file backs goes by the part of the process
/// it is.
#[verifier::opaque]
pub open spec fn range_of(context: &Context, process: Object, entry: MapEntry) -> Seq<Cell> {
    seq![
        Cell::integer(number_of(context, process)->0 as i64),
        Cell::Text(name_or_empty(context, process)),
        Cell::hex(entry.start->0),
        Cell::hex(entry.end->0),
        Cell::Text(entry.protection@),
        Cell::Text(
            if entry.path@.len() > 0 {
                entry.path@
            } else {
                entry.special@
            },
        ),
        Cell::Text("Disabled"@),
    ]
}

proof fn lemma_range(context: &Context, process: Object, entry: MapEntry)
    requires
        number_of(context, process) is Some,
        entry.start is Some,
        entry.end is Some,
    ensures
        proc_maps::mapping_row(
            context,
            process,
            number_of(context, process)->0,
            &entry,
            entry.start->0,
            entry.end->0,
            "Disabled"@,
        ) == range_of(context, process, entry),
{
    reveal(range_of);
}

/// The rows of the ranges of a process that are asked for.
pub open spec fn parts_of_ranges(
    context: &Context,
    config: &Configuration,
    process: Object,
    entries: Seq<MapEntry>,
) -> spec_fn(int) -> Seq<Seq<Cell>> {
    |j: int|
        if is_wanted(option_numbers(config.lookup("address"@)), entries[j]) {
            seq![range_of(context, process, entries[j])]
        } else {
            Seq::empty()
        }
}

proof fn lemma_ranges(
    context: &Context,
    config: &Configuration,
    process: Object,
    entries: Seq<MapEntry>,
    table: Table,
)
    requires
        number_of(context, process) is Some,
        !config.flag("dump"@),
    ensures
        adds(
            table,
            proc_maps::with_mappings(
                context,
                proc_maps::options_of(config),
                table,
                process,
                number_of(context, process)->0,
                entries,
                entries.len() as int,
            ),
            flat(parts_of_ranges(context, config, process, entries), entries.len() as int),
        ),
{
    let steps = |j: int| proc_maps::with_mappings(
        context,
        proc_maps::options_of(config),
        table,
        process,
        number_of(context, process)->0,
        entries,
        j,
    );
    let parts = parts_of_ranges(context, config, process, entries);
    assert forall|j: int| 0 <= j < entries.len() implies adds(
        steps(j),
        steps(j + 1),
        #[trigger] parts(j),
    ) by {
        lemma_adds_none(steps(j));
        if entries[j].start is Some && entries[j].end is Some {
            lemma_range(context, process, entries[j]);
        }
        lemma_adds_one(steps(j), 0, range_of(context, process, entries[j]));
    }
    lemma_flat_adds(steps, parts, entries.len() as int);
}

/// The rows of the ranges of a process.
#[verifier::opaque]
pub open spec fn told_in_ranges_are_reported(
    context: &Context,
    config: &Configuration,
    process: Object,
) -> Seq<Seq<Cell>> {
    match (number_of(context, process), context.map_of(process)) {
        (Some(_), Some(entries)) => flat(
            parts_of_ranges(context, config, process, entries),
            entries.len() as int,
        ),
        _ => Seq::empty(),
    }
}

proof fn lemma_ranges_are_reported(
    context: &Context,
    config: &Configuration,
    process: Object,
    table: Table,
)
    requires
        !config.flag("dump"@),
    ensures
        adds(
            table,
            proc_maps::with_process(context, proc_maps::options_of(config), table, process),
            told_in_ranges_are_reported(context, config, process),
        ),
{
    reveal(told_in_ranges_are_reported);
    lemma_adds_none(table);
    reveal(proc_maps::with_process);
    if let (Some(_), Some(entries)) = (number_of(context, process), context.map_of(process)) {
        lemma_ranges(context, config, process, entries, table);
    }
}
/// What is told of each in turn.
pub open spec fn rows_of_ranges_are_reported(
    context: &Context,
    config: &Configuration,
    processes: Seq<Object>,
) -> spec_fn(int) -> Seq<Seq<Cell>> {
    |k: int|
        told_in_ranges_are_reported(context, config, processes[k])
}

/// The ranges of memory of each process that is asked for are reported in order.
pub proof fn law_ranges_are_reported(
    context: &Context,
    config: &Configuration,
    kernel: Module,
    processes: Seq<Object>,
)
    requires
        kernel_of(context, config) == Some(kernel),
        chosen(context, config) == Some(processes),
        !config.flag("dump"@),
    ensures
        Maps.report(context, config) is Ok,
        names_of(Maps.report(context, config)->Ok_0.columns) == seq![
            "PID"@,
            "Process"@,
            "Start"@,
            "End"@,
            "Protection"@,
            "Map Name"@,
            "File output"@,
        ],
        cells_of(Maps.report(context, config)->Ok_0) == flat(
            rows_of_ranges_are_reported(context, config, processes),
            processes.len() as int,
        ),
{
    let steps = |k: int| proc_maps::reported(
        context,
        proc_maps::options_of(config),
        Maps.headings(),
        processes,
        k,
    );
    let rows = rows_of_ranges_are_reported(context, config, processes);
    assert forall|k: int| 0 <= k < processes.len() implies adds(
        steps(k),
        steps(k + 1),
        #[trigger] rows(k),
    ) by {
        lemma_adds_none(steps(k));
        lemma_ranges_are_reported(context, config, processes[k], steps(k));
    }
    lemma_flat_adds(steps, rows, processes.len() as int);
}


/// What an entry of a table is handled by. Nothing stands at zero.
pub open spec fn handler_of(
    context: &Context,
    entries: Object,
    member: &'static str,
    at: int,
) -> Option<u64> {
    match context.index(entries, at as u64) {
        Some(entry) => match context.member_pointer(entry, member) {
            Some(address) => if address == 0 {
                None
            } else {
                Some(address)
            },
            None => None,
        },
        None => None,
    }
}

/// What is told of an entry of a table.
#[verifier::opaque]
pub open spec fn handler_row(
    context: &Context,
    entries: Object,
    called: Seq<char>,
    at: int,
    handler: u64,
) -> Seq<Cell> {
    seq![
        Cell::hex(entries.offset),
        Cell::Text(called),
        Cell::integer(at as i64),
        Cell::hex(handler),
        Cell::Text(described(context.mac.resolver, handler).0),
        Cell::Text(described(context.mac.resolver, handler).1),
    ]
}

/// The rows of the entries of a table that are handled by something.
pub open spec fn handler_rows(
    context: &Context,
    entries: Object,
    called: Seq<char>,
    member: &'static str,
) -> spec_fn(int) -> Seq<Seq<Cell>> {
    |k: int|
        match handler_of(context, entries, member, k) {
            Some(handler) => seq![handler_row(context, entries, called, k, handler)],
            None => Seq::empty(),
        }
}

proof fn lemma_handlers(
    context: &Context,
    table: Table,
    entries: Object,
    called: Seq<char>,
    member: &'static str,
    count: u64,
)
    requires
        table.lines.len() == 0,
        count <= i64::MAX,
    ensures
        with_handlers(context, table, entries, called, member, count as int).columns
            == table.columns,
        cells_of(with_handlers(context, table, entries, called, member, count as int)) == flat(
            handler_rows(context, entries, called, member),
            count as int,
        ),
{
    let steps = |k: int| with_handlers(context, table, entries, called, member, k);
    let rows = handler_rows(context, entries, called, member);
    assert forall|k: int| 0 <= k < count implies adds(
        steps(k),
        steps(k + 1),
        #[trigger] rows(k),
    ) by {
        lemma_adds_none(steps(k));
        if let Some(handler) = handler_of(context, entries, member, k) {
            reveal(handler_row);
            let row = handler_row(context, entries, called, k, handler);
            assert(crate::plugins::mac::handler_row(
                context,
                entries.offset,
                called,
                k as u64,
                handler,
            ) =~= row);
            lemma_adds_one(steps(k), 0, row);
        }
    }
    lemma_flat_adds(steps, rows, count as int);
}


/// Every entry of the table of system calls that is handled by something is reported.
pub proof fn law_system_calls_are_reported(
    context: &Context,
    config: &Configuration,
    kernel: Module,
    entries: Object,
    count: u64,
)
    requires
        kernel_of(context, config) == Some(kernel),
        context.object_from_symbol(&kernel, "sysent") == Some(entries),
        context.count(entries) == Some(count),
        count <= i64::MAX,
    ensures
        CheckSyscall.report(context, config) is Ok,
        names_of(CheckSyscall.report(context, config)->Ok_0.columns) == seq![
            "Table Address"@,
            "Table Name"@,
            "Index"@,
            "Handler Address"@,
            "Handler Module"@,
            "Handler Symbol"@,
        ],
        cells_of(CheckSyscall.report(context, config)->Ok_0) == flat(
            handler_rows(context, entries, "SysCall"@, "sy_call"),
            count as int,
        ),
{
    lemma_handlers(
        context,
        Table::empty(CheckSyscall.headings()),
        entries,
        "SysCall"@,
        "sy_call",
        count,
    );
}


/// Every entry of the table of traps that is handled by something is reported.
pub proof fn law_traps_are_reported(
    context: &Context,
    config: &Configuration,
    kernel: Module,
    entries: Object,
    count: u64,
)
    requires
        kernel_of(context, config) == Some(kernel),
        context.object_from_symbol(&kernel, "mach_trap_table") == Some(entries),
        context.count(entries) == Some(count),
        count <= i64::MAX,
    ensures
        CheckTrapTable.report(context, config) is Ok,
        names_of(CheckTrapTable.report(context, config)->Ok_0.columns) == seq![
            "Table Address"@,
            "Table Name"@,
            "Index"@,
            "Handler Address"@,
            "Handler Module"@,
            "Handler Symbol"@,
        ],
        cells_of(CheckTrapTable.report(context, config)->Ok_0) == flat(
            handler_rows(context, entries, "TrapTable"@, "mach_trap_function"),
            count as int,
        ),
{
    lemma_handlers(
        context,
        Table::empty(CheckTrapTable.headings()),
        entries,
        "TrapTable"@,
        "mach_trap_function",
        count,
    );
}


} // verus!
