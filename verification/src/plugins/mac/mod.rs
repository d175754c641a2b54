//! Mac plugins.

pub mod bash;
pub mod check_syscall;
pub mod check_sysctl;
pub mod check_trap_table;
pub mod dmesg;
pub mod ifconfig;
pub mod kauth_listeners;
pub mod kevents;
pub mod list_files;
pub mod lsmod;
pub mod lsof;
pub mod malfind;
pub mod mount;
pub mod netstat;
pub mod proc_maps;
pub mod psaux;
pub mod pslist;
pub mod pstree;
pub mod socket_filters;
pub mod timers;
pub mod trustedbsd;
pub mod vfsevents;

use crate::config::Configuration;
use crate::context::{Context, Module, Object};
use crate::error::VolatilityError;
use crate::plugins::{self, pid_filter, pid_matches, Plugin};
use crate::plugins::registry::{
    answers, by_name, keeps, law_what_is_added_answers, stands_for, PluginEntry, PluginRegistry,
};
use crate::renderers::{Cell, Row, Table, TreeGrid, Value};
use crate::symbols;
use crate::symbols::mac::{describe, drop_null, list_processes};
use vstd::prelude::*;

verus! {

/// The names of the Mac plugins, in the order they are registered.
pub open spec fn plugin_names() -> Seq<Seq<char>> {
    seq![
        "mac.pslist.PsList"@,
        "mac.pstree.PsTree"@,
        "mac.lsmod.Lsmod"@,
        "mac.psaux.Psaux"@,
        "mac.lsof.Lsof"@,
        "mac.mount.Mount"@,
        "mac.ifconfig.Ifconfig"@,
        "mac.proc_maps.Maps"@,
        "mac.malfind.Malfind"@,
        "mac.check_syscall.Check_syscall"@,
        "mac.check_trap_table.Check_trap_table"@,
        "mac.trustedbsd.Trustedbsd"@,
        "mac.timers.Timers"@,
        "mac.kauth_listeners.Kauth_listeners"@,
        "mac.vfsevents.VFSevents"@,
        "mac.check_sysctl.Check_sysctl"@,
        "mac.list_files.List_Files"@,
        "mac.netstat.Netstat"@,
        "mac.socket_filters.Socket_filters"@,
        "mac.dmesg.Dmesg"@,
        "mac.bash.Bash"@,
        "mac.kevents.Kevents"@,
    ]
}

/// Whether the Mac plugins stand in a registry from a place on.
pub open spec fn are_registered(plugins: Seq<PluginEntry<dyn Plugin>>, from: int) -> bool {
    &&& stands_for(plugins[from + 0], &pslist::PsList)
    &&& stands_for(plugins[from + 1], &pstree::PsTree)
    &&& stands_for(plugins[from + 2], &lsmod::Lsmod)
    &&& stands_for(plugins[from + 3], &psaux::PsAux)
    &&& stands_for(plugins[from + 4], &lsof::Lsof)
    &&& stands_for(plugins[from + 5], &mount::Mount)
    &&& stands_for(plugins[from + 6], &ifconfig::IfConfig)
    &&& stands_for(plugins[from + 7], &proc_maps::Maps)
    &&& stands_for(plugins[from + 8], &malfind::Malfind)
    &&& stands_for(plugins[from + 9], &check_syscall::CheckSyscall)
    &&& stands_for(plugins[from + 10], &check_trap_table::CheckTrapTable)
    &&& stands_for(plugins[from + 11], &trustedbsd::TrustedBsd)
    &&& stands_for(plugins[from + 12], &timers::Timers)
    &&& stands_for(plugins[from + 13], &kauth_listeners::KauthListeners)
    &&& stands_for(plugins[from + 14], &vfsevents::VfsEvents)
    &&& stands_for(plugins[from + 15], &check_sysctl::CheckSysctl)
    &&& stands_for(plugins[from + 16], &list_files::ListFiles)
    &&& stands_for(plugins[from + 17], &netstat::NetStat)
    &&& stands_for(plugins[from + 18], &socket_filters::SocketFilters)
    &&& stands_for(plugins[from + 19], &dmesg::Dmesg)
    &&& stands_for(plugins[from + 20], &bash::Bash)
    &&& stands_for(plugins[from + 21], &kevents::Kevents)
}

/// Whether a registry answers every Mac plugin's name with that plugin.
pub open spec fn all_answer(registry: PluginRegistry<dyn Plugin>) -> bool {
    &&& answers(registry, &pslist::PsList)
    &&& answers(registry, &pstree::PsTree)
    &&& answers(registry, &lsmod::Lsmod)
    &&& answers(registry, &psaux::PsAux)
    &&& answers(registry, &lsof::Lsof)
    &&& answers(registry, &mount::Mount)
    &&& answers(registry, &ifconfig::IfConfig)
    &&& answers(registry, &proc_maps::Maps)
    &&& answers(registry, &malfind::Malfind)
    &&& answers(registry, &check_syscall::CheckSyscall)
    &&& answers(registry, &check_trap_table::CheckTrapTable)
    &&& answers(registry, &trustedbsd::TrustedBsd)
    &&& answers(registry, &timers::Timers)
    &&& answers(registry, &kauth_listeners::KauthListeners)
    &&& answers(registry, &vfsevents::VfsEvents)
    &&& answers(registry, &check_sysctl::CheckSysctl)
    &&& answers(registry, &list_files::ListFiles)
    &&& answers(registry, &netstat::NetStat)
    &&& answers(registry, &socket_filters::SocketFilters)
    &&& answers(registry, &dmesg::Dmesg)
    &&& answers(registry, &bash::Bash)
    &&& answers(registry, &kevents::Kevents)
}

/// Once a registry that the Mac plugins were added to is sorted, each of them answers
/// under its name.
pub proof fn lemma_all_answer(
    added: Seq<PluginEntry<dyn Plugin>>,
    registry: PluginRegistry<dyn Plugin>,
    from: int,
)
    requires
        0 <= from,
        from + plugin_names().len() <= added.len(),
        are_registered(added, from),
        registry.plugins@ == by_name(added, 0),
        registry.names().no_duplicates(),
    ensures
        all_answer(registry),
{
    law_what_is_added_answers(added, registry, from + 0, &pslist::PsList);
    law_what_is_added_answers(added, registry, from + 1, &pstree::PsTree);
    law_what_is_added_answers(added, registry, from + 2, &lsmod::Lsmod);
    law_what_is_added_answers(added, registry, from + 3, &psaux::PsAux);
    law_what_is_added_answers(added, registry, from + 4, &lsof::Lsof);
    law_what_is_added_answers(added, registry, from + 5, &mount::Mount);
    law_what_is_added_answers(added, registry, from + 6, &ifconfig::IfConfig);
    law_what_is_added_answers(added, registry, from + 7, &proc_maps::Maps);
    law_what_is_added_answers(added, registry, from + 8, &malfind::Malfind);
    law_what_is_added_answers(added, registry, from + 9, &check_syscall::CheckSyscall);
    law_what_is_added_answers(added, registry, from + 10, &check_trap_table::CheckTrapTable);
    law_what_is_added_answers(added, registry, from + 11, &trustedbsd::TrustedBsd);
    law_what_is_added_answers(added, registry, from + 12, &timers::Timers);
    law_what_is_added_answers(added, registry, from + 13, &kauth_listeners::KauthListeners);
    law_what_is_added_answers(added, registry, from + 14, &vfsevents::VfsEvents);
    law_what_is_added_answers(added, registry, from + 15, &check_sysctl::CheckSysctl);
    law_what_is_added_answers(added, registry, from + 16, &list_files::ListFiles);
    law_what_is_added_answers(added, registry, from + 17, &netstat::NetStat);
    law_what_is_added_answers(added, registry, from + 18, &socket_filters::SocketFilters);
    law_what_is_added_answers(added, registry, from + 19, &dmesg::Dmesg);
    law_what_is_added_answers(added, registry, from + 20, &bash::Bash);
    law_what_is_added_answers(added, registry, from + 21, &kevents::Kevents);
}

/// Register the Mac plugins.
pub fn register(registry: &mut PluginRegistry<dyn Plugin>)
    ensures
        final(registry).names() == old(registry).names() + plugin_names(),
        final(registry).plugins@.len() == old(registry).plugins@.len() + plugin_names().len(),
        keeps(old(registry).plugins@, final(registry).plugins@),
        are_registered(final(registry).plugins@, old(registry).plugins@.len() as int),
{
    let ghost before = registry.names();
    registry.add(Box::new(pslist::PsList));
    registry.add(Box::new(pstree::PsTree));
    registry.add(Box::new(lsmod::Lsmod));
    registry.add(Box::new(psaux::PsAux));
    registry.add(Box::new(lsof::Lsof));
    registry.add(Box::new(mount::Mount));
    registry.add(Box::new(ifconfig::IfConfig));
    registry.add(Box::new(proc_maps::Maps));
    registry.add(Box::new(malfind::Malfind));
    registry.add(Box::new(check_syscall::CheckSyscall));
    registry.add(Box::new(check_trap_table::CheckTrapTable));
    registry.add(Box::new(trustedbsd::TrustedBsd));
    registry.add(Box::new(timers::Timers));
    registry.add(Box::new(kauth_listeners::KauthListeners));
    registry.add(Box::new(vfsevents::VfsEvents));
    registry.add(Box::new(check_sysctl::CheckSysctl));
    registry.add(Box::new(list_files::ListFiles));
    registry.add(Box::new(netstat::NetStat));
    registry.add(Box::new(socket_filters::SocketFilters));
    registry.add(Box::new(dmesg::Dmesg));
    registry.add(Box::new(bash::Bash));
    registry.add(Box::new(kevents::Kevents));
    assert(registry.names() =~= before + plugin_names());
}

/// What a plugin without a kernel fails with.
pub open spec fn no_kernel() -> crate::error::Failure {
    crate::error::Failure::Other(
        "No kernel symbols are loaded for this image. Mac analysis needs an ISF file built from the exact kernel; install one and point at it with --symbol-dirs."@,
    )
}

/// The kernel module a plugin was configured with.
pub open spec fn kernel_of(context: &Context, config: &Configuration) -> Option<Module> {
    crate::context::named(context.modules@, config.text_or("kernel"@, "kernel"@))
}

/// Resolve the kernel module a Mac plugin was configured with.
pub fn kernel_module<'a>(context: &'a Context, config: &Configuration) -> (found: Result<
    &'a Module,
    VolatilityError,
>)
    ensures
        match found {
            Ok(module) => kernel_of(context, config) == Some(*module),
            Err(error) => kernel_of(context, config) is None && error@ == no_kernel(),
        },
{
    let name = match config.get_string("kernel") {
        Some(name) => name,
        None => "kernel".to_owned(),
    };
    match context.module(&name) {
        Some(module) => Ok(module),
        None => Err(
            VolatilityError::other(
                "No kernel symbols are loaded for this image. Mac analysis needs an ISF file built from the exact kernel; install one and point at it with --symbol-dirs.",
            ),
        ),
    }
}

/// The processes that a filter lets through, in order.
pub open spec fn passing(context: &Context, processes: Seq<Object>, filter: Option<Seq<u64>>) -> Seq<
    Object,
>
    decreases processes.len(),
{
    if processes.len() == 0 {
        Seq::empty()
    } else {
        let before = passing(context, processes.drop_last(), filter);
        match context.mac_pid(processes.last()) {
            Some(pid) if plugins::passes(filter, pid) => before.push(processes.last()),
            _ => before,
        }
    }
}

/// The processes that a filter lets through, in order.
pub fn filtered_processes(context: &Context, processes: &Vec<Object>, filter: &Option<Vec<u64>>) -> (
    found: Vec<Object>)
    ensures
        found@ == passing(context, processes@, plugins::filter_view(*filter)),
{
    let mut found: Vec<Object> = Vec::new();
    for i in 0..processes.len()
        invariant
            found@ == passing(
                context,
                processes@.take(i as int),
                plugins::filter_view(*filter),
            ),
    {
        assert(processes@.take(i + 1).drop_last() =~= processes@.take(i as int));
        if let Some(pid) = context.mac_pid(processes[i]) {
            if pid_matches(filter, pid) {
                found.push(processes[i]);
            }
        }
    }
    assert(processes@.take(processes@.len() as int) =~= processes@);
    found
}

/// The processes that the kernel lists and that pass the filter on process
/// numbers.
pub open spec fn chosen(context: &Context, config: &Configuration) -> Option<Seq<Object>> {
    match symbols::mac::listed_processes(context) {
        Some(processes) => Some(
            passing(context, processes, plugins::pid_list(config.lookup("pid"@))),
        ),
        None => None,
    }
}

/// The processes that the kernel lists and that pass the filter on process
/// numbers.
pub fn chosen_processes(context: &Context, config: &Configuration) -> (found: Result<
    Vec<Object>,
    VolatilityError,
>)
    ensures
        match found {
            Ok(processes) => chosen(context, config) == Some(processes@),
            Err(error) => chosen(context, config) is None && error@
                == crate::error::Failure::Unavailable,
        },
{
    let filter = pid_filter(config);
    match list_processes(context) {
        Some(processes) => Ok(filtered_processes(context, processes, &filter)),
        None => Err(VolatilityError::Unavailable),
    }
}

/// The row of an entry of a table of handlers.
pub open spec fn handler_row(
    context: &Context,
    place: u64,
    called: Seq<char>,
    at: u64,
    handler: u64,
) -> Seq<Cell> {
    let owner = symbols::mac::described(context.mac.resolver, handler);
    seq![
        Cell::hex(place),
        Cell::Text(called),
        Cell::integer(at as i64),
        Cell::hex(handler),
        Cell::Text(owner.0),
        Cell::Text(owner.1),
    ]
}

/// What an entry of a table of handlers is handled by, if by anything.
pub open spec fn handler_at(
    context: &Context,
    entries: Object,
    member: &'static str,
    at: u64,
) -> Option<u64> {
    match context.index(entries, at) {
        Some(entry) => symbols::mac::unless_null(context.member_pointer(entry, member)),
        None => None,
    }
}

/// A report with the handlers of the first entries of a table.
pub open spec fn with_handlers(
    context: &Context,
    table: Table,
    entries: Object,
    called: Seq<char>,
    member: &'static str,
    count: int,
) -> Table
    decreases count,
{
    if count <= 0 {
        table
    } else {
        let before = with_handlers(context, table, entries, called, member, count - 1);
        let at = (count - 1) as u64;
        match handler_at(context, entries, member, at) {
            Some(handler) => before.push(
                0,
                handler_row(context, entries.offset, called, at, handler),
            ),
            None => before,
        }
    }
}

/// How many entries a table has. The length is the one that its type declares,
/// which is what the kernel was built with.
pub open spec fn entry_count(context: &Context, entries: Object) -> u64 {
    match context.count(entries) {
        Some(count) => count,
        None => 0,
    }
}

/// Report the handlers of a table, each with the code that it belongs to. A
/// handler owned by nothing known is the hooked case.
pub fn add_handlers(
    context: &Context,
    grid: &mut TreeGrid,
    entries: Object,
    called: &str,
    member: &'static str,
)
    ensures
        final(grid)@ == with_handlers(
            context,
            old(grid)@,
            entries,
            called@,
            member,
            entry_count(context, entries) as int,
        ),
{
    let ghost start = grid@;
    let count: u64 = match context.count(entries) {
        Some(count) => count,
        None => 0,
    };
    for at in 0..count
        invariant
            grid@ == with_handlers(context, start, entries, called@, member, at as int),
    {
        let handler = match context.index(entries, at) {
            Some(entry) => drop_null(context.member_pointer(entry, member)),
            None => None,
        };
        if let Some(handler) = handler {
            let owner = describe(&context.mac.resolver, handler);
            let row = Row::new().with(Value::hex(entries.offset)).with(
                Value::string(called),
            ).with(Value::integer(at as i64)).with(Value::hex(handler)).with(
                Value::String(owner.0),
            ).with(Value::String(owner.1));
            assert(row@ == handler_row(context, entries.offset, called@, at, handler));
            grid.push(0, row);
        }
    }
}

} // verus!
