//! Windows plugins.

pub mod bigpools;
pub mod callbacks;
pub mod cmdline;
pub mod consoles;
pub mod crashinfo;
pub mod debugregisters;
pub mod devicetree;
pub mod dlllist;
pub mod driverirp;
pub mod driverscan;
pub mod dumpfiles;
pub mod envars;
pub mod etwpatch;
pub mod filescan;
pub mod getservicesids;
pub mod getsids;
pub mod handles;
pub mod iat;
pub mod info;
pub mod joblinks;
pub mod kpcrs;
pub mod mbrscan;
pub mod memmap;
pub mod mftscan;
pub mod modules;
pub mod mutantscan;
pub mod netscan;
pub mod netstat;
pub mod pe_symbols;
pub mod pedump;
pub mod poolscanner;
pub mod privileges;
pub mod pslist;
pub mod psscan;
pub mod pstree;

use crate::config::Configuration;
use crate::context::{find_named, Context, Module, Object, SymbolTable};
use crate::error::VolatilityError;
use crate::plugins::{pid_filter, Plugin};
use crate::plugins::output::free_extracted_name;
use crate::plugins::registry::{
    answers, by_name, keeps, law_what_is_added_answers, stands_for, PluginEntry, PluginRegistry,
};
use crate::renderers::{Cell, Value};
use crate::symbols::windows::{list_processes, modules_at, CodeModule, Owner};
use crate::text::push_text;
use vstd::prelude::*;

verus! {

/// The names of the Windows plugins, in the order they are registered.
pub open spec fn plugin_names() -> Seq<Seq<char>> {
    seq![
        "windows.pslist.PsList"@,
        "windows.pstree.PsTree"@,
        "windows.psscan.PsScan"@,
        "windows.dlllist.DllList"@,
        "windows.cmdline.CmdLine"@,
        "windows.info.Info"@,
        "windows.modules.Modules"@,
        "windows.modscan.ModScan"@,
        "windows.handles.Handles"@,
        "windows.filescan.FileScan"@,
        "windows.mutantscan.MutantScan"@,
        "windows.driverscan.DriverScan"@,
        "windows.envars.Envars"@,
        "windows.memmap.Memmap"@,
        "windows.getsids.GetSIDs"@,
        "windows.privileges.Privs"@,
        "windows.bigpools.BigPools"@,
        "windows.driverirp.DriverIrp"@,
        "windows.devicetree.DeviceTree"@,
        "windows.getservicesids.GetServiceSIDs"@,
        "windows.kpcrs.KPCRs"@,
        "windows.netscan.NetScan"@,
        "windows.callbacks.Callbacks"@,
        "windows.mftscan.MFTScan"@,
        "windows.mftscan.ADS"@,
        "windows.mftscan.ResidentData"@,
        "windows.joblinks.JobLinks"@,
        "windows.iat.IAT"@,
        "windows.dumpfiles.DumpFiles"@,
        "windows.crashinfo.Crashinfo"@,
        "windows.mbrscan.MBRScan"@,
        "windows.poolscanner.PoolScanner"@,
        "windows.pedump.PEDump"@,
        "windows.etwpatch.EtwPatch"@,
        "windows.debugregisters.DebugRegisters"@,
        "windows.pe_symbols.PESymbols"@,
        "windows.consoles.Consoles"@,
        "windows.cmdscan.CmdScan"@,
        "windows.netstat.NetStat"@,
    ]
}

/// Whether the Windows plugins stand in a registry from a place on.
pub open spec fn are_registered(plugins: Seq<PluginEntry<dyn Plugin>>, from: int) -> bool {
    &&& stands_for(plugins[from + 0], &pslist::PsList)
    &&& stands_for(plugins[from + 1], &pstree::PsTree)
    &&& stands_for(plugins[from + 2], &psscan::PsScan)
    &&& stands_for(plugins[from + 3], &dlllist::DllList)
    &&& stands_for(plugins[from + 4], &cmdline::CmdLine)
    &&& stands_for(plugins[from + 5], &info::Info)
    &&& stands_for(plugins[from + 6], &modules::Modules)
    &&& stands_for(plugins[from + 7], &modules::ModScan)
    &&& stands_for(plugins[from + 8], &handles::Handles)
    &&& stands_for(plugins[from + 9], &filescan::FileScan)
    &&& stands_for(plugins[from + 10], &mutantscan::MutantScan)
    &&& stands_for(plugins[from + 11], &driverscan::DriverScan)
    &&& stands_for(plugins[from + 12], &envars::Envars)
    &&& stands_for(plugins[from + 13], &memmap::MemMap)
    &&& stands_for(plugins[from + 14], &getsids::GetSids)
    &&& stands_for(plugins[from + 15], &privileges::Privileges)
    &&& stands_for(plugins[from + 16], &bigpools::BigPools)
    &&& stands_for(plugins[from + 17], &driverirp::DriverIrp)
    &&& stands_for(plugins[from + 18], &devicetree::DeviceTree)
    &&& stands_for(plugins[from + 19], &getservicesids::GetServiceSids)
    &&& stands_for(plugins[from + 20], &kpcrs::Kpcrs)
    &&& stands_for(plugins[from + 21], &netscan::NetScan)
    &&& stands_for(plugins[from + 22], &callbacks::Callbacks)
    &&& stands_for(plugins[from + 23], &mftscan::MftScan)
    &&& stands_for(plugins[from + 24], &mftscan::Ads)
    &&& stands_for(plugins[from + 25], &mftscan::ResidentData)
    &&& stands_for(plugins[from + 26], &joblinks::JobLinks)
    &&& stands_for(plugins[from + 27], &iat::Iat)
    &&& stands_for(plugins[from + 28], &dumpfiles::DumpFiles)
    &&& stands_for(plugins[from + 29], &crashinfo::CrashInfo)
    &&& stands_for(plugins[from + 30], &mbrscan::MbrScan)
    &&& stands_for(plugins[from + 31], &poolscanner::PoolScanner)
    &&& stands_for(plugins[from + 32], &pedump::PeDump)
    &&& stands_for(plugins[from + 33], &etwpatch::EtwPatch)
    &&& stands_for(plugins[from + 34], &debugregisters::DebugRegisters)
    &&& stands_for(plugins[from + 35], &pe_symbols::PeSymbols)
    &&& stands_for(plugins[from + 36], &consoles::Consoles)
    &&& stands_for(plugins[from + 37], &consoles::CmdScan)
    &&& stands_for(plugins[from + 38], &netstat::NetStat)
}

/// Whether a registry answers every Windows plugin's name with that plugin.
pub open spec fn all_answer(registry: PluginRegistry<dyn Plugin>) -> bool {
    &&& answers(registry, &pslist::PsList)
    &&& answers(registry, &pstree::PsTree)
    &&& answers(registry, &psscan::PsScan)
    &&& answers(registry, &dlllist::DllList)
    &&& answers(registry, &cmdline::CmdLine)
    &&& answers(registry, &info::Info)
    &&& answers(registry, &modules::Modules)
    &&& answers(registry, &modules::ModScan)
    &&& answers(registry, &handles::Handles)
    &&& answers(registry, &filescan::FileScan)
    &&& answers(registry, &mutantscan::MutantScan)
    &&& answers(registry, &driverscan::DriverScan)
    &&& answers(registry, &envars::Envars)
    &&& answers(registry, &memmap::MemMap)
    &&& answers(registry, &getsids::GetSids)
    &&& answers(registry, &privileges::Privileges)
    &&& answers(registry, &bigpools::BigPools)
    &&& answers(registry, &driverirp::DriverIrp)
    &&& answers(registry, &devicetree::DeviceTree)
    &&& answers(registry, &getservicesids::GetServiceSids)
    &&& answers(registry, &kpcrs::Kpcrs)
    &&& answers(registry, &netscan::NetScan)
    &&& answers(registry, &callbacks::Callbacks)
    &&& answers(registry, &mftscan::MftScan)
    &&& answers(registry, &mftscan::Ads)
    &&& answers(registry, &mftscan::ResidentData)
    &&& answers(registry, &joblinks::JobLinks)
    &&& answers(registry, &iat::Iat)
    &&& answers(registry, &dumpfiles::DumpFiles)
    &&& answers(registry, &crashinfo::CrashInfo)
    &&& answers(registry, &mbrscan::MbrScan)
    &&& answers(registry, &poolscanner::PoolScanner)
    &&& answers(registry, &pedump::PeDump)
    &&& answers(registry, &etwpatch::EtwPatch)
    &&& answers(registry, &debugregisters::DebugRegisters)
    &&& answers(registry, &pe_symbols::PeSymbols)
    &&& answers(registry, &consoles::Consoles)
    &&& answers(registry, &consoles::CmdScan)
    &&& answers(registry, &netstat::NetStat)
}

/// Once a registry that the Windows plugins were added to is sorted, each of them answers
/// under its name.
pub proof fn lemma_all_answer(
    added: Seq<PluginEntry<dyn Plugin>>,
    registry: PluginRegistry<dyn Plugin>,
    from: int,
)
    requires
        0 <= from,
        from + plugin_names().len() <= added.len(),
        are_registered(added, from),
        registry.plugins@ == by_name(added, 0),
        registry.names().no_duplicates(),
    ensures
        all_answer(registry),
{
    law_what_is_added_answers(added, registry, from + 0, &pslist::PsList);
    law_what_is_added_answers(added, registry, from + 1, &pstree::PsTree);
    law_what_is_added_answers(added, registry, from + 2, &psscan::PsScan);
    law_what_is_added_answers(added, registry, from + 3, &dlllist::DllList);
    law_what_is_added_answers(added, registry, from + 4, &cmdline::CmdLine);
    law_what_is_added_answers(added, registry, from + 5, &info::Info);
    law_what_is_added_answers(added, registry, from + 6, &modules::Modules);
    law_what_is_added_answers(added, registry, from + 7, &modules::ModScan);
    law_what_is_added_answers(added, registry, from + 8, &handles::Handles);
    law_what_is_added_answers(added, registry, from + 9, &filescan::FileScan);
    law_what_is_added_answers(added, registry, from + 10, &mutantscan::MutantScan);
    law_what_is_added_answers(added, registry, from + 11, &driverscan::DriverScan);
    law_what_is_added_answers(added, registry, from + 12, &envars::Envars);
    law_what_is_added_answers(added, registry, from + 13, &memmap::MemMap);
    law_what_is_added_answers(added, registry, from + 14, &getsids::GetSids);
    law_what_is_added_answers(added, registry, from + 15, &privileges::Privileges);
    law_what_is_added_answers(added, registry, from + 16, &bigpools::BigPools);
    law_what_is_added_answers(added, registry, from + 17, &driverirp::DriverIrp);
    law_what_is_added_answers(added, registry, from + 18, &devicetree::DeviceTree);
    law_what_is_added_answers(added, registry, from + 19, &getservicesids::GetServiceSids);
    law_what_is_added_answers(added, registry, from + 20, &kpcrs::Kpcrs);
    law_what_is_added_answers(added, registry, from + 21, &netscan::NetScan);
    law_what_is_added_answers(added, registry, from + 22, &callbacks::Callbacks);
    law_what_is_added_answers(added, registry, from + 23, &mftscan::MftScan);
    law_what_is_added_answers(added, registry, from + 24, &mftscan::Ads);
    law_what_is_added_answers(added, registry, from + 25, &mftscan::ResidentData);
    law_what_is_added_answers(added, registry, from + 26, &joblinks::JobLinks);
    law_what_is_added_answers(added, registry, from + 27, &iat::Iat);
    law_what_is_added_answers(added, registry, from + 28, &dumpfiles::DumpFiles);
    law_what_is_added_answers(added, registry, from + 29, &crashinfo::CrashInfo);
    law_what_is_added_answers(added, registry, from + 30, &mbrscan::MbrScan);
    law_what_is_added_answers(added, registry, from + 31, &poolscanner::PoolScanner);
    law_what_is_added_answers(added, registry, from + 32, &pedump::PeDump);
    law_what_is_added_answers(added, registry, from + 33, &etwpatch::EtwPatch);
    law_what_is_added_answers(added, registry, from + 34, &debugregisters::DebugRegisters);
    law_what_is_added_answers(added, registry, from + 35, &pe_symbols::PeSymbols);
    law_what_is_added_answers(added, registry, from + 36, &consoles::Consoles);
    law_what_is_added_answers(added, registry, from + 37, &consoles::CmdScan);
    law_what_is_added_answers(added, registry, from + 38, &netstat::NetStat);
}

/// Register the Windows plugins.
#[verifier::rlimit(30)]
pub fn register(registry: &mut PluginRegistry<dyn Plugin>)
    ensures
        final(registry).names() == old(registry).names() + plugin_names(),
        final(registry).plugins@.len() == old(registry).plugins@.len() + plugin_names().len(),
        keeps(old(registry).plugins@, final(registry).plugins@),
        are_registered(final(registry).plugins@, old(registry).plugins@.len() as int),
{
    let ghost before = registry.names();
    registry.add(Box::new(pslist::PsList));
    registry.add(Box::new(pstree::PsTree));
    registry.add(Box::new(psscan::PsScan));
    registry.add(Box::new(dlllist::DllList));
    registry.add(Box::new(cmdline::CmdLine));
    registry.add(Box::new(info::Info));
    registry.add(Box::new(modules::Modules));
    registry.add(Box::new(modules::ModScan));
    registry.add(Box::new(handles::Handles));
    registry.add(Box::new(filescan::FileScan));
    registry.add(Box::new(mutantscan::MutantScan));
    registry.add(Box::new(driverscan::DriverScan));
    registry.add(Box::new(envars::Envars));
    registry.add(Box::new(memmap::MemMap));
    registry.add(Box::new(getsids::GetSids));
    registry.add(Box::new(privileges::Privileges));
    registry.add(Box::new(bigpools::BigPools));
    registry.add(Box::new(driverirp::DriverIrp));
    registry.add(Box::new(devicetree::DeviceTree));
    registry.add(Box::new(getservicesids::GetServiceSids));
    registry.add(Box::new(kpcrs::Kpcrs));
    registry.add(Box::new(netscan::NetScan));
    registry.add(Box::new(callbacks::Callbacks));
    registry.add(Box::new(mftscan::MftScan));
    registry.add(Box::new(mftscan::Ads));
    registry.add(Box::new(mftscan::ResidentData));
    registry.add(Box::new(joblinks::JobLinks));
    registry.add(Box::new(iat::Iat));
    registry.add(Box::new(dumpfiles::DumpFiles));
    registry.add(Box::new(crashinfo::CrashInfo));
    registry.add(Box::new(mbrscan::MbrScan));
    registry.add(Box::new(poolscanner::PoolScanner));
    registry.add(Box::new(pedump::PeDump));
    registry.add(Box::new(etwpatch::EtwPatch));
    registry.add(Box::new(debugregisters::DebugRegisters));
    registry.add(Box::new(pe_symbols::PeSymbols));
    registry.add(Box::new(consoles::Consoles));
    registry.add(Box::new(consoles::CmdScan));
    registry.add(Box::new(netstat::NetStat));
    assert(registry.names() =~= before + plugin_names());
}

/// What a plugin without a kernel fails with.
pub open spec fn no_kernel() -> crate::error::Failure {
    crate::error::Failure::Other(
        "No kernel symbols are loaded for this image. Windows analysis needs a symbol file matching the kernel; install one and point at it with --symbol-dirs."@,
    )
}

/// The kernel module a plugin was configured with.
pub open spec fn kernel_of(context: &Context, config: &Configuration) -> Option<Module> {
    crate::context::named(context.modules@, config.text_or("kernel"@, "kernel"@))
}

/// Resolve the kernel module a plugin was configured with.
///
/// Every Windows plugin needs this, and the failure mode, no symbols loaded,
/// deserves a message that says what to do about it.
pub fn kernel_module<'a>(context: &'a Context, config: &Configuration) -> (found: Result<
    &'a Module,
    VolatilityError,
>)
    ensures
        match found {
            Ok(module) => kernel_of(context, config) == Some(*module),
            Err(error) => kernel_of(context, config) is None && error@ == no_kernel(),
        },
{
    let name = match config.get_string("kernel") {
        Some(name) => name,
        None => "kernel".to_owned(),
    };
    match context.module(&name) {
        Some(module) => Ok(module),
        None => Err(
            VolatilityError::other(
                "No kernel symbols are loaded for this image. Windows analysis needs a symbol file matching the kernel; install one and point at it with --symbol-dirs.",
            ),
        ),
    }
}

/// The name of the layer that holds physical memory.
pub open spec fn physical_name(config: &Configuration) -> Seq<char> {
    config.text_or("physical_layer"@, "base"@)
}

/// The layer holding physical memory, for plugins that build process layers.
pub fn physical_layer(config: &Configuration) -> (name: String)
    ensures
        name@ == physical_name(config),
{
    match config.get_string("physical_layer") {
        Some(name) => name,
        None => "base".to_owned(),
    }
}

/// Name of the offset column, which says which address space it refers to.
#[verifier::allow_in_spec]
pub fn offset_column_name(physical: bool) -> (name: &'static str)
    returns
        (if physical {
            "Offset(P)"
        } else {
            "Offset(V)"
        }),
{
    if physical {
        "Offset(P)"
    } else {
        "Offset(V)"
    }
}

pub open spec fn spec_process_offset(context: &Context, process: Object, physical: bool) -> u64 {
    match context.translate(process.layer, process.offset) {
        Some(mapped) if physical => mapped,
        _ => process.offset,
    }
}

/// The offset to report for a process.
///
/// Translating to a physical offset can fail if the page is not resident, in
/// which case the virtual offset is reported rather than losing the row.
#[verifier::when_used_as_spec(spec_process_offset)]
pub fn process_offset(context: &Context, process: Object, physical: bool) -> (offset: u64)
    ensures
        offset == spec_process_offset(context, process, physical),
{
    if !physical {
        return process.offset;
    }
    match context.translate(process.layer, process.offset) {
        Some(mapped) => mapped,
        None => process.offset,
    }
}

/// The processes that a filter lets through, in order.
pub open spec fn passing(context: &Context, processes: Seq<Object>, filter: Option<Seq<u64>>) -> Seq<
    Object,
>
    decreases processes.len(),
{
    if processes.len() == 0 {
        Seq::empty()
    } else {
        let before = passing(context, processes.drop_last(), filter);
        match context.pid(processes.last()) {
            Some(pid) if crate::plugins::passes(filter, pid) => before.push(processes.last()),
            _ => before,
        }
    }
}

/// The processes that stand at a physical offset, in order.
pub open spec fn standing_at(context: &Context, processes: Seq<Object>, offset: u64) -> Seq<Object>
    decreases processes.len(),
{
    if processes.len() == 0 {
        Seq::empty()
    } else {
        let before = standing_at(context, processes.drop_last(), offset);
        if process_offset(context, processes.last(), true) == offset {
            before.push(processes.last())
        } else {
            before
        }
    }
}

/// The processes a listing walks.
pub open spec fn selected(context: &Context, kernel: &Module, config: &Configuration) -> Option<
    Seq<Object>,
> {
    match config.int_of("offset"@) {
        Some(offset) if offset != 0 => match psscan::scanned_processes(context) {
            Some(processes) => Some(standing_at(context, processes, offset as u64)),
            None => None,
        },
        _ => match crate::symbols::windows::listed_processes(context, kernel) {
            Some(processes) => Some(
                passing(context, processes, crate::plugins::pid_list(config.lookup("pid"@))),
            ),
            None => None,
        },
    }
}

/// The processes a listing should walk, given how the caller named them.
///
/// Naming a physical offset asks about one structure in the image, which is
/// found by scanning rather than by walking the kernel's list, so a process
/// the list no longer mentions can still be examined.
pub fn selected_processes(context: &Context, kernel: &Module, config: &Configuration) -> (found:
    Result<Vec<Object>, VolatilityError>)
    ensures
        match found {
            Ok(processes) => selected(context, kernel, config) == Some(processes@),
            Err(error) => selected(context, kernel, config) is None && error@
                == crate::error::Failure::Unavailable,
        },
{
    let wanted = config.get_int("offset");
    let chosen: i64 = match wanted {
        Some(offset) => offset,
        None => 0,
    };
    let mut kept: Vec<Object> = Vec::new();
    if chosen != 0 {
        let processes = psscan::scan_processes(context)?;
        for i in 0..processes.len()
            invariant
                kept@ == standing_at(context, processes@.take(i as int), chosen as u64),
        {
            assert(processes@.take(i + 1).drop_last() =~= processes@.take(i as int));
            if process_offset(context, processes[i], true) == chosen as u64 {
                kept.push(processes[i]);
            }
        }
        assert(processes@.take(processes@.len() as int) =~= processes@);
    } else {
        let filter = crate::plugins::pid_filter(config);
        let processes = match list_processes(context, kernel) {
            Some(processes) => processes,
            None => return Err(VolatilityError::Unavailable),
        };
        kept = filtered_processes(context, &processes, &filter);
    }
    Ok(kept)
}

/// The processes that a filter lets through, in order.
pub fn filtered_processes(context: &Context, processes: &Vec<Object>, filter: &Option<Vec<u64>>) -> (
    kept: Vec<Object>)
    ensures
        kept@ == passing(context, processes@, crate::plugins::filter_view(*filter)),
{
    let mut kept: Vec<Object> = Vec::new();
    for i in 0..processes.len()
        invariant
            kept@ == passing(
                context,
                processes@.take(i as int),
                crate::plugins::filter_view(*filter),
            ),
    {
        assert(processes@.take(i + 1).drop_last() =~= processes@.take(i as int));
        if let Some(pid) = context.pid(processes[i]) {
            if crate::plugins::pid_matches(filter, pid) {
                kept.push(processes[i]);
            }
        }
    }
    assert(processes@.take(processes@.len() as int) =~= processes@);
    kept
}

/// The processes that the kernel lists and that pass the filter on process
/// numbers.
pub open spec fn chosen(context: &Context, kernel: &Module, config: &Configuration) -> Option<
    Seq<Object>,
> {
    match crate::symbols::windows::listed_processes(context, kernel) {
        Some(processes) => Some(
            passing(context, processes, crate::plugins::pid_list(config.lookup("pid"@))),
        ),
        None => None,
    }
}

/// The processes that the kernel lists and that pass the filter on process
/// numbers.
pub fn chosen_processes(context: &Context, kernel: &Module, config: &Configuration) -> (found: Result<
    Vec<Object>,
    VolatilityError,
>)
    ensures
        match found {
            Ok(processes) => chosen(context, kernel, config) == Some(processes@),
            Err(error) => chosen(context, kernel, config) is None && error@
                == crate::error::Failure::Unavailable,
        },
{
    let filter = pid_filter(config);
    match list_processes(context, kernel) {
        Some(processes) => Ok(filtered_processes(context, &processes, &filter)),
        None => Err(VolatilityError::Unavailable),
    }
}

/// A module that an address of code is attributed to, and a name for the address.
#[derive(Debug)]
pub struct Attribution {
    pub module: Value,
    pub symbol: Value,
}

/// What is said of an attribution.
#[verifier::ext_equal]
pub struct AttributionView {
    pub module: Cell,
    pub symbol: Cell,
}

impl View for Attribution {
    type V = AttributionView;

    open spec fn view(&self) -> AttributionView {
        AttributionView { module: self.module@, symbol: self.symbol@ }
    }
}

/// What is said of each of some attributions.
pub open spec fn attribution_views(list: Seq<Attribution>) -> Seq<AttributionView> {
    Seq::new(list.len(), |i: int| list[i]@)
}

fn add_attribution(list: &mut Vec<Attribution>, module: Value, symbol: Value)
    ensures
        attribution_views(final(list)@) == attribution_views(old(list)@).push(
            AttributionView { module: module@, symbol: symbol@ },
        ),
{
    let ghost before = attribution_views(list@);
    let ghost said = AttributionView { module: module@, symbol: symbol@ };
    list.push(Attribution { module, symbol });
    assert(attribution_views(list@) =~= before.push(said));
}

/// Some attributions, and one for each of the first names that a module has.
pub open spec fn with_names(
    list: Seq<AttributionView>,
    owner: crate::symbols::windows::OwnerView,
    count: int,
) -> Seq<AttributionView>
    decreases count,
{
    if count <= 0 {
        list
    } else {
        with_names(list, owner, count - 1).push(
            AttributionView {
                module: Cell::Text(owner.module),
                symbol: Cell::Text(owner.symbols[count - 1]),
            },
        )
    }
}

/// Some attributions, and what the first of some modules say. Several symbols can
/// name the same address, and a module may have none for it.
pub open spec fn with_owners(
    list: Seq<AttributionView>,
    owners: Seq<crate::symbols::windows::OwnerView>,
    count: int,
) -> Seq<AttributionView>
    decreases count,
{
    if count <= 0 {
        list
    } else {
        let before = with_owners(list, owners, count - 1);
        let owner = owners[count - 1];
        if owner.symbols.len() == 0 {
            before.push(
                AttributionView {
                    module: Cell::Text(owner.module),
                    symbol: Cell::not_available(),
                },
            )
        } else {
            with_names(before, owner, owner.symbols.len() as int)
        }
    }
}

/// What the modules say of an address. One in no loaded module is precisely what
/// is worth finding.
pub open spec fn attributed(modules: Seq<CodeModule>, address: u64) -> Seq<AttributionView> {
    let owners = crate::symbols::windows::owners_of(modules, address);
    if owners.len() == 0 {
        seq![AttributionView { module: Cell::not_available(), symbol: Cell::not_available() }]
    } else {
        with_owners(Seq::empty(), owners, owners.len() as int)
    }
}

fn add_owner(list: &mut Vec<Attribution>, owner: &Owner)
    ensures
        attribution_views(final(list)@) == with_owners(
            attribution_views(old(list)@),
            seq![owner@],
            1,
        ),
{
    let ghost start = attribution_views(list@);
    assert(with_owners(start, seq![owner@], 0) == start);
    if owner.symbols.is_empty() {
        add_attribution(list, Value::string(&owner.module), Value::not_available());
    } else {
        for i in 0..owner.symbols.len()
            invariant
                attribution_views(list@) == with_names(start, owner@, i as int),
        {
            add_attribution(
                list,
                Value::string(&owner.module),
                Value::string(&owner.symbols[i]),
            );
        }
    }
}

/// What the modules say of an address.
pub fn attribute(modules: &Vec<CodeModule>, address: u64) -> (list: Vec<Attribution>)
    ensures
        attribution_views(list@) == attributed(modules@, address),
{
    let owners = modules_at(modules, address);
    let ghost said = crate::symbols::windows::owner_views(owners@);
    let mut list: Vec<Attribution> = Vec::new();
    assert(attribution_views(list@) =~= Seq::<AttributionView>::empty());
    if owners.is_empty() {
        add_attribution(&mut list, Value::not_available(), Value::not_available());
        assert(attribution_views(list@) =~= attributed(modules@, address));
    } else {
        for i in 0..owners.len()
            invariant
                said == crate::symbols::windows::owner_views(owners@),
                attribution_views(list@) == with_owners(Seq::empty(), said, i as int),
        {
            let ghost before = attribution_views(list@);
            add_owner(&mut list, &owners[i]);
            assert(with_owners(before, seq![owners@[i as int]@], 0) == before);
        }
    }
    list
}

/// The names of the symbol tables.
pub open spec fn table_names(tables: Seq<SymbolTable>) -> Seq<Seq<char>> {
    Seq::new(tables.len(), |i: int| tables[i].name@)
}

fn list_table_names(tables: &Vec<SymbolTable>) -> (names: Vec<String>)
    ensures
        crate::text::texts(names@) == table_names(tables@),
{
    let mut names: Vec<String> = Vec::new();
    for i in 0..tables.len()
        invariant
            crate::text::texts(names@) =~= table_names(tables@).take(i as int),
    {
        push_text(&mut names, tables[i].name.clone());
    }
    assert(crate::text::texts(names@) =~= table_names(tables@));
    names
}

proof fn lemma_pushed(list: Seq<Module>, more: Module, from: int)
    requires
        0 <= from <= list.len(),
        crate::context::named_from(list, more.name@, from) is None,
    ensures
        crate::context::named_from(list.push(more), more.name@, from) == Some(list.len() as int),
    decreases list.len() - from,
{
    if from < list.len() {
        assert(list.push(more)[from] == list[from]);
        lemma_pushed(list, more, from + 1);
    } else {
        assert(list.push(more)[from] == more);
    }
}

/// Load a symbol table beside the kernel's, and register a module for it.
///
/// The graphical subsystem's structures live in `win32k`, whose symbols are a
/// separate file from the kernel's. Loading one lazily keeps every other plugin
/// from paying for it. `found` is what the file holds, or nothing where none is
/// installed; a module that an earlier plugin loaded is used again.
pub fn load_companion_module(
    context: &mut Context,
    kernel: &Module,
    file_stem: &str,
    module_name: &str,
    found: Option<Result<SymbolTable, VolatilityError>>,
) -> (loaded: Result<Option<usize>, VolatilityError>)
    ensures
        match (crate::context::named_from(old(context).modules@, module_name@, 0), found) {
            (Some(at), _) => *final(context) == *old(context) && loaded == Ok::<
                Option<usize>,
                VolatilityError,
            >(Some(at as usize)),
            (None, None) => *final(context) == *old(context) && loaded == Ok::<
                Option<usize>,
                VolatilityError,
            >(None),
            (None, Some(Err(error))) => *final(context) == *old(context) && loaded == Err::<
                Option<usize>,
                VolatilityError,
            >(error),
            (None, Some(Ok(table))) => {
                &&& loaded == Ok::<Option<usize>, VolatilityError>(
                    Some(old(context).modules@.len() as usize),
                )
                &&& final(context).layers == old(context).layers
                &&& final(context).output == old(context).output
                &&& final(context).windows == old(context).windows
                &&& final(context).mac == old(context).mac
                &&& final(context).tables@.len() == old(context).tables@.len() + 1
                &&& final(context).tables@.drop_last() == old(context).tables@
                &&& final(context).tables@.last().name@ == crate::plugins::output::free_name(
                    file_stem@,
                    table_names(old(context).tables@),
                )
                &&& final(context).tables@.last().pointer_size == table.pointer_size
                &&& final(context).tables@.last().source == table.source
                &&& final(context).tables@.last().types == table.types
                &&& final(context).tables@.last().symbols == table.symbols
                &&& final(context).modules@.len() == old(context).modules@.len() + 1
                &&& final(context).modules@.drop_last() == old(context).modules@
                &&& final(context).modules@.last().name@ == module_name@
                &&& final(context).modules@.last().table == old(context).tables@.len()
                &&& final(context).modules@.last().layer == kernel.layer
                &&& final(context).modules@.last().offset == kernel.offset
                &&& final(context).modules@.last().absolute == kernel.absolute
            },
        },
        loaded matches Ok(Some(at)) ==> crate::context::named_from(
            final(context).modules@,
            module_name@,
            0,
        ) == Some(at as int),
{
    if let Some(at) = find_named(&context.modules, module_name) {
        return Ok(Some(at));
    }
    match found {
        None => Ok(None),
        Some(Err(error)) => Err(error),
        Some(Ok(table)) => {
            let names = list_table_names(&context.tables);
            let ghost before = *context;
            let renamed = SymbolTable {
                name: free_extracted_name(file_stem, &names),
                pointer_size: table.pointer_size,
                source: table.source,
                types: table.types,
                symbols: table.symbols,
            };
            let module = Module {
                name: module_name.to_owned(),
                table: context.tables.len(),
                layer: kernel.layer,
                offset: kernel.offset,
                absolute: kernel.absolute,
            };
            let at: usize = context.modules.len();
            proof {
                lemma_pushed(before.modules@, module, 0);
            }
            context.tables.push(renamed);
            context.modules.push(module);
            assert(context.tables@.drop_last() =~= before.tables@);
            assert(context.modules@.drop_last() =~= before.modules@);
            Ok(Some(at))
        },
    }
}

} // verus!
