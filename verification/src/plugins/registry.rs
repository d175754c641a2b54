//! Every plugin the library knows about.

use crate::config::Configuration;
use crate::context::Context;
use crate::error::VolatilityError;
use crate::plugins::{OperatingSystem, Plugin, Requirement, Timeline};
use crate::renderers::{Column, TreeGrid};
use crate::text::{self, ascii_lower, comes_before, contains, ends_with, same_text};
use vstd::prelude::*;

verus! {

/// Exposes a plugin under a second name.
///
/// A plugin that moved keeps its older name working. An alias delegates
/// everything except the name, so the two entries cannot drift apart.
pub struct Alias<P: Plugin> {
    pub inner: P,
    pub name: &'static str,
    pub description: Option<&'static str>,
    pub epilog: Option<&'static str>,
}

impl<P: Plugin> Alias<P> {
    pub fn new(inner: P, name: &'static str) -> (alias: Alias<P>)
        ensures
            alias == (Alias::<P> { inner, name, description: None, epilog: None }),
    {
        Alias { inner, name, description: None, epilog: None }
    }

    /// Describe the alias in its own words.
    ///
    /// A plugin that moved keeps working under its old name, and the older name
    /// is marked as deprecated in its description.
    pub fn with_description(self, description: &'static str) -> (alias: Alias<P>)
        ensures
            alias == (Alias::<P> { description: Some(description), ..self }),
    {
        let mut alias = self;
        alias.description = Some(description);
        alias
    }

    /// Give the alias its own trailing note.
    pub fn with_epilog(self, epilog: &'static str) -> (alias: Alias<P>)
        ensures
            alias == (Alias::<P> { epilog: Some(epilog), ..self }),
    {
        let mut alias = self;
        alias.epilog = Some(epilog);
        alias
    }
}

impl<P: Plugin> Plugin for Alias<P> {
    open spec fn named(&self) -> Seq<char> {
        self.name@
    }

    open spec fn described(&self) -> Seq<char> {
        match self.description {
            Some(description) => description@,
            None => self.inner.described(),
        }
    }

    open spec fn needs(&self) -> Seq<crate::plugins::RequirementView> {
        self.inner.needs()
    }

    open spec fn headings(&self) -> Seq<Column> {
        self.inner.headings()
    }

    open spec fn system(&self) -> OperatingSystem {
        self.inner.system()
    }

    open spec fn report(&self, context: &Context, config: &Configuration) -> Result<
        crate::renderers::Table,
        crate::error::Failure,
    > {
        self.inner.report(context, config)
    }

    open spec fn note(&self) -> Option<Seq<char>> {
        match self.epilog {
            Some(note) => Some(note@),
            None => self.inner.note(),
        }
    }

    open spec fn moments(&self, context: &Context, config: &Configuration) -> Option<
        crate::plugins::TimelineView,
    > {
        self.inner.moments(context, config)
    }

    open spec fn kernel_first(&self) -> bool {
        self.inner.kernel_first()
    }

    fn name(&self) -> (name: &'static str) {
        self.name
    }

    fn description(&self) -> (description: &'static str) {
        match self.description {
            Some(description) => description,
            None => self.inner.description(),
        }
    }

    fn epilog(&self) -> (epilog: Option<&'static str>) {
        match self.epilog {
            Some(epilog) => Some(epilog),
            None => self.inner.epilog(),
        }
    }

    fn requirements(&self) -> (requirements: Vec<Requirement>) {
        self.inner.requirements()
    }

    fn columns(&self) -> (columns: Vec<Column>) {
        self.inner.columns()
    }

    fn run(&self, context: &Context, config: &Configuration) -> (result: Result<
        TreeGrid,
        VolatilityError,
    >) {
        self.inner.run(context, config)
    }

    fn timeline(&self, context: &Context, config: &Configuration) -> (timeline: Option<Timeline>) {
        self.inner.timeline(context, config)
    }

    fn operating_system(&self) -> (system: OperatingSystem) {
        self.inner.operating_system()
    }

    fn needs_kernel(&self) -> (needed: bool) {
        self.inner.needs_kernel()
    }
}

/// One plugin of the registry.
pub struct PluginEntry<P: ?Sized> {
    pub plugin: Box<P>,
}

/// Every plugin the library knows about.
pub struct PluginRegistry<P: ?Sized> {
    pub plugins: Vec<PluginEntry<P>>,
}

/// The names of plugins.
pub open spec fn names<P: Plugin + ?Sized>(plugins: Seq<PluginEntry<P>>) -> Seq<Seq<char>> {
    Seq::new(plugins.len(), |i: int| plugins[i].plugin.named())
}

/// Whether an entry is a plugin: it says of itself what the plugin says, and reports
/// of every image what the plugin reports.
pub open spec fn stands_for<P: Plugin + ?Sized, Q: Plugin + ?Sized>(
    entry: PluginEntry<P>,
    plugin: &Q,
) -> bool {
    &&& entry.plugin.named() == plugin.named()
    &&& entry.plugin.described() == plugin.described()
    &&& entry.plugin.note() == plugin.note()
    &&& entry.plugin.needs() == plugin.needs()
    &&& entry.plugin.headings() == plugin.headings()
    &&& entry.plugin.system() == plugin.system()
    &&& entry.plugin.kernel_first() == plugin.kernel_first()
    &&& forall|context: &Context, config: &Configuration| #[trigger]
        entry.plugin.report(context, config) == plugin.report(context, config)
    &&& forall|context: &Context, config: &Configuration| #[trigger]
        entry.plugin.moments(context, config) == plugin.moments(context, config)
}

/// Whether the entries that were there stay where they are.
pub open spec fn keeps<P: ?Sized>(before: Seq<PluginEntry<P>>, after: Seq<PluginEntry<P>>) -> bool {
    forall|i: int| 0 <= i < before.len() ==> #[trigger] after[i] == before[i]
}

/// Whether a name reads the same as the end of another one when the case of
/// ASCII letters is ignored.
pub open spec fn is_suffix(full: Seq<char>, name: Seq<char>) -> bool {
    text::ends(text::lower(full), text::lower(name))
}

/// How many of some names end in a name.
pub open spec fn suffix_count(list: Seq<Seq<char>>, name: Seq<char>) -> nat
    decreases list.len(),
{
    if list.len() == 0 {
        0
    } else {
        suffix_count(list.drop_last(), name) + if is_suffix(list.last(), name) {
            1nat
        } else {
            0nat
        }
    }
}

/// The first place, from one on, at which a name stands among some names.
pub open spec fn exact_place(list: Seq<Seq<char>>, name: Seq<char>, from: int) -> Option<int>
    decreases list.len() - from,
{
    if from < 0 || from >= list.len() {
        None
    } else if list[from] == name {
        Some(from)
    } else {
        exact_place(list, name, from + 1)
    }
}

/// The last place at which one of some names ends in a name.
pub open spec fn suffix_place(list: Seq<Seq<char>>, name: Seq<char>) -> Option<int>
    decreases list.len(),
{
    if list.len() == 0 {
        None
    } else if is_suffix(list.last(), name) {
        Some(list.len() - 1)
    } else {
        suffix_place(list.drop_last(), name)
    }
}

/// The place that a name stands for among some names: that of the name itself, or
/// of the only one that ends in it when the case of ASCII letters is ignored.
pub open spec fn lookup_place(list: Seq<Seq<char>>, name: Seq<char>) -> Option<int> {
    match exact_place(list, name, 0) {
        Some(place) => Some(place),
        None => if suffix_count(list, name) == 1 {
            suffix_place(list, name)
        } else {
            None
        },
    }
}

/// The places of names that hold a part when the case of ASCII letters is
/// ignored, in order.
pub open spec fn search_places(list: Seq<Seq<char>>, part: Seq<char>) -> Seq<int>
    decreases list.len(),
{
    if list.len() == 0 {
        Seq::empty()
    } else {
        let before = search_places(list.drop_last(), part);
        if text::holds(text::lower(list.last()), text::lower(part)) {
            before.push(list.len() - 1)
        } else {
            before
        }
    }
}

impl<P: Plugin + ?Sized> PluginRegistry<P> {
    /// The names of the registered plugins, in order.
    pub open spec fn names(&self) -> Seq<Seq<char>> {
        names(self.plugins@)
    }

    /// A registry without plugins.
    pub fn empty() -> (registry: PluginRegistry<P>)
        ensures
            registry.plugins@ == Seq::<PluginEntry<P>>::empty(),
    {
        PluginRegistry { plugins: Vec::new() }
    }

    pub fn add(&mut self, plugin: Box<P>)
        ensures
            final(self).plugins@ == old(self).plugins@.push(PluginEntry { plugin }),
            final(self).plugins@.len() == old(self).plugins@.len() + 1,
            keeps(old(self).plugins@, final(self).plugins@),
            stands_for(final(self).plugins@[old(self).plugins@.len() as int], &*plugin),
            final(self).names() == old(self).names().push(plugin.named()),
    {
        self.plugins.push(PluginEntry { plugin });
        assert(self.names() =~= old(self).names().push(plugin.named()));
    }

    pub fn all(&self) -> (plugins: &Vec<PluginEntry<P>>)
        ensures
            *plugins == self.plugins,
    {
        &self.plugins
    }

    /// Look up a plugin by its exact name, or by a unique case-insensitive
    /// suffix so `pslist` finds `windows.pslist.PsList`.
    pub fn get(&self, name: &str) -> (found: Option<&PluginEntry<P>>)
        ensures
            match lookup_place(self.names(), name@) {
                Some(place) => 0 <= place < self.plugins@.len() && found == Some(
                    &self.plugins@[place],
                ),
                None => found is None,
            },
    {
        let mut i: usize = 0;
        while i < self.plugins.len()
            invariant
                i <= self.plugins@.len(),
                exact_place(self.names(), name@, 0) == exact_place(self.names(), name@, i as int),
            decreases self.plugins@.len() - i,
        {
            if same_text(self.plugins[i].plugin.name(), name) {
                return Some(&self.plugins[i]);
            }
            i = i + 1;
        }
        let lowered = ascii_lower(name);
        let mut count: usize = 0;
        let mut last: usize = 0;
        for i in 0..self.plugins.len()
            invariant
                lowered@ == text::lower(name@),
                count == suffix_count(self.names().take(i as int), name@),
                count <= i,
                count > 0 ==> last < self.plugins@.len() && suffix_place(
                    self.names().take(i as int),
                    name@,
                ) == Some(last as int),
        {
            assert(self.names().take(i + 1).drop_last() =~= self.names().take(i as int));
            if ends_with(&ascii_lower(self.plugins[i].plugin.name()), &lowered) {
                count = count + 1;
                last = i;
            }
        }
        assert(self.names().take(self.plugins@.len() as int) =~= self.names());
        if count == 1 {
            Some(&self.plugins[last])
        } else {
            None
        }
    }

    /// Plugins whose name contains `needle`, for the listing command.
    pub fn search(&self, needle: &str) -> (found: Vec<&PluginEntry<P>>)
        ensures
            found@.len() == search_places(self.names(), needle@).len(),
            forall|i: int|
                0 <= i < found@.len() ==> *(#[trigger] found@[i]) == self.plugins@[search_places(
                    self.names(),
                    needle@,
                )[i]],
    {
        let lowered = ascii_lower(needle);
        let mut found: Vec<&PluginEntry<P>> = Vec::new();
        for i in 0..self.plugins.len()
            invariant
                lowered@ == text::lower(needle@),
                found@.len() == search_places(self.names().take(i as int), needle@).len(),
                forall|j: int|
                    0 <= j < found@.len() ==> *(#[trigger] found@[j])
                        == self.plugins@[search_places(self.names().take(i as int), needle@)[j]],
        {
            assert(self.names().take(i + 1).drop_last() =~= self.names().take(i as int));
            if contains(&ascii_lower(self.plugins[i].plugin.name()), &lowered) {
                found.push(&self.plugins[i]);
            }
        }
        assert(self.names().take(self.plugins@.len() as int) =~= self.names());
        found
    }

    pub fn len(&self) -> (count: usize)
        ensures
            count == self.plugins@.len(),
    {
        self.plugins.len()
    }

    pub fn is_empty(&self) -> (empty: bool)
        ensures
            empty == (self.plugins@.len() == 0),
    {
        self.plugins.is_empty()
    }
}

/// Where a name stands among names that are in order: behind those that come
/// before it.
pub open spec fn place_for(list: Seq<Seq<char>>, name: Seq<char>, from: int) -> int
    decreases list.len() - from,
{
    if from < 0 || from >= list.len() || !text::precedes(list[from], name) {
        from
    } else {
        place_for(list, name, from + 1)
    }
}

/// Plugins from a place on in the order of their names. Those with the same name
/// stay as they are.
pub open spec fn by_name<P: Plugin + ?Sized>(plugins: Seq<PluginEntry<P>>, from: int) -> Seq<
    PluginEntry<P>,
>
    decreases plugins.len() - from,
{
    if from < 0 || from >= plugins.len() {
        Seq::empty()
    } else {
        let rest = by_name(plugins, from + 1);
        rest.insert(place_for(names(rest), plugins[from].plugin.named(), 0), plugins[from])
    }
}

/// Whether names are in order.
pub open spec fn is_in_order(list: Seq<Seq<char>>) -> bool {
    forall|i: int, j: int|
        0 <= i < j < list.len() ==> !text::precedes(#[trigger] list[j], #[trigger] list[i])
}

proof fn lemma_place(list: Seq<Seq<char>>, name: Seq<char>, from: int)
    requires
        0 <= from <= list.len(),
    ensures
        from <= place_for(list, name, from) <= list.len(),
        forall|i: int|
            from <= i < place_for(list, name, from) ==> text::precedes(#[trigger] list[i], name),
        place_for(list, name, from) < list.len() ==> !text::precedes(
            list[place_for(list, name, from)],
            name,
        ),
    decreases list.len() - from,
{
    if from < list.len() && text::precedes(list[from], name) {
        lemma_place(list, name, from + 1);
    }
}

proof fn lemma_insertion(list: Seq<Seq<char>>, name: Seq<char>)
    requires
        is_in_order(list),
    ensures
        is_in_order(list.insert(place_for(list, name, 0), name)),
{
    let at = place_for(list, name, 0);
    lemma_place(list, name, 0);
    let all = list.insert(at, name);
    assert forall|i: int, j: int| 0 <= i < j < all.len() implies !text::precedes(
        #[trigger] all[j],
        #[trigger] all[i],
    ) by {
        if j < at {
            assert(!text::precedes(list[j], list[i]));
        } else if j == at {
            text::lemma_precedes_one_way(list[i], name);
        } else if i > at {
            assert(!text::precedes(list[j - 1], list[i - 1]));
        } else if i == at {
            if j - 1 > at {
                assert(!text::precedes(list[j - 1], list[at]));
                text::lemma_precedes_chain(name, list[at], list[j - 1]);
            }
        } else {
            assert(!text::precedes(list[j - 1], list[i]));
        }
    }
}

proof fn lemma_by_name<P: Plugin + ?Sized>(plugins: Seq<PluginEntry<P>>, from: int)
    requires
        0 <= from <= plugins.len(),
    ensures
        is_in_order(names(by_name(plugins, from))),
        names(by_name(plugins, from)).to_multiset() == names(plugins).skip(from).to_multiset(),
        by_name(plugins, from).to_multiset() == plugins.skip(from).to_multiset(),
        by_name(plugins, from).len() == plugins.len() - from,
    decreases plugins.len() - from,
{
    broadcast use vstd::seq_lib::group_to_multiset_ensures;

    if from < plugins.len() {
        lemma_by_name(plugins, from + 1);
        let rest = by_name(plugins, from + 1);
        let entry = plugins[from];
        let name = entry.plugin.named();
        let at = place_for(names(rest), name, 0);
        lemma_place(names(rest), name, 0);
        lemma_insertion(names(rest), name);
        assert(names(rest.insert(at, entry)) =~= names(rest).insert(at, name));
        vstd::seq_lib::to_multiset_insert(names(rest), at, name);
        vstd::seq_lib::to_multiset_insert(rest, at, entry);
        assert(names(plugins).skip(from) =~= names(plugins).skip(from + 1).insert(0, name));
        assert(plugins.skip(from) =~= plugins.skip(from + 1).insert(0, entry));
        vstd::seq_lib::to_multiset_insert(names(plugins).skip(from + 1), 0, name);
        vstd::seq_lib::to_multiset_insert(plugins.skip(from + 1), 0, entry);
    } else {
        assert(names(by_name(plugins, from)) =~= Seq::<Seq<char>>::empty());
        assert(names(plugins).skip(from) =~= Seq::<Seq<char>>::empty());
        assert(plugins.skip(from) =~= Seq::<PluginEntry<P>>::empty());
    }
}

/// Sorting puts the names in order, and neither loses a plugin nor adds one.
pub proof fn law_sorting_keeps_every_plugin<P: Plugin + ?Sized>(plugins: Seq<PluginEntry<P>>)
    ensures
        is_in_order(names(by_name(plugins, 0))),
        names(by_name(plugins, 0)).to_multiset() == names(plugins).to_multiset(),
        by_name(plugins, 0).to_multiset() == plugins.to_multiset(),
        by_name(plugins, 0).len() == plugins.len(),
{
    lemma_by_name(plugins, 0);
    assert(names(plugins).skip(0) =~= names(plugins));
    assert(plugins.skip(0) =~= plugins);
}

/// The names of all the plugins, in the order they are registered.
pub open spec fn builtin_names() -> Seq<Seq<char>> {
    crate::plugins::windows::plugin_names() + crate::plugins::mac::plugin_names()
}

/// What tells the names of plugins apart: the length, and two characters.
spec fn mark(name: Seq<char>) -> (nat, char, char) {
    (name.len(), name[9], name[12])
}

/// The place of the name with a mark.
spec fn place_marked(mark: (nat, char, char)) -> int {
    if mark == (21nat, 's', 's') {
        0
    } else if mark == (21nat, 's', 'e') {
        1
    } else if mark == (21nat, 's', 'a') {
        2
    } else if mark == (23nat, 'l', 'i') {
        3
    } else if mark == (23nat, 'm', 'i') {
        4
    } else if mark == (17nat, 'n', '.') {
        5
    } else if mark == (23nat, 'o', 'l') {
        6
    } else if mark == (23nat, 'o', 'c') {
        7
    } else if mark == (23nat, 'a', 'l') {
        8
    } else if mark == (25nat, 'i', 's') {
        9
    } else if mark == (29nat, 'u', 'n') {
        10
    } else if mark == (29nat, 'r', 'e') {
        11
    } else if mark == (21nat, 'n', 'r') {
        12
    } else if mark == (21nat, 'e', 'a') {
        13
    } else if mark == (23nat, 'e', 'i') {
        14
    } else if mark == (24nat, 'r', 'i') {
        15
    } else if mark == (25nat, 'i', 'o') {
        16
    } else if mark == (27nat, 'r', 'e') {
        17
    } else if mark == (29nat, 'e', 'c') {
        18
    } else if mark == (37nat, 'e', 'e') {
        19
    } else if mark == (19nat, 'p', 's') {
        20
    } else if mark == (23nat, 'e', 'c') {
        21
    } else if mark == (27nat, 'a', 'b') {
        22
    } else if mark == (23nat, 'f', 'c') {
        23
    } else if mark == (19nat, 'f', 'c') {
        24
    } else if mark == (28nat, 'f', 'c') {
        25
    } else if mark == (25nat, 'o', 'i') {
        26
    } else if mark == (15nat, 'a', 'I') {
        27
    } else if mark == (27nat, 'u', 'f') {
        28
    } else if mark == (27nat, 'r', 'h') {
        29
    } else if mark == (23nat, 'b', 'c') {
        30
    } else if mark == (31nat, 'o', 's') {
        31
    } else if mark == (21nat, 'e', 'm') {
        32
    } else if mark == (25nat, 't', 'a') {
        33
    } else if mark == (37nat, 'e', 'g') {
        34
    } else if mark == (28nat, 'e', 'y') {
        35
    } else if mark == (25nat, 'o', 'o') {
        36
    } else if mark == (23nat, 'm', 'c') {
        37
    } else if mark == (23nat, 'e', 't') {
        38
    } else if mark == (17nat, 't', 's') {
        39
    } else if mark == (17nat, 'e', 's') {
        40
    } else if mark == (15nat, '.', 'm') {
        41
    } else if mark == (15nat, '.', 'a') {
        42
    } else if mark == (13nat, 'L', 'f') {
        43
    } else if mark == (15nat, '.', 'u') {
        44
    } else if mark == (21nat, 'f', '.') {
        45
    } else if mark == (18nat, 'm', 's') {
        46
    } else if mark == (19nat, 'n', 'M') {
        47
    } else if mark == (31nat, '_', 's') {
        48
    } else if mark == (37nat, '_', 'a') {
        49
    } else if mark == (25nat, 'e', 's') {
        50
    } else if mark == (17nat, 's', 'i') {
        51
    } else if mark == (35nat, '_', 's') {
        52
    } else if mark == (23nat, 'e', 's') {
        53
    } else if mark == (29nat, '_', 's') {
        54
    } else if mark == (25nat, 'f', 'e') {
        55
    } else if mark == (19nat, 'a', 'N') {
        56
    } else if mark == (33nat, 't', 'i') {
        57
    } else if mark == (15nat, '.', 'e') {
        58
    } else if mark == (13nat, 'B', 'h') {
        59
    } else if mark == (19nat, 't', 'K') {
        60
    } else {
        -1
    }
}

proof fn lemma_marks()
    ensures
        forall|i: int|
            0 <= i < builtin_names().len() ==> place_marked(mark(#[trigger] builtin_names()[i])) == i,
{
    reveal_strlit("windows.pslist.PsList");
    reveal_strlit("windows.pstree.PsTree");
    reveal_strlit("windows.psscan.PsScan");
    reveal_strlit("windows.dlllist.DllList");
    reveal_strlit("windows.cmdline.CmdLine");
    reveal_strlit("windows.info.Info");
    reveal_strlit("windows.modules.Modules");
    reveal_strlit("windows.modscan.ModScan");
    reveal_strlit("windows.handles.Handles");
    reveal_strlit("windows.filescan.FileScan");
    reveal_strlit("windows.mutantscan.MutantScan");
    reveal_strlit("windows.driverscan.DriverScan");
    reveal_strlit("windows.envars.Envars");
    reveal_strlit("windows.memmap.Memmap");
    reveal_strlit("windows.getsids.GetSIDs");
    reveal_strlit("windows.privileges.Privs");
    reveal_strlit("windows.bigpools.BigPools");
    reveal_strlit("windows.driverirp.DriverIrp");
    reveal_strlit("windows.devicetree.DeviceTree");
    reveal_strlit("windows.getservicesids.GetServiceSIDs");
    reveal_strlit("windows.kpcrs.KPCRs");
    reveal_strlit("windows.netscan.NetScan");
    reveal_strlit("windows.callbacks.Callbacks");
    reveal_strlit("windows.mftscan.MFTScan");
    reveal_strlit("windows.mftscan.ADS");
    reveal_strlit("windows.mftscan.ResidentData");
    reveal_strlit("windows.joblinks.JobLinks");
    reveal_strlit("windows.iat.IAT");
    reveal_strlit("windows.dumpfiles.DumpFiles");
    reveal_strlit("windows.crashinfo.Crashinfo");
    reveal_strlit("windows.mbrscan.MBRScan");
    reveal_strlit("windows.poolscanner.PoolScanner");
    reveal_strlit("windows.pedump.PEDump");
    reveal_strlit("windows.etwpatch.EtwPatch");
    reveal_strlit("windows.debugregisters.DebugRegisters");
    reveal_strlit("windows.pe_symbols.PESymbols");
    reveal_strlit("windows.consoles.Consoles");
    reveal_strlit("windows.cmdscan.CmdScan");
    reveal_strlit("windows.netstat.NetStat");
    reveal_strlit("mac.pslist.PsList");
    reveal_strlit("mac.pstree.PsTree");
    reveal_strlit("mac.lsmod.Lsmod");
    reveal_strlit("mac.psaux.Psaux");
    reveal_strlit("mac.lsof.Lsof");
    reveal_strlit("mac.mount.Mount");
    reveal_strlit("mac.ifconfig.Ifconfig");
    reveal_strlit("mac.proc_maps.Maps");
    reveal_strlit("mac.malfind.Malfind");
    reveal_strlit("mac.check_syscall.Check_syscall");
    reveal_strlit("mac.check_trap_table.Check_trap_table");
    reveal_strlit("mac.trustedbsd.Trustedbsd");
    reveal_strlit("mac.timers.Timers");
    reveal_strlit("mac.kauth_listeners.Kauth_listeners");
    reveal_strlit("mac.vfsevents.VFSevents");
    reveal_strlit("mac.check_sysctl.Check_sysctl");
    reveal_strlit("mac.list_files.List_Files");
    reveal_strlit("mac.netstat.Netstat");
    reveal_strlit("mac.socket_filters.Socket_filters");
    reveal_strlit("mac.dmesg.Dmesg");
    reveal_strlit("mac.bash.Bash");
    reveal_strlit("mac.kevents.Kevents");
    assert(place_marked(mark("windows.pslist.PsList"@)) == 0);
    assert(place_marked(mark("windows.pstree.PsTree"@)) == 1);
    assert(place_marked(mark("windows.psscan.PsScan"@)) == 2);
    assert(place_marked(mark("windows.dlllist.DllList"@)) == 3);
    assert(place_marked(mark("windows.cmdline.CmdLine"@)) == 4);
    assert(place_marked(mark("windows.info.Info"@)) == 5);
    assert(place_marked(mark("windows.modules.Modules"@)) == 6);
    assert(place_marked(mark("windows.modscan.ModScan"@)) == 7);
    assert(place_marked(mark("windows.handles.Handles"@)) == 8);
    assert(place_marked(mark("windows.filescan.FileScan"@)) == 9);
    assert(place_marked(mark("windows.mutantscan.MutantScan"@)) == 10);
    assert(place_marked(mark("windows.driverscan.DriverScan"@)) == 11);
    assert(place_marked(mark("windows.envars.Envars"@)) == 12);
    assert(place_marked(mark("windows.memmap.Memmap"@)) == 13);
    assert(place_marked(mark("windows.getsids.GetSIDs"@)) == 14);
    assert(place_marked(mark("windows.privileges.Privs"@)) == 15);
    assert(place_marked(mark("windows.bigpools.BigPools"@)) == 16);
    assert(place_marked(mark("windows.driverirp.DriverIrp"@)) == 17);
    assert(place_marked(mark("windows.devicetree.DeviceTree"@)) == 18);
    assert(place_marked(mark("windows.getservicesids.GetServiceSIDs"@)) == 19);
    assert(place_marked(mark("windows.kpcrs.KPCRs"@)) == 20);
    assert(place_marked(mark("windows.netscan.NetScan"@)) == 21);
    assert(place_marked(mark("windows.callbacks.Callbacks"@)) == 22);
    assert(place_marked(mark("windows.mftscan.MFTScan"@)) == 23);
    assert(place_marked(mark("windows.mftscan.ADS"@)) == 24);
    assert(place_marked(mark("windows.mftscan.ResidentData"@)) == 25);
    assert(place_marked(mark("windows.joblinks.JobLinks"@)) == 26);
    assert(place_marked(mark("windows.iat.IAT"@)) == 27);
    assert(place_marked(mark("windows.dumpfiles.DumpFiles"@)) == 28);
    assert(place_marked(mark("windows.crashinfo.Crashinfo"@)) == 29);
    assert(place_marked(mark("windows.mbrscan.MBRScan"@)) == 30);
    assert(place_marked(mark("windows.poolscanner.PoolScanner"@)) == 31);
    assert(place_marked(mark("windows.pedump.PEDump"@)) == 32);
    assert(place_marked(mark("windows.etwpatch.EtwPatch"@)) == 33);
    assert(place_marked(mark("windows.debugregisters.DebugRegisters"@)) == 34);
    assert(place_marked(mark("windows.pe_symbols.PESymbols"@)) == 35);
    assert(place_marked(mark("windows.consoles.Consoles"@)) == 36);
    assert(place_marked(mark("windows.cmdscan.CmdScan"@)) == 37);
    assert(place_marked(mark("windows.netstat.NetStat"@)) == 38);
    assert(place_marked(mark("mac.pslist.PsList"@)) == 39);
    assert(place_marked(mark("mac.pstree.PsTree"@)) == 40);
    assert(place_marked(mark("mac.lsmod.Lsmod"@)) == 41);
    assert(place_marked(mark("mac.psaux.Psaux"@)) == 42);
    assert(place_marked(mark("mac.lsof.Lsof"@)) == 43);
    assert(place_marked(mark("mac.mount.Mount"@)) == 44);
    assert(place_marked(mark("mac.ifconfig.Ifconfig"@)) == 45);
    assert(place_marked(mark("mac.proc_maps.Maps"@)) == 46);
    assert(place_marked(mark("mac.malfind.Malfind"@)) == 47);
    assert(place_marked(mark("mac.check_syscall.Check_syscall"@)) == 48);
    assert(place_marked(mark("mac.check_trap_table.Check_trap_table"@)) == 49);
    assert(place_marked(mark("mac.trustedbsd.Trustedbsd"@)) == 50);
    assert(place_marked(mark("mac.timers.Timers"@)) == 51);
    assert(place_marked(mark("mac.kauth_listeners.Kauth_listeners"@)) == 52);
    assert(place_marked(mark("mac.vfsevents.VFSevents"@)) == 53);
    assert(place_marked(mark("mac.check_sysctl.Check_sysctl"@)) == 54);
    assert(place_marked(mark("mac.list_files.List_Files"@)) == 55);
    assert(place_marked(mark("mac.netstat.Netstat"@)) == 56);
    assert(place_marked(mark("mac.socket_filters.Socket_filters"@)) == 57);
    assert(place_marked(mark("mac.dmesg.Dmesg"@)) == 58);
    assert(place_marked(mark("mac.bash.Bash"@)) == 59);
    assert(place_marked(mark("mac.kevents.Kevents"@)) == 60);
}

/// No two plugins have the same name.
pub proof fn law_builtin_names_are_unique()
    ensures
        builtin_names().no_duplicates(),
{
    lemma_marks();
    assert forall|i: int, j: int|
        0 <= i < builtin_names().len() && 0 <= j < builtin_names().len() && i
            != j implies builtin_names()[i] != builtin_names()[j] by {
        assert(place_marked(mark(builtin_names()[i])) == i);
        assert(place_marked(mark(builtin_names()[j])) == j);
    }
}

impl<P: Plugin + ?Sized> PluginRegistry<P> {
    /// Put the plugins in the order of their names.
    pub fn sort(&mut self)
        ensures
            final(self).plugins@ == by_name(old(self).plugins@, 0),
    {
        let ghost start = self.plugins@;
        let mut sorted: Vec<PluginEntry<P>> = Vec::new();
        assert(start.take(start.len() as int) =~= start);
        while self.plugins.len() > 0
            invariant
                self.plugins@.len() <= start.len(),
                self.plugins@ == start.take(self.plugins@.len() as int),
                sorted@ == by_name(start, self.plugins@.len() as int),
            decreases self.plugins@.len(),
        {
            let ghost from = self.plugins@.len() - 1;
            let entry = self.plugins.pop().unwrap();
            assert(entry == start[from]);
            assert(self.plugins@ =~= start.take(from));
            let mut at: usize = 0;
            while at < sorted.len() && comes_before(
                sorted[at].plugin.name(),
                entry.plugin.name(),
            )
                invariant
                    at <= sorted@.len(),
                    place_for(names(sorted@), entry.plugin.named(), 0) == place_for(
                        names(sorted@),
                        entry.plugin.named(),
                        at as int,
                    ),
                decreases sorted@.len() - at,
            {
                assert(names(sorted@)[at as int] == sorted@[at as int].plugin.named());
                at = at + 1;
            }
            assert(at < sorted@.len() ==> names(sorted@)[at as int]
                == sorted@[at as int].plugin.named());
            sorted.insert(at, entry);
        }
        self.plugins = sorted;
    }
}

impl PluginRegistry<dyn Plugin> {
    /// Build the registry with every built-in plugin registered.
    pub fn new() -> (registry: PluginRegistry<dyn Plugin>)
        ensures
            registry.plugins@.len() == builtin_names().len(),
            registry.names().to_multiset() == builtin_names().to_multiset(),
            registry.names().no_duplicates(),
            is_in_order(registry.names()),
            crate::plugins::windows::all_answer(registry),
            crate::plugins::mac::all_answer(registry),
    {
        let mut registry: PluginRegistry<dyn Plugin> = PluginRegistry::empty();
        assert(registry.names() =~= Seq::<Seq<char>>::empty());
        crate::plugins::windows::register(&mut registry);
        crate::plugins::mac::register(&mut registry);
        assert(registry.names() =~= builtin_names());
        proof {
            law_sorting_keeps_every_plugin(registry.plugins@);
            law_builtin_names_are_unique();
            builtin_names().lemma_multiset_has_no_duplicates();
        }
        let ghost added = registry.plugins@;
        registry.sort();
        proof {
            registry.names().lemma_multiset_has_no_duplicates_conv();
            crate::plugins::windows::lemma_all_answer(added, registry, 0);
            crate::plugins::mac::lemma_all_answer(
                added,
                registry,
                crate::plugins::windows::plugin_names().len() as int,
            );
        }
        registry
    }
}

impl Default for PluginRegistry<dyn Plugin> {
    fn default() -> (registry: PluginRegistry<dyn Plugin>)
        ensures
            registry.plugins@.len() == builtin_names().len(),
            registry.names().to_multiset() == builtin_names().to_multiset(),
            registry.names().no_duplicates(),
            is_in_order(registry.names()),
            crate::plugins::windows::all_answer(registry),
            crate::plugins::mac::all_answer(registry),
    {
        PluginRegistry::new()
    }
}

proof fn lemma_exact_place(list: Seq<Seq<char>>, name: Seq<char>, from: int, at: int)
    requires
        0 <= from <= at < list.len(),
        list[at] == name,
    ensures
        exact_place(list, name, from) matches Some(place) && from <= place <= at && list[place] == name,
    decreases at - from,
{
    if list[from] != name {
        lemma_exact_place(list, name, from + 1, at);
    }
}

/// Every registered plugin is found under its own name. Where no two have the same
/// name, it is the plugin itself that is found.
pub proof fn law_every_plugin_is_found<P: Plugin + ?Sized>(registry: PluginRegistry<P>, i: int)
    requires
        0 <= i < registry.plugins@.len(),
    ensures
        lookup_place(registry.names(), registry.plugins@[i].plugin.named()) matches Some(place) && 0
            <= place < registry.plugins@.len() && registry.plugins@[place].plugin.named()
            == registry.plugins@[i].plugin.named(),
        registry.names().no_duplicates() ==> lookup_place(
            registry.names(),
            registry.plugins@[i].plugin.named(),
        ) == Some(i),
{
    let list = registry.names();
    lemma_exact_place(list, list[i], 0, i);
    let place = exact_place(list, list[i], 0)->0;
    assert(list[place] == list[i]);
}

/// Whether asking a registry for a plugin by its name gives that plugin.
pub open spec fn answers<P: Plugin + ?Sized, Q: Plugin + ?Sized>(
    registry: PluginRegistry<P>,
    plugin: &Q,
) -> bool {
    lookup_place(registry.names(), plugin.named()) matches Some(place) && 0 <= place
        < registry.plugins@.len() && stands_for(registry.plugins@[place], plugin)
}

/// A plugin that was added answers under its name once the registry is sorted, where
/// no other has that name.
pub proof fn law_what_is_added_answers<P: Plugin + ?Sized, Q: Plugin + ?Sized>(
    added: Seq<PluginEntry<P>>,
    registry: PluginRegistry<P>,
    i: int,
    plugin: &Q,
)
    requires
        0 <= i < added.len(),
        stands_for(added[i], plugin),
        registry.plugins@ == by_name(added, 0),
        registry.names().no_duplicates(),
    ensures
        answers(registry, plugin),
{
    broadcast use vstd::seq_lib::group_to_multiset_ensures;

    law_sorting_keeps_every_plugin(added);
    assert(added.contains(added[i]));
    assert(added.to_multiset().contains(added[i]));
    assert(registry.plugins@.to_multiset().contains(added[i]));
    assert(registry.plugins@.contains(added[i]));
    let j = choose|j: int| 0 <= j < registry.plugins@.len() && registry.plugins@[j] == added[i];
    law_every_plugin_is_found(registry, j);
}

proof fn lemma_suffix_place(list: Seq<Seq<char>>, name: Seq<char>)
    requires
        suffix_count(list, name) > 0,
    ensures
        suffix_place(list, name) matches Some(place) && 0 <= place < list.len() && is_suffix(
            list[place],
            name,
        ),
    decreases list.len(),
{
    if !is_suffix(list.last(), name) {
        lemma_suffix_place(list.drop_last(), name);
    }
}

proof fn lemma_suffix_count(list: Seq<Seq<char>>, name: Seq<char>, at: int)
    requires
        0 <= at < list.len(),
        is_suffix(list[at], name),
    ensures
        suffix_count(list, name) > 0,
    decreases list.len(),
{
    if at < list.len() - 1 {
        lemma_suffix_count(list.drop_last(), name, at);
    }
}

proof fn lemma_exact_found(list: Seq<Seq<char>>, name: Seq<char>, from: int)
    requires
        0 <= from,
    ensures
        exact_place(list, name, from) matches Some(place) ==> from <= place < list.len()
            && list[place] == name,
    decreases list.len() - from,
{
    if from < list.len() && list[from] != name {
        lemma_exact_found(list, name, from + 1);
    }
}

/// A name only ever finds a plugin whose own name ends in it, whatever the case of
/// its ASCII letters.
pub proof fn law_what_is_found_ends_in_the_name(list: Seq<Seq<char>>, name: Seq<char>)
    ensures
        lookup_place(list, name) matches Some(place) ==> 0 <= place < list.len() && is_suffix(
            list[place],
            name,
        ),
{
    lemma_exact_found(list, name, 0);
    if exact_place(list, name, 0) is None && suffix_count(list, name) == 1 {
        lemma_suffix_place(list, name);
    } else if exact_place(list, name, 0) is Some {
        let full = text::lower(name);
        assert(full.skip(0) =~= full);
    }
}

/// An end that two plugins share finds neither, unless it is the whole name of one.
pub proof fn law_an_ambiguous_name_finds_nothing(
    list: Seq<Seq<char>>,
    name: Seq<char>,
    i: int,
    j: int,
)
    requires
        0 <= i < j < list.len(),
        is_suffix(list[i], name),
        is_suffix(list[j], name),
        !list.contains(name),
    ensures
        lookup_place(list, name) is None,
{
    lemma_exact_found(list, name, 0);
    lemma_two_suffixes(list, name, i, j);
}

proof fn lemma_two_suffixes(list: Seq<Seq<char>>, name: Seq<char>, i: int, j: int)
    requires
        0 <= i < j < list.len(),
        is_suffix(list[i], name),
        is_suffix(list[j], name),
    ensures
        suffix_count(list, name) >= 2,
    decreases list.len(),
{
    if j < list.len() - 1 {
        lemma_two_suffixes(list.drop_last(), name, i, j);
    } else {
        lemma_suffix_count(list.drop_last(), name, i);
    }
}

/// An alias is the plugin it stands for in everything but its name and what it says
/// of itself, so the two entries cannot drift apart.
pub proof fn law_an_alias_is_the_plugin_itself<P: Plugin>(
    alias: Alias<P>,
    context: &Context,
    config: &Configuration,
)
    ensures
        alias.named() == alias.name@,
        alias.needs() == alias.inner.needs(),
        alias.headings() == alias.inner.headings(),
        alias.system() == alias.inner.system(),
        alias.report(context, config) == alias.inner.report(context, config),
        alias.moments(context, config) == alias.inner.moments(context, config),
        alias.kernel_first() == alias.inner.kernel_first(),
{
}

} // verus!
