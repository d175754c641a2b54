//! Resolve named symbols, or named addresses, inside a loaded module.
//!
//! A module is asked for a symbol in two ways: its own debug database, which
//! describes far more than it exports, and its export table, which is present
//! in memory but only names what the module publishes. Both are tried, in that
//! order, in every copy of the module that was found, because a copy whose
//! pages have been reclaimed answers wrongly rather than not at all.
//!
//! Other analyses reach the same machinery through the functions below.

use crate::config::{ConfigValue, Configuration};
use crate::context::{Context, Module, Object};
use crate::error::{Failure, VolatilityError};
use crate::plugins::{
    self, int_list, KindView, OperatingSystem, Plugin, Requirement, RequirementKind, RequirementView,
};
use crate::plugins::output;
use crate::plugins::windows::{kernel_module, physical_layer};
use crate::plugins::windows::dlllist::part_behind_slash;
use crate::plugins::windows::modules::{list_modules, session_layers, viable_session, SessionLayer};
use crate::renderers::{self, Cell, Column, ColumnType, LineView, Row, Table, TreeGrid, Value};
use crate::symbols;
use crate::symbols::windows::{
    list_processes, walk_vad_tree, DebugRecord, Export, InstalledSymbols, NamedPlace,
    PublishedSymbols, Vad,
};
use crate::text::{
    self, assemble, characters, comes_before, decimal, ends_with, is_listed, lowercase, push_text,
    same_ignoring_case, same_text, trim_end, uppercase,
};
use vstd::prelude::*;

verus! {

/// Prints the symbols of a module.
pub struct PeSymbols;

/// The name the kernel executable is known by, whatever its module entry says.
pub const KERNEL_MODULE_NAME: &'static str = "ntoskrnl.exe";

/// One mapped region of a process, and the file behind it.
#[derive(Debug)]
pub struct MappedRange {
    pub start: u64,
    pub size: u64,
    pub path: String,
}

/// What a mapped region says.
#[verifier::ext_equal]
pub struct RangeView {
    pub start: u64,
    pub size: u64,
    pub path: Seq<char>,
}

impl View for MappedRange {
    type V = RangeView;

    open spec fn view(&self) -> RangeView {
        RangeView { start: self.start, size: self.size, path: self.path@ }
    }
}

/// What some mapped regions say.
pub open spec fn range_views(ranges: Seq<MappedRange>) -> Seq<RangeView> {
    Seq::new(ranges.len(), |i: int| ranges[i]@)
}

/// The mapped region that a range of memory is, where a path of a file stands
/// behind it.
pub open spec fn range_of(vad: &Vad) -> Option<RangeView> {
    match (text::maybe_text(vad.file_name), vad.start, vad.end) {
        (Some(path), Some(start), Some(end)) => if path.contains('\\') {
            Some(RangeView { start, size: end.wrapping_sub(start).wrapping_add(1), path })
        } else {
            None
        },
        _ => None,
    }
}

/// The mapped regions among some ranges of memory, in order.
pub open spec fn file_ranges(vads: Seq<&Vad>) -> Seq<RangeView>
    decreases vads.len(),
{
    if vads.len() == 0 {
        Seq::empty()
    } else {
        let before = file_ranges(vads.drop_last());
        match range_of(vads.last()) {
            Some(range) => before.push(range),
            None => before,
        }
    }
}

/// The regions of a process that map a file, with the path each maps.
///
/// A region with no file, or whose file has no path in it, says nothing about
/// what code is running there and is left out.
pub fn process_file_ranges(context: &Context, process: Object) -> (ranges: Vec<MappedRange>)
    ensures
        range_views(ranges@) == file_ranges(
            symbols::windows::vads_of(context.windows.vads@, process.offset),
        ),
{
    let vads = walk_vad_tree(context, process);
    let mut ranges: Vec<MappedRange> = Vec::new();
    for i in 0..vads.len()
        invariant
            range_views(ranges@) == file_ranges(vads@.take(i as int)),
    {
        assert(vads@.take(i + 1).drop_last() =~= vads@.take(i as int));
        let vad = vads[i];
        if let (Some(path), Some(start), Some(end)) = (&vad.file_name, vad.start, vad.end) {
            if has_backslash(path) {
                let range = MappedRange {
                    start,
                    size: end.wrapping_sub(start).wrapping_add(1),
                    path: path.clone(),
                };
                let ghost before = range_views(ranges@);
                ranges.push(range);
                assert(range_views(ranges@) =~= before.push(range@));
            }
        }
    }
    assert(vads@.take(vads@.len() as int) =~= vads@);
    ranges
}

fn has_backslash(path: &str) -> (found: bool)
    ensures
        found == path@.contains('\\'),
{
    let list = characters(path);
    for i in 0..list.len()
        invariant
            list@ == path@,
            forall|j: int| 0 <= j < i ==> list@[j] != '\\',
    {
        if list[i] == '\\' {
            return true;
        }
    }
    false
}

/// The path of the first region, from a place on, that covers an address.
pub open spec fn path_from(ranges: Seq<RangeView>, address: u64, from: int) -> Option<Seq<char>>
    decreases ranges.len() - from,
{
    if from < 0 || from >= ranges.len() {
        None
    } else if ranges[from].start <= address < ranges[from].start + ranges[from].size {
        Some(ranges[from].path)
    } else {
        path_from(ranges, address, from + 1)
    }
}

/// The file mapped over `address`, if any of the ranges covers it.
pub fn file_for_address(ranges: &Vec<MappedRange>, address: u64) -> (path: Option<&str>)
    ensures
        match path {
            Some(path) => path_from(range_views(ranges@), address, 0) == Some(path@),
            None => path_from(range_views(ranges@), address, 0) is None,
        },
{
    let mut i: usize = 0;
    while i < ranges.len()
        invariant
            i <= ranges@.len(),
            path_from(range_views(ranges@), address, 0) == path_from(
                range_views(ranges@),
                address,
                i as int,
            ),
        decreases ranges@.len() - i,
    {
        if ranges[i].start <= address && address - ranges[i].start < ranges[i].size {
            return Some(ranges[i].path.as_str());
        }
        i = i + 1;
    }
    None
}

/// A file is named for an address exactly where some region covers it.
pub proof fn law_file_for_address(ranges: Seq<RangeView>, address: u64, from: int)
    requires
        0 <= from,
    ensures
        path_from(ranges, address, from) is Some <==> exists|i: int|
            from <= i < ranges.len() && (#[trigger] ranges[i]).start <= address < ranges[i].start
                + ranges[i].size,
    decreases ranges.len() - from,
{
    if from < ranges.len() {
        law_file_for_address(ranges, address, from + 1);
        if ranges[from].start <= address < ranges[from].start + ranges[from].size {
        } else if path_from(ranges, address, from) is Some {
            let i = choose|i: int|
                from + 1 <= i < ranges.len() && (#[trigger] ranges[i]).start <= address
                    < ranges[i].start + ranges[i].size;
            assert(from <= i < ranges.len());
        }
    }
}

/// What a module says about the database describing it.
#[derive(Debug)]
pub struct DebugInfo {
    /// The database's file name, as the module names it.
    pub name: String,
    /// The identifier that distinguishes one build from another.
    pub guid: String,
    /// How many times that build was revised.
    pub age: u32,
}

/// What a module says about the database describing it.
#[verifier::ext_equal]
pub struct InfoView {
    pub name: Seq<char>,
    pub guid: Seq<char>,
    pub age: u32,
}

impl View for DebugInfo {
    type V = InfoView;

    open spec fn view(&self) -> InfoView {
        InfoView { name: self.name@, guid: self.guid@, age: self.age }
    }
}

/// A module's symbols, however they were come by.
///
/// A description of the module may already be installed, in which case it is
/// used as it stands. Otherwise the names that the module's own database
/// publishes are used.
pub enum ModuleSymbols<'a> {
    Installed(&'a Vec<NamedPlace>),
    Published(&'a Vec<NamedPlace>),
}

/// The place of a name, from a place of the list on.
pub open spec fn place_from(list: Seq<NamedPlace>, name: Seq<char>, from: int) -> Option<u64>
    decreases list.len() - from,
{
    if from < 0 || from >= list.len() {
        None
    } else if list[from].name@ == name {
        Some(list[from].address)
    } else {
        place_from(list, name, from + 1)
    }
}

/// The first name, in the order of names, that stands at a place.
pub open spec fn least_name(list: Seq<NamedPlace>, address: u64) -> Option<Seq<char>>
    decreases list.len(),
{
    if list.len() == 0 {
        None
    } else {
        let best = least_name(list.drop_last(), address);
        if list.last().address != address {
            best
        } else {
            match best {
                Some(name) => if text::precedes(list.last().name@, name) {
                    Some(list.last().name@)
                } else {
                    Some(name)
                },
                None => Some(list.last().name@),
            }
        }
    }
}

/// A symbol table of a module: its names, and the widest place it can hold.
#[verifier::ext_equal]
pub struct SymbolsView {
    pub list: Seq<NamedPlace>,
    pub widest: u64,
}

impl SymbolsView {
    pub open spec fn name_at(self, address: u64) -> Option<Seq<char>> {
        if address <= self.widest {
            least_name(self.list, address)
        } else {
            None
        }
    }
}

impl<'a> View for ModuleSymbols<'a> {
    type V = SymbolsView;

    open spec fn view(&self) -> SymbolsView {
        match self {
            ModuleSymbols::Installed(list) => SymbolsView { list: list@, widest: u64::MAX },
            ModuleSymbols::Published(list) => SymbolsView { list: list@, widest: u32::MAX as u64 },
        }
    }
}

fn place_of(list: &Vec<NamedPlace>, name: &str) -> (address: Option<u64>)
    ensures
        address == place_from(list@, name@, 0),
{
    let mut i: usize = 0;
    while i < list.len()
        invariant
            i <= list@.len(),
            place_from(list@, name@, 0) == place_from(list@, name@, i as int),
        decreases list@.len() - i,
    {
        if same_text(&list[i].name, name) {
            return Some(list[i].address);
        }
        i = i + 1;
    }
    None
}

fn first_name(list: &Vec<NamedPlace>, address: u64) -> (name: Option<String>)
    ensures
        text::maybe_text(name) == least_name(list@, address),
{
    let mut best: Option<String> = None;
    for i in 0..list.len()
        invariant
            text::maybe_text(best) == least_name(list@.take(i as int), address),
    {
        assert(list@.take(i + 1).drop_last() =~= list@.take(i as int));
        if list[i].address == address {
            let better = match &best {
                Some(name) => comes_before(&list[i].name, name),
                None => true,
            };
            if better {
                best = Some(list[i].name.clone());
            }
        }
    }
    assert(list@.take(list@.len() as int) =~= list@);
    best
}

impl<'a> ModuleSymbols<'a> {
    /// Where a name sits, relative to the module's base.
    pub fn address_of(&self, name: &str) -> (address: Option<u64>)
        ensures
            address == place_from(self@.list, name@, 0),
    {
        match self {
            ModuleSymbols::Installed(list) => place_of(list, name),
            ModuleSymbols::Published(list) => place_of(list, name),
        }
    }

    /// The name at a place, relative to the module's base.
    ///
    /// Several names can share a place, and the first in name order is the one
    /// reported, which is what looking a location up in a symbol table gives.
    pub fn name_at(&self, address: u64) -> (name: Option<String>)
        ensures
            text::maybe_text(name) == self@.name_at(address),
    {
        match self {
            ModuleSymbols::Installed(list) => first_name(list, address),
            ModuleSymbols::Published(list) => if address <= u32::MAX as u64 {
                first_name(list, address)
            } else {
                None
            },
        }
    }
}

/// The place of the installed symbols of a directory and an identity, from a
/// place of the list on.
pub open spec fn installed_from(
    list: Seq<InstalledSymbols>,
    directory: Seq<char>,
    identity: Seq<char>,
    from: int,
) -> Option<int>
    decreases list.len() - from,
{
    if from < 0 || from >= list.len() {
        None
    } else if list[from].directory@ == directory && list[from].identity@ == identity {
        Some(from)
    } else {
        installed_from(list, directory, identity, from + 1)
    }
}

/// The place of the published symbols of a database, from a place of the list
/// on.
pub open spec fn published_from(list: Seq<PublishedSymbols>, info: InfoView, from: int) -> Option<int>
    decreases list.len() - from,
{
    if from < 0 || from >= list.len() {
        None
    } else if list[from].name@ == info.name && list[from].guid@ == info.guid && list[from].age
        == info.age {
        Some(from)
    } else {
        published_from(list, info, from + 1)
    }
}

/// The directory in which the symbols of a database are installed.
pub open spec fn directory_of(info: InfoView) -> Seq<char> {
    "windows/"@ + text::trimmed_end(info.name, '\0')
}

/// The name under which the symbols of a database are installed.
pub open spec fn identity_of(info: InfoView) -> Seq<char> {
    text::uppercase_text(info.guid) + seq!['-'] + text::decimal_text(info.age as int)
}

/// The symbols describing a module, preferring one already installed.
pub open spec fn symbols_of(context: &Context, info: InfoView) -> Option<SymbolsView> {
    match installed_from(context.windows.installed@, directory_of(info), identity_of(info), 0) {
        Some(at) => Some(
            SymbolsView { list: context.windows.installed@[at].symbols@, widest: u64::MAX },
        ),
        None => match published_from(context.windows.published@, info, 0) {
            Some(at) => Some(
                SymbolsView {
                    list: context.windows.published@[at].symbols@,
                    widest: u32::MAX as u64,
                },
            ),
            None => None,
        },
    }
}

fn find_installed(list: &Vec<InstalledSymbols>, directory: &str, identity: &str) -> (found: Option<
    usize,
>)
    ensures
        match found {
            Some(at) => at < list@.len() && installed_from(list@, directory@, identity@, 0) == Some(
                at as int,
            ),
            None => installed_from(list@, directory@, identity@, 0) is None,
        },
{
    let mut i: usize = 0;
    while i < list.len()
        invariant
            i <= list@.len(),
            installed_from(list@, directory@, identity@, 0) == installed_from(
                list@,
                directory@,
                identity@,
                i as int,
            ),
        decreases list@.len() - i,
    {
        if same_text(&list[i].directory, directory) && same_text(&list[i].identity, identity) {
            return Some(i);
        }
        i = i + 1;
    }
    None
}

fn find_published(list: &Vec<PublishedSymbols>, info: &DebugInfo) -> (found: Option<usize>)
    ensures
        match found {
            Some(at) => at < list@.len() && published_from(list@, info@, 0) == Some(at as int),
            None => published_from(list@, info@, 0) is None,
        },
{
    let mut i: usize = 0;
    while i < list.len()
        invariant
            i <= list@.len(),
            published_from(list@, info@, 0) == published_from(list@, info@, i as int),
        decreases list@.len() - i,
    {
        if same_text(&list[i].name, &info.name) && same_text(&list[i].guid, &info.guid)
            && list[i].age == info.age {
            return Some(i);
        }
        i = i + 1;
    }
    None
}

/// The symbols describing a module, preferring one already installed.
pub fn module_symbols<'a>(context: &'a Context, info: &DebugInfo) -> (symbols: Option<
    ModuleSymbols<'a>,
>)
    ensures
        match symbols {
            Some(symbols) => symbols_of(context, info@) == Some(symbols@),
            None => symbols_of(context, info@) is None,
        },
{
    let mut directory = "windows/".to_owned();
    directory.append(&trim_end(&info.name, '\0'));
    let mut identity = uppercase(&info.guid);
    identity.push('-');
    identity.append(&decimal(info.age as u64));
    assert(identity@ =~= identity_of(info@));
    match find_installed(&context.windows.installed, &directory, &identity) {
        Some(at) => Some(ModuleSymbols::Installed(&context.windows.installed[at].symbols)),
        None => match find_published(&context.windows.published, info) {
            Some(at) => Some(ModuleSymbols::Published(&context.windows.published[at].symbols)),
            None => None,
        },
    }
}

/// A name with its first letter in upper case.
pub open spec fn capitalised(name: Seq<char>) -> Seq<char> {
    if name.len() > 0 && 'a' <= name[0] <= 'z' {
        name.update(0, (name[0] as u32 - 32) as char)
    } else {
        name
    }
}

/// The names that a module's database may have.
///
/// The kernel executable's database is not named after the file, so every name
/// a kernel build is known by is tried. Any other database is named after the
/// module, and some builds capitalise the first letter of that name where the
/// module itself does not.
pub open spec fn pdb_names(module: Seq<char>) -> Seq<Seq<char>> {
    if text::lower(module) == text::lower(KERNEL_MODULE_NAME@) {
        seq!["ntkrnlmp.pdb"@, "ntkrnlpa.pdb"@, "ntkrpamp.pdb"@, "ntoskrnl.pdb"@]
    } else {
        let stem = text::lowercase_text(output::stem(module));
        seq![stem + ".pdb"@, capitalised(stem) + ".pdb"@]
    }
}

fn capitalise(name: &str) -> (capital: String)
    ensures
        capital@ == capitalised(name@),
{
    let list = characters(name);
    if list.len() > 0 && 'a' <= list[0] && list[0] <= 'z' {
        let mut capital = String::new();
        capital.push((list[0] as u8 - 32) as char);
        capital.append(&assemble(&list, 1, list.len()));
        assert(capital@ =~= capitalised(name@));
        capital
    } else {
        name.to_owned()
    }
}

fn possible_names(module: &str) -> (names: Vec<String>)
    ensures
        text::texts(names@) == pdb_names(module@),
{
    let mut names: Vec<String> = Vec::new();
    if same_ignoring_case(module, KERNEL_MODULE_NAME) {
        push_text(&mut names, "ntkrnlmp.pdb".to_owned());
        push_text(&mut names, "ntkrnlpa.pdb".to_owned());
        push_text(&mut names, "ntkrpamp.pdb".to_owned());
        push_text(&mut names, "ntoskrnl.pdb".to_owned());
    } else {
        let stem = lowercase(&output::stem_of(module));
        let mut plain = stem.clone();
        plain.append(".pdb");
        let mut capital = capitalise(&stem);
        capital.append(".pdb");
        push_text(&mut names, plain);
        push_text(&mut names, capital);
    }
    assert(text::texts(names@) =~= pdb_names(module@));
    names
}

/// The first debug record, from a place of the list on, that lies in a range
/// and names one of some databases.
pub open spec fn record_from(
    list: Seq<DebugRecord>,
    layer: usize,
    base: u64,
    size: u64,
    names: Seq<Seq<char>>,
    from: int,
) -> Option<InfoView>
    decreases list.len() - from,
{
    if from < 0 || from >= list.len() {
        None
    } else if list[from].layer == layer && base <= list[from].address < base + size
        && names.contains(list[from].pdb_name@) {
        Some(
            InfoView {
                name: list[from].pdb_name@,
                guid: list[from].guid@,
                age: list[from].age,
            },
        )
    } else {
        record_from(list, layer, base, size, names, from + 1)
    }
}

/// What a module says about the database describing it.
pub open spec fn info_of(
    context: &Context,
    layer: usize,
    base: u64,
    size: u64,
    module: Seq<char>,
) -> Option<InfoView> {
    record_from(context.windows.records@, layer, base, size, pdb_names(module), 0)
}

/// What an optional debug record says.
pub open spec fn maybe_info(info: Option<DebugInfo>) -> Option<InfoView> {
    match info {
        Some(info) => Some(info@),
        None => None,
    }
}

/// Read the debug record a module carries, which names its database.
///
/// The record is searched for inside the module's own image rather than found
/// through its headers: the headers name a place that is often paged out,
/// while the record itself usually is not.
pub fn module_debug_info(
    context: &Context,
    layer: usize,
    base: u64,
    size: u64,
    module: &str,
) -> (info: Option<DebugInfo>)
    ensures
        maybe_info(info) == info_of(context, layer, base, size, module@),
{
    let names = possible_names(module);
    let list = &context.windows.records;
    let mut i: usize = 0;
    while i < list.len()
        invariant
            *list == context.windows.records,
            i <= list@.len(),
            text::texts(names@) == pdb_names(module@),
            info_of(context, layer, base, size, module@) == record_from(
                list@,
                layer,
                base,
                size,
                pdb_names(module@),
                i as int,
            ),
        decreases list@.len() - i,
    {
        let record = &list[i];
        if record.layer == layer && base <= record.address && record.address - base < size
            && is_listed(&names, &record.pdb_name) {
            return Some(
                DebugInfo {
                    name: record.pdb_name.clone(),
                    guid: record.guid.clone(),
                    age: record.age,
                },
            );
        }
        i = i + 1;
    }
    None
}

/// Where one copy of a module was found: the address space it is mapped in,
/// where it starts, and how much of it there is.
#[derive(Clone, Copy, PartialEq, Eq, Structural, Debug)]
pub struct ModuleInstance {
    pub layer: usize,
    pub base: u64,
    pub size: u64,
}

/// What a caller wants out of a module: names to place, or places to name.
#[derive(Debug)]
pub enum Wanted {
    Names(Vec<String>),
    Addresses(Vec<u64>),
}

/// What a caller wants out of a module.
pub enum WantedView {
    Names(Seq<Seq<char>>),
    Addresses(Seq<u64>),
}

impl View for Wanted {
    type V = WantedView;

    open spec fn view(&self) -> WantedView {
        match self {
            Wanted::Names(names) => WantedView::Names(text::texts(names@)),
            Wanted::Addresses(addresses) => WantedView::Addresses(addresses@),
        }
    }
}

/// A name and where it was found.
#[derive(Debug)]
pub struct Resolved {
    pub name: String,
    pub address: u64,
}

/// What some resolved names say.
pub open spec fn resolved_views(found: Seq<Resolved>) -> Seq<(Seq<char>, u64)> {
    Seq::new(found.len(), |i: int| (found[i].name@, found[i].address))
}

fn push_resolved(found: &mut Vec<Resolved>, name: String, address: u64)
    ensures
        resolved_views(final(found)@) == resolved_views(old(found)@).push((name@, address)),
{
    found.push(Resolved { name, address });
    assert(resolved_views(found@) =~= resolved_views(old(found)@).push((name@, address)));
}

/// Whether a name was found.
pub open spec fn knows_name(found: Seq<(Seq<char>, u64)>, name: Seq<char>) -> bool {
    exists|i: int| 0 <= i < found.len() && (#[trigger] found[i]).0 == name
}

/// Whether something was found at an address.
pub open spec fn knows_address(found: Seq<(Seq<char>, u64)>, address: u64) -> bool {
    exists|i: int| 0 <= i < found.len() && (#[trigger] found[i]).1 == address
}

/// The names that are still outstanding, in the order they were asked for.
pub open spec fn names_left(names: Seq<Seq<char>>, found: Seq<(Seq<char>, u64)>) -> Seq<Seq<char>>
    decreases names.len(),
{
    if names.len() == 0 {
        Seq::empty()
    } else {
        let before = names_left(names.drop_last(), found);
        if knows_name(found, names.last()) {
            before
        } else {
            before.push(names.last())
        }
    }
}

/// The addresses that are still outstanding, in the order they were asked for.
pub open spec fn addresses_left(addresses: Seq<u64>, found: Seq<(Seq<char>, u64)>) -> Seq<u64>
    decreases addresses.len(),
{
    if addresses.len() == 0 {
        Seq::empty()
    } else {
        let before = addresses_left(addresses.drop_last(), found);
        if knows_address(found, addresses.last()) {
            before
        } else {
            before.push(addresses.last())
        }
    }
}

fn is_known_name(found: &Vec<Resolved>, name: &str) -> (known: bool)
    ensures
        known == knows_name(resolved_views(found@), name@),
{
    for i in 0..found.len()
        invariant
            forall|j: int| 0 <= j < i ==> (#[trigger] resolved_views(found@)[j]).0 != name@,
    {
        if same_text(&found[i].name, name) {
            assert(resolved_views(found@)[i as int].0 == name@);
            return true;
        }
    }
    false
}

fn is_known_address(found: &Vec<Resolved>, address: u64) -> (known: bool)
    ensures
        known == knows_address(resolved_views(found@), address),
{
    for i in 0..found.len()
        invariant
            forall|j: int| 0 <= j < i ==> (#[trigger] resolved_views(found@)[j]).1 != address,
    {
        if found[i].address == address {
            assert(resolved_views(found@)[i as int].1 == address);
            return true;
        }
    }
    false
}

fn outstanding_names(names: &Vec<String>, found: &Vec<Resolved>) -> (left: Vec<String>)
    ensures
        text::texts(left@) == names_left(text::texts(names@), resolved_views(found@)),
{
    let mut left: Vec<String> = Vec::new();
    for i in 0..names.len()
        invariant
            text::texts(left@) == names_left(
                text::texts(names@).take(i as int),
                resolved_views(found@),
            ),
    {
        assert(text::texts(names@).take(i + 1).drop_last() =~= text::texts(names@).take(i as int));
        if !is_known_name(found, &names[i]) {
            push_text(&mut left, names[i].clone());
        }
    }
    assert(text::texts(names@).take(names@.len() as int) =~= text::texts(names@));
    left
}

fn outstanding_addresses(addresses: &Vec<u64>, found: &Vec<Resolved>) -> (left: Vec<u64>)
    ensures
        left@ == addresses_left(addresses@, resolved_views(found@)),
{
    let mut left: Vec<u64> = Vec::new();
    for i in 0..addresses.len()
        invariant
            left@ == addresses_left(addresses@.take(i as int), resolved_views(found@)),
    {
        assert(addresses@.take(i + 1).drop_last() =~= addresses@.take(i as int));
        if !is_known_address(found, addresses[i]) {
            left.push(addresses[i]);
        }
    }
    assert(addresses@.take(addresses@.len() as int) =~= addresses@);
    left
}

/// What is found once the first of some names were looked up in a symbol table.
pub open spec fn names_placed(
    found: Seq<(Seq<char>, u64)>,
    names: Seq<Seq<char>>,
    symbols: SymbolsView,
    base: u64,
    count: int,
) -> Seq<(Seq<char>, u64)>
    decreases count,
{
    if count <= 0 {
        found
    } else {
        let before = names_placed(found, names, symbols, base, count - 1);
        match place_from(symbols.list, names[count - 1], 0) {
            Some(address) => before.push((names[count - 1], base.wrapping_add(address))),
            None => before,
        }
    }
}

/// What is found once the first of some addresses were looked up in a symbol
/// table. An address in front of the module is none of its places.
pub open spec fn addresses_named(
    found: Seq<(Seq<char>, u64)>,
    addresses: Seq<u64>,
    symbols: SymbolsView,
    base: u64,
    count: int,
) -> Seq<(Seq<char>, u64)>
    decreases count,
{
    if count <= 0 {
        found
    } else {
        let before = addresses_named(found, addresses, symbols, base, count - 1);
        let address = addresses[count - 1];
        if address < base {
            before
        } else {
            match symbols.name_at((address - base) as u64) {
                Some(name) => before.push((name, address)),
                None => before,
            }
        }
    }
}

/// What is found once a copy of the module was asked for its database.
pub open spec fn from_database(
    context: &Context,
    instance: ModuleInstance,
    module: Seq<char>,
    wanted: WantedView,
    found: Seq<(Seq<char>, u64)>,
) -> Seq<(Seq<char>, u64)> {
    match info_of(context, instance.layer, instance.base, instance.size, module) {
        Some(info) => match symbols_of(context, info) {
            Some(symbols) => match wanted {
                WantedView::Names(names) => {
                    let left = names_left(names, found);
                    names_placed(found, left, symbols, instance.base, left.len() as int)
                },
                WantedView::Addresses(addresses) => {
                    let left = addresses_left(addresses, found);
                    addresses_named(found, left, symbols, instance.base, left.len() as int)
                },
            },
            None => found,
        },
        None => found,
    }
}

/// The place that exports from one on give a name.
pub open spec fn export_from(exports: Seq<Export>, name: Seq<char>, from: int) -> Option<u32>
    decreases exports.len() - from,
{
    if from < 0 || from >= exports.len() {
        None
    } else if exports[from].name@ == name {
        Some(exports[from].address)
    } else {
        export_from(exports, name, from + 1)
    }
}

/// The name that exports from one on give an address of a module at a base.
pub open spec fn exported_from(exports: Seq<Export>, base: u64, address: u64, from: int) -> Option<
    Seq<char>,
>
    decreases exports.len() - from,
{
    if from < 0 || from >= exports.len() {
        None
    } else if base + exports[from].address == address {
        Some(exports[from].name@)
    } else {
        exported_from(exports, base, address, from + 1)
    }
}

/// What is found once the first of some names were looked up among exports.
pub open spec fn names_exported(
    found: Seq<(Seq<char>, u64)>,
    names: Seq<Seq<char>>,
    exports: Seq<Export>,
    base: u64,
    count: int,
) -> Seq<(Seq<char>, u64)>
    decreases count,
{
    if count <= 0 {
        found
    } else {
        let before = names_exported(found, names, exports, base, count - 1);
        match export_from(exports, names[count - 1], 0) {
            Some(address) => before.push((names[count - 1], base.wrapping_add(address as u64))),
            None => before,
        }
    }
}

/// What is found once the first of some addresses were looked up among exports.
pub open spec fn addresses_exported(
    found: Seq<(Seq<char>, u64)>,
    addresses: Seq<u64>,
    exports: Seq<Export>,
    base: u64,
    count: int,
) -> Seq<(Seq<char>, u64)>
    decreases count,
{
    if count <= 0 {
        found
    } else {
        let before = addresses_exported(found, addresses, exports, base, count - 1);
        match exported_from(exports, base, addresses[count - 1], 0) {
            Some(name) => before.push((name, addresses[count - 1])),
            None => before,
        }
    }
}

/// What is found once a copy of the module was asked for its exports.
pub open spec fn from_exports(
    context: &Context,
    instance: ModuleInstance,
    wanted: WantedView,
    found: Seq<(Seq<char>, u64)>,
) -> Seq<(Seq<char>, u64)> {
    match context.pe_of(instance.layer, instance.base) {
        Some(image) => match image.exports {
            Some(exports) => match wanted {
                WantedView::Names(names) => {
                    let left = names_left(names, found);
                    names_exported(found, left, exports@, instance.base, left.len() as int)
                },
                WantedView::Addresses(addresses) => {
                    let left = addresses_left(addresses, found);
                    addresses_exported(found, left, exports@, instance.base, left.len() as int)
                },
            },
            None => found,
        },
        None => found,
    }
}

/// What the databases of the first copies of a module answer.
pub open spec fn database_answers(
    context: &Context,
    instances: Seq<ModuleInstance>,
    module: Seq<char>,
    wanted: WantedView,
    count: int,
) -> Seq<(Seq<char>, u64)>
    decreases count,
{
    if count <= 0 {
        Seq::empty()
    } else {
        from_database(
            context,
            instances[count - 1],
            module,
            wanted,
            database_answers(context, instances, module, wanted, count - 1),
        )
    }
}

/// What is found once the first copies of a module were asked for what is still
/// outstanding among their exports.
pub open spec fn export_answers(
    context: &Context,
    instances: Seq<ModuleInstance>,
    wanted: WantedView,
    found: Seq<(Seq<char>, u64)>,
    count: int,
) -> Seq<(Seq<char>, u64)>
    decreases count,
{
    if count <= 0 {
        found
    } else {
        from_exports(
            context,
            instances[count - 1],
            wanted,
            export_answers(context, instances, wanted, found, count - 1),
        )
    }
}

/// What was asked of a module and could be resolved: the databases of all its
/// copies are asked first, and only what they cannot answer is looked up in the
/// export tables.
pub open spec fn resolved(
    context: &Context,
    instances: Seq<ModuleInstance>,
    module: Seq<char>,
    wanted: WantedView,
) -> Seq<(Seq<char>, u64)> {
    export_answers(
        context,
        instances,
        wanted,
        database_answers(context, instances, module, wanted, instances.len() as int),
        instances.len() as int,
    )
}

/// Whether an answer is one that was asked for and that some answers did not give.
pub open spec fn is_outstanding(
    wanted: WantedView,
    given: Seq<(Seq<char>, u64)>,
    answer: (Seq<char>, u64),
) -> bool {
    match wanted {
        WantedView::Names(names) => names.contains(answer.0) && !knows_name(given, answer.0),
        WantedView::Addresses(addresses) => addresses.contains(answer.1) && !knows_address(
            given,
            answer.1,
        ),
    }
}

/// Whether some answers keep those that were given before them and add only what was
/// still outstanding.
pub open spec fn only_adds(
    wanted: WantedView,
    given: Seq<(Seq<char>, u64)>,
    answers: Seq<(Seq<char>, u64)>,
) -> bool {
    &&& given.len() <= answers.len()
    &&& forall|i: int| 0 <= i < given.len() ==> #[trigger] answers[i] == given[i]
    &&& forall|i: int|
        given.len() <= i < answers.len() ==> is_outstanding(wanted, given, #[trigger] answers[i])
}

proof fn lemma_names_left(names: Seq<Seq<char>>, found: Seq<(Seq<char>, u64)>)
    ensures
        forall|i: int|
            0 <= i < names_left(names, found).len() ==> names.contains(
                #[trigger] names_left(names, found)[i],
            ) && !knows_name(found, names_left(names, found)[i]),
    decreases names.len(),
{
    if names.len() > 0 {
        let before = names_left(names.drop_last(), found);
        lemma_names_left(names.drop_last(), found);
        assert forall|i: int| 0 <= i < names_left(names, found).len() implies names.contains(
            #[trigger] names_left(names, found)[i],
        ) && !knows_name(found, names_left(names, found)[i]) by {
            if i < before.len() {
                let at = choose|at: int|
                    0 <= at < names.drop_last().len() && names.drop_last()[at] == before[i];
                assert(names[at] == before[i]);
            } else {
                assert(names[names.len() - 1] == names_left(names, found)[i]);
            }
        }
    }
}

proof fn lemma_addresses_left(addresses: Seq<u64>, found: Seq<(Seq<char>, u64)>)
    ensures
        forall|i: int|
            0 <= i < addresses_left(addresses, found).len() ==> addresses.contains(
                #[trigger] addresses_left(addresses, found)[i],
            ) && !knows_address(found, addresses_left(addresses, found)[i]),
    decreases addresses.len(),
{
    if addresses.len() > 0 {
        let before = addresses_left(addresses.drop_last(), found);
        lemma_addresses_left(addresses.drop_last(), found);
        assert forall|i: int| 0 <= i < addresses_left(addresses, found).len() implies addresses.contains(
            #[trigger] addresses_left(addresses, found)[i],
        ) && !knows_address(found, addresses_left(addresses, found)[i]) by {
            if i < before.len() {
                let at = choose|at: int|
                    0 <= at < addresses.drop_last().len() && addresses.drop_last()[at] == before[i];
                assert(addresses[at] == before[i]);
            } else {
                assert(addresses[addresses.len() - 1] == addresses_left(addresses, found)[i]);
            }
        }
    }
}

proof fn lemma_names_exported(
    found: Seq<(Seq<char>, u64)>,
    names: Seq<Seq<char>>,
    exports: Seq<Export>,
    base: u64,
    count: int,
)
    requires
        count <= names_left(names, found).len(),
    ensures
        only_adds(
            WantedView::Names(names),
            found,
            names_exported(found, names_left(names, found), exports, base, count),
        ),
    decreases count,
{
    if count > 0 {
        lemma_names_exported(found, names, exports, base, count - 1);
        lemma_names_left(names, found);
    }
}

proof fn lemma_addresses_exported(
    found: Seq<(Seq<char>, u64)>,
    addresses: Seq<u64>,
    exports: Seq<Export>,
    base: u64,
    count: int,
)
    requires
        count <= addresses_left(addresses, found).len(),
    ensures
        only_adds(
            WantedView::Addresses(addresses),
            found,
            addresses_exported(found, addresses_left(addresses, found), exports, base, count),
        ),
    decreases count,
{
    if count > 0 {
        lemma_addresses_exported(found, addresses, exports, base, count - 1);
        lemma_addresses_left(addresses, found);
    }
}

proof fn lemma_from_exports(
    context: &Context,
    instance: ModuleInstance,
    wanted: WantedView,
    found: Seq<(Seq<char>, u64)>,
)
    ensures
        only_adds(wanted, found, from_exports(context, instance, wanted, found)),
{
    if let Some(image) = context.pe_of(instance.layer, instance.base) {
        if let Some(exports) = image.exports {
            match wanted {
                WantedView::Names(names) => {
                    lemma_names_exported(
                        found,
                        names,
                        exports@,
                        instance.base,
                        names_left(names, found).len() as int,
                    );
                },
                WantedView::Addresses(addresses) => {
                    lemma_addresses_exported(
                        found,
                        addresses,
                        exports@,
                        instance.base,
                        addresses_left(addresses, found).len() as int,
                    );
                },
            }
        }
    }
}

proof fn lemma_adding_twice(
    wanted: WantedView,
    first: Seq<(Seq<char>, u64)>,
    second: Seq<(Seq<char>, u64)>,
    third: Seq<(Seq<char>, u64)>,
)
    requires
        only_adds(wanted, first, second),
        only_adds(wanted, second, third),
    ensures
        only_adds(wanted, first, third),
{
    assert forall|i: int| 0 <= i < first.len() implies #[trigger] third[i] == first[i] by {
        assert(third[i] == second[i]);
        assert(second[i] == first[i]);
    }
    assert forall|i: int| first.len() <= i < third.len() implies is_outstanding(
        wanted,
        first,
        #[trigger] third[i],
    ) by {
        if i < second.len() {
            assert(third[i] == second[i]);
        } else {
            assert(is_outstanding(wanted, second, third[i]));
            if knows_name(first, third[i].0) {
                let at = choose|at: int| 0 <= at < first.len() && (#[trigger] first[at]).0 == third[i].0;
                assert(second[at] == first[at]);
            }
            if knows_address(first, third[i].1) {
                let at = choose|at: int| 0 <= at < first.len() && (#[trigger] first[at]).1 == third[i].1;
                assert(second[at] == first[at]);
            }
        }
    }
}

proof fn lemma_export_answers(
    context: &Context,
    instances: Seq<ModuleInstance>,
    wanted: WantedView,
    found: Seq<(Seq<char>, u64)>,
    count: int,
)
    ensures
        only_adds(wanted, found, export_answers(context, instances, wanted, found, count)),
    decreases count,
{
    if count > 0 {
        let before = export_answers(context, instances, wanted, found, count - 1);
        lemma_export_answers(context, instances, wanted, found, count - 1);
        lemma_from_exports(context, instances[count - 1], wanted, before);
        lemma_adding_twice(
            wanted,
            found,
            before,
            export_answers(context, instances, wanted, found, count),
        );
    }
}

/// What the databases answer stands first and stays, and the export tables add only
/// what was asked for and the databases could not answer.
pub proof fn law_databases_are_asked_first(
    context: &Context,
    instances: Seq<ModuleInstance>,
    module: Seq<char>,
    wanted: WantedView,
)
    ensures
        only_adds(
            wanted,
            database_answers(context, instances, module, wanted, instances.len() as int),
            resolved(context, instances, module, wanted),
        ),
{
    lemma_export_answers(
        context,
        instances,
        wanted,
        database_answers(context, instances, module, wanted, instances.len() as int),
        instances.len() as int,
    );
}

fn ask_database(
    context: &Context,
    instance: ModuleInstance,
    module: &str,
    wanted: &Wanted,
    found: &mut Vec<Resolved>,
)
    ensures
        resolved_views(final(found)@) == from_database(
            context,
            instance,
            module@,
            wanted@,
            resolved_views(old(found)@),
        ),
{
    let info = match module_debug_info(
        context,
        instance.layer,
        instance.base,
        instance.size,
        module,
    ) {
        Some(info) => info,
        None => return,
    };
    let symbols = match module_symbols(context, &info) {
        Some(symbols) => symbols,
        None => return,
    };
    let ghost before = resolved_views(found@);
    match wanted {
        Wanted::Names(names) => {
            let left = outstanding_names(names, found);
            for i in 0..left.len()
                invariant
                    resolved_views(found@) == names_placed(
                        before,
                        text::texts(left@),
                        symbols@,
                        instance.base,
                        i as int,
                    ),
            {
                if let Some(address) = symbols.address_of(&left[i]) {
                    push_resolved(found, left[i].clone(), instance.base.wrapping_add(address));
                }
            }
        },
        Wanted::Addresses(addresses) => {
            let left = outstanding_addresses(addresses, found);
            for i in 0..left.len()
                invariant
                    resolved_views(found@) == addresses_named(
                        before,
                        left@,
                        symbols@,
                        instance.base,
                        i as int,
                    ),
            {
                if left[i] >= instance.base {
                    if let Some(name) = symbols.name_at(left[i] - instance.base) {
                        push_resolved(found, name, left[i]);
                    }
                }
            }
        },
    }
}

fn export_place(exports: &Vec<Export>, name: &str) -> (address: Option<u32>)
    ensures
        address == export_from(exports@, name@, 0),
{
    let mut i: usize = 0;
    while i < exports.len()
        invariant
            i <= exports@.len(),
            export_from(exports@, name@, 0) == export_from(exports@, name@, i as int),
        decreases exports@.len() - i,
    {
        if same_text(&exports[i].name, name) {
            return Some(exports[i].address);
        }
        i = i + 1;
    }
    None
}

fn export_name(exports: &Vec<Export>, base: u64, address: u64) -> (name: Option<String>)
    ensures
        text::maybe_text(name) == exported_from(exports@, base, address, 0),
{
    let mut i: usize = 0;
    while i < exports.len()
        invariant
            i <= exports@.len(),
            exported_from(exports@, base, address, 0) == exported_from(
                exports@,
                base,
                address,
                i as int,
            ),
        decreases exports@.len() - i,
    {
        if address >= base && address - base == exports[i].address as u64 {
            return Some(exports[i].name.clone());
        }
        i = i + 1;
    }
    None
}

fn ask_exports(
    context: &Context,
    instance: ModuleInstance,
    wanted: &Wanted,
    found: &mut Vec<Resolved>,
)
    ensures
        resolved_views(final(found)@) == from_exports(
            context,
            instance,
            wanted@,
            resolved_views(old(found)@),
        ),
{
    let exports = match context.pe_image(instance.layer, instance.base) {
        Some(image) => match &image.exports {
            Some(exports) => exports,
            None => return,
        },
        None => return,
    };
    let ghost before = resolved_views(found@);
    match wanted {
        Wanted::Names(names) => {
            let left = outstanding_names(names, found);
            for i in 0..left.len()
                invariant
                    resolved_views(found@) == names_exported(
                        before,
                        text::texts(left@),
                        exports@,
                        instance.base,
                        i as int,
                    ),
            {
                if let Some(address) = export_place(exports, &left[i]) {
                    push_resolved(
                        found,
                        left[i].clone(),
                        instance.base.wrapping_add(address as u64),
                    );
                }
            }
        },
        Wanted::Addresses(addresses) => {
            let left = outstanding_addresses(addresses, found);
            for i in 0..left.len()
                invariant
                    resolved_views(found@) == addresses_exported(
                        before,
                        left@,
                        exports@,
                        instance.base,
                        i as int,
                    ),
            {
                if let Some(name) = export_name(exports, instance.base, left[i]) {
                    push_resolved(found, name, left[i]);
                }
            }
        },
    }
}

/// Resolve what was asked of a module, in every copy of it that was found.
///
/// A module's own database is asked first, wherever a copy of the module still
/// names one, because it describes far more than the module exports and
/// because a copy whose export data has been paged out answers wrongly rather
/// than not at all. Only what the database cannot answer is looked up in the
/// export tables.
pub fn resolve_wanted(
    context: &Context,
    instances: &Vec<ModuleInstance>,
    module: &str,
    wanted: &Wanted,
) -> (found: Vec<Resolved>)
    ensures
        resolved_views(found@) == resolved(context, instances@, module@, wanted@),
{
    let mut found: Vec<Resolved> = Vec::new();
    assert(resolved_views(found@) =~= Seq::<(Seq<char>, u64)>::empty());
    for i in 0..instances.len()
        invariant
            resolved_views(found@) == database_answers(
                context,
                instances@,
                module@,
                wanted@,
                i as int,
            ),
    {
        ask_database(context, instances[i], module, wanted, &mut found);
    }
    let ghost answered = resolved_views(found@);
    for i in 0..instances.len()
        invariant
            resolved_views(found@) == export_answers(
                context,
                instances@,
                wanted@,
                answered,
                i as int,
            ),
    {
        ask_exports(context, instances[i], wanted, &mut found);
    }
    found
}

/// Resolve names inside a module, looking in every copy of it that was found.
pub fn resolve_across_instances(
    context: &Context,
    instances: &Vec<ModuleInstance>,
    module: &str,
    names: Vec<String>,
) -> (found: Vec<Resolved>)
    ensures
        resolved_views(found@) == resolved(
            context,
            instances@,
            module@,
            WantedView::Names(text::texts(names@)),
        ),
{
    resolve_wanted(context, instances, module, &Wanted::Names(names))
}

/// The copies of one module.
#[derive(Debug)]
pub struct ModuleCopies {
    pub name: String,
    pub instances: Vec<ModuleInstance>,
}

/// What the copies of some modules say.
pub open spec fn copies_views(groups: Seq<ModuleCopies>) -> Seq<(Seq<char>, Seq<ModuleInstance>)> {
    Seq::new(groups.len(), |i: int| (groups[i].name@, groups[i].instances@))
}

/// The place of a module among some, from a place on.
pub open spec fn copies_from(
    groups: Seq<(Seq<char>, Seq<ModuleInstance>)>,
    name: Seq<char>,
    from: int,
) -> Option<int>
    decreases groups.len() - from,
{
    if from < 0 || from >= groups.len() {
        None
    } else if groups[from].0 == name {
        Some(from)
    } else {
        copies_from(groups, name, from + 1)
    }
}

/// The copies of modules with one more, beside the others of its module or as
/// the first of it.
pub open spec fn with_copy(
    groups: Seq<(Seq<char>, Seq<ModuleInstance>)>,
    name: Seq<char>,
    instance: ModuleInstance,
) -> Seq<(Seq<char>, Seq<ModuleInstance>)> {
    match copies_from(groups, name, 0) {
        Some(at) => groups.update(at, (groups[at].0, groups[at].1.push(instance))),
        None => groups.push((name, seq![instance])),
    }
}

fn find_copies(groups: &Vec<ModuleCopies>, name: &str) -> (found: Option<usize>)
    ensures
        match found {
            Some(at) => at < groups@.len() && copies_from(copies_views(groups@), name@, 0) == Some(
                at as int,
            ),
            None => copies_from(copies_views(groups@), name@, 0) is None,
        },
{
    let mut i: usize = 0;
    while i < groups.len()
        invariant
            i <= groups@.len(),
            copies_from(copies_views(groups@), name@, 0) == copies_from(
                copies_views(groups@),
                name@,
                i as int,
            ),
        decreases groups@.len() - i,
    {
        if same_text(&groups[i].name, name) {
            return Some(i);
        }
        i = i + 1;
    }
    None
}

fn add_copy(groups: &mut Vec<ModuleCopies>, name: String, instance: ModuleInstance)
    ensures
        copies_views(final(groups)@) == with_copy(
            copies_views(old(groups)@),
            name@,
            instance,
        ),
{
    match find_copies(groups, &name) {
        Some(at) => {
            groups[at].instances.push(instance);
            assert(copies_views(groups@) =~= with_copy(
                copies_views(old(groups)@),
                name@,
                instance,
            ));
        },
        None => {
            let mut instances: Vec<ModuleInstance> = Vec::new();
            instances.push(instance);
            groups.push(ModuleCopies { name, instances });
            assert(copies_views(groups@) =~= with_copy(
                copies_views(old(groups)@),
                name@,
                instance,
            ));
        },
    }
}

/// Whether a name ends in one of some.
pub open spec fn ends_in_one(name: Seq<char>, filter: Seq<Seq<char>>) -> bool {
    exists|i: int| 0 <= i < filter.len() && text::ends(name, #[trigger] filter[i])
}

fn ends_in_any(name: &str, filter: &Vec<String>) -> (found: bool)
    ensures
        found == ends_in_one(name@, text::texts(filter@)),
{
    for i in 0..filter.len()
        invariant
            forall|j: int|
                0 <= j < i ==> !text::ends(name@, #[trigger] text::texts(filter@)[j]),
    {
        if ends_with(name, &filter[i]) {
            assert(text::ends(name@, text::texts(filter@)[i as int]));
            return true;
        }
    }
    false
}

/// The name under which a kernel module is gathered, if it is. The kernel
/// executable is not named the way its module entry names it, so it is
/// recognised by being the list's first entry.
pub open spec fn gathered_name(name: Seq<char>, filter: Seq<Seq<char>>, index: int) -> Option<
    Seq<char>,
> {
    let low = text::lowercase_text(name);
    if filter.len() == 0 || (filter.contains(KERNEL_MODULE_NAME@) && index == 0) {
        Some(KERNEL_MODULE_NAME@)
    } else if ends_in_one(low, filter) {
        Some(low)
    } else {
        None
    }
}

/// The copies once a kernel module is among them, if it is gathered and some
/// session can see it.
pub open spec fn with_kernel_module(
    context: &Context,
    sessions: Seq<SessionLayer>,
    filter: Seq<Seq<char>>,
    entry: Object,
    index: int,
    groups: Seq<(Seq<char>, Seq<ModuleInstance>)>,
) -> Seq<(Seq<char>, Seq<ModuleInstance>)> {
    match (
        context.member_unicode_of(entry, "BaseDllName"),
        context.member_pointer(entry, "DllBase"),
    ) {
        (Some(name), Some(base)) => match (
            gathered_name(name, filter, index),
            plugins::windows::modules::viable_from(context, sessions, base, 0),
        ) {
            (Some(name), Some(layer)) => with_copy(
                groups,
                name,
                ModuleInstance { layer, base, size: module_size(context, entry) },
            ),
            _ => groups,
        },
        _ => groups,
    }
}

pub open spec fn spec_module_size(context: &Context, entry: Object) -> u64 {
    match context.member_u64(entry, "SizeOfImage") {
        Some(size) => size,
        None => 0,
    }
}

/// How much of a module there is.
#[verifier::when_used_as_spec(spec_module_size)]
pub fn module_size(context: &Context, entry: Object) -> (size: u64)
    ensures
        size == spec_module_size(context, entry),
{
    match context.member_u64(entry, "SizeOfImage") {
        Some(size) => size,
        None => 0,
    }
}

/// The copies of the first of some kernel modules.
pub open spec fn kernel_copies(
    context: &Context,
    sessions: Seq<SessionLayer>,
    filter: Seq<Seq<char>>,
    entries: Seq<Object>,
    count: int,
) -> Seq<(Seq<char>, Seq<ModuleInstance>)>
    decreases count,
{
    if count <= 0 {
        Seq::empty()
    } else {
        with_kernel_module(
            context,
            sessions,
            filter,
            entries[count - 1],
            count - 1,
            kernel_copies(context, sessions, filter, entries, count - 1),
        )
    }
}

fn add_kernel_module(
    context: &Context,
    sessions: &Vec<SessionLayer>,
    filter: &Vec<String>,
    entry: Object,
    index: usize,
    groups: &mut Vec<ModuleCopies>,
)
    ensures
        copies_views(final(groups)@) == with_kernel_module(
            context,
            sessions@,
            text::texts(filter@),
            entry,
            index as int,
            copies_views(old(groups)@),
        ),
{
    if let (Some(name), Some(base)) = (
        context.member_unicode(entry, "BaseDllName"),
        context.member_pointer(entry, "DllBase"),
    ) {
        let low = lowercase(&name);
        let gathered = if filter.len() == 0 || (is_listed(filter, KERNEL_MODULE_NAME) && index
            == 0) {
            Some(KERNEL_MODULE_NAME.to_owned())
        } else if ends_in_any(&low, filter) {
            Some(low)
        } else {
            None
        };
        if let (Some(name), Some(layer)) = (gathered, viable_session(context, sessions, base)) {
            add_copy(
                groups,
                name,
                ModuleInstance { layer, base, size: module_size(context, entry) },
            );
        }
    }
}

/// Where each wanted kernel module was found.
pub open spec fn kernel_instances(
    context: &Context,
    kernel: &Module,
    physical: Seq<char>,
    filter: Seq<Seq<char>>,
) -> Seq<(Seq<char>, Seq<ModuleInstance>)> {
    match plugins::windows::modules::listed_modules(context, kernel) {
        Some(entries) => kernel_copies(
            context,
            plugins::windows::modules::sessions(context, kernel, physical),
            filter,
            entries,
            entries.len() as int,
        ),
        None => Seq::empty(),
    }
}

/// Where each wanted kernel module was found, in the order the kernel lists
/// them.
///
/// A module is read through the address space of a session that can see it,
/// since a driver loaded into a session is not mapped anywhere else.
pub fn kernel_module_instances(
    context: &Context,
    kernel: &Module,
    physical: &str,
    filter: &Vec<String>,
) -> (groups: Vec<ModuleCopies>)
    ensures
        copies_views(groups@) == kernel_instances(
            context,
            kernel,
            physical@,
            text::texts(filter@),
        ),
{
    let sessions = session_layers(context, kernel, physical);
    let mut groups: Vec<ModuleCopies> = Vec::new();
    assert(copies_views(groups@) =~= Seq::<(Seq<char>, Seq<ModuleInstance>)>::empty());
    match list_modules(context, kernel) {
        Ok(entries) => {
            for i in 0..entries.len()
                invariant
                    copies_views(groups@) == kernel_copies(
                        context,
                        sessions@,
                        text::texts(filter@),
                        entries@,
                        i as int,
                    ),
            {
                add_kernel_module(context, &sessions, filter, entries[i], i, &mut groups);
            }
        },
        Err(_) => {},
    }
    groups
}

/// The copies once the first mapped files of a process are among them.
pub open spec fn file_copies(
    groups: Seq<(Seq<char>, Seq<ModuleInstance>)>,
    layer: usize,
    ranges: Seq<RangeView>,
    filter: Seq<Seq<char>>,
    count: int,
) -> Seq<(Seq<char>, Seq<ModuleInstance>)>
    decreases count,
{
    if count <= 0 {
        groups
    } else {
        let before = file_copies(groups, layer, ranges, filter, count - 1);
        let range = ranges[count - 1];
        let name = file_name_text(range.path);
        if filter.len() > 0 && !ends_in_one(name, filter) {
            before
        } else {
            with_copy(
                before,
                name,
                ModuleInstance { layer, base: range.start, size: range.size },
            )
        }
    }
}

/// The copies of modules that the first of some processes map.
pub open spec fn process_copies(
    context: &Context,
    physical: Seq<char>,
    filter: Seq<Seq<char>>,
    processes: Seq<Object>,
    count: int,
) -> Seq<(Seq<char>, Seq<ModuleInstance>)>
    decreases count,
{
    if count <= 0 {
        Seq::empty()
    } else {
        let before = process_copies(context, physical, filter, processes, count - 1);
        match context.layer_of(processes[count - 1], physical) {
            Some(layer) => {
                let ranges = file_ranges(
                    symbols::windows::vads_of(
                        context.windows.vads@,
                        processes[count - 1].offset,
                    ),
                );
                file_copies(before, layer, ranges, filter, ranges.len() as int)
            },
            None => before,
        }
    }
}

/// Where each wanted module was found across every process that maps it.
pub open spec fn process_instances(
    context: &Context,
    kernel: &Module,
    physical: Seq<char>,
    filter: Seq<Seq<char>>,
) -> Seq<(Seq<char>, Seq<ModuleInstance>)> {
    match symbols::windows::listed_processes(context, kernel) {
        Some(processes) => process_copies(
            context,
            physical,
            filter,
            processes,
            processes.len() as int,
        ),
        None => Seq::empty(),
    }
}

fn add_files(
    groups: &mut Vec<ModuleCopies>,
    layer: usize,
    ranges: &Vec<MappedRange>,
    filter: &Vec<String>,
)
    ensures
        copies_views(final(groups)@) == file_copies(
            copies_views(old(groups)@),
            layer,
            range_views(ranges@),
            text::texts(filter@),
            ranges@.len() as int,
        ),
{
    let ghost before = copies_views(groups@);
    for i in 0..ranges.len()
        invariant
            copies_views(groups@) == file_copies(
                before,
                layer,
                range_views(ranges@),
                text::texts(filter@),
                i as int,
            ),
    {
        let name = file_name(&ranges[i].path);
        assert(range_views(ranges@)[i as int] == ranges@[i as int]@);
        if filter.len() == 0 || ends_in_any(&name, filter) {
            add_copy(
                groups,
                name,
                ModuleInstance { layer, base: ranges[i].start, size: ranges[i].size },
            );
        }
    }
}

/// Where each wanted module was found across every process that maps it.
pub fn process_module_instances(
    context: &Context,
    kernel: &Module,
    physical: &str,
    filter: &Vec<String>,
) -> (groups: Vec<ModuleCopies>)
    ensures
        copies_views(groups@) == process_instances(
            context,
            kernel,
            physical@,
            text::texts(filter@),
        ),
{
    let mut groups: Vec<ModuleCopies> = Vec::new();
    assert(copies_views(groups@) =~= Seq::<(Seq<char>, Seq<ModuleInstance>)>::empty());
    if let Some(processes) = list_processes(context, kernel) {
        for i in 0..processes.len()
            invariant
                copies_views(groups@) == process_copies(
                    context,
                    physical@,
                    text::texts(filter@),
                    processes@,
                    i as int,
                ),
        {
            if let Some(layer) = context.address_space(processes[i], physical) {
                let ranges = process_file_ranges(context, processes[i]);
                assert(range_views(ranges@).len() == ranges@.len());
                add_files(&mut groups, layer, &ranges, filter);
            }
        }
    }
    groups
}

/// The file name at the end of a Windows path, lowercased.
pub open spec fn file_name_text(path: Seq<char>) -> Seq<char> {
    text::lowercase_text(plugins::windows::dlllist::last_part(path))
}

proof fn lemma_last_part_is_ascii(path: Seq<char>)
    requires
        text::is_ascii(path),
    ensures
        text::is_ascii(plugins::windows::dlllist::last_part(path)),
    decreases path.len(),
{
    if path.len() > 0 {
        assert(text::is_ascii(path.drop_last()));
        lemma_last_part_is_ascii(path.drop_last());
    }
}

/// The file name at the end of a Windows path, lowercased.
pub fn file_name(path: &str) -> (name: String)
    ensures
        name@ == file_name_text(path@),
        text::is_ascii(path@) ==> name@ == text::lower(plugins::windows::dlllist::last_part(path@)),
{
    proof {
        if text::is_ascii(path@) {
            lemma_last_part_is_ascii(path@);
        }
    }
    lowercase(&part_behind_slash(path))
}

/// The texts among some option values, in order.
pub open spec fn texts_in(values: Seq<ConfigValue>) -> Seq<Seq<char>>
    decreases values.len(),
{
    if values.len() == 0 {
        Seq::empty()
    } else {
        match values.last() {
            ConfigValue::Str(text) => texts_in(values.drop_last()).push(text@),
            _ => texts_in(values.drop_last()),
        }
    }
}

/// The texts given for a repeated option.
pub open spec fn option_texts(value: Option<ConfigValue>) -> Seq<Seq<char>> {
    match value {
        Some(ConfigValue::List(values)) => texts_in(values@),
        _ => Seq::empty(),
    }
}

/// The strings given for a repeated option.
pub fn string_list(config: &Configuration, name: &str) -> (list: Vec<String>)
    ensures
        text::texts(list@) == option_texts(config.lookup(name@)),
{
    let mut list: Vec<String> = Vec::new();
    assert(text::texts(list@) =~= Seq::<Seq<char>>::empty());
    if let Some(ConfigValue::List(values)) = config.get(name) {
        for i in 0..values.len()
            invariant
                text::texts(list@) == texts_in(values@.take(i as int)),
        {
            assert(values@.take(i + 1).drop_last() =~= values@.take(i as int));
            if let ConfigValue::Str(text) = &values[i] {
                push_text(&mut list, text.clone());
            }
        }
        assert(values@.take(values@.len() as int) =~= values@);
    }
    list
}

/// What a configuration asks of the module: names where some are given,
/// addresses otherwise, or nothing at all.
pub open spec fn asked(config: &Configuration) -> Option<WantedView> {
    let names = option_texts(config.lookup("symbols"@));
    let addresses = plugins::option_numbers(config.lookup("addresses"@));
    if names.len() > 0 {
        Some(WantedView::Names(names))
    } else if addresses.len() > 0 {
        Some(WantedView::Addresses(addresses))
    } else {
        None
    }
}

/// The rows of what was resolved.
pub open spec fn symbol_lines(module: Seq<char>, found: Seq<(Seq<char>, u64)>) -> Seq<LineView> {
    Seq::new(
        found.len(),
        |i: int|
            renderers::top(
                seq![Cell::Text(module), Cell::Text(found[i].0), Cell::hex(found[i].1)],
            ),
    )
}

/// The copies that a configuration looks for symbols in.
pub open spec fn collected(
    context: &Context,
    kernel: &Module,
    config: &Configuration,
    module: Seq<char>,
) -> Seq<(Seq<char>, Seq<ModuleInstance>)> {
    if config.text_of("source"@) == Some("kernel"@) {
        kernel_instances(
            context,
            kernel,
            plugins::windows::physical_name(config),
            seq![module],
        )
    } else {
        process_instances(
            context,
            kernel,
            plugins::windows::physical_name(config),
            seq![module],
        )
    }
}

/// The name of the module that a configuration asks about.
pub open spec fn asked_module(config: &Configuration) -> Seq<char> {
    text::lowercase_text(config.text_or("module"@, Seq::empty()))
}

/// The rows of what a configuration asks for, once it asks for something.
pub open spec fn answers(
    context: &Context,
    kernel: &Module,
    config: &Configuration,
    wanted: WantedView,
) -> Seq<LineView> {
    let module = asked_module(config);
    let groups = collected(context, kernel, config, module);
    match copies_from(groups, module, 0) {
        Some(at) => symbol_lines(module, resolved(context, groups[at].1, module, wanted)),
        None => Seq::empty(),
    }
}

fn add_answers(
    context: &Context,
    kernel: &Module,
    config: &Configuration,
    wanted: &Wanted,
    grid: &mut TreeGrid,
)
    requires
        old(grid)@.lines.len() == 0,
        old(grid)@.files.len() == 0,
    ensures
        final(grid)@ == Table::of(
            old(grid)@.columns,
            answers(context, kernel, config, wanted@),
        ),
{
    let physical = physical_layer(config);
    let module = lowercase(
        &match config.get_string("module") {
            Some(module) => module,
            None => String::new(),
        },
    );
    let mut filter: Vec<String> = Vec::new();
    push_text(&mut filter, module.clone());
    assert(text::texts(filter@) =~= seq![module@]);
    let source = match config.get_string("source") {
        Some(source) => same_text(&source, "kernel"),
        None => false,
    };
    let groups = if source {
        kernel_module_instances(context, kernel, &physical, &filter)
    } else {
        process_module_instances(context, kernel, &physical, &filter)
    };
    let ghost columns = grid@.columns;
    if let Some(at) = find_copies(&groups, &module) {
        let found = resolve_wanted(context, &groups[at].instances, &module, wanted);
        let ghost lines = symbol_lines(module@, resolved_views(found@));
        for i in 0..found.len()
            invariant
                lines == symbol_lines(module@, resolved_views(found@)),
                grid@ == Table::of(columns, lines.take(i as int)),
        {
            let row = Row::new().with(Value::string(&module)).with(
                Value::string(&found[i].name),
            ).with(Value::hex(found[i].address));
            assert(renderers::top(row@) == lines[i as int]);
            grid.push(0, row);
            assert(grid@.lines =~= lines.take(i + 1));
        }
        assert(lines.take(lines.len() as int) =~= lines);
    }
    assert(grid@ =~= Table::of(columns, answers(context, kernel, config, wanted@)));
}

/// The options of the plugin.
pub open spec fn pe_symbol_needs() -> Seq<RequirementView> {
    seq![
        RequirementView::kernel(),
        RequirementView::new(
            "source"@,
            "Where to resolve symbols."@,
            KindView::Choice(seq!["kernel"@, "processes"@]),
        )
        .required(),
        RequirementView::new(
            "module"@,
            "Module in which to resolve symbols. Use \"ntoskrnl.exe\" to resolve in the base kernel executable."@,
            KindView::String,
        )
        .required(),
        RequirementView::new(
            "symbols"@,
            "Symbol name to resolve"@,
            KindView::List(Box::new(KindView::String)),
        ),
        RequirementView::new(
            "addresses"@,
            "Address of symbol to resolve"@,
            KindView::List(Box::new(KindView::Int)),
        ),
    ]
}

/// The options of the plugin.
pub fn pe_symbol_requirements() -> (requirements: Vec<Requirement>)
    ensures
        plugins::requirement_views(requirements@) == pe_symbol_needs(),
{
    reveal_with_fuel(plugins::kind_view, 3);
    let choices = vec!["kernel".to_owned(), "processes".to_owned()];
    assert(text::texts(choices@) =~= seq!["kernel"@, "processes"@]);
    vec![
        Requirement::kernel(),
        Requirement::new(
            "source",
            "Where to resolve symbols.",
            RequirementKind::Choice(choices),
        )
        .required(),
        Requirement::new(
            "module",
            "Module in which to resolve symbols. Use \"ntoskrnl.exe\" to resolve in the base kernel executable.",
            RequirementKind::String,
        )
        .required(),
        Requirement::new(
            "symbols",
            "Symbol name to resolve",
            RequirementKind::List(Box::new(RequirementKind::String)),
        ),
        Requirement::new(
            "addresses",
            "Address of symbol to resolve",
            RequirementKind::List(Box::new(RequirementKind::Int)),
        ),
    ]
}

impl Plugin for PeSymbols {
    open spec fn named(&self) -> Seq<char> {
        "windows.pe_symbols.PESymbols"@
    }

    open spec fn described(&self) -> Seq<char> {
        "Prints symbols in PE files in process and kernel memory"@
    }

    open spec fn needs(&self) -> Seq<RequirementView> {
        pe_symbol_needs()
    }

    open spec fn headings(&self) -> Seq<Column> {
        seq![
            Column::string("Module"),
            Column::string("Symbol"),
            Column::new("Address", ColumnType::UInt),
        ]
    }

    open spec fn system(&self) -> OperatingSystem {
        OperatingSystem::Windows
    }

    open spec fn report(&self, context: &Context, config: &Configuration) -> Result<Table, Failure> {
        match plugins::windows::kernel_of(context, config) {
            Some(kernel) => match asked(config) {
                Some(wanted) => Ok(
                    Table::of(self.headings(), answers(context, &kernel, config, wanted)),
                ),
                None => Ok(Table::empty(self.headings())),
            },
            None => Err(plugins::windows::no_kernel()),
        }
    }

    fn name(&self) -> (name: &'static str) {
        "windows.pe_symbols.PESymbols"
    }

    fn description(&self) -> (description: &'static str) {
        "Prints symbols in PE files in process and kernel memory"
    }

    fn requirements(&self) -> (requirements: Vec<Requirement>) {
        pe_symbol_requirements()
    }

    fn operating_system(&self) -> (system: OperatingSystem) {
        OperatingSystem::Windows
    }

    fn columns(&self) -> (columns: Vec<Column>) {
        vec![
            Column::string("Module"),
            Column::string("Symbol"),
            Column::new("Address", ColumnType::UInt),
        ]
    }

    fn epilog(&self) -> (epilog: Option<&'static str>) {
        None
    }

    fn timeline(&self, context: &Context, config: &Configuration) -> (timeline: Option<
        plugins::Timeline,
    >) {
        None
    }

    fn needs_kernel(&self) -> (needed: bool) {
        false
    }

    fn run(&self, context: &Context, config: &Configuration) -> (result: Result<TreeGrid, VolatilityError>) {
        let kernel = kernel_module(context, config)?;
        let mut grid = TreeGrid::new(self.columns());
        let names = string_list(config, "symbols");
        let addresses = int_list(config, "addresses");
        assert(text::texts(names@).len() == names@.len());
        if !names.is_empty() {
            add_answers(context, kernel, config, &Wanted::Names(names), &mut grid);
        } else if !addresses.is_empty() {
            add_answers(context, kernel, config, &Wanted::Addresses(addresses), &mut grid);
        }
        Ok(grid)
    }
}

} // verus!
