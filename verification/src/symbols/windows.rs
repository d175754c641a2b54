//! Processes, objects and pools of the Windows kernel.

use crate::context::{Context, Module, Object, TypeId};
use crate::lists::walk_list;
use crate::symbols::registry::Hive;
use crate::symbols::security::Security;
use crate::text::{self, push_text, same_text};
use vstd::prelude::*;

verus! {

/// The name of the table that describes the structures of 32 bit processes on
/// a 64 bit kernel.
pub const WOW64_TABLE: &'static str = "wow64";

/// The address space of a process, over one of the physical layers.
#[derive(Debug)]
pub struct AddressSpace {
    /// Where the process object stands.
    pub process: u64,
    pub physical: String,
    pub layer: usize,
    /// Where the 32 bit environment block stands, for a process that has one.
    pub peb32: Option<u64>,
}

/// A name of the kernel's table of object types.
#[derive(Debug)]
pub struct TypeName {
    pub index: u64,
    pub name: String,
}

/// The name that an object header carries.
#[derive(Debug)]
pub struct HeaderName {
    pub header: u64,
    pub name: String,
}

/// An executable image put together again from memory.
#[derive(Debug)]
pub struct RebuiltImage {
    pub layer: usize,
    pub base: u64,
    pub data: Vec<u8>,
}

/// A function that an executable image offers, by its place in the image.
#[derive(Debug)]
pub struct Export {
    pub name: String,
    pub address: u32,
}

/// A function that an executable image asks for.
#[derive(Debug)]
pub struct Import {
    pub library: String,
    pub bound: bool,
    pub function: Option<String>,
    pub ordinal: u16,
    /// Where in the image the function's address is kept.
    pub slot: u32,
}

/// What the headers of an executable image in memory say.
#[derive(Debug)]
pub struct PeImage {
    pub layer: usize,
    pub base: u64,
    pub size_of_image: u32,
    pub time_date_stamp: u32,
    pub major_operating_system_version: u16,
    pub minor_operating_system_version: u16,
    pub machine_value: u16,
    pub exports: Option<Vec<Export>>,
    pub imports: Option<Vec<Import>>,
}

/// The exports that the first bytes of an image name. Nothing can be read out of an
/// image whose export directory lies behind those bytes.
#[derive(Debug)]
pub struct ReadExports {
    pub layer: usize,
    pub base: u64,
    /// How many bytes were read.
    pub length: usize,
    pub exports: Vec<Export>,
}

/// One stretch of a search through a layer: it sees the matches that begin between
/// two places, both included. Neighbouring stretches overlap, so that no match is cut
/// in two.
#[derive(Clone, Copy, PartialEq, Eq, Structural, Debug)]
pub struct Stretch {
    pub layer: usize,
    pub first: u64,
    pub last: u64,
}

/// A range of a process's memory.
#[derive(Debug)]
pub struct Vad {
    /// Where the process object stands.
    pub process: u64,
    pub start: Option<u64>,
    pub end: Option<u64>,
    pub file_name: Option<String>,
    pub protection: Option<String>,
    pub control_area: Option<Object>,
    pub file_object: Option<Object>,
}

/// A record in an image that names the database describing it.
#[derive(Debug)]
pub struct DebugRecord {
    pub layer: usize,
    pub address: u64,
    pub pdb_name: String,
    pub guid: String,
    pub age: u32,
}

/// A name and its place in a module.
#[derive(Debug)]
pub struct NamedPlace {
    pub name: String,
    pub address: u64,
}

/// The symbols of a module that are installed.
#[derive(Debug)]
pub struct InstalledSymbols {
    pub directory: String,
    pub identity: String,
    pub symbols: Vec<NamedPlace>,
}

/// The symbols that a module's own database publishes.
#[derive(Debug)]
pub struct PublishedSymbols {
    pub name: String,
    pub guid: String,
    pub age: u32,
    pub symbols: Vec<NamedPlace>,
}

/// An allocation of the kernel's pools, and the object that one type finds in it.
#[derive(Debug)]
pub struct PoolHit {
    pub tag: u32,
    pub structure: String,
    /// The kind of kernel object the type describes, where it describes one.
    pub object_type: Option<String>,
    /// The size of the allocation.
    pub size: u64,
    /// Which pool it lies in: one of the three flags below.
    pub pool: u64,
    pub index: u64,
    /// The table whose types describe the object.
    pub table: usize,
    pub header: Object,
    pub object: Object,
}

/// Pools that can be paged out.
pub const PAGED: u64 = 1;

/// Pools that cannot be paged out.
pub const NONPAGED: u64 = 2;

/// Allocations that were given back.
pub const FREE: u64 = 4;

/// What is known of a Windows image besides its bytes.
#[derive(Debug)]
pub struct Windows {
    pub spaces: Vec<AddressSpace>,
    /// The number that object headers hide their type behind.
    pub cookie: Option<u64>,
    pub type_names: Vec<TypeName>,
    pub header_names: Vec<HeaderName>,
    /// Where the process structures stand that hold together as such.
    pub sound_processes: Vec<u64>,
    pub images: Vec<RebuiltImage>,
    pub pe_images: Vec<PeImage>,
    /// What exports can be read out of the first bytes of images.
    pub read_exports: Vec<ReadExports>,
    /// The stretches in which layers are searched for several things at once.
    pub stretches: Vec<Stretch>,
    pub vads: Vec<Vad>,
    pub records: Vec<DebugRecord>,
    pub installed: Vec<InstalledSymbols>,
    pub published: Vec<PublishedSymbols>,
    /// What the pools hold, where they could be scanned.
    pub pool: Option<Vec<PoolHit>>,
    /// The modules that addresses of code are attributed to, where they are known.
    pub code: Option<Vec<CodeModule>>,
    /// The registry's hives, where they could be listed.
    pub hives: Option<Vec<Hive>>,
    pub security: Security,
    /// What ordinals of well-known libraries stand for, as a JSON object of
    /// objects.
    pub ordinals: String,
    /// The headers of the crash dumps among the layers.
    pub crashes: Vec<CrashHeader>,
    /// The allocations that a general scan of the pools looks for.
    pub builtin: Vec<PoolConstraint>,
}

/// What the header of a crash dump says, whatever its layout.
#[derive(Clone, Copy, PartialEq, Eq, Structural, Debug)]
pub struct CrashHeader {
    /// The layer that begins with the header.
    pub layer: usize,
    pub is_64bit: bool,
    pub directory_table_base: u64,
    pub dump_type: u32,
}

/// The header of the crash dump that a layer is, from a place of a list on.
pub open spec fn crash_from(crashes: Seq<CrashHeader>, layer: usize, from: int) -> Option<
    CrashHeader,
>
    decreases crashes.len() - from,
{
    if from < 0 || from >= crashes.len() {
        None
    } else if crashes[from].layer == layer {
        Some(crashes[from])
    } else {
        crash_from(crashes, layer, from + 1)
    }
}

/// The header of the crash dump that a layer is, if it is one.
pub fn check_header(context: &Context, layer: usize) -> (header: Option<CrashHeader>)
    ensures
        header == crash_from(context.windows.crashes@, layer, 0),
{
    let crashes = &context.windows.crashes;
    let mut i: usize = 0;
    while i < crashes.len()
        invariant
            crashes@ == context.windows.crashes@,
            i <= crashes@.len(),
            crash_from(crashes@, layer, 0) == crash_from(crashes@, layer, i as int),
        decreases crashes@.len() - i,
    {
        if crashes[i].layer == layer {
            return Some(crashes[i]);
        }
        i = i + 1;
    }
    None
}

/// A module that addresses of code are attributed to, and the names it has for
/// places in it.
#[derive(Debug)]
pub struct CodeModule {
    pub name: String,
    pub start: u64,
    pub size: u64,
    pub symbols: Vec<NamedPlace>,
}

/// A module that an address lies in, and its names for that address.
#[derive(Debug)]
pub struct Owner {
    pub module: String,
    pub symbols: Vec<String>,
}

/// What is said of a module that an address lies in.
#[verifier::ext_equal]
pub struct OwnerView {
    pub module: Seq<char>,
    pub symbols: Seq<Seq<char>>,
}

impl View for Owner {
    type V = OwnerView;

    open spec fn view(&self) -> OwnerView {
        OwnerView { module: self.module@, symbols: text::texts(self.symbols@) }
    }
}

/// What is said of each of some owners.
pub open spec fn owner_views(owners: Seq<Owner>) -> Seq<OwnerView> {
    Seq::new(owners.len(), |i: int| owners[i]@)
}

/// The names that stand for an address.
pub open spec fn names_at(symbols: Seq<NamedPlace>, address: u64) -> Seq<Seq<char>>
    decreases symbols.len(),
{
    if symbols.len() == 0 {
        Seq::empty()
    } else {
        let before = names_at(symbols.drop_last(), address);
        if symbols.last().address == address {
            before.push(symbols.last().name@)
        } else {
            before
        }
    }
}

fn collect_names(symbols: &Vec<NamedPlace>, address: u64) -> (names: Vec<String>)
    ensures
        text::texts(names@) == names_at(symbols@, address),
{
    let mut names: Vec<String> = Vec::new();
    for i in 0..symbols.len()
        invariant
            text::texts(names@) == names_at(symbols@.take(i as int), address),
    {
        assert(symbols@.take(i + 1).drop_last() =~= symbols@.take(i as int));
        if symbols[i].address == address {
            push_text(&mut names, symbols[i].name.clone());
        }
    }
    assert(symbols@.take(symbols@.len() as int) =~= symbols@);
    names
}

impl CodeModule {
    /// Whether an address lies in the module.
    pub open spec fn spans(&self, address: u64) -> bool {
        self.start <= address && address - self.start < self.size
    }
}

/// The modules that an address lies in, in the order they are listed.
pub open spec fn owners_of(modules: Seq<CodeModule>, address: u64) -> Seq<OwnerView>
    decreases modules.len(),
{
    if modules.len() == 0 {
        Seq::empty()
    } else {
        let before = owners_of(modules.drop_last(), address);
        if modules.last().spans(address) {
            before.push(
                OwnerView {
                    module: modules.last().name@,
                    symbols: names_at(modules.last().symbols@, address),
                },
            )
        } else {
            before
        }
    }
}

/// The modules that an address lies in, in the order they are listed.
pub fn modules_at(modules: &Vec<CodeModule>, address: u64) -> (owners: Vec<Owner>)
    ensures
        owner_views(owners@) == owners_of(modules@, address),
{
    let mut owners: Vec<Owner> = Vec::new();
    for i in 0..modules.len()
        invariant
            owner_views(owners@) == owners_of(modules@.take(i as int), address),
    {
        assert(modules@.take(i + 1).drop_last() =~= modules@.take(i as int));
        if modules[i].start <= address && address - modules[i].start < modules[i].size {
            let ghost before = owner_views(owners@);
            let owner = Owner {
                module: modules[i].name.clone(),
                symbols: collect_names(&modules[i].symbols, address),
            };
            let ghost said = owner@;
            owners.push(owner);
            assert(owner_views(owners@) =~= before.push(said));
        }
    }
    assert(modules@.take(modules@.len() as int) =~= modules@);
    owners
}

/// The module that an address is described by, and its name for that address: the
/// first of each that is listed.
pub open spec fn description(modules: Option<Vec<CodeModule>>, address: u64) -> (
    Option<Seq<char>>,
    Option<Seq<char>>,
) {
    match modules {
        Some(modules) => {
            let owners = owners_of(modules@, address);
            if owners.len() == 0 {
                (None, None)
            } else if owners[0].symbols.len() == 0 {
                (Some(owners[0].module), None)
            } else {
                (Some(owners[0].module), Some(owners[0].symbols[0]))
            }
        },
        None => (None, None),
    }
}

/// The module that an address is described by, and its name for that address.
pub fn describe(modules: &Option<Vec<CodeModule>>, address: u64) -> (found: (
    Option<String>,
    Option<String>,
))
    ensures
        (text::maybe_text(found.0), text::maybe_text(found.1)) == description(*modules, address),
{
    match modules {
        Some(modules) => {
            let owners = modules_at(modules, address);
            let ghost said = owner_views(owners@);
            if owners.is_empty() {
                (None, None)
            } else {
                assert(said[0] == owners@[0]@);
                assert(said[0].symbols.len() == owners@[0].symbols@.len());
                if owners[0].symbols.is_empty() {
                    (Some(owners[0].module.clone()), None)
                } else {
                    (Some(owners[0].module.clone()), Some(owners[0].symbols[0].clone()))
                }
            }
        },
        None => (None, None),
    }
}

/// Which allocations a scan looks for.
#[derive(Debug)]
pub struct PoolConstraint {
    pub tag: u32,
    pub structure: &'static str,
    pub pool: u64,
    pub table: usize,
    pub least: Option<u64>,
    pub most: Option<u64>,
    pub least_index: Option<u64>,
    pub most_index: Option<u64>,
}

/// Whether a number lies between two bounds, each of which may be missing.
pub open spec fn within(number: u64, least: Option<u64>, most: Option<u64>) -> bool {
    (least is Some ==> least->0 <= number) && (most is Some ==> number <= most->0)
}

fn is_within(number: u64, least: Option<u64>, most: Option<u64>) -> (inside: bool)
    ensures
        inside == within(number, least, most),
{
    (match least {
        Some(least) => least <= number,
        None => true,
    }) && (match most {
        Some(most) => number <= most,
        None => true,
    })
}

impl PoolConstraint {
    /// Whether an allocation is one the scan looks for.
    pub open spec fn admits(&self, hit: PoolHit) -> bool {
        self.tag == hit.tag && self.structure@ == hit.structure@ && self.table == hit.table
            && self.pool & hit.pool != 0 && within(hit.size, self.least, self.most) && within(
            hit.index,
            self.least_index,
            self.most_index,
        )
    }

    fn is_met_by(&self, hit: &PoolHit) -> (met: bool)
        ensures
            met == self.admits(*hit),
    {
        self.tag == hit.tag && same_text(self.structure, &hit.structure) && self.table == hit.table
            && self.pool & hit.pool != 0 && is_within(hit.size, self.least, self.most)
            && is_within(hit.index, self.least_index, self.most_index)
    }
}

/// The allocations that one of some constraints admits, in order.
pub open spec fn admitted<'a>(
    hits: Seq<PoolHit>,
    constraints: Seq<PoolConstraint>,
) -> Seq<&'a PoolHit>
    decreases hits.len(),
{
    if hits.len() == 0 {
        Seq::empty()
    } else {
        let before = admitted(hits.drop_last(), constraints);
        if exists|i: int| 0 <= i < constraints.len() && (#[trigger] constraints[i]).admits(hits.last()) {
            before.push(&hits.last())
        } else {
            before
        }
    }
}

/// The allocations that a scan of the pools finds, where they could be scanned.
pub open spec fn scanned<'a>(context: &Context, constraints: Seq<PoolConstraint>) -> Option<
    Seq<&'a PoolHit>,
> {
    match context.windows.pool {
        Some(hits) => Some(admitted(hits@, constraints)),
        None => None,
    }
}

/// The allocations that a scan of the pools finds.
pub fn generate_pool_scan<'a>(context: &'a Context, constraints: &Vec<PoolConstraint>) -> (found:
    Option<Vec<&'a PoolHit>>)
    ensures
        match found {
            Some(found) => scanned(context, constraints@) == Some(found@),
            None => scanned(context, constraints@) is None,
        },
{
    match &context.windows.pool {
        Some(hits) => {
            let mut found: Vec<&'a PoolHit> = Vec::new();
            for i in 0..hits.len()
                invariant
                    found@ == admitted(hits@.take(i as int), constraints@),
            {
                assert(hits@.take(i + 1).drop_last() =~= hits@.take(i as int));
                let hit = &hits[i];
                if is_admitted(hit, constraints) {
                    found.push(hit);
                }
            }
            assert(hits@.take(hits@.len() as int) =~= hits@);
            Some(found)
        },
        None => None,
    }
}

fn is_admitted(hit: &PoolHit, constraints: &Vec<PoolConstraint>) -> (met: bool)
    ensures
        met == exists|i: int|
            0 <= i < constraints@.len() && (#[trigger] constraints@[i]).admits(*hit),
{
    for i in 0..constraints.len()
        invariant
            forall|j: int| 0 <= j < i ==> !(#[trigger] constraints@[j]).admits(*hit),
    {
        if constraints[i].is_met_by(hit) {
            return true;
        }
    }
    false
}

/// The allocations that carry one of some tags and hold a kernel object, in order.
pub open spec fn tagged<'a>(hits: Seq<PoolHit>, tags: Seq<u32>) -> Seq<&'a PoolHit>
    decreases hits.len(),
{
    if hits.len() == 0 {
        Seq::empty()
    } else {
        let before = tagged(hits.drop_last(), tags);
        if hits.last().object_type is Some && (tags.len() == 0 || tags.contains(hits.last().tag)) {
            before.push(&hits.last())
        } else {
            before
        }
    }
}

/// The kernel objects that the pools hold under some tags, or under any where
/// none is given.
pub open spec fn scanned_tags<'a>(context: &Context, tags: Seq<u32>) -> Option<Seq<&'a PoolHit>> {
    match context.windows.pool {
        Some(hits) => Some(tagged(hits@, tags)),
        None => None,
    }
}

fn has_tag(tags: &[u32], tag: u32) -> (found: bool)
    ensures
        found == tags@.contains(tag),
{
    for i in 0..tags.len()
        invariant
            forall|j: int| 0 <= j < i ==> tags@[j] != tag,
    {
        if tags[i] == tag {
            return true;
        }
    }
    false
}

/// The kernel objects that the pools hold under some tags, or under any where
/// none is given.
pub fn scan_for_tags<'a>(context: &'a Context, tags: &[u32]) -> (found: Option<Vec<&'a PoolHit>>)
    ensures
        match found {
            Some(found) => scanned_tags(context, tags@) == Some(found@),
            None => scanned_tags(context, tags@) is None,
        },
{
    match &context.windows.pool {
        Some(hits) => {
            let mut found: Vec<&'a PoolHit> = Vec::new();
            for i in 0..hits.len()
                invariant
                    found@ == tagged(hits@.take(i as int), tags@),
            {
                assert(hits@.take(i + 1).drop_last() =~= hits@.take(i as int));
                let hit = &hits[i];
                if hit.object_type.is_some() && (tags.len() == 0 || has_tag(tags, hit.tag)) {
                    found.push(hit);
                }
            }
            assert(hits@.take(hits@.len() as int) =~= hits@);
            Some(found)
        },
        None => None,
    }
}

/// The processes of the kernel's own list.
pub open spec fn listed_processes(context: &Context, kernel: &Module) -> Option<Seq<Object>> {
    match context.typed_symbol(kernel, "PsActiveProcessHead", "_LIST_ENTRY") {
        Some(head) => crate::lists::listed(
            context,
            head,
            context.get_type(kernel.table, "_EPROCESS"),
            "ActiveProcessLinks",
            true,
        ),
        None => None,
    }
}

/// The processes of the kernel's own list.
pub fn list_processes(context: &Context, kernel: &Module) -> (processes: Option<Vec<Object>>)
    ensures
        match processes {
            Some(processes) => listed_processes(context, kernel) == Some(processes@),
            None => listed_processes(context, kernel) is None,
        },
{
    match context.typed_symbol(kernel, "PsActiveProcessHead", "_LIST_ENTRY") {
        Some(head) => walk_list(
            context,
            head,
            context.get_type(kernel.table, "_EPROCESS"),
            "ActiveProcessLinks",
            true,
        ),
        None => None,
    }
}

/// The name that the kernel's table gives a type index, from a place on.
pub open spec fn type_name_from(names: Seq<TypeName>, index: u64, from: int) -> Option<Seq<char>>
    decreases names.len() - from,
{
    if from < 0 || from >= names.len() {
        None
    } else if names[from].index == index {
        Some(names[from].name@)
    } else {
        type_name_from(names, index, from + 1)
    }
}

/// The name that the kernel's table gives a type index.
pub fn name_of_type(names: &Vec<TypeName>, index: u64) -> (name: Option<String>)
    ensures
        crate::text::maybe_text(name) == type_name_from(names@, index, 0),
{
    let mut i: usize = 0;
    while i < names.len()
        invariant
            i <= names@.len(),
            type_name_from(names@, index, 0) == type_name_from(names@, index, i as int),
        decreases names@.len() - i,
    {
        if names[i].index == index {
            return Some(names[i].name.clone());
        }
        i = i + 1;
    }
    None
}

/// The name that a header carries, from a place on.
pub open spec fn header_name_from(names: Seq<HeaderName>, header: u64, from: int) -> Option<
    Seq<char>,
>
    decreases names.len() - from,
{
    if from < 0 || from >= names.len() {
        None
    } else if names[from].header == header {
        Some(names[from].name@)
    } else {
        header_name_from(names, header, from + 1)
    }
}

/// The name that an object header carries.
pub open spec fn named_by_header(context: &Context, header: Object) -> Option<Seq<char>> {
    header_name_from(context.windows.header_names@, header.offset, 0)
}

/// The name that an object header carries.
pub fn header_name(context: &Context, header: Object) -> (name: Option<String>)
    ensures
        crate::text::maybe_text(name) == named_by_header(context, header),
{
    let names = &context.windows.header_names;
    let mut i: usize = 0;
    while i < names.len()
        invariant
            *names == context.windows.header_names,
            i <= names@.len(),
            named_by_header(context, header) == header_name_from(
                names@,
                header.offset,
                i as int,
            ),
        decreases names@.len() - i,
    {
        if names[i].header == header.offset {
            return Some(names[i].name.clone());
        }
        i = i + 1;
    }
    None
}

impl Context {
    pub open spec fn spec_object_header(&self, object: Object, kernel: &Module) -> Option<Object> {
        match self.get_type(kernel.table, "_OBJECT_HEADER") {
            Some(kind) => match self.find_member(kind, "Body") {
                Some((body, _)) => Some(
                    Object { kind, offset: object.offset.wrapping_sub(body), ..object },
                ),
                None => None,
            },
            None => None,
        }
    }

    /// The header in front of a kernel object.
    #[verifier::when_used_as_spec(spec_object_header)]
    pub fn object_header(&self, object: Object, kernel: &Module) -> (header: Option<Object>)
        ensures
            header == self.spec_object_header(object, kernel),
    {
        match self.get_type(kernel.table, "_OBJECT_HEADER") {
            Some(kind) => match self.find_member(kind, "Body") {
                Some((body, _)) => Some(
                    Object {
                        kind,
                        layer: object.layer,
                        native: object.native,
                        offset: object.offset.wrapping_sub(body),
                    },
                ),
                None => None,
            },
            None => None,
        }
    }

    /// The name of a kernel object, which its header carries.
    pub open spec fn object_name_of(&self, object: Object, kernel: &Module) -> Option<Seq<char>> {
        match self.object_header(object, kernel) {
            Some(header) => named_by_header(self, header),
            None => None,
        }
    }

    /// The name of a kernel object, which its header carries.
    pub fn object_name(&self, object: Object, kernel: &Module) -> (name: Option<String>)
        ensures
            crate::text::maybe_text(name) == self.object_name_of(object, kernel),
    {
        match self.object_header(object, kernel) {
            Some(header) => header_name(self, header),
            None => None,
        }
    }

    pub open spec fn spec_pid(&self, process: Object) -> Option<u64> {
        self.member_pointer(process, "UniqueProcessId")
    }

    /// The number of a process.
    #[verifier::when_used_as_spec(spec_pid)]
    pub fn pid(&self, process: Object) -> (pid: Option<u64>)
        ensures
            pid == self.spec_pid(process),
    {
        self.member_pointer(process, "UniqueProcessId")
    }

    pub open spec fn spec_parent_pid(&self, process: Object) -> Option<u64> {
        self.member_pointer(process, "InheritedFromUniqueProcessId")
    }

    /// The number of the process that made a process.
    #[verifier::when_used_as_spec(spec_parent_pid)]
    pub fn parent_pid(&self, process: Object) -> (pid: Option<u64>)
        ensures
            pid == self.spec_parent_pid(process),
    {
        self.member_pointer(process, "InheritedFromUniqueProcessId")
    }

    /// The short name of a process.
    pub open spec fn image_name_of(&self, process: Object) -> Option<Seq<char>> {
        match self.member(process, "ImageFileName") {
            Some(name) => self.string_of(name),
            None => None,
        }
    }

    /// The short name of a process, or nothing where it cannot be read.
    pub open spec fn image_name_or_empty(&self, process: Object) -> Seq<char> {
        match self.image_name_of(process) {
            Some(name) => name,
            None => Seq::empty(),
        }
    }

    /// The short name of a process.
    pub fn image_file_name(&self, process: Object) -> (name: Option<String>)
        ensures
            crate::text::maybe_text(name) == self.image_name_of(process),
    {
        match self.member(process, "ImageFileName") {
            Some(name) => self.as_string(name),
            None => None,
        }
    }

    /// The short name of a process, or nothing where it cannot be read.
    pub fn image_file_name_or_empty(&self, process: Object) -> (name: String)
        ensures
            name@ == self.image_name_or_empty(process),
    {
        match self.image_file_name(process) {
            Some(name) => name,
            None => String::new(),
        }
    }

    pub open spec fn spec_process_is_valid(&self, process: Object) -> bool {
        self.windows.sound_processes@.contains(process.offset)
    }

    /// Whether a process structure holds together as one.
    #[verifier::when_used_as_spec(spec_process_is_valid)]
    pub fn process_is_valid(&self, process: Object) -> (valid: bool)
        ensures
            valid == self.spec_process_is_valid(process),
    {
        let sound = &self.windows.sound_processes;
        for i in 0..sound.len()
            invariant
                *sound == self.windows.sound_processes,
                forall|j: int| 0 <= j < i ==> sound@[j] != process.offset,
        {
            if sound[i] == process.offset {
                return true;
            }
        }
        false
    }

    pub open spec fn spec_thread_count(&self, process: Object) -> Option<u64> {
        self.member_u64(process, "ActiveThreads")
    }

    /// How many threads a process has.
    #[verifier::when_used_as_spec(spec_thread_count)]
    pub fn thread_count(&self, process: Object) -> (count: Option<u64>)
        ensures
            count == self.spec_thread_count(process),
    {
        self.member_u64(process, "ActiveThreads")
    }

    pub open spec fn spec_handle_count(&self, process: Object) -> Option<u64> {
        match self.member_target(process, "ObjectTable") {
            Some(table) => self.member_u64(table, "HandleCount"),
            None => None,
        }
    }

    /// How many handles a process holds.
    #[verifier::when_used_as_spec(spec_handle_count)]
    pub fn handle_count(&self, process: Object) -> (count: Option<u64>)
        ensures
            count == self.spec_handle_count(process),
    {
        match self.member_target(process, "ObjectTable") {
            Some(table) => self.member_u64(table, "HandleCount"),
            None => None,
        }
    }

    pub open spec fn spec_session_id(&self, process: Object) -> Option<Option<u64>> {
        match self.member(process, "Session") {
            Some(session) => match self.pointer_value(session) {
                Some(address) => if address == 0 {
                    Some(None)
                } else {
                    match self.dereference_as(
                        session,
                        self.get_type(process.kind.table, "_MM_SESSION_SPACE"),
                    ) {
                        Some(space) => match self.member_u64(space, "SessionId") {
                            Some(number) => Some(Some(number)),
                            None => None,
                        },
                        None => None,
                    }
                },
                None => None,
            },
            None => None,
        }
    }

    /// The session of a process: unknown, none, or its number.
    #[verifier::when_used_as_spec(spec_session_id)]
    pub fn session_id(&self, process: Object) -> (session: Option<Option<u64>>)
        ensures
            session == self.spec_session_id(process),
    {
        match self.member(process, "Session") {
            Some(session) => match self.pointer_value(session) {
                Some(address) => if address == 0 {
                    Some(None)
                } else {
                    match self.dereference_as(
                        session,
                        self.get_type(process.kind.table, "_MM_SESSION_SPACE"),
                    ) {
                        Some(space) => match self.member_u64(space, "SessionId") {
                            Some(number) => Some(Some(number)),
                            None => None,
                        },
                        None => None,
                    }
                },
                None => None,
            },
            None => None,
        }
    }

    pub open spec fn spec_is_wow64(&self, process: Object) -> bool {
        let marker = match self.member_u64(process, "Wow64Process") {
            Some(marker) => Some(marker),
            None => self.member_u64(process, "WoW64Process"),
        };
        marker is Some && marker->0 != 0
    }

    /// Whether a process runs 32 bit code on a 64 bit kernel.
    #[verifier::when_used_as_spec(spec_is_wow64)]
    pub fn is_wow64(&self, process: Object) -> (wow64: bool)
        ensures
            wow64 == self.spec_is_wow64(process),
    {
        let marker = match self.member_u64(process, "Wow64Process") {
            Some(marker) => Some(marker),
            None => self.member_u64(process, "WoW64Process"),
        };
        match marker {
            Some(marker) => marker != 0,
            None => false,
        }
    }

    pub open spec fn spec_quad(&self, object: Object, name: &str) -> Option<u64> {
        match self.member(object, name) {
            Some(part) => self.member_u64(part, "QuadPart"),
            None => None,
        }
    }

    /// The whole of a member that is kept in two halves.
    #[verifier::when_used_as_spec(spec_quad)]
    pub fn quad(&self, object: Object, name: &str) -> (whole: Option<u64>)
        ensures
            whole == self.spec_quad(object, name),
    {
        match self.member(object, name) {
            Some(part) => self.member_u64(part, "QuadPart"),
            None => None,
        }
    }

    /// The address space of a process, from a place of the list on.
    pub open spec fn space_from(
        spaces: Seq<AddressSpace>,
        process: u64,
        physical: Seq<char>,
        from: int,
    ) -> Option<int>
        decreases spaces.len() - from,
    {
        if from < 0 || from >= spaces.len() {
            None
        } else if spaces[from].process == process && spaces[from].physical@ == physical {
            Some(from)
        } else {
            Self::space_from(spaces, process, physical, from + 1)
        }
    }

    fn space_of(&self, process: Object, physical: &str) -> (found: Option<usize>)
        ensures
            match found {
                Some(at) => at < self.windows.spaces@.len() && Self::space_from(
                    self.windows.spaces@,
                    process.offset,
                    physical@,
                    0,
                ) == Some(at as int),
                None => Self::space_from(
                    self.windows.spaces@,
                    process.offset,
                    physical@,
                    0,
                ) is None,
            },
    {
        let spaces = &self.windows.spaces;
        let mut i: usize = 0;
        while i < spaces.len()
            invariant
                *spaces == self.windows.spaces,
                i <= spaces@.len(),
                Self::space_from(spaces@, process.offset, physical@, 0) == Self::space_from(
                    spaces@,
                    process.offset,
                    physical@,
                    i as int,
                ),
            decreases spaces@.len() - i,
        {
            if spaces[i].process == process.offset && same_text(&spaces[i].physical, physical) {
                return Some(i);
            }
            i = i + 1;
        }
        None
    }

    /// The layer of a process's own memory.
    pub open spec fn layer_of(&self, process: Object, physical: Seq<char>) -> Option<usize> {
        match Self::space_from(self.windows.spaces@, process.offset, physical, 0) {
            Some(at) => Some(self.windows.spaces@[at].layer),
            None => None,
        }
    }

    /// The layer of a process's own memory.
    pub fn address_space(&self, process: Object, physical: &str) -> (layer: Option<usize>)
        ensures
            layer == self.layer_of(process, physical@),
    {
        match self.space_of(process, physical) {
            Some(at) => Some(self.windows.spaces[at].layer),
            None => None,
        }
    }

    pub open spec fn spec_peb(&self, process: Object, layer: usize) -> Option<Object> {
        match self.member_pointer(process, "Peb") {
            Some(address) => self.object(
                self.get_type(process.kind.table, "_PEB"),
                layer,
                address,
            ),
            None => None,
        }
    }

    /// The environment block of a process, in its own memory.
    #[verifier::when_used_as_spec(spec_peb)]
    pub fn peb(&self, process: Object, layer: usize) -> (peb: Option<Object>)
        ensures
            peb == self.spec_peb(process, layer),
    {
        match self.member_pointer(process, "Peb") {
            Some(address) => self.object(self.get_type(process.kind.table, "_PEB"), layer, address),
            None => None,
        }
    }

    /// A text of the parameters that a process was started with.
    pub open spec fn parameter_of(&self, process: Object, layer: usize, name: &str) -> Option<
        Seq<char>,
    > {
        match self.peb(process, layer) {
            Some(peb) => match self.member_target(peb, "ProcessParameters") {
                Some(parameters) => self.member_unicode_of(parameters, name),
                None => None,
            },
            None => None,
        }
    }

    fn parameter(&self, process: Object, layer: usize, name: &str) -> (text: Option<String>)
        ensures
            text::maybe_text(text) == self.parameter_of(process, layer, name),
    {
        match self.peb(process, layer) {
            Some(peb) => match self.member_target(peb, "ProcessParameters") {
                Some(parameters) => self.member_unicode(parameters, name),
                None => None,
            },
            None => None,
        }
    }

    /// The command line of a process, in its own memory.
    pub fn command_line(&self, process: Object, layer: usize) -> (line: Option<String>)
        ensures
            text::maybe_text(line) == self.parameter_of(process, layer, "CommandLine"),
    {
        self.parameter(process, layer, "CommandLine")
    }

    /// The path of the image that a process runs, in its own memory.
    pub fn image_path(&self, process: Object, layer: usize) -> (path: Option<String>)
        ensures
            text::maybe_text(path) == self.parameter_of(process, layer, "ImagePathName"),
    {
        self.parameter(process, layer, "ImagePathName")
    }

    /// The path of the image that a process runs, as the kernel recorded it.
    pub open spec fn audit_name_of(&self, process: Object) -> Option<Seq<char>> {
        match self.member(process, "SeAuditProcessCreationInfo") {
            Some(information) => match self.member_target(information, "ImageFileName") {
                Some(name) => self.member_unicode_of(name, "Name"),
                None => None,
            },
            None => None,
        }
    }

    /// The path of the image that a process runs, as the kernel recorded it.
    pub fn audit_image_file_name(&self, process: Object) -> (name: Option<String>)
        ensures
            text::maybe_text(name) == self.audit_name_of(process),
    {
        match self.member(process, "SeAuditProcessCreationInfo") {
            Some(information) => match self.member_target(information, "ImageFileName") {
                Some(name) => self.member_unicode(name, "Name"),
                None => None,
            },
            None => None,
        }
    }

    pub open spec fn spec_table_named(&self, name: &str) -> Option<usize> {
        match crate::context::named_from(self.tables@, name@, 0) {
            Some(at) => Some(at as usize),
            None => None,
        }
    }

    /// The symbol table of a name.
    #[verifier::when_used_as_spec(spec_table_named)]
    pub fn table_named(&self, name: &str) -> (table: Option<usize>)
        ensures
            table == self.spec_table_named(name),
    {
        crate::context::find_named(&self.tables, name)
    }

    pub open spec fn spec_table_type(&self, table: &str, name: &str) -> Option<TypeId> {
        match self.table_named(table) {
            Some(table) => self.get_type(table, name),
            None => None,
        }
    }

    /// A type by the name of its table and its own.
    #[verifier::when_used_as_spec(spec_table_type)]
    pub fn table_type(&self, table: &str, name: &str) -> (kind: Option<TypeId>)
        ensures
            kind == self.spec_table_type(table, name),
    {
        match self.table_named(table) {
            Some(table) => self.get_type(table, name),
            None => None,
        }
    }

    /// Where the 32 bit environment block of a process stands, from a place of
    /// the list on.
    pub open spec fn small_peb_from(
        spaces: Seq<AddressSpace>,
        process: u64,
        layer: usize,
        from: int,
    ) -> Option<u64>
        decreases spaces.len() - from,
    {
        if from < 0 || from >= spaces.len() {
            None
        } else if spaces[from].process == process && spaces[from].layer == layer {
            spaces[from].peb32
        } else {
            Self::small_peb_from(spaces, process, layer, from + 1)
        }
    }

    fn small_peb_address(&self, process: Object, layer: usize) -> (address: Option<u64>)
        ensures
            address == Self::small_peb_from(self.windows.spaces@, process.offset, layer, 0),
    {
        let spaces = &self.windows.spaces;
        let mut i: usize = 0;
        while i < spaces.len()
            invariant
                *spaces == self.windows.spaces,
                i <= spaces@.len(),
                Self::small_peb_from(spaces@, process.offset, layer, 0) == Self::small_peb_from(
                    spaces@,
                    process.offset,
                    layer,
                    i as int,
                ),
            decreases spaces@.len() - i,
        {
            if spaces[i].process == process.offset && spaces[i].layer == layer {
                return spaces[i].peb32;
            }
            i = i + 1;
        }
        None
    }

    pub open spec fn spec_peb32(&self, process: Object, layer: usize) -> Option<Object> {
        match Self::small_peb_from(self.windows.spaces@, process.offset, layer, 0) {
            Some(address) => self.object(self.table_type(WOW64_TABLE, "_PEB32"), layer, address),
            None => None,
        }
    }

    /// The 32 bit environment block of a process that has one.
    #[verifier::when_used_as_spec(spec_peb32)]
    pub fn peb32(&self, process: Object, layer: usize) -> (peb: Option<Object>)
        ensures
            peb == self.spec_peb32(process, layer),
    {
        match self.small_peb_address(process, layer) {
            Some(address) => self.object(self.table_type(WOW64_TABLE, "_PEB32"), layer, address),
            None => None,
        }
    }

    /// The rebuilt image at a place, from a place of the list on.
    pub open spec fn image_from(
        images: Seq<RebuiltImage>,
        layer: usize,
        base: u64,
        from: int,
    ) -> Option<Seq<u8>>
        decreases images.len() - from,
    {
        if from < 0 || from >= images.len() {
            None
        } else if images[from].layer == layer && images[from].base == base {
            Some(images[from].data@)
        } else {
            Self::image_from(images, layer, base, from + 1)
        }
    }

    /// The executable image that stands at a place, where it can be rebuilt.
    pub open spec fn image_at(&self, layer: usize, base: u64) -> Option<Seq<u8>> {
        Self::image_from(self.windows.images@, layer, base, 0)
    }

    /// The executable image that stands at a place, where it can be rebuilt.
    pub fn reconstruct(&self, layer: usize, base: u64) -> (data: Option<Vec<u8>>)
        ensures
            match data {
                Some(data) => self.image_at(layer, base) == Some(data@),
                None => self.image_at(layer, base) is None,
            },
    {
        let images = &self.windows.images;
        let mut i: usize = 0;
        while i < images.len()
            invariant
                *images == self.windows.images,
                i <= images@.len(),
                self.image_at(layer, base) == Self::image_from(images@, layer, base, i as int),
            decreases images@.len() - i,
        {
            if images[i].layer == layer && images[i].base == base {
                return Some(crate::context::copy_bytes(&images[i].data));
            }
            i = i + 1;
        }
        None
    }

    /// What is known of the image at a place, from a place of the list on.
    pub open spec fn pe_from(images: Seq<PeImage>, layer: usize, base: u64, from: int) -> Option<
        PeImage,
    >
        decreases images.len() - from,
    {
        if from < 0 || from >= images.len() {
            None
        } else if images[from].layer == layer && images[from].base == base {
            Some(images[from])
        } else {
            Self::pe_from(images, layer, base, from + 1)
        }
    }

    /// What the headers of the image at a place say, where they can be read.
    pub open spec fn pe_of(&self, layer: usize, base: u64) -> Option<PeImage> {
        Self::pe_from(self.windows.pe_images@, layer, base, 0)
    }

    /// What the headers of the image at a place say, where they can be read.
    pub fn pe_image(&self, layer: usize, base: u64) -> (found: Option<&PeImage>)
        ensures
            match found {
                Some(image) => self.pe_of(layer, base) == Some(*image),
                None => self.pe_of(layer, base) is None,
            },
    {
        let images = &self.windows.pe_images;
        let mut i: usize = 0;
        while i < images.len()
            invariant
                *images == self.windows.pe_images,
                i <= images@.len(),
                self.pe_of(layer, base) == Self::pe_from(images@, layer, base, i as int),
            decreases images@.len() - i,
        {
            if images[i].layer == layer && images[i].base == base {
                return Some(&images[i]);
            }
            i = i + 1;
        }
        None
    }

    /// The exports that so many bytes at a place name, from an entry on.
    pub open spec fn read_from(
        list: Seq<ReadExports>,
        layer: usize,
        base: u64,
        length: usize,
        from: int,
    ) -> Option<Seq<Export>>
        decreases list.len() - from,
    {
        if from < 0 || from >= list.len() {
            None
        } else if list[from].layer == layer && list[from].base == base && list[from].length
            == length {
            Some(list[from].exports@)
        } else {
            Self::read_from(list, layer, base, length, from + 1)
        }
    }

    /// The exports that so many bytes at a place name, where they can be read.
    pub open spec fn exports_in(&self, layer: usize, base: u64, length: usize) -> Option<
        Seq<Export>,
    > {
        Self::read_from(self.windows.read_exports@, layer, base, length, 0)
    }

    /// The exports that so many bytes at a place name, where they can be read.
    pub fn exports(&self, layer: usize, base: u64, length: usize) -> (found: Option<&Vec<Export>>)
        ensures
            match found {
                Some(exports) => self.exports_in(layer, base, length) == Some(exports@),
                None => self.exports_in(layer, base, length) is None,
            },
    {
        let list = &self.windows.read_exports;
        let mut i: usize = 0;
        while i < list.len()
            invariant
                *list == self.windows.read_exports,
                i <= list@.len(),
                self.exports_in(layer, base, length) == Self::read_from(
                    list@,
                    layer,
                    base,
                    length,
                    i as int,
                ),
            decreases list@.len() - i,
        {
            if list[i].layer == layer && list[i].base == base && list[i].length == length {
                return Some(&list[i].exports);
            }
            i = i + 1;
        }
        None
    }

    pub open spec fn spec_pointer_size(&self, module: &Module) -> u64 {
        if module.table < self.tables@.len() {
            self.tables@[module.table as int].pointer_size
        } else {
            8
        }
    }

    /// How many bytes a pointer of a module has.
    #[verifier::when_used_as_spec(spec_pointer_size)]
    pub fn pointer_size(&self, module: &Module) -> (size: u64)
        ensures
            size == self.spec_pointer_size(module),
    {
        if module.table < self.tables.len() {
            self.tables[module.table].pointer_size
        } else {
            8
        }
    }
}

/// The ranges of a process's memory, in order.
pub open spec fn vads_of<'a>(vads: Seq<Vad>, process: u64) -> Seq<&'a Vad>
    decreases vads.len(),
{
    if vads.len() == 0 {
        Seq::empty()
    } else {
        let before = vads_of(vads.drop_last(), process);
        if vads.last().process == process {
            before.push(&vads.last())
        } else {
            before
        }
    }
}

/// The ranges of a process's memory.
pub fn walk_vad_tree<'a>(context: &'a Context, process: Object) -> (found: Vec<&'a Vad>)
    ensures
        found@ == vads_of(context.windows.vads@, process.offset),
{
    let vads = &context.windows.vads;
    let mut found: Vec<&'a Vad> = Vec::new();
    for i in 0..vads.len()
        invariant
            found@ == vads_of(vads@.take(i as int), process.offset),
    {
        assert(vads@.take(i + 1).drop_last() =~= vads@.take(i as int));
        let vad = &vads[i];
        if vad.process == process.offset {
            found.push(vad);
        }
    }
    assert(vads@.take(vads@.len() as int) =~= vads@);
    found
}

} // verus!
