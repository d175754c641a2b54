//! Processes, queues and extensions of the Mac kernel.

use crate::context::{Context, Module, Object, TypeId};
use crate::lists::{self, follow, hold, Links};
use crate::symbols::windows::{modules_at, CodeModule};
use crate::text::{self, same_text};
use vstd::prelude::*;

verus! {

/// The processes that one of the kernel's lists holds.
#[derive(Debug)]
pub struct ProcessList {
    /// Which list this is.
    pub method: String,
    pub processes: Vec<Object>,
}

/// The list that is walked where no other is asked for.
pub const DEFAULT_METHOD: &'static str = "tasks";

/// The address space of a process whose page tables could be read. A process of
/// the kernel has none of its own.
#[derive(Debug)]
pub struct ProcessSpace {
    /// Where the process object stands.
    pub process: u64,
    pub layer: Option<usize>,
}

/// A file that a process has open.
#[derive(Debug)]
pub struct Descriptor {
    /// Where the process object stands.
    pub process: u64,
    pub file: Object,
    pub path: Option<String>,
    pub number: u64,
}

/// A range of a process's memory.
#[derive(Debug)]
pub struct MapEntry {
    pub start: Option<u64>,
    pub end: Option<u64>,
    pub protection: String,
    /// The path of the file that backs the range, or nothing.
    pub path: String,
    /// The part of the process the range belongs to, or nothing.
    pub special: String,
}

/// The ranges of a process's memory, where they could be read.
#[derive(Debug)]
pub struct ProcessMap {
    /// Where the process object stands.
    pub process: u64,
    pub entries: Vec<MapEntry>,
}

/// What is said of a place in memory.
#[derive(Debug)]
pub struct Note {
    pub at: u64,
    pub text: String,
}

/// The code that addresses are attributed to.
#[derive(Debug)]
pub struct Resolver {
    /// Where the code stands in memory.
    pub shifted: Vec<CodeModule>,
    /// Where the code would stand had the kernel not been moved.
    pub unshifted: Vec<CodeModule>,
}

/// What is known of a Mac image besides its bytes.
#[derive(Debug)]
pub struct Mac {
    pub lists: Vec<ProcessList>,
    pub spaces: Vec<ProcessSpace>,
    pub descriptors: Vec<Descriptor>,
    pub maps: Vec<ProcessMap>,
    pub resolver: Option<Resolver>,
    /// What open files refer to, by where their shared part stands.
    pub descriptor_kinds: Vec<Note>,
    /// Socket addresses as text.
    pub addresses: Vec<Note>,
    /// Link-level addresses as text.
    pub link_addresses: Vec<Note>,
    /// The whole paths of vnodes.
    pub paths: Vec<Note>,
}

/// What is said of a place, from a place of the list on.
pub open spec fn note_from(notes: Seq<Note>, at: u64, from: int) -> Option<Seq<char>>
    decreases notes.len() - from,
{
    if from < 0 || from >= notes.len() {
        None
    } else if notes[from].at == at {
        Some(notes[from].text@)
    } else {
        note_from(notes, at, from + 1)
    }
}

/// What is said of a place.
pub fn find_note(notes: &Vec<Note>, at: u64) -> (text: Option<String>)
    ensures
        text::maybe_text(text) == note_from(notes@, at, 0),
{
    let mut i: usize = 0;
    while i < notes.len()
        invariant
            i <= notes@.len(),
            note_from(notes@, at, 0) == note_from(notes@, at, i as int),
        decreases notes@.len() - i,
    {
        if notes[i].at == at {
            return Some(notes[i].text.clone());
        }
        i = i + 1;
    }
    None
}

/// What is said of a place, or nothing.
pub open spec fn note_or_empty(notes: Seq<Note>, at: u64) -> Seq<char> {
    match note_from(notes, at, 0) {
        Some(text) => text,
        None => Seq::empty(),
    }
}

/// What is said of a place, or nothing.
pub fn read_note(notes: &Vec<Note>, at: u64) -> (text: String)
    ensures
        text@ == note_or_empty(notes@, at),
{
    match find_note(notes, at) {
        Some(text) => text,
        None => String::new(),
    }
}

/// The processes of one of the kernel's lists, from a place on.
pub open spec fn processes_from(lists: Seq<ProcessList>, method: Seq<char>, from: int) -> Option<
    Seq<Object>,
>
    decreases lists.len() - from,
{
    if from < 0 || from >= lists.len() {
        None
    } else if lists[from].method@ == method {
        Some(lists[from].processes@)
    } else {
        processes_from(lists, method, from + 1)
    }
}

/// The processes that one of the kernel's lists holds, if it can be walked.
pub fn list_processes_by<'a>(context: &'a Context, method: &str) -> (processes: Option<
    &'a Vec<Object>,
>)
    ensures
        match processes {
            Some(processes) => processes_from(context.mac.lists@, method@, 0) == Some(
                processes@,
            ),
            None => processes_from(context.mac.lists@, method@, 0) is None,
        },
{
    let lists = &context.mac.lists;
    let mut i: usize = 0;
    while i < lists.len()
        invariant
            lists@ == context.mac.lists@,
            i <= lists@.len(),
            processes_from(lists@, method@, 0) == processes_from(lists@, method@, i as int),
        decreases lists@.len() - i,
    {
        if same_text(&lists[i].method, method) {
            return Some(&lists[i].processes);
        }
        i = i + 1;
    }
    None
}

/// The processes that the kernel lists.
pub open spec fn listed_processes(context: &Context) -> Option<Seq<Object>> {
    processes_from(context.mac.lists@, DEFAULT_METHOD@, 0)
}

/// The processes that the kernel lists.
pub fn list_processes<'a>(context: &'a Context) -> (processes: Option<&'a Vec<Object>>)
    ensures
        match processes {
            Some(processes) => listed_processes(context) == Some(processes@),
            None => listed_processes(context) is None,
        },
{
    list_processes_by(context, DEFAULT_METHOD)
}

/// The address space of a process, from a place of the list on.
pub open spec fn space_from(spaces: Seq<ProcessSpace>, process: u64, from: int) -> Option<
    Option<usize>,
>
    decreases spaces.len() - from,
{
    if from < 0 || from >= spaces.len() {
        None
    } else if spaces[from].process == process {
        Some(spaces[from].layer)
    } else {
        space_from(spaces, process, from + 1)
    }
}

/// The ranges of a process's memory, from a place of the list on.
pub open spec fn map_from(maps: Seq<ProcessMap>, process: u64, from: int) -> Option<Seq<MapEntry>>
    decreases maps.len() - from,
{
    if from < 0 || from >= maps.len() {
        None
    } else if maps[from].process == process {
        Some(maps[from].entries@)
    } else {
        map_from(maps, process, from + 1)
    }
}

/// The files that a process has open, in order.
pub open spec fn descriptors_of<'a>(descriptors: Seq<Descriptor>, process: u64) -> Seq<
    &'a Descriptor,
>
    decreases descriptors.len(),
{
    if descriptors.len() == 0 {
        Seq::empty()
    } else {
        let before = descriptors_of(descriptors.drop_last(), process);
        if descriptors.last().process == process {
            before.push(&descriptors.last())
        } else {
            before
        }
    }
}

impl Context {
    pub open spec fn spec_mac_pid(&self, process: Object) -> Option<u64> {
        self.member_u64(process, "p_pid")
    }

    /// The number of a process.
    #[verifier::when_used_as_spec(spec_mac_pid)]
    pub fn mac_pid(&self, process: Object) -> (pid: Option<u64>)
        ensures
            pid == self.spec_mac_pid(process),
    {
        self.member_u64(process, "p_pid")
    }

    pub open spec fn spec_mac_ppid(&self, process: Object) -> Option<u64> {
        self.member_u64(process, "p_ppid")
    }

    /// The number of a process's parent.
    #[verifier::when_used_as_spec(spec_mac_ppid)]
    pub fn mac_ppid(&self, process: Object) -> (pid: Option<u64>)
        ensures
            pid == self.spec_mac_ppid(process),
    {
        self.member_u64(process, "p_ppid")
    }

    /// The name of a process.
    pub open spec fn mac_name_of(&self, process: Object) -> Option<Seq<char>> {
        match self.member(process, "p_comm") {
            Some(name) => self.string_of(name),
            None => None,
        }
    }

    /// The name of a process.
    pub fn mac_name(&self, process: Object) -> (name: Option<String>)
        ensures
            text::maybe_text(name) == self.mac_name_of(process),
    {
        match self.member(process, "p_comm") {
            Some(name) => self.as_string(name),
            None => None,
        }
    }

    /// The name of a process, or nothing.
    pub open spec fn mac_name_or_empty(&self, process: Object) -> Seq<char> {
        match self.mac_name_of(process) {
            Some(name) => name,
            None => Seq::empty(),
        }
    }

    /// The name of a process, or nothing.
    pub fn mac_name_or_none(&self, process: Object) -> (name: String)
        ensures
            name@ == self.mac_name_or_empty(process),
    {
        match self.mac_name(process) {
            Some(name) => name,
            None => String::new(),
        }
    }

    /// The address space of a process: nothing where its page tables cannot be
    /// read, and none where it has no memory of its own.
    pub open spec fn process_space(&self, process: Object) -> Option<Option<usize>> {
        space_from(self.mac.spaces@, process.offset, 0)
    }

    /// The address space of a process.
    pub fn process_layer(&self, process: Object) -> (layer: Option<Option<usize>>)
        ensures
            layer == self.process_space(process),
    {
        let spaces = &self.mac.spaces;
        let mut i: usize = 0;
        while i < spaces.len()
            invariant
                spaces@ == self.mac.spaces@,
                i <= spaces@.len(),
                space_from(spaces@, process.offset, 0) == space_from(
                    spaces@,
                    process.offset,
                    i as int,
                ),
            decreases spaces@.len() - i,
        {
            if spaces[i].process == process.offset {
                return Some(spaces[i].layer);
            }
            i = i + 1;
        }
        None
    }

    /// The ranges of a process's memory, where they can be read.
    pub open spec fn map_of(&self, process: Object) -> Option<Seq<MapEntry>> {
        map_from(self.mac.maps@, process.offset, 0)
    }

    /// The ranges of a process's memory.
    pub fn vm_map_entries(&self, process: Object) -> (entries: Option<&Vec<MapEntry>>)
        ensures
            match entries {
                Some(entries) => self.map_of(process) == Some(entries@),
                None => self.map_of(process) is None,
            },
    {
        let maps = &self.mac.maps;
        let mut i: usize = 0;
        while i < maps.len()
            invariant
                maps@ == self.mac.maps@,
                i <= maps@.len(),
                map_from(maps@, process.offset, 0) == map_from(
                    maps@,
                    process.offset,
                    i as int,
                ),
            decreases maps@.len() - i,
        {
            if maps[i].process == process.offset {
                return Some(&maps[i].entries);
            }
            i = i + 1;
        }
        None
    }

    /// The files that a process has open.
    pub fn file_descriptors<'a>(&'a self, process: Object) -> (found: Vec<&'a Descriptor>)
        ensures
            found@ == descriptors_of(self.mac.descriptors@, process.offset),
    {
        let list = &self.mac.descriptors;
        let mut found: Vec<&'a Descriptor> = Vec::new();
        for i in 0..list.len()
            invariant
                found@ == descriptors_of(list@.take(i as int), process.offset),
        {
            assert(list@.take(i + 1).drop_last() =~= list@.take(i as int));
            let descriptor = &list[i];
            if descriptor.process == process.offset {
                found.push(descriptor);
            }
        }
        assert(list@.take(list@.len() as int) =~= list@);
        found
    }
}

/// The module and the name that an address is described by: the first of each
/// that is listed.
pub open spec fn description(modules: Seq<CodeModule>, address: u64) -> (Seq<char>, Seq<char>) {
    let owners = crate::symbols::windows::owners_of(modules, address);
    if owners.len() == 0 {
        ("UNKNOWN"@, "N/A"@)
    } else if owners[0].symbols.len() == 0 {
        (owners[0].module, "N/A"@)
    } else {
        (owners[0].module, owners[0].symbols[0])
    }
}

fn describe_in(modules: &Vec<CodeModule>, address: u64) -> (found: (String, String))
    ensures
        (found.0@, found.1@) == description(modules@, address),
{
    let owners = modules_at(modules, address);
    let ghost said = crate::symbols::windows::owner_views(owners@);
    if owners.is_empty() {
        ("UNKNOWN".to_owned(), "N/A".to_owned())
    } else {
        assert(said[0] == owners@[0]@);
        assert(said[0].symbols.len() == owners@[0].symbols@.len());
        if owners[0].symbols.is_empty() {
            (owners[0].module.clone(), "N/A".to_owned())
        } else {
            (owners[0].module.clone(), owners[0].symbols[0].clone())
        }
    }
}

/// What an address of code is described by.
pub open spec fn described(resolver: Option<Resolver>, address: u64) -> (Seq<char>, Seq<char>) {
    match resolver {
        Some(resolver) => description(resolver.shifted@, address),
        None => ("UNKNOWN"@, "N/A"@),
    }
}

/// What an address of code is described by. A handler owned by nothing known is
/// the hooked case.
pub fn describe(resolver: &Option<Resolver>, address: u64) -> (found: (String, String))
    ensures
        (found.0@, found.1@) == described(*resolver, address),
{
    match resolver {
        Some(resolver) => describe_in(&resolver.shifted, address),
        None => ("UNKNOWN".to_owned(), "N/A".to_owned()),
    }
}

/// What an address of code is described by had the kernel not been moved.
pub open spec fn described_unshifted(resolver: Option<Resolver>, address: u64) -> (
    Seq<char>,
    Seq<char>,
) {
    match resolver {
        Some(resolver) => description(resolver.unshifted@, address),
        None => ("UNKNOWN"@, "N/A"@),
    }
}

/// What an address of code is described by had the kernel not been moved.
pub fn describe_unshifted(resolver: &Option<Resolver>, address: u64) -> (found: (String, String))
    ensures
        (found.0@, found.1@) == described_unshifted(*resolver, address),
{
    match resolver {
        Some(resolver) => describe_in(&resolver.unshifted, address),
        None => ("UNKNOWN".to_owned(), "N/A".to_owned()),
    }
}

/// An address, unless it is null.
pub open spec fn unless_null(address: Option<u64>) -> Option<u64> {
    match address {
        Some(address) => if address == 0 {
            None
        } else {
            Some(address)
        },
        None => None,
    }
}

/// An address, unless it is null.
pub fn drop_null(address: Option<u64>) -> (kept: Option<u64>)
    ensures
        kept == unless_null(address),
{
    match address {
        Some(address) => if address == 0 {
            None
        } else {
            Some(address)
        },
        None => None,
    }
}

/// Structures that are linked through the address that one of their members, or a
/// part of it, holds.
pub struct Queue<'a> {
    pub context: &'a Context,
    pub kind: TypeId,
    pub layer: usize,
    pub link: &'static str,
    pub next: &'static str,
}

impl<'a> Links for Queue<'a> {
    open spec fn after(&self, at: u64) -> Option<u64> {
        match self.context.member(
            Object { kind: self.kind, layer: self.layer, native: self.layer, offset: at },
            self.link,
        ) {
            Some(link) => unless_null(self.context.member_pointer(link, self.next)),
            None => None,
        }
    }

    fn next(&self, at: u64) -> (next: Option<u64>) {
        match self.context.member(
            Object { kind: self.kind, layer: self.layer, native: self.layer, offset: at },
            self.link,
        ) {
            Some(link) => drop_null(self.context.member_pointer(link, self.next)),
            None => None,
        }
    }
}

/// The structures of a type that a queue links, from the one its head names to
/// where the queue ends or comes back to one of them.
pub open spec fn queued(
    context: &Context,
    kind: TypeId,
    layer: usize,
    link: &'static str,
    next: &'static str,
    first: Option<u64>,
    head: Option<u64>,
) -> Seq<Object> {
    lists::holders(
        lists::chain(
            Queue { context, kind, layer, link, next },
            unless_null(first),
            match head {
                Some(head) => seq![head],
                None => Seq::empty(),
            },
        ),
        kind,
        0,
        layer,
    )
}

fn walk(
    context: &Context,
    kind: TypeId,
    layer: usize,
    link: &'static str,
    next: &'static str,
    first: Option<u64>,
    head: Option<u64>,
) -> (objects: Vec<Object>)
    ensures
        objects@ == queued(context, kind, layer, link, next, first, head),
{
    let queue = Queue { context, kind, layer, link, next };
    let places = follow(&queue, drop_null(first), head);
    hold(&places, kind, 0, layer)
}

/// The structures that a tail queue links.
pub open spec fn tail_queue(
    context: &Context,
    head: Object,
    kind: Option<TypeId>,
    link: &'static str,
) -> Option<Seq<Object>> {
    match kind {
        Some(kind) => Some(
            queued(
                context,
                kind,
                head.native,
                link,
                "tqe_next",
                context.member_pointer(head, "tqh_first"),
                None,
            ),
        ),
        None => None,
    }
}

/// Walk a tail queue.
pub fn walk_tailq(context: &Context, head: Object, kind: Option<TypeId>, link: &'static str) -> (
    objects: Option<Vec<Object>>)
    ensures
        match objects {
            Some(objects) => tail_queue(context, head, kind, link) == Some(objects@),
            None => tail_queue(context, head, kind, link) is None,
        },
{
    match kind {
        Some(kind) => Some(
            walk(
                context,
                kind,
                head.native,
                link,
                "tqe_next",
                context.member_pointer(head, "tqh_first"),
                None,
            ),
        ),
        None => None,
    }
}

/// The structures that a singly linked list links.
pub open spec fn single_list(
    context: &Context,
    head: Object,
    kind: Option<TypeId>,
    link: &'static str,
) -> Seq<Object> {
    match kind {
        Some(kind) => queued(
            context,
            kind,
            head.native,
            link,
            "sle_next",
            context.member_pointer(head, "slh_first"),
            None,
        ),
        None => Seq::empty(),
    }
}

/// Walk a singly linked list.
pub fn walk_slist(context: &Context, head: Object, kind: Option<TypeId>, link: &'static str) -> (
    objects: Vec<Object>)
    ensures
        objects@ == single_list(context, head, kind, link),
{
    match kind {
        Some(kind) => walk(
            context,
            kind,
            head.native,
            link,
            "sle_next",
            context.member_pointer(head, "slh_first"),
            None,
        ),
        None => Vec::new(),
    }
}

/// The structures that a circular queue links, up to its head.
pub open spec fn circular_queue(
    context: &Context,
    head: Object,
    kind: Option<TypeId>,
    link: &'static str,
) -> Seq<Object> {
    match kind {
        Some(kind) => queued(
            context,
            kind,
            head.native,
            link,
            "next",
            context.member_pointer(head, "next"),
            Some(head.offset),
        ),
        None => Seq::empty(),
    }
}

/// Walk a circular queue.
pub fn walk_queue(context: &Context, head: Object, kind: Option<TypeId>, link: &'static str) -> (
    objects: Vec<Object>)
    ensures
        objects@ == circular_queue(context, head, kind, link),
{
    match kind {
        Some(kind) => walk(
            context,
            kind,
            head.native,
            link,
            "next",
            context.member_pointer(head, "next"),
            Some(head.offset),
        ),
        None => Vec::new(),
    }
}

/// Kernel extensions, each of which names the next.
pub struct Extensions<'a> {
    pub context: &'a Context,
    pub kind: TypeId,
    pub layer: usize,
}

impl<'a> Links for Extensions<'a> {
    open spec fn after(&self, at: u64) -> Option<u64> {
        unless_null(
            self.context.member_pointer(
                Object { kind: self.kind, layer: self.layer, native: self.layer, offset: at },
                "next",
            ),
        )
    }

    fn next(&self, at: u64) -> (next: Option<u64>) {
        drop_null(
            self.context.member_pointer(
                Object { kind: self.kind, layer: self.layer, native: self.layer, offset: at },
                "next",
            ),
        )
    }
}

/// The kernel's extensions, in the order it links them.
pub open spec fn extensions(context: &Context, kernel: &Module) -> Option<Seq<Object>> {
    match (
        context.object_from_symbol(kernel, "kmod"),
        context.get_type(kernel.table, "kmod_info"),
    ) {
        (Some(head), Some(kind)) => Some(
            lists::holders(
                lists::chain(
                    Extensions { context, kind, layer: kernel.layer },
                    unless_null(context.pointer_value(head)),
                    Seq::empty(),
                ),
                kind,
                0,
                kernel.layer,
            ),
        ),
        _ => None,
    }
}

/// The kernel's extensions, in the order it links them.
pub fn list_extensions(context: &Context, kernel: &Module) -> (found: Option<Vec<Object>>)
    ensures
        match found {
            Some(list) => extensions(context, kernel) == Some(list@),
            None => extensions(context, kernel) is None,
        },
{
    match (
        context.object_from_symbol(kernel, "kmod"),
        context.get_type(kernel.table, "kmod_info"),
    ) {
        (Some(head), Some(kind)) => {
            let links = Extensions { context, kind, layer: kernel.layer };
            let places = follow(&links, drop_null(context.pointer_value(head)), None);
            Some(hold(&places, kind, 0, kernel.layer))
        },
        _ => None,
    }
}

/// The file systems that are mounted.
pub open spec fn mounts(context: &Context, kernel: &Module) -> Option<Seq<Object>> {
    match context.object_from_symbol(kernel, "mountlist") {
        Some(head) => tail_queue(
            context,
            head,
            context.get_type(kernel.table, "mount"),
            "mnt_list",
        ),
        None => None,
    }
}

/// The file systems that are mounted.
pub fn list_mounts(context: &Context, kernel: &Module) -> (found: Option<Vec<Object>>)
    ensures
        match found {
            Some(list) => mounts(context, kernel) == Some(list@),
            None => mounts(context, kernel) is None,
        },
{
    match context.object_from_symbol(kernel, "mountlist") {
        Some(head) => walk_tailq(
            context,
            head,
            context.get_type(kernel.table, "mount"),
            "mnt_list",
        ),
        None => None,
    }
}

/// A text that the statistics of a mounted file system hold.
pub open spec fn mount_text(context: &Context, mount: Object, name: &str) -> Option<Seq<char>> {
    match context.member(mount, "mnt_vfsstat") {
        Some(statistics) => match context.member(statistics, name) {
            Some(field) => context.string_of(field),
            None => None,
        },
        None => None,
    }
}

/// A text that the statistics of a mounted file system hold.
pub fn read_mount_text(context: &Context, mount: Object, name: &str) -> (text: Option<String>)
    ensures
        text::maybe_text(text) == mount_text(context, mount, name),
{
    match context.member(mount, "mnt_vfsstat") {
        Some(statistics) => match context.member(statistics, name) {
            Some(field) => context.as_string(field),
            None => None,
        },
        None => None,
    }
}

} // verus!
