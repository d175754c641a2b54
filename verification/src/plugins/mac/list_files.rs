//! List every file the kernel currently has a vnode for.
//!
//! The vnode cache holds an entry per file the system has touched recently, so
//! this recovers paths that no longer appear in any process's open files.

use crate::config::Configuration;
use crate::context::{Context, Module, Object};
use crate::error::{Failure, VolatilityError};
use crate::lists::{self, is_among};
use crate::plugins::{self, OperatingSystem, Plugin, Requirement, RequirementView};
use crate::plugins::mac::kernel_module;
use crate::renderers::{Cell, Column, ColumnType, Row, Table, TreeGrid, Value};
use crate::symbols;
use crate::symbols::mac::{list_mounts, read_note, walk_tailq};
use crate::text::{self, assemble, characters, join, push_text};
use vstd::prelude::*;

verus! {

/// Lists every file the kernel currently has a vnode for.
pub struct ListFiles;

/// A vnode that has been found, along with what it is called and where it sits.
#[derive(Debug)]
pub struct Entry {
    pub address: u64,
    pub name: String,
    pub parent: Option<u64>,
}

/// A vnode that has been found, as a report sees it.
pub ghost struct EntryView {
    pub address: u64,
    pub name: Seq<char>,
    pub parent: Option<u64>,
}

impl View for Entry {
    type V = EntryView;

    open spec fn view(&self) -> EntryView {
        EntryView { address: self.address, name: self.name@, parent: self.parent }
    }
}

/// The place of the vnode known by an address, from one on.
pub open spec fn place_from(found: Seq<EntryView>, address: u64, from: int) -> Option<int>
    decreases found.len() - from,
{
    if from < 0 || from >= found.len() {
        None
    } else if found[from].address == address {
        Some(from)
    } else {
        place_from(found, address, from + 1)
    }
}

proof fn lemma_place(found: Seq<EntryView>, address: u64, from: int)
    requires
        0 <= from,
    ensures
        match place_from(found, address, from) {
            Some(at) => from <= at < found.len() && found[at].address == address,
            None => forall|i: int|
                from <= i < found.len() ==> (#[trigger] found[i]).address != address,
        },
    decreases found.len() - from,
{
    if from < found.len() && found[from].address != address {
        lemma_place(found, address, from + 1);
    }
}

/// Whether every vnode is known by an address of its own.
pub open spec fn is_distinct(found: Seq<EntryView>) -> bool {
    forall|i: int, j: int|
        0 <= i < j < found.len() ==> (#[trigger] found[i]).address != (#[trigger] found[j]).address
}

proof fn lemma_count(found: Seq<EntryView>)
    requires
        is_distinct(found),
    ensures
        found.len() <= lists::address_count(),
{
    let addresses = Seq::new(found.len(), |i: int| found[i].address);
    assert(addresses.no_duplicates()) by {
        assert forall|i: int, j: int|
            0 <= i < addresses.len() && 0 <= j < addresses.len() && i != j implies addresses[i]
            != addresses[j] by {
            if i < j {
                assert(found[i].address != found[j].address);
            } else {
                assert(found[j].address != found[i].address);
            }
        }
    }
    lists::lemma_different_addresses(addresses);
}

/// What a vnode is called. The root of a mounted filesystem is named by its whole
/// path, since it is the point the filesystem hangs from.
pub open spec fn name_of(context: &Context, vnode: Object) -> Option<Seq<char>> {
    let flag = match context.member_u64(vnode, "v_flag") {
        Some(flag) => flag,
        None => 0,
    };
    if flag & 1 == 1 {
        Some(symbols::mac::note_or_empty(context.mac.paths@, vnode.offset))
    } else {
        match context.member(vnode, "v_name") {
            Some(name) => context.pointed_text(name, 255),
            None => None,
        }
    }
}

/// What a vnode is called.
pub fn vnode_name(context: &Context, vnode: Object) -> (name: Option<String>)
    ensures
        text::maybe_text(name) == name_of(context, vnode),
{
    let flag: u64 = match context.member_u64(vnode, "v_flag") {
        Some(flag) => flag,
        None => 0,
    };
    if flag & 1 == 1 {
        Some(read_note(&context.mac.paths, vnode.offset))
    } else {
        match context.member(vnode, "v_name") {
            Some(name) => context.pointer_to_string(name, 255),
            None => None,
        }
    }
}

pub open spec fn spec_parent_of(context: &Context, vnode: Object) -> Option<Object> {
    match context.member_target(vnode, "v_parent") {
        Some(parent) => if context.is_readable(parent) {
            Some(parent)
        } else {
            None
        },
        None => None,
    }
}

/// The directory a vnode sits in, where it is in memory. A file at the root of the
/// tree has none, and a parent that cannot be read is treated the same way.
#[verifier::when_used_as_spec(spec_parent_of)]
pub fn parent_of(context: &Context, vnode: Object) -> (parent: Option<Object>)
    ensures
        parent == spec_parent_of(context, vnode),
{
    match context.member_target(vnode, "v_parent") {
        Some(parent) => if context.is_readable(parent) {
            Some(parent)
        } else {
            None
        },
        None => None,
    }
}

pub open spec fn spec_next_of(context: &Context, vnode: Object) -> Option<Object> {
    match context.member(vnode, "v_mntvnodes") {
        Some(link) => context.member_target(link, "tqe_next"),
        None => None,
    }
}

/// The vnode behind a vnode on its filesystem's list.
#[verifier::when_used_as_spec(spec_next_of)]
pub fn next_of(context: &Context, vnode: Object) -> (next: Option<Object>)
    ensures
        next == spec_next_of(context, vnode),
{
    match context.member(vnode, "v_mntvnodes") {
        Some(link) => context.member_target(link, "tqe_next"),
        None => None,
    }
}

/// What is found with one vnode taken in, if it is worth having: all of it is
/// there, it was not found before, and it has a name.
pub open spec fn with_vnode(
    context: &Context,
    found: Seq<EntryView>,
    address: u64,
    vnode: Object,
) -> Option<Seq<EntryView>> {
    if context.is_readable(vnode) && place_from(found, address, 0) is None {
        match name_of(context, vnode) {
            Some(name) => Some(
                found.push(
                    EntryView {
                        address,
                        name,
                        parent: match parent_of(context, vnode) {
                            Some(parent) => Some(parent.offset),
                            None => None,
                        },
                    },
                ),
            ),
            None => None,
        }
    } else {
        None
    }
}

/// What is found once a list of vnodes is followed, each one taken in with its
/// parents, up to the first that is not worth having. Every step takes a vnode in,
/// so `most` steps are enough where it is large.
pub open spec fn walked(
    context: &Context,
    found: Seq<EntryView>,
    address: u64,
    vnode: Object,
    most: nat,
) -> Seq<EntryView>
    decreases most,
{
    if most == 0 {
        found
    } else {
        match with_vnode(context, found, address, vnode) {
            Some(more) => {
                let all = with_parents(
                    context,
                    more,
                    parent_of(context, vnode),
                    (most - 1) as nat,
                );
                match next_of(context, vnode) {
                    Some(next) => walked(
                        context,
                        all,
                        next.offset,
                        next,
                        (most - 1) as nat,
                    ),
                    None => all,
                }
            },
            None => found,
        }
    }
}

/// What is found once the directories above a vnode are taken in. A file is only
/// worth having if they are there too.
pub open spec fn with_parents(
    context: &Context,
    found: Seq<EntryView>,
    parent: Option<Object>,
    most: nat,
) -> Seq<EntryView>
    decreases most,
{
    match parent {
        Some(node) => if most == 0 {
            found
        } else {
            let all = walked(context, found, node.offset, node, (most - 1) as nat);
            if all.len() > found.len() {
                with_parents(context, all, parent_of(context, node), (most - 1) as nat)
            } else {
                all
            }
        },
        None => found,
    }
}

/// More steps than any walk takes.
pub open spec fn enough() -> nat {
    (2 * lists::address_count() + 2) as nat
}

/// What is found once a list of vnodes is followed.
pub open spec fn with_walk(
    context: &Context,
    found: Seq<EntryView>,
    address: u64,
    vnode: Object,
) -> Seq<EntryView> {
    walked(context, found, address, vnode, enough())
}

proof fn lemma_taken(context: &Context, found: Seq<EntryView>, address: u64, vnode: Object)
    requires
        is_distinct(found),
    ensures
        match with_vnode(context, found, address, vnode) {
            Some(more) => is_distinct(more) && more.len() == found.len() + 1 && more.take(
                found.len() as int,
            ) == found,
            None => true,
        },
{
    lemma_place(found, address, 0);
    if let Some(more) = with_vnode(context, found, address, vnode) {
        assert(more.take(found.len() as int) =~= found);
        assert forall|i: int, j: int| 0 <= i < j < more.len() implies (#[trigger] more[i]).address
            != (#[trigger] more[j]).address by {
            assert(more[i] == found[i]);
            if j < found.len() {
                assert(more[j] == found[j]);
            }
        }
    }
}

/// A walk keeps what was found before it, in order, takes no address in twice, and
/// is not cut short: however many steps it is allowed beyond those that it can
/// take, it finds the same.
pub proof fn law_walk(
    context: &Context,
    found: Seq<EntryView>,
    address: u64,
    vnode: Object,
    most: nat,
    more: nat,
)
    requires
        is_distinct(found),
        most >= 2 * (lists::address_count() - found.len()) + 1,
        more >= most,
    ensures
        is_distinct(walked(context, found, address, vnode, most)),
        walked(context, found, address, vnode, most).len() >= found.len(),
        walked(context, found, address, vnode, most).take(found.len() as int) == found,
        walked(context, found, address, vnode, more) == walked(
            context,
            found,
            address,
            vnode,
            most,
        ),
    decreases most,
{
    lemma_count(found);
    lemma_taken(context, found, address, vnode);
    assert(found.take(found.len() as int) =~= found);
    if let Some(first) = with_vnode(context, found, address, vnode) {
        lemma_count(first);
        let parent = parent_of(context, vnode);
        lemma_parents(context, first, parent, (most - 1) as nat, (more - 1) as nat);
        let all = with_parents(context, first, parent, (most - 1) as nat);
        assert(all.take(found.len() as int) =~= first.take(found.len() as int)) by {
            assert(all.take(first.len() as int) == first);
            assert forall|i: int| 0 <= i < found.len() implies all[i] == first[i] by {
                assert(all.take(first.len() as int)[i] == all[i]);
            }
        }
        if let Some(next) = next_of(context, vnode) {
            law_walk(context, all, next.offset, next, (most - 1) as nat, (more - 1) as nat);
            let end = walked(context, all, next.offset, next, (most - 1) as nat);
            assert(end.take(found.len() as int) =~= all.take(found.len() as int)) by {
                assert forall|i: int| 0 <= i < found.len() implies end[i] == all[i] by {
                    assert(end.take(all.len() as int)[i] == end[i]);
                }
            }
        }
    }
}

proof fn lemma_parents(
    context: &Context,
    found: Seq<EntryView>,
    parent: Option<Object>,
    most: nat,
    more: nat,
)
    requires
        is_distinct(found),
        most >= 2 * (lists::address_count() - found.len()) + 2,
        more >= most,
    ensures
        is_distinct(with_parents(context, found, parent, most)),
        with_parents(context, found, parent, most).len() >= found.len(),
        with_parents(context, found, parent, most).take(found.len() as int) == found,
        with_parents(context, found, parent, more) == with_parents(context, found, parent, most),
    decreases most,
{
    lemma_count(found);
    assert(found.take(found.len() as int) =~= found);
    if let Some(node) = parent {
        law_walk(context, found, node.offset, node, (most - 1) as nat, (more - 1) as nat);
        let all = walked(context, found, node.offset, node, (most - 1) as nat);
        if all.len() > found.len() {
            lemma_parents(
                context,
                all,
                parent_of(context, node),
                (most - 1) as nat,
                (more - 1) as nat,
            );
            let end = with_parents(context, all, parent_of(context, node), (most - 1) as nat);
            assert(end.take(found.len() as int) =~= all.take(found.len() as int)) by {
                assert forall|i: int| 0 <= i < found.len() implies end[i] == all[i] by {
                    assert(end.take(all.len() as int)[i] == end[i]);
                }
            }
        }
    }
}

/// The names above an address, the outermost first, or nothing where they lead
/// back to one of them. A looping path says nothing.
pub open spec fn names_above(found: Seq<EntryView>, current: u64, seen: Seq<u64>, left: nat) -> Option<
    Seq<Seq<char>>,
>
    decreases left,
{
    if left == 0 {
        Some(Seq::empty())
    } else {
        match place_from(found, current, 0) {
            Some(at) => {
                let outer = match found[at].parent {
                    Some(parent) => if seen.contains(parent) {
                        None
                    } else {
                        names_above(found, parent, seen.push(parent), (left - 1) as nat)
                    },
                    None => names_above(found, 0, seen, (left - 1) as nat),
                };
                match outer {
                    Some(outer) => Some(outer.push(found[at].name)),
                    None => None,
                }
            },
            None => Some(Seq::empty()),
        }
    }
}

/// A path without the doubled separator that joining a name to a mount root, which
/// is named by its whole path, gives.
pub open spec fn single_separator(path: Seq<char>) -> Seq<char> {
    if path.len() >= 2 && path[0] == '/' && path[1] == '/' {
        path.skip(1)
    } else {
        path
    }
}

/// A file's path: the names of the directories above it, and its own. No directory
/// is named twice but those that stand at the root.
pub open spec fn path_text(found: Seq<EntryView>, name: Seq<char>, parent: Option<u64>) -> Seq<char> {
    let start = match parent {
        Some(parent) => parent,
        None => 0,
    };
    single_separator(
        match names_above(found, start, Seq::empty(), (2 * found.len() + 2) as nat) {
            Some(names) => text::joined(names.push(name), "/"@),
            None => name,
        },
    )
}

/// The vnodes found so far, in the order they were found.
#[derive(Debug)]
pub struct Vnodes {
    pub order: Vec<Entry>,
}

impl View for Vnodes {
    type V = Seq<EntryView>;

    open spec fn view(&self) -> Seq<EntryView> {
        Seq::new(self.order@.len(), |i: int| self.order@[i]@)
    }
}

impl Vnodes {
    pub fn new() -> (found: Vnodes)
        ensures
            found@ == Seq::<EntryView>::empty(),
    {
        let found = Vnodes { order: Vec::new() };
        assert(found@ =~= Seq::<EntryView>::empty());
        found
    }

    fn find(&self, address: u64) -> (at: Option<usize>)
        ensures
            match at {
                Some(at) => place_from(self@, address, 0) == Some(at as int) && at
                    < self.order@.len(),
                None => place_from(self@, address, 0) is None,
            },
    {
        let mut i: usize = 0;
        while i < self.order.len()
            invariant
                i <= self.order@.len(),
                place_from(self@, address, 0) == place_from(self@, address, i as int),
            decreases self.order@.len() - i,
        {
            if self.order[i].address == address {
                return Some(i);
            }
            i = i + 1;
        }
        None
    }

    /// Take one vnode in, reporting whether it was worth having.
    pub fn add(&mut self, context: &Context, address: u64, vnode: Object) -> (taken: bool)
        ensures
            match with_vnode(context, old(self)@, address, vnode) {
                Some(more) => taken && final(self)@ == more,
                None => !taken && final(self)@ == old(self)@,
            },
    {
        if !context.is_readable(vnode) {
            return false;
        }
        if self.find(address).is_some() {
            return false;
        }
        match vnode_name(context, vnode) {
            Some(name) => {
                let parent = match parent_of(context, vnode) {
                    Some(parent) => Some(parent.offset),
                    None => None,
                };
                let ghost before = self@;
                let entry = Entry { address, name, parent };
                let ghost added = entry@;
                self.order.push(entry);
                assert(self@ =~= before.push(added));
                true
            },
            None => false,
        }
    }

    fn follow(&mut self, context: &Context, address: u64, vnode: Object, Ghost(most): Ghost<nat>)
        requires
            is_distinct(old(self)@),
            most >= 2 * (lists::address_count() - old(self)@.len()) + 1,
        ensures
            final(self)@ == walked(context, old(self)@, address, vnode, most),
            is_distinct(final(self)@),
            final(self)@.len() >= old(self)@.len(),
        decreases most,
    {
        proof {
            law_walk(context, self@, address, vnode, most, most);
            lemma_count(self@);
            lemma_taken(context, self@, address, vnode);
        }
        if self.add(context, address, vnode) {
            proof {
                lemma_count(self@);
                lemma_parents(
                    context,
                    self@,
                    parent_of(context, vnode),
                    (most - 1) as nat,
                    (most - 1) as nat,
                );
            }
            self.climb(context, parent_of(context, vnode), Ghost((most - 1) as nat));
            if let Some(next) = next_of(context, vnode) {
                self.follow(context, next.offset, next, Ghost((most - 1) as nat));
            }
        }
    }

    fn climb(&mut self, context: &Context, parent: Option<Object>, Ghost(most): Ghost<nat>)
        requires
            is_distinct(old(self)@),
            most >= 2 * (lists::address_count() - old(self)@.len()) + 2,
        ensures
            final(self)@ == with_parents(context, old(self)@, parent, most),
            is_distinct(final(self)@),
            final(self)@.len() >= old(self)@.len(),
        decreases most,
    {
        proof {
            lemma_count(self@);
        }
        if let Some(node) = parent {
            let before: usize = self.order.len();
            self.follow(context, node.offset, node, Ghost((most - 1) as nat));
            if self.order.len() > before {
                self.climb(context, parent_of(context, node), Ghost((most - 1) as nat));
            }
        }
    }

    /// Follow a list of vnodes, taking in each one and its parents.
    pub fn walk(&mut self, context: &Context, address: u64, vnode: Object)
        requires
            is_distinct(old(self)@),
        ensures
            final(self)@ == with_walk(context, old(self)@, address, vnode),
            is_distinct(final(self)@),
    {
        self.follow(context, address, vnode, Ghost(enough()));
    }

    fn names(&self, current: u64, seen: &mut Vec<u64>, left: u128) -> (names: Option<Vec<String>>)
        ensures
            match names {
                Some(names) => names_above(self@, current, old(seen)@, left as nat) == Some(
                    text::texts(names@),
                ),
                None => names_above(self@, current, old(seen)@, left as nat) is None,
            },
        decreases left,
    {
        if left == 0 {
            let names: Vec<String> = Vec::new();
            assert(text::texts(names@) =~= Seq::<Seq<char>>::empty());
            return Some(names);
        }
        match self.find(current) {
            Some(at) => {
                let outer = match self.order[at].parent {
                    Some(parent) => if is_among(seen, parent) {
                        None
                    } else {
                        seen.push(parent);
                        self.names(parent, seen, left - 1)
                    },
                    None => self.names(0, seen, left - 1),
                };
                match outer {
                    Some(outer) => {
                        let mut names = outer;
                        push_text(&mut names, self.order[at].name.clone());
                        Some(names)
                    },
                    None => None,
                }
            },
            None => {
                let names: Vec<String> = Vec::new();
                assert(text::texts(names@) =~= Seq::<Seq<char>>::empty());
                Some(names)
            },
        }
    }

    /// Build a file's path by naming each directory above it.
    pub fn path(&self, name: &str, parent: Option<u64>) -> (path: String)
        ensures
            path@ == path_text(self@, name@, parent),
    {
        let start: u64 = match parent {
            Some(parent) => parent,
            None => 0,
        };
        let mut seen: Vec<u64> = Vec::new();
        assert(seen@ =~= Seq::<u64>::empty());
        let left: u128 = 2 * self.order.len() as u128 + 2;
        let path = match self.names(start, &mut seen, left) {
            Some(names) => {
                let mut names = names;
                push_text(&mut names, name.to_owned());
                join(&names, "/")
            },
            None => name.to_owned(),
        };
        drop_doubled(&path)
    }
}

fn drop_doubled(path: &str) -> (text: String)
    ensures
        text@ == single_separator(path@),
{
    let list = characters(path);
    if list.len() >= 2 && list[0] == '/' && list[1] == '/' {
        let text = assemble(list.as_slice(), 1, list.len());
        assert(text@ =~= path@.skip(1));
        text
    } else {
        path.to_owned()
    }
}

/// What is found once the first of some vnodes are followed.
pub open spec fn with_vnodes(
    context: &Context,
    found: Seq<EntryView>,
    vnodes: Seq<Object>,
    count: int,
) -> Seq<EntryView>
    decreases count,
{
    if count <= 0 {
        found
    } else {
        with_walk(
            context,
            with_vnodes(context, found, vnodes, count - 1),
            vnodes[count - 1].offset,
            vnodes[count - 1],
        )
    }
}

/// What is found once one of a filesystem's lists of vnodes is followed.
pub open spec fn with_list(
    context: &Context,
    kernel: &Module,
    found: Seq<EntryView>,
    mount: Object,
    list: &'static str,
) -> Seq<EntryView> {
    match context.member(mount, list) {
        Some(head) => match symbols::mac::tail_queue(
            context,
            head,
            context.get_type(kernel.table, "vnode"),
            "v_mntvnodes",
        ) {
            Some(vnodes) => with_vnodes(context, found, vnodes, vnodes.len() as int),
            None => found,
        },
        None => found,
    }
}

fn add_list(
    context: &Context,
    kernel: &Module,
    found: &mut Vnodes,
    mount: Object,
    list: &'static str,
)
    requires
        is_distinct(old(found)@),
    ensures
        final(found)@ == with_list(context, kernel, old(found)@, mount, list),
        is_distinct(final(found)@),
{
    let ghost before = found@;
    if let Some(head) = context.member(mount, list) {
        if let Some(vnodes) = walk_tailq(
            context,
            head,
            context.get_type(kernel.table, "vnode"),
            "v_mntvnodes",
        ) {
            for i in 0..vnodes.len()
                invariant
                    is_distinct(found@),
                    found@ == with_vnodes(context, before, vnodes@, i as int),
            {
                found.walk(context, vnodes[i].offset, vnodes[i]);
            }
        }
    }
}

/// What is found once a vnode that a filesystem names is followed. It is known by
/// where the filesystem points at it rather than by where it is.
pub open spec fn with_named(
    context: &Context,
    found: Seq<EntryView>,
    mount: Object,
    member: &'static str,
) -> Seq<EntryView> {
    match context.member(mount, member) {
        Some(pointer) => match context.dereference(pointer) {
            Some(vnode) => with_walk(context, found, pointer.offset, vnode),
            None => found,
        },
        None => found,
    }
}

fn add_named(context: &Context, found: &mut Vnodes, mount: Object, member: &'static str)
    requires
        is_distinct(old(found)@),
    ensures
        final(found)@ == with_named(context, old(found)@, mount, member),
        is_distinct(final(found)@),
{
    if let Some(pointer) = context.member(mount, member) {
        if let Some(vnode) = context.dereference(pointer) {
            found.walk(context, pointer.offset, vnode);
        }
    }
}

/// What is found once a mounted filesystem is searched. It holds several lists of
/// the vnodes belonging to it, each of which is a place a file can be found, and
/// names three vnodes of its own.
#[verifier::opaque]
pub open spec fn with_mount(
    context: &Context,
    kernel: &Module,
    found: Seq<EntryView>,
    mount: Object,
) -> Seq<EntryView> {
    let first = with_list(context, kernel, found, mount, "mnt_vnodelist");
    let second = with_list(context, kernel, first, mount, "mnt_workerqueue");
    let third = with_list(context, kernel, second, mount, "mnt_newvnodes");
    let fourth = with_named(context, third, mount, "mnt_vnodecovered");
    let fifth = with_named(context, fourth, mount, "mnt_realrootvp");
    with_named(context, fifth, mount, "mnt_devvp")
}

fn add_mount(context: &Context, kernel: &Module, found: &mut Vnodes, mount: Object)
    requires
        is_distinct(old(found)@),
    ensures
        final(found)@ == with_mount(context, kernel, old(found)@, mount),
        is_distinct(final(found)@),
{
    reveal(with_mount);
    add_list(context, kernel, found, mount, "mnt_vnodelist");
    add_list(context, kernel, found, mount, "mnt_workerqueue");
    add_list(context, kernel, found, mount, "mnt_newvnodes");
    add_named(context, found, mount, "mnt_vnodecovered");
    add_named(context, found, mount, "mnt_realrootvp");
    add_named(context, found, mount, "mnt_devvp");
}

/// What is found once the first of some filesystems are searched.
pub open spec fn found_in(context: &Context, kernel: &Module, mounts: Seq<Object>, count: int) -> Seq<
    EntryView,
>
    decreases count,
{
    if count <= 0 {
        Seq::empty()
    } else {
        with_mount(
            context,
            kernel,
            found_in(context, kernel, mounts, count - 1),
            mounts[count - 1],
        )
    }
}

/// The report on the first of the files found.
pub open spec fn reported(headings: Seq<Column>, found: Seq<EntryView>, count: int) -> Table
    decreases count,
{
    if count <= 0 {
        Table::empty(headings)
    } else {
        reported(headings, found, count - 1).push(
            0,
            seq![
                Cell::hex(found[count - 1].address),
                Cell::Text(
                    path_text(found, found[count - 1].name, found[count - 1].parent),
                ),
            ],
        )
    }
}

impl Plugin for ListFiles {
    open spec fn named(&self) -> Seq<char> {
        "mac.list_files.List_Files"@
    }

    open spec fn described(&self) -> Seq<char> {
        "Lists all open file descriptors for all processes."@
    }

    open spec fn needs(&self) -> Seq<RequirementView> {
        seq![RequirementView::kernel()]
    }

    open spec fn headings(&self) -> Seq<Column> {
        seq![
            Column::new("Address", ColumnType::UInt),
            Column::string("File Path"),
        ]
    }

    open spec fn system(&self) -> OperatingSystem {
        OperatingSystem::Mac
    }

    open spec fn report(&self, context: &Context, config: &Configuration) -> Result<Table, Failure> {
        match plugins::mac::kernel_of(context, config) {
            Some(kernel) => match symbols::mac::mounts(context, &kernel) {
                Some(mounts) => {
                    let found = found_in(context, &kernel, mounts, mounts.len() as int);
                    Ok(reported(self.headings(), found, found.len() as int))
                },
                None => Err(Failure::Unavailable),
            },
            None => Err(plugins::mac::no_kernel()),
        }
    }

    fn name(&self) -> (name: &'static str) {
        "mac.list_files.List_Files"
    }

    fn description(&self) -> (description: &'static str) {
        "Lists all open file descriptors for all processes."
    }

    fn requirements(&self) -> (requirements: Vec<Requirement>) {
        vec![Requirement::kernel()]
    }

    fn operating_system(&self) -> (system: OperatingSystem) {
        OperatingSystem::Mac
    }

    fn columns(&self) -> (columns: Vec<Column>) {
        vec![
            Column::new("Address", ColumnType::UInt),
            Column::string("File Path"),
        ]
    }

    fn epilog(&self) -> (epilog: Option<&'static str>) {
        None
    }

    fn timeline(&self, context: &Context, config: &Configuration) -> (timeline: Option<
        plugins::Timeline,
    >) {
        None
    }

    fn needs_kernel(&self) -> (needed: bool) {
        false
    }

    fn run(&self, context: &Context, config: &Configuration) -> (result: Result<TreeGrid, VolatilityError>) {
        let kernel = kernel_module(context, config)?;
        let mounts = match list_mounts(context, kernel) {
            Some(mounts) => mounts,
            None => return Err(VolatilityError::Unavailable),
        };
        let mut found = Vnodes::new();
        for i in 0..mounts.len()
            invariant
                is_distinct(found@),
                found@ == found_in(context, kernel, mounts@, i as int),
        {
            add_mount(context, kernel, &mut found, mounts[i]);
        }
        let mut grid = TreeGrid::new(self.columns());
        let ghost headings = self.headings();
        for i in 0..found.order.len()
            invariant
                grid@ == reported(headings, found@, i as int),
        {
            let entry = &found.order[i];
            assert(entry@ == found@[i as int]);
            let row = Row::new().with(Value::hex(entry.address)).with(
                Value::String(found.path(&entry.name, entry.parent)),
            );
            assert(row@ =~= seq![
                Cell::hex(entry.address),
                Cell::Text(path_text(found@, entry@.name, entry.parent)),
            ]);
            grid.push(0, row);
        }
        Ok(grid)
    }
}

} // verus!
