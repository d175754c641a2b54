//! Processes as a tree: who descends from whom, and in what order they are shown.

use crate::context::Object;
use crate::lists::is_among;
use crate::plugins::{self, pid_matches};
use vstd::prelude::*;

verus! {

/// One process, reduced to what the tree needs.
#[derive(Clone, Copy, PartialEq, Eq, Structural, Debug)]
pub struct Node {
    pub pid: u64,
    pub ppid: u64,
    pub process: Object,
}

/// Where a process stands in a list, from a place on.
pub open spec fn index_from(nodes: Seq<Node>, pid: u64, from: int) -> Option<int>
    decreases nodes.len() - from,
{
    if from < 0 || from >= nodes.len() {
        None
    } else if nodes[from].pid == pid {
        Some(from)
    } else {
        index_from(nodes, pid, from + 1)
    }
}

/// A place that was found holds what was looked for, and is there if anything is.
pub proof fn lemma_index(nodes: Seq<Node>, pid: u64, from: int)
    requires
        0 <= from,
    ensures
        index_from(nodes, pid, from) is Some ==> from <= index_from(nodes, pid, from)->0
            < nodes.len() && nodes[index_from(nodes, pid, from)->0].pid == pid,
        index_from(nodes, pid, from) is None ==> forall|i: int|
            from <= i < nodes.len() ==> (#[trigger] nodes[i]).pid != pid,
    decreases nodes.len() - from,
{
    if from < nodes.len() && nodes[from].pid != pid {
        lemma_index(nodes, pid, from + 1);
    }
}

/// Where a process stands in a list.
pub fn find_node(nodes: &Vec<Node>, pid: u64) -> (at: Option<usize>)
    ensures
        match at {
            Some(at) => at < nodes@.len() && index_from(nodes@, pid, 0) == Some(at as int),
            None => index_from(nodes@, pid, 0) is None,
        },
{
    let mut i: usize = 0;
    while i < nodes.len()
        invariant
            i <= nodes@.len(),
            index_from(nodes@, pid, 0) == index_from(nodes@, pid, i as int),
        decreases nodes@.len() - i,
    {
        if nodes[i].pid == pid {
            return Some(i);
        }
        i = i + 1;
    }
    None
}

/// Some processes and another one. Processes are held by identifier, so a repeat
/// keeps the place of the first and the details of the last.
pub open spec fn with_node(nodes: Seq<Node>, node: Node) -> Seq<Node> {
    match index_from(nodes, node.pid, 0) {
        Some(at) => nodes.update(at, node),
        None => nodes.push(node),
    }
}

/// Add a process, in the place of one with the same identifier if there is one.
pub fn add_node(nodes: &mut Vec<Node>, node: Node)
    ensures
        final(nodes)@ == with_node(old(nodes)@, node),
{
    match find_node(nodes, node.pid) {
        Some(at) => {
            nodes.set(at, node);
        },
        None => {
            nodes.push(node);
        },
    }
}

/// The identifiers of some processes.
pub open spec fn pids_of(nodes: Seq<Node>) -> Seq<u64> {
    Seq::new(nodes.len(), |i: int| nodes[i].pid)
}

/// That one process is the child of another.
#[derive(Clone, Copy, PartialEq, Eq, Structural, Debug)]
pub struct Link {
    pub parent: u64,
    pub child: u64,
}

/// The children of a process, in the order they were found.
pub open spec fn children_of(links: Seq<Link>, parent: u64) -> Seq<u64>
    decreases links.len(),
{
    if links.len() == 0 {
        Seq::empty()
    } else if links.last().parent == parent {
        children_of(links.drop_last(), parent).push(links.last().child)
    } else {
        children_of(links.drop_last(), parent)
    }
}

/// The children of a process, in the order they were found.
pub fn find_children(links: &Vec<Link>, parent: u64) -> (children: Vec<u64>)
    ensures
        children@ == children_of(links@, parent),
{
    let mut children: Vec<u64> = Vec::new();
    for i in 0..links.len()
        invariant
            children@ == children_of(links@.take(i as int), parent),
    {
        assert(links@.take(i + 1).drop_last() =~= links@.take(i as int));
        if links[i].parent == parent {
            children.push(links[i].child);
        }
    }
    assert(links@.take(links@.len() as int) =~= links@);
    children
}

/// Some links and another one, unless it is among them.
pub open spec fn with_link(links: Seq<Link>, link: Link) -> Seq<Link> {
    if links.contains(link) {
        links
    } else {
        links.push(link)
    }
}

/// Add a link, unless it is there.
pub fn add_link(links: &mut Vec<Link>, link: Link)
    ensures
        final(links)@ == with_link(old(links)@, link),
{
    for i in 0..links.len()
        invariant
            links@ == old(links)@,
            forall|j: int| 0 <= j < i ==> links@[j] != link,
    {
        if links[i] == link {
            return;
        }
    }
    links.push(link);
}

/// Some numbers and another one, unless it is among them.
pub open spec fn with_number(list: Seq<u64>, number: u64) -> Seq<u64> {
    if list.contains(number) {
        list
    } else {
        list.push(number)
    }
}

/// Add a number, unless it is there.
pub fn add_number(list: &mut Vec<u64>, number: u64)
    ensures
        final(list)@ == with_number(old(list)@, number),
{
    if !is_among(list, number) {
        list.push(number);
    }
}

/// How many of the processes there are were not met.
pub open spec fn unmet(listed: Seq<u64>, seen: Seq<u64>) -> nat {
    listed.to_set().difference(seen.to_set()).len()
}

/// Nothing becomes unmet again.
pub proof fn lemma_unmet_shrinks(listed: Seq<u64>, before: Seq<u64>, after: Seq<u64>)
    requires
        forall|x: u64| #[trigger] before.contains(x) ==> after.contains(x),
    ensures
        unmet(listed, after) <= unmet(listed, before),
{
    vstd::seq_lib::seq_to_set_is_finite(listed);
    let more = listed.to_set().difference(before.to_set());
    let fewer = listed.to_set().difference(after.to_set());
    assert(fewer.subset_of(more)) by {
        assert forall|x: u64| fewer.contains(x) implies more.contains(x) by {
            if before.contains(x) {
                assert(after.contains(x));
            }
        }
    }
    vstd::set_lib::lemma_len_subset(fewer, more);
}

/// Meeting one of them leaves fewer.
pub proof fn lemma_unmet_drops(listed: Seq<u64>, before: Seq<u64>, pid: u64)
    requires
        listed.contains(pid),
        !before.contains(pid),
    ensures
        unmet(listed, before.push(pid)) < unmet(listed, before),
{
    vstd::seq_lib::seq_to_set_is_finite(listed);
    let more = listed.to_set().difference(before.to_set());
    let fewer = listed.to_set().difference(before.push(pid).to_set());
    assert(before.push(pid)[before.len() as int] == pid);
    assert(fewer =~= more.remove(pid)) by {
        assert forall|x: u64| before.push(pid).contains(x) <==> before.contains(x) || x
            == pid by {
            if before.contains(x) {
                let j = choose|j: int| 0 <= j < before.len() && before[j] == x;
                assert(before.push(pid)[j] == x);
            }
        }
    }
    assert(more.contains(pid));
}

/// The order in which the set of a process's children hands them over. A set keeps
/// an order of its own, which is neither that of discovery nor that of the numbers.
#[derive(Debug)]
pub struct Siblings {
    pub parent: u64,
    pub order: Vec<u64>,
}

/// The order in which the set of a process's children hands them over.
#[verifier::ext_equal]
pub struct SiblingsView {
    pub parent: u64,
    pub order: Seq<u64>,
}

impl View for Siblings {
    type V = SiblingsView;

    open spec fn view(&self) -> SiblingsView {
        SiblingsView { parent: self.parent, order: self.order@ }
    }
}

/// What is said of each of some orders.
pub open spec fn sibling_views(list: Seq<Siblings>) -> Seq<SiblingsView> {
    Seq::new(list.len(), |i: int| list[i]@)
}

/// The order that the entries from a place on give the children of a process, or an
/// empty one.
pub open spec fn order_from(siblings: Seq<SiblingsView>, parent: u64, from: int) -> Seq<u64>
    decreases siblings.len() - from,
{
    if from < 0 || from >= siblings.len() {
        Seq::empty()
    } else if siblings[from].parent == parent {
        siblings[from].order
    } else {
        order_from(siblings, parent, from + 1)
    }
}

/// The numbers among the first of an order that were found, each once.
pub open spec fn found_among(order: Seq<u64>, found: Seq<u64>, count: int) -> Seq<u64>
    decreases count,
{
    if count <= 0 {
        Seq::empty()
    } else {
        let before = found_among(order, found, count - 1);
        if found.contains(order[count - 1]) {
            with_number(before, order[count - 1])
        } else {
            before
        }
    }
}

/// Some numbers, and the first of some others that are not among them.
pub open spec fn with_numbers(list: Seq<u64>, numbers: Seq<u64>, count: int) -> Seq<u64>
    decreases count,
{
    if count <= 0 {
        list
    } else {
        with_number(with_numbers(list, numbers, count - 1), numbers[count - 1])
    }
}

/// What was found, each once, in a given order; what the order does not name stands
/// behind the rest.
pub open spec fn arranged(order: Seq<u64>, found: Seq<u64>) -> Seq<u64> {
    with_numbers(found_among(order, found, order.len() as int), found, found.len() as int)
}

proof fn lemma_with_number(list: Seq<u64>, number: u64)
    ensures
        forall|x: u64| #[trigger]
            with_number(list, number).contains(x) <==> list.contains(x) || x == number,
        list.no_duplicates() ==> with_number(list, number).no_duplicates(),
{
    let after = with_number(list, number);
    if !list.contains(number) {
        assert(after[list.len() as int] == number);
        assert forall|x: u64| #[trigger] after.contains(x) <==> list.contains(x) || x == number by {
            if list.contains(x) {
                let i = choose|i: int| 0 <= i < list.len() && list[i] == x;
                assert(after[i] == x);
            }
        }
    }
}

proof fn lemma_found_among(order: Seq<u64>, found: Seq<u64>, count: int)
    requires
        count <= order.len(),
    ensures
        found_among(order, found, count).no_duplicates(),
        forall|x: u64| #[trigger] found_among(order, found, count).contains(x) ==> found.contains(x),
    decreases count,
{
    if count > 0 {
        lemma_found_among(order, found, count - 1);
        lemma_with_number(found_among(order, found, count - 1), order[count - 1]);
    }
}

proof fn lemma_with_numbers(list: Seq<u64>, numbers: Seq<u64>, count: int)
    requires
        list.no_duplicates(),
        count <= numbers.len(),
    ensures
        with_numbers(list, numbers, count).no_duplicates(),
        forall|x: u64| #[trigger]
            with_numbers(list, numbers, count).contains(x) ==> list.contains(x)
                || numbers.contains(x),
        forall|x: u64| #[trigger]
            list.contains(x) ==> with_numbers(list, numbers, count).contains(x),
        forall|i: int|
            0 <= i < count ==> with_numbers(list, numbers, count).contains(#[trigger] numbers[i]),
    decreases count,
{
    if count > 0 {
        lemma_with_numbers(list, numbers, count - 1);
        lemma_with_number(with_numbers(list, numbers, count - 1), numbers[count - 1]);
    }
}

/// Whatever order they are handed over in, the children are those that were found,
/// each once.
pub proof fn law_children_are_those_found(order: Seq<u64>, found: Seq<u64>)
    ensures
        arranged(order, found).no_duplicates(),
        forall|x: u64| #[trigger] arranged(order, found).contains(x) <==> found.contains(x),
{
    let first = found_among(order, found, order.len() as int);
    lemma_found_among(order, found, order.len() as int);
    lemma_with_numbers(first, found, found.len() as int);
    assert forall|x: u64| #[trigger] arranged(order, found).contains(x) <==> found.contains(x) by {
        if found.contains(x) {
            let i = choose|i: int| 0 <= i < found.len() && found[i] == x;
            assert(arranged(order, found).contains(found[i]));
        }
    }
}

proof fn lemma_all_found(order: Seq<u64>, found: Seq<u64>, count: int)
    requires
        0 <= count <= order.len(),
        order.no_duplicates(),
        forall|x: u64| #[trigger] order.contains(x) ==> found.contains(x),
    ensures
        found_among(order, found, count) == order.take(count),
    decreases count,
{
    if count > 0 {
        lemma_all_found(order, found, count - 1);
        assert(order.contains(order[count - 1]));
        assert(!order.take(count - 1).contains(order[count - 1]));
        assert(order.take(count - 1).push(order[count - 1]) =~= order.take(count));
    } else {
        assert(order.take(0) =~= Seq::<u64>::empty());
    }
}

proof fn lemma_nothing_added(list: Seq<u64>, numbers: Seq<u64>, count: int)
    requires
        count <= numbers.len(),
        forall|x: u64| #[trigger] numbers.contains(x) ==> list.contains(x),
    ensures
        with_numbers(list, numbers, count) == list,
    decreases count,
{
    if count > 0 {
        lemma_nothing_added(list, numbers, count - 1);
        assert(numbers.contains(numbers[count - 1]));
    }
}

/// An order of just the children that were found is the order they are handed over
/// in, so siblings can come in any order at all.
pub proof fn law_siblings_come_in_the_given_order(order: Seq<u64>, found: Seq<u64>)
    requires
        order.no_duplicates(),
        forall|x: u64| #[trigger] order.contains(x) <==> found.contains(x),
    ensures
        arranged(order, found) == order,
{
    lemma_all_found(order, found, order.len() as int);
    assert(order.take(order.len() as int) =~= order);
    assert forall|x: u64| #[trigger] found.contains(x) implies order.contains(x) by {
        assert(order.contains(x) <==> found.contains(x));
    }
    lemma_nothing_added(order, found, found.len() as int);
}

fn find_order<'a>(siblings: &'a Vec<Siblings>, parent: u64) -> (order: Option<&'a Vec<u64>>)
    ensures
        order_from(sibling_views(siblings@), parent, 0) == match order {
            Some(order) => order@,
            None => Seq::empty(),
        },
{
    let mut i: usize = 0;
    while i < siblings.len()
        invariant
            i <= siblings@.len(),
            order_from(sibling_views(siblings@), parent, 0) == order_from(
                sibling_views(siblings@),
                parent,
                i as int,
            ),
        decreases siblings@.len() - i,
    {
        assert(sibling_views(siblings@)[i as int] == siblings@[i as int]@);
        if siblings[i].parent == parent {
            return Some(&siblings[i].order);
        }
        i = i + 1;
    }
    None
}

/// Put what was found in the order that the children of a process are handed over in.
pub fn arrange(siblings: &Vec<Siblings>, parent: u64, found: &Vec<u64>) -> (children: Vec<u64>)
    ensures
        children@ == arranged(order_from(sibling_views(siblings@), parent, 0), found@),
{
    let mut children: Vec<u64> = Vec::new();
    let ghost order = order_from(sibling_views(siblings@), parent, 0);
    if let Some(given) = find_order(siblings, parent) {
        for i in 0..given.len()
            invariant
                order == given@,
                children@ == found_among(order, found@, i as int),
        {
            if is_among(found, given[i]) {
                add_number(&mut children, given[i]);
            }
        }
    }
    let ghost first = children@;
    for i in 0..found.len()
        invariant
            children@ == with_numbers(first, found@, i as int),
    {
        add_number(&mut children, found[i]);
    }
    children
}

/// What the order of a tree is made from.
#[derive(Debug)]
pub struct Forest<'a> {
    /// The processes there are.
    pub listed: Vec<u64>,
    pub links: Vec<Link>,
    /// The orders in which children are handed over.
    pub siblings: &'a Vec<Siblings>,
    /// The processes above one that passes the filter, and those that pass it.
    pub ancestors: Vec<u64>,
    pub filter: Option<Vec<u64>>,
}

/// What a forest says.
#[verifier::ext_equal]
pub struct ForestView {
    pub listed: Seq<u64>,
    pub links: Seq<Link>,
    pub siblings: Seq<SiblingsView>,
    pub ancestors: Seq<u64>,
    pub filter: Option<Seq<u64>>,
}

impl<'a> View for Forest<'a> {
    type V = ForestView;

    open spec fn view(&self) -> ForestView {
        ForestView {
            listed: self.listed@,
            links: self.links@,
            siblings: sibling_views(self.siblings@),
            ancestors: self.ancestors@,
            filter: plugins::filter_view(self.filter),
        }
    }
}

/// How far a walk through the tree is.
#[verifier::ext_equal]
pub struct Walk {
    /// The processes that were met, whether shown or not.
    pub seen: Seq<u64>,
    /// The processes to show, in order.
    pub shown: Seq<u64>,
}

impl ForestView {
    /// Whether a process is shown: it is there, and belongs to the filtered tree
    /// or descends from something inside it.
    pub open spec fn shows(self, pid: u64, descendant: bool) -> bool {
        self.listed.contains(pid) && (self.ancestors.contains(pid) || descendant)
    }

    /// The children of a process, in the order they are handed over.
    pub open spec fn children(self, pid: u64) -> Seq<u64> {
        arranged(order_from(self.siblings, pid, 0), children_of(self.links, pid))
    }

    /// A walk behind a process and everything descended from it, no more than
    /// `most` generations deep. A process already met is one arm of a cycle in the
    /// parentage.
    pub open spec fn visited(self, pid: u64, descendant: bool, before: Walk, most: nat) -> Walk
        decreases most, 0int,
    {
        if most == 0 || before.seen.contains(pid) {
            before
        } else if !self.shows(pid, descendant) {
            Walk { seen: before.seen.push(pid), ..before }
        } else {
            let below = self.children(pid);
            self.visited_all(
                below,
                below.len() as int,
                descendant || plugins::passes(self.filter, pid),
                Walk { seen: before.seen.push(pid), shown: before.shown.push(pid) },
                (most - 1) as nat,
            )
        }
    }

    /// A walk behind the first of some processes.
    pub open spec fn visited_all(
        self,
        list: Seq<u64>,
        count: int,
        descendant: bool,
        before: Walk,
        most: nat,
    ) -> Walk
        decreases most, count,
    {
        if count <= 0 {
            before
        } else {
            self.visited(
                list[count - 1],
                descendant,
                self.visited_all(list, count - 1, descendant, before, most),
                most,
            )
        }
    }

    /// The processes to show, in order, when the tree is grown from some of them.
    pub open spec fn order(self, roots: Seq<u64>, descendant: bool) -> Seq<u64> {
        self.visited_all(
            roots,
            roots.len() as int,
            descendant,
            Walk { seen: Seq::empty(), shown: Seq::empty() },
            self.listed.len() + 1,
        ).shown
    }

    /// Whether what a walk shows was met, and nothing was met or shown twice.
    pub open spec fn is_sound(walk: Walk) -> bool {
        walk.seen.no_duplicates() && walk.shown.no_duplicates() && forall|i: int|
            0 <= i < walk.shown.len() ==> walk.seen.contains(#[trigger] walk.shown[i])
    }

    proof fn lemma_entered(walk: Walk, pid: u64)
        requires
            Self::is_sound(walk),
            !walk.seen.contains(pid),
        ensures
            Self::is_sound(Walk { seen: walk.seen.push(pid), ..walk }),
            Self::is_sound(Walk { seen: walk.seen.push(pid), shown: walk.shown.push(pid) }),
    {
        let seen = walk.seen.push(pid);
        let shown = walk.shown.push(pid);
        assert(seen[walk.seen.len() as int] == pid);
        assert forall|x: u64| walk.seen.contains(x) implies seen.contains(x) by {
            let j = choose|j: int| 0 <= j < walk.seen.len() && walk.seen[j] == x;
            assert(seen[j] == x);
        }
        assert forall|i: int| 0 <= i < shown.len() implies seen.contains(#[trigger] shown[i]) by {
            if i < walk.shown.len() {
                assert(shown[i] == walk.shown[i]);
            }
        }
        assert forall|i: int, j: int| 0 <= i < shown.len() && 0 <= j < shown.len() && i
            != j implies shown[i] != shown[j] by {
            if i == walk.shown.len() {
                assert(walk.seen.contains(walk.shown[j]));
            } else if j == walk.shown.len() {
                assert(walk.seen.contains(walk.shown[i]));
            }
        }
        assert forall|i: int, j: int| 0 <= i < seen.len() && 0 <= j < seen.len() && i
            != j implies seen[i] != seen[j] by {
            if i == walk.seen.len() {
                assert(walk.seen[j] == seen[j]);
            } else if j == walk.seen.len() {
                assert(walk.seen[i] == seen[i]);
            }
        }
    }

    /// A walk forgets nothing that it met, and what it shows it met.
    pub proof fn lemma_visited(self, pid: u64, descendant: bool, before: Walk, most: nat)
        requires
            Self::is_sound(before),
        ensures
            Self::is_sound(self.visited(pid, descendant, before, most)),
            forall|x: u64| #[trigger]
                before.seen.contains(x) ==> self.visited(
                    pid,
                    descendant,
                    before,
                    most,
                ).seen.contains(x),
        decreases most, 0int,
    {
        if most > 0 && !before.seen.contains(pid) {
            Self::lemma_entered(before, pid);
            let entered = before.seen.push(pid);
            assert forall|x: u64| before.seen.contains(x) implies entered.contains(x) by {
                let j = choose|j: int| 0 <= j < before.seen.len() && before.seen[j] == x;
                assert(entered[j] == x);
            }
            if self.shows(pid, descendant) {
                let below = self.children(pid);
                self.lemma_visited_all(
                    below,
                    below.len() as int,
                    descendant || plugins::passes(self.filter, pid),
                    Walk { seen: entered, shown: before.shown.push(pid) },
                    (most - 1) as nat,
                );
            }
            let after = self.visited(pid, descendant, before, most);
            assert forall|x: u64| #[trigger] before.seen.contains(x) implies after.seen.contains(
                x,
            ) by {
                assert(entered.contains(x));
            }
        }
    }

    /// A walk forgets nothing that it met, and what it shows it met.
    pub proof fn lemma_visited_all(
        self,
        list: Seq<u64>,
        count: int,
        descendant: bool,
        before: Walk,
        most: nat,
    )
        requires
            Self::is_sound(before),
        ensures
            Self::is_sound(self.visited_all(list, count, descendant, before, most)),
            forall|x: u64| #[trigger]
                before.seen.contains(x) ==> self.visited_all(
                    list,
                    count,
                    descendant,
                    before,
                    most,
                ).seen.contains(x),
        decreases most, count,
    {
        if count > 0 {
            self.lemma_visited_all(list, count - 1, descendant, before, most);
            self.lemma_visited(
                list[count - 1],
                descendant,
                self.visited_all(list, count - 1, descendant, before, most),
                most,
            );
        }
    }

    /// No process is shown twice, whatever cycles the parentage has.
    pub proof fn law_no_process_is_shown_twice(self, roots: Seq<u64>, descendant: bool)
        ensures
            self.order(roots, descendant).no_duplicates(),
    {
        self.lemma_visited_all(
            roots,
            roots.len() as int,
            descendant,
            Walk { seen: Seq::empty(), shown: Seq::empty() },
            self.listed.len() + 1,
        );
    }

    proof fn lemma_deep_enough(self, pid: u64, descendant: bool, before: Walk, most: nat, more: nat)
        requires
            Self::is_sound(before),
            unmet(self.listed, before.seen) < most <= more,
        ensures
            self.visited(pid, descendant, before, most) == self.visited(
                pid,
                descendant,
                before,
                more,
            ),
        decreases most, 0int,
    {
        if !before.seen.contains(pid) && self.shows(pid, descendant) {
            Self::lemma_entered(before, pid);
            lemma_unmet_drops(self.listed, before.seen, pid);
            let below = self.children(pid);
            self.lemma_all_deep_enough(
                below,
                below.len() as int,
                descendant || plugins::passes(self.filter, pid),
                Walk { seen: before.seen.push(pid), shown: before.shown.push(pid) },
                (most - 1) as nat,
                (more - 1) as nat,
            );
        }
    }

    proof fn lemma_all_deep_enough(
        self,
        list: Seq<u64>,
        count: int,
        descendant: bool,
        before: Walk,
        most: nat,
        more: nat,
    )
        requires
            Self::is_sound(before),
            unmet(self.listed, before.seen) < most <= more,
        ensures
            self.visited_all(list, count, descendant, before, most) == self.visited_all(
                list,
                count,
                descendant,
                before,
                more,
            ),
        decreases most, count,
    {
        if count > 0 {
            self.lemma_all_deep_enough(list, count - 1, descendant, before, most, more);
            let between = self.visited_all(list, count - 1, descendant, before, most);
            self.lemma_visited_all(list, count - 1, descendant, before, most);
            lemma_unmet_shrinks(self.listed, before.seen, between.seen);
            self.lemma_deep_enough(list[count - 1], descendant, between, most, more);
        }
    }

    /// The bound on the generations cuts nothing off: no deeper walk shows more.
    pub proof fn law_no_generation_is_cut_off(self, roots: Seq<u64>, descendant: bool, most: nat)
        requires
            self.listed.len() < most,
        ensures
            self.order(roots, descendant) == self.visited_all(
                roots,
                roots.len() as int,
                descendant,
                Walk { seen: Seq::empty(), shown: Seq::empty() },
                most,
            ).shown,
    {
        let start = Walk { seen: Seq::empty(), shown: Seq::empty() };
        vstd::seq_lib::seq_to_set_is_finite(self.listed);
        self.listed.lemma_cardinality_of_set();
        vstd::set_lib::lemma_len_difference(self.listed.to_set(), start.seen.to_set());
        self.lemma_all_deep_enough(
            roots,
            roots.len() as int,
            descendant,
            start,
            self.listed.len() + 1,
            most,
        );
    }
}

impl<'a> Forest<'a> {
    fn visit(
        &self,
        pid: u64,
        descendant: bool,
        seen: &mut Vec<u64>,
        shown: &mut Vec<u64>,
        most: u128,
    )
        ensures
            (Walk { seen: final(seen)@, shown: final(shown)@ }) == self@.visited(
                pid,
                descendant,
                Walk { seen: old(seen)@, shown: old(shown)@ },
                most as nat,
            ),
        decreases most,
    {
        if most == 0 || is_among(seen, pid) {
            return;
        }
        seen.push(pid);
        if !is_among(&self.listed, pid) || !(is_among(&self.ancestors, pid) || descendant) {
            return;
        }
        shown.push(pid);
        let ghost start = Walk { seen: seen@, shown: shown@ };
        let wanted = pid_matches(&self.filter, pid);
        let below = arrange(self.siblings, pid, &find_children(&self.links, pid));
        for i in 0..below.len()
            invariant
                most > 0,
                (Walk { seen: seen@, shown: shown@ }) == self@.visited_all(
                    below@,
                    i as int,
                    descendant || wanted,
                    start,
                    (most - 1) as nat,
                ),
        {
            self.visit(below[i], descendant || wanted, seen, shown, most - 1);
        }
    }

    /// The processes to show, in order, when the tree is grown from each of some
    /// in turn.
    pub fn walk(&self, roots: &Vec<u64>, descendant: bool) -> (shown: Vec<u64>)
        ensures
            shown@ == self@.order(roots@, descendant),
    {
        let mut seen: Vec<u64> = Vec::new();
        let mut shown: Vec<u64> = Vec::new();
        let most: u128 = self.listed.len() as u128 + 1;
        let ghost start = Walk { seen: Seq::empty(), shown: Seq::empty() };
        assert((Walk { seen: seen@, shown: shown@ }) =~= start);
        for i in 0..roots.len()
            invariant
                most == self.listed@.len() + 1,
                start == (Walk { seen: Seq::empty(), shown: Seq::empty() }),
                (Walk { seen: seen@, shown: shown@ }) == self@.visited_all(
                    roots@,
                    i as int,
                    descendant,
                    start,
                    most as nat,
                ),
        {
            self.visit(roots[i], descendant, &mut seen, &mut shown, most);
        }
        shown
    }
}

} // verus!
