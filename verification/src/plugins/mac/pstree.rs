//! Show Mac processes as a tree, each child nested under its parent.

use crate::config::Configuration;
use crate::context::{Context, Object};
use crate::error::{Failure, VolatilityError};
use crate::plugins::{self, OperatingSystem, Plugin, Requirement, RequirementView};
use crate::plugins::mac::kernel_module;
use crate::plugins::tree::{self, add_link, add_node, find_node, Forest, Link, Node, SiblingsView};
use crate::renderers::{Cell, Column, Row, Table, TreeGrid, Value};
use crate::symbols;
use crate::symbols::mac::list_processes;
use vstd::prelude::*;

verus! {

/// Shows Mac processes as a tree.
pub struct PsTree;

/// The processes among the first of some that say who they are, in the order the
/// list has them, with a later entry for a process id replacing an earlier one.
pub open spec fn gathered(context: &Context, processes: Seq<Object>, count: int) -> Seq<Node>
    decreases count,
{
    if count <= 0 {
        Seq::empty()
    } else {
        let before = gathered(context, processes, count - 1);
        let process = processes[count - 1];
        match context.mac_pid(process) {
            Some(pid) => tree::with_node(
                before,
                Node { pid, ppid: parent_or_zero(context, process), process },
            ),
            None => before,
        }
    }
}

pub open spec fn spec_parent_or_zero(context: &Context, process: Object) -> u64 {
    match context.mac_ppid(process) {
        Some(parent) => parent,
        None => 0,
    }
}

/// The parent of a process, or zero.
#[verifier::when_used_as_spec(spec_parent_or_zero)]
pub fn parent_or_zero(context: &Context, process: Object) -> (parent: u64)
    ensures
        parent == spec_parent_or_zero(context, process),
{
    match context.mac_ppid(process) {
        Some(parent) => parent,
        None => 0,
    }
}

fn gather(context: &Context, processes: &Vec<Object>) -> (nodes: Vec<Node>)
    ensures
        nodes@ == gathered(context, processes@, processes@.len() as int),
{
    let mut nodes: Vec<Node> = Vec::new();
    for i in 0..processes.len()
        invariant
            nodes@ == gathered(context, processes@, i as int),
    {
        let process = processes[i];
        if let Some(pid) = context.mac_pid(process) {
            add_node(&mut nodes, Node { pid, ppid: parent_or_zero(context, process), process });
        }
    }
    nodes
}

/// The parents above a process, each the parent of the one before, up to one that
/// is missing, absent or the process itself. No process can sit deeper than there
/// are processes, so a chain longer than that has looped back on itself, and
/// `left` is how many more steps are taken.
pub open spec fn climbed(nodes: Seq<Node>, start: u64, here: u64, left: nat) -> Seq<u64>
    decreases left,
{
    if left == 0 {
        Seq::empty()
    } else {
        match tree::index_from(nodes, here, 0) {
            Some(at) => {
                let parent = nodes[at].ppid;
                if nodes[at].process.offset == 0 || parent == 0 || parent == start {
                    Seq::empty()
                } else {
                    seq![parent] + climbed(nodes, start, parent, (left - 1) as nat)
                }
            },
            None => Seq::empty(),
        }
    }
}

/// The parents above a process.
pub open spec fn above(nodes: Seq<Node>, pid: u64) -> Seq<u64> {
    climbed(nodes, pid, pid, nodes.len() + 1)
}

/// The parents above a process, each the parent of the one before.
pub fn climb(nodes: &Vec<Node>, pid: u64) -> (chain: Vec<u64>)
    ensures
        chain@ == above(nodes@, pid),
{
    let mut chain: Vec<u64> = Vec::new();
    let mut here: u64 = pid;
    let mut left: u128 = nodes.len() as u128 + 1;
    let mut going = true;
    let ghost whole = above(nodes@, pid);
    assert(chain@ + whole =~= whole);
    while going
        invariant
            going ==> whole == chain@ + climbed(nodes@, pid, here, left as nat),
            !going ==> whole == chain@,
        decreases
                (if going {
                    left + 1
                } else {
                    0
                }),
    {
        let ghost before = chain@;
        assert(before + Seq::<u64>::empty() =~= chain@);
        if left == 0 {
            going = false;
        } else {
            match find_node(nodes, here) {
                Some(at) => {
                    let parent: u64 = nodes[at].ppid;
                    if nodes[at].process.offset == 0 || parent == 0 || parent == pid {
                        going = false;
                    } else {
                        chain.push(parent);
                        here = parent;
                        left = left - 1;
                        let ghost rest = climbed(nodes@, pid, parent, left as nat);
                        assert(before + (seq![parent] + rest) =~= chain@ + rest);
                    }
                },
                None => {
                    going = false;
                },
            }
        }
    }
    chain
}

/// The links that the first steps of a climb bring to light.
pub open spec fn with_links(links: Seq<Link>, pid: u64, chain: Seq<u64>, count: int) -> Seq<Link>
    decreases count,
{
    if count <= 0 {
        links
    } else {
        tree::with_link(
            with_links(links, pid, chain, count - 1),
            Link {
                parent: chain[count - 1],
                child: if count == 1 {
                    pid
                } else {
                    chain[count - 2]
                },
            },
        )
    }
}

fn add_climb(links: &mut Vec<Link>, pid: u64, chain: &Vec<u64>)
    ensures
        final(links)@ == with_links(old(links)@, pid, chain@, chain@.len() as int),
{
    let ghost start = links@;
    let mut child: u64 = pid;
    for i in 0..chain.len()
        invariant
            child == if i == 0 {
                pid
            } else {
                chain@[i - 1]
            },
            links@ == with_links(start, pid, chain@, i as int),
    {
        add_link(links, Link { parent: chain[i], child });
        child = chain[i];
    }
}

/// The links that the climbs from the first of the processes bring to light.
pub open spec fn kinship(nodes: Seq<Node>, count: int) -> Seq<Link>
    decreases count,
{
    if count <= 0 {
        Seq::empty()
    } else {
        let chain = above(nodes, nodes[count - 1].pid);
        with_links(kinship(nodes, count - 1), nodes[count - 1].pid, chain, chain.len() as int)
    }
}

/// The processes one step below a parent that is not itself listed, which is where
/// the tree starts.
pub open spec fn roots_among(nodes: Seq<Node>, count: int) -> Seq<u64>
    decreases count,
{
    if count <= 0 {
        Seq::empty()
    } else if above(nodes, nodes[count - 1].pid).len() == 1 {
        roots_among(nodes, count - 1).push(nodes[count - 1].pid)
    } else {
        roots_among(nodes, count - 1)
    }
}

/// The identifiers of the processes to show, in order.
pub open spec fn shown_order(nodes: Seq<Node>, siblings: Seq<SiblingsView>) -> Seq<u64> {
    (tree::ForestView {
        listed: tree::pids_of(nodes),
        links: kinship(nodes, nodes.len() as int),
        siblings,
        ancestors: Seq::empty(),
        filter: None,
    }).order(roots_among(nodes, nodes.len() as int), true)
}

/// The row of a process.
pub open spec fn node_row(context: &Context, node: Node) -> Seq<Cell> {
    seq![
        Cell::integer(node.pid as i64),
        Cell::integer_or_unreadable(context.mac_ppid(node.process)),
        Cell::text_or_unreadable(context.mac_name_of(node.process)),
    ]
}

/// A report with one more process. Depth is counted from the level below the root,
/// so a root prints flat.
pub open spec fn with_process(context: &Context, nodes: Seq<Node>, table: Table, pid: u64) -> Table {
    match tree::index_from(nodes, pid, 0) {
        Some(at) => table.push(
            if above(nodes, pid).len() == 0 {
                0
            } else {
                above(nodes, pid).len() - 1
            },
            node_row(context, nodes[at]),
        ),
        None => table,
    }
}

/// Report a process.
pub fn emit(context: &Context, nodes: &Vec<Node>, grid: &mut TreeGrid, pid: u64)
    ensures
        final(grid)@ == with_process(context, nodes@, old(grid)@, pid),
{
    if let Some(at) = find_node(nodes, pid) {
        let node = nodes[at];
        let row = Row::new().with(Value::integer(node.pid as i64)).with(
            Value::integer_or_unreadable(context.mac_ppid(node.process)),
        ).with(Value::text_or_unreadable(&context.mac_name(node.process)));
        assert(row@ == node_row(context, node));
        let level: usize = climb(nodes, pid).len();
        let depth: usize = if level == 0 {
            0
        } else {
            level - 1
        };
        grid.push(depth, row);
    }
}

/// The report on the first of some processes.
pub open spec fn reported(
    context: &Context,
    headings: Seq<Column>,
    nodes: Seq<Node>,
    order: Seq<u64>,
    count: int,
) -> Table
    decreases count,
{
    if count <= 0 {
        Table::empty(headings)
    } else {
        with_process(
            context,
            nodes,
            reported(context, headings, nodes, order, count - 1),
            order[count - 1],
        )
    }
}

impl Plugin for PsTree {
    open spec fn named(&self) -> Seq<char> {
        "mac.pstree.PsTree"@
    }

    open spec fn described(&self) -> Seq<char> {
        "Plugin for listing processes in a tree based on their parent process ID."@
    }

    open spec fn needs(&self) -> Seq<RequirementView> {
        seq![RequirementView::kernel()]
    }

    open spec fn headings(&self) -> Seq<Column> {
        seq![Column::integer("PID"), Column::integer("PPID"), Column::string("COMM")]
    }

    open spec fn system(&self) -> OperatingSystem {
        OperatingSystem::Mac
    }

    open spec fn report(&self, context: &Context, config: &Configuration) -> Result<Table, Failure> {
        match plugins::mac::kernel_of(context, config) {
            Some(_) => match symbols::mac::listed_processes(context) {
                Some(processes) => {
                    let nodes = gathered(context, processes, processes.len() as int);
                    let order = shown_order(nodes, tree::sibling_views(context.siblings@));
                    Ok(reported(context, self.headings(), nodes, order, order.len() as int))
                },
                None => Err(Failure::Unavailable),
            },
            None => Err(plugins::mac::no_kernel()),
        }
    }

    fn name(&self) -> (name: &'static str) {
        "mac.pstree.PsTree"
    }

    fn description(&self) -> (description: &'static str) {
        "Plugin for listing processes in a tree based on their parent process ID."
    }

    fn requirements(&self) -> (requirements: Vec<Requirement>) {
        vec![Requirement::kernel()]
    }

    fn operating_system(&self) -> (system: OperatingSystem) {
        OperatingSystem::Mac
    }

    fn columns(&self) -> (columns: Vec<Column>) {
        vec![Column::integer("PID"), Column::integer("PPID"), Column::string("COMM")]
    }

    fn epilog(&self) -> (epilog: Option<&'static str>) {
        None
    }

    fn timeline(&self, context: &Context, config: &Configuration) -> (timeline: Option<
        plugins::Timeline,
    >) {
        None
    }

    fn needs_kernel(&self) -> (needed: bool) {
        false
    }

    fn run(&self, context: &Context, config: &Configuration) -> (result: Result<TreeGrid, VolatilityError>) {
        let _kernel = kernel_module(context, config)?;
        let processes = match list_processes(context) {
            Some(processes) => processes,
            None => return Err(VolatilityError::Unavailable),
        };
        let nodes = gather(context, processes);
        let mut links: Vec<Link> = Vec::new();
        let mut roots: Vec<u64> = Vec::new();
        let mut listed: Vec<u64> = Vec::new();
        for i in 0..nodes.len()
            invariant
                listed@ =~= tree::pids_of(nodes@).take(i as int),
                links@ == kinship(nodes@, i as int),
                roots@ == roots_among(nodes@, i as int),
        {
            let pid: u64 = nodes[i].pid;
            let chain = climb(&nodes, pid);
            add_climb(&mut links, pid, &chain);
            if chain.len() == 1 {
                roots.push(pid);
            }
            listed.push(pid);
        }
        assert(listed@ =~= tree::pids_of(nodes@));
        let forest = Forest {
            listed,
            links,
            siblings: &context.siblings,
            ancestors: Vec::new(),
            filter: None,
        };
        assert(forest@.ancestors =~= Seq::<u64>::empty());
        let order = forest.walk(&roots, true);
        let mut grid = TreeGrid::new(self.columns());
        let ghost headings = self.headings();
        for i in 0..order.len()
            invariant
                grid@ == reported(context, headings, nodes@, order@, i as int),
        {
            emit(context, &nodes, &mut grid, order[i]);
        }
        Ok(grid)
    }
}

} // verus!
