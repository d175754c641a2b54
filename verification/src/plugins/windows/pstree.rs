//! Show processes as a tree, each child nested under its parent.

use crate::config::{ConfigValue, Configuration};
use crate::context::{Context, Object};
use crate::error::{Failure, VolatilityError};
use crate::lists::is_among;
use crate::plugins::{
    self, pid_filter, pid_matches, ConfigView, KindView, OperatingSystem, Plugin, Requirement,
    RequirementKind, RequirementView,
};
use crate::plugins::tree::{self, add_link, add_node, add_number, find_node, Forest, Link, Node, SiblingsView};
use crate::plugins::windows::{kernel_module, offset_column_name, physical_layer, process_offset};
use crate::plugins::windows::pslist::{session_id_value, time_value};
use crate::renderers::{Cell, Column, ColumnType, Row, Table, TreeGrid, Value};
use crate::symbols;
use crate::symbols::windows::list_processes;
use vstd::prelude::*;

verus! {

/// Shows processes as a tree.
pub struct PsTree;

/// The processes among the first of some that say who they are and who started
/// them.
pub open spec fn gathered(context: &Context, processes: Seq<Object>, count: int) -> Seq<Node>
    decreases count,
{
    if count <= 0 {
        Seq::empty()
    } else {
        let before = gathered(context, processes, count - 1);
        let process = processes[count - 1];
        match (context.pid(process), context.parent_pid(process)) {
            (Some(pid), Some(ppid)) => tree::with_node(before, Node { pid, ppid, process }),
            _ => before,
        }
    }
}

fn gather(context: &Context, processes: &Vec<Object>) -> (nodes: Vec<Node>)
    ensures
        nodes@ == gathered(context, processes@, processes@.len() as int),
{
    let mut nodes: Vec<Node> = Vec::new();
    for i in 0..processes.len()
        invariant
            nodes@ == gathered(context, processes@, i as int),
    {
        if let (Some(pid), Some(ppid)) = (
            context.pid(processes[i]),
            context.parent_pid(processes[i]),
        ) {
            add_node(&mut nodes, Node { pid, ppid, process: processes[i] });
        }
    }
    nodes
}

/// The parent of a process, if the process is listed.
pub open spec fn parent_in(nodes: Seq<Node>, pid: u64) -> Option<u64> {
    match tree::index_from(nodes, pid, 0) {
        Some(at) => Some(nodes[at].ppid),
        None => None,
    }
}

/// The processes above one, each the parent of the one before, up to one that is
/// not listed or to where the parentage comes back to a process that was met. At
/// most `most` of them.
pub open spec fn climbed(nodes: Seq<Node>, pid: u64, seen: Seq<u64>, most: nat) -> Seq<u64>
    decreases most,
{
    match parent_in(nodes, pid) {
        Some(parent) => if most == 0 || seen.contains(parent) {
            Seq::empty()
        } else {
            seq![parent] + climbed(nodes, parent, seen.push(parent), (most - 1) as nat)
        },
        None => Seq::empty(),
    }
}

/// The processes above one.
pub open spec fn above(nodes: Seq<Node>, pid: u64) -> Seq<u64> {
    climbed(nodes, pid, seq![pid], nodes.len())
}

/// The processes above one, each the parent of the one before.
pub fn climb(nodes: &Vec<Node>, pid: u64) -> (chain: Vec<u64>)
    ensures
        chain@ == above(nodes@, pid),
{
    let mut chain: Vec<u64> = Vec::new();
    let mut seen: Vec<u64> = vec![pid];
    assert(seen@ =~= seq![pid]);
    let mut current: u64 = pid;
    let mut left: usize = nodes.len();
    let mut going = true;
    assert(above(nodes@, pid) =~= chain@ + climbed(nodes@, current, seen@, left as nat));
    while going
        invariant
            going ==> above(nodes@, pid) == chain@ + climbed(
                nodes@,
                current,
                seen@,
                left as nat,
            ),
            !going ==> above(nodes@, pid) == chain@,
        decreases
                (if going {
                    left + 1
                } else {
                    0
                }),
    {
        match find_node(nodes, current) {
            Some(at) => {
                let parent: u64 = nodes[at].ppid;
                if left == 0 || is_among(&seen, parent) {
                    going = false;
                    assert(chain@ + Seq::<u64>::empty() =~= chain@);
                } else {
                    let ghost before = chain@;
                    chain.push(parent);
                    seen.push(parent);
                    current = parent;
                    left = left - 1;
                    assert(before + (seq![parent] + climbed(nodes@, parent, seen@, left as nat))
                        =~= chain@ + climbed(nodes@, parent, seen@, left as nat));
                }
            },
            None => {
                going = false;
                assert(chain@ + Seq::<u64>::empty() =~= chain@);
            },
        }
    }
    chain
}

proof fn lemma_climb(nodes: Seq<Node>, pid: u64, seen: Seq<u64>, most: nat, more: nat)
    requires
        tree::unmet(tree::pids_of(nodes), seen) < most <= more,
    ensures
        climbed(nodes, pid, seen, most) == climbed(nodes, pid, seen, more),
    decreases most,
{
    if let Some(parent) = parent_in(nodes, pid) {
        if !seen.contains(parent) {
            tree::lemma_index(nodes, parent, 0);
            if let Some(at) = tree::index_from(nodes, parent, 0) {
                assert(tree::pids_of(nodes)[at] == parent);
                tree::lemma_unmet_drops(tree::pids_of(nodes), seen, parent);
                lemma_climb(
                    nodes,
                    parent,
                    seen.push(parent),
                    (most - 1) as nat,
                    (more - 1) as nat,
                );
            } else {
                assert(climbed(nodes, parent, seen.push(parent), (most - 1) as nat)
                    == Seq::<u64>::empty());
                assert(climbed(nodes, parent, seen.push(parent), (more - 1) as nat)
                    == Seq::<u64>::empty());
            }
        }
    }
}

/// The bound on how far a climb goes cuts nothing off: no longer climb meets more.
pub proof fn law_climb_is_whole(nodes: Seq<Node>, pid: u64, most: nat)
    requires
        nodes.len() <= most,
    ensures
        above(nodes, pid) == climbed(nodes, pid, seq![pid], most),
{
    tree::lemma_index(nodes, pid, 0);
    if let Some(at) = tree::index_from(nodes, pid, 0) {
        let listed = tree::pids_of(nodes);
        assert(listed[at] == pid);
        tree::lemma_unmet_drops(listed, Seq::empty(), pid);
        assert(Seq::<u64>::empty().push(pid) =~= seq![pid]);
        vstd::seq_lib::seq_to_set_is_finite(listed);
        listed.lemma_cardinality_of_set();
        vstd::set_lib::lemma_len_difference(listed.to_set(), Seq::<u64>::empty().to_set());
        lemma_climb(nodes, pid, seq![pid], nodes.len(), most);
    }
}

/// What the climbs from all processes bring to light: how deep each process sits,
/// who each one's children are, and which processes belong to the filtered tree.
#[verifier::ext_equal]
pub struct Kinship {
    pub links: Seq<Link>,
    pub ancestors: Seq<u64>,
    pub levels: Seq<usize>,
}

/// The links that the first steps of a climb bring to light.
pub open spec fn with_links(links: Seq<Link>, pid: u64, chain: Seq<u64>, count: int) -> Seq<Link>
    decreases count,
{
    if count <= 0 {
        links
    } else {
        tree::with_link(
            with_links(links, pid, chain, count - 1),
            Link {
                parent: chain[count - 1],
                child: if count == 1 {
                    pid
                } else {
                    chain[count - 2]
                },
            },
        )
    }
}

/// The processes that the first steps of a climb start from.
pub open spec fn with_ancestors(list: Seq<u64>, pid: u64, chain: Seq<u64>, count: int) -> Seq<u64>
    decreases count,
{
    if count <= 0 {
        list
    } else {
        tree::with_number(
            with_ancestors(list, pid, chain, count - 1),
            if count == 1 {
                pid
            } else {
                chain[count - 2]
            },
        )
    }
}

/// What the climbs from the first of the processes bring to light. A parent
/// learns of a child the first time that child is reached from anywhere, and only
/// a process that survives the filter makes those above it worth showing.
pub open spec fn kinship(nodes: Seq<Node>, filter: Option<Seq<u64>>, count: int) -> Kinship
    decreases count,
{
    if count <= 0 {
        Kinship { links: Seq::empty(), ancestors: Seq::empty(), levels: Seq::empty() }
    } else {
        let before = kinship(nodes, filter, count - 1);
        let pid = nodes[count - 1].pid;
        let chain = above(nodes, pid);
        Kinship {
            links: with_links(before.links, pid, chain, chain.len() as int),
            ancestors: if plugins::passes(filter, pid) {
                with_ancestors(before.ancestors, pid, chain, chain.len() as int)
            } else {
                before.ancestors
            },
            levels: before.levels.push(chain.len() as usize),
        }
    }
}

fn add_climb(
    pid: u64,
    wanted: bool,
    chain: &Vec<u64>,
    links: &mut Vec<Link>,
    ancestors: &mut Vec<u64>,
)
    ensures
        final(links)@ == with_links(old(links)@, pid, chain@, chain@.len() as int),
        final(ancestors)@ == if wanted {
            with_ancestors(old(ancestors)@, pid, chain@, chain@.len() as int)
        } else {
            old(ancestors)@
        },
{
    let ghost first = links@;
    let ghost start = ancestors@;
    let mut child: u64 = pid;
    for i in 0..chain.len()
        invariant
            child == if i == 0 {
                pid
            } else {
                chain@[i - 1]
            },
            links@ == with_links(first, pid, chain@, i as int),
            ancestors@ == if wanted {
                with_ancestors(start, pid, chain@, i as int)
            } else {
                start
            },
    {
        if wanted {
            add_number(ancestors, child);
        }
        add_link(links, Link { parent: chain[i], child });
        child = chain[i];
    }
}

/// The processes at level one among the first of them. Such a process has no
/// parent in the list, so the tree is grown from each of those in turn.
pub open spec fn roots_among(nodes: Seq<Node>, levels: Seq<usize>, count: int) -> Seq<u64>
    decreases count,
{
    if count <= 0 {
        Seq::empty()
    } else if levels[count - 1] == 1 {
        roots_among(nodes, levels, count - 1).push(nodes[count - 1].pid)
    } else {
        roots_among(nodes, levels, count - 1)
    }
}

fn find_roots(nodes: &Vec<Node>, levels: &Vec<usize>) -> (roots: Vec<u64>)
    requires
        levels@.len() == nodes@.len(),
    ensures
        roots@ == roots_among(nodes@, levels@, nodes@.len() as int),
{
    let mut roots: Vec<u64> = Vec::new();
    for i in 0..nodes.len()
        invariant
            levels@.len() == nodes@.len(),
            roots@ == roots_among(nodes@, levels@, i as int),
    {
        if levels[i] == 1 {
            roots.push(nodes[i].pid);
        }
    }
    roots
}

/// The columns, named for the address space the offsets belong to.
pub open spec fn headings_for(physical: bool) -> Seq<Column> {
    seq![
        Column::integer("PID"),
        Column::integer("PPID"),
        Column::string("ImageFileName"),
        Column::new(offset_column_name(physical), ColumnType::UInt),
        Column::integer("Threads"),
        Column::integer("Handles"),
        Column::integer("SessionId"),
        Column::boolean("Wow64"),
        Column::datetime("CreateTime"),
        Column::datetime("ExitTime"),
        Column::string("Audit"),
        Column::string("Cmd"),
        Column::string("Path"),
    ]
}

/// The columns, named for the address space the offsets belong to.
pub fn columns_for(physical: bool) -> (columns: Vec<Column>)
    ensures
        columns@ == headings_for(physical),
{
    vec![
        Column::integer("PID"),
        Column::integer("PPID"),
        Column::string("ImageFileName"),
        Column::new(offset_column_name(physical), ColumnType::UInt),
        Column::integer("Threads"),
        Column::integer("Handles"),
        Column::integer("SessionId"),
        Column::boolean("Wow64"),
        Column::datetime("CreateTime"),
        Column::datetime("ExitTime"),
        Column::string("Audit"),
        Column::string("Cmd"),
        Column::string("Path"),
    ]
}

/// A text of a process's own memory. A process that has exited has none.
pub open spec fn user_cell(
    context: &Context,
    physical: Seq<char>,
    process: Object,
    name: &str,
) -> Cell {
    match context.layer_of(process, physical) {
        Some(layer) => Cell::text_or_unreadable(context.parameter_of(process, layer, name)),
        None => Cell::unreadable(),
    }
}

fn user_values(context: &Context, physical: &str, process: Object) -> (values: (Value, Value))
    ensures
        values.0@ == user_cell(context, physical@, process, "CommandLine"),
        values.1@ == user_cell(context, physical@, process, "ImagePathName"),
{
    // The command line and image path live in user space, so they need the
    // process's own address space.
    match context.address_space(process, physical) {
        Some(layer) => (
            Value::text_or_unreadable(&context.command_line(process, layer)),
            Value::text_or_unreadable(&context.image_path(process, layer)),
        ),
        None => (Value::unreadable(), Value::unreadable()),
    }
}

/// The audit path of a process. An empty one means the field was never populated,
/// which is reported as unavailable rather than as an empty string.
pub open spec fn audit_cell(context: &Context, process: Object) -> Cell {
    match context.audit_name_of(process) {
        Some(name) if name.len() > 0 => Cell::Text(name),
        _ => Cell::not_available(),
    }
}

fn audit_value(context: &Context, process: Object) -> (value: Value)
    ensures
        value@ == audit_cell(context, process),
{
    match context.audit_image_file_name(process) {
        Some(name) => if name.unicode_len() > 0 {
            Value::String(name)
        } else {
            Value::not_available()
        },
        None => Value::not_available(),
    }
}

/// The row of a process.
pub open spec fn node_row(
    context: &Context,
    physical: Seq<char>,
    show_physical: bool,
    node: Node,
) -> Seq<Cell> {
    seq![
        Cell::integer(node.pid as i64),
        Cell::integer(node.ppid as i64),
        Cell::text_or_unreadable(context.image_name_of(node.process)),
        Cell::hex(process_offset(context, node.process, show_physical)),
        Cell::integer_or_unreadable(context.thread_count(node.process)),
        Cell::integer_or_unreadable(context.handle_count(node.process)),
        plugins::windows::pslist::session_cell(context, node.process),
        Cell::Bool(context.is_wow64(node.process)),
        plugins::windows::pslist::time_cell(context.quad(node.process, "CreateTime")),
        plugins::windows::pslist::time_cell(context.quad(node.process, "ExitTime")),
        audit_cell(context, node.process),
        user_cell(context, physical, node.process, "CommandLine"),
        user_cell(context, physical, node.process, "ImagePathName"),
    ]
}

/// The row of a process.
#[verifier::rlimit(50)]
pub fn emit(context: &Context, physical: &str, show_physical: bool, node: Node) -> (row: Row)
    ensures
        row@ == node_row(context, physical@, show_physical, node),
{
    let process = node.process;
    let user = user_values(context, physical, process);
    Row::new().with(Value::integer(node.pid as i64)).with(Value::integer(node.ppid as i64)).with(
        Value::text_or_unreadable(&context.image_file_name(process)),
    ).with(Value::hex(process_offset(context, process, show_physical))).with(
        Value::integer_or_unreadable(context.thread_count(process)),
    ).with(Value::integer_or_unreadable(context.handle_count(process))).with(
        session_id_value(context, process),
    ).with(Value::Bool(context.is_wow64(process))).with(
        time_value(context.quad(process, "CreateTime")),
    ).with(time_value(context.quad(process, "ExitTime"))).with(audit_value(context, process)).with(
        user.0,
    ).with(user.1)
}

/// A report with one more process, one step less deep than its level says.
pub open spec fn with_process(
    context: &Context,
    physical: Seq<char>,
    show_physical: bool,
    nodes: Seq<Node>,
    levels: Seq<usize>,
    table: Table,
    pid: u64,
) -> Table {
    match tree::index_from(nodes, pid, 0) {
        Some(at) => table.push(
            if levels[at] == 0 {
                0
            } else {
                levels[at] - 1
            },
            node_row(context, physical, show_physical, nodes[at]),
        ),
        None => table,
    }
}

/// The report on the first of some processes.
pub open spec fn reported(
    context: &Context,
    physical: Seq<char>,
    show_physical: bool,
    nodes: Seq<Node>,
    levels: Seq<usize>,
    order: Seq<u64>,
    count: int,
) -> Table
    decreases count,
{
    if count <= 0 {
        Table::empty(headings_for(show_physical))
    } else {
        with_process(
            context,
            physical,
            show_physical,
            nodes,
            levels,
            reported(context, physical, show_physical, nodes, levels, order, count - 1),
            order[count - 1],
        )
    }
}

/// The identifiers of the processes to show, in order.
pub open spec fn shown_order(
    nodes: Seq<Node>,
    siblings: Seq<SiblingsView>,
    filter: Option<Seq<u64>>,
) -> Seq<u64> {
    let kin = kinship(nodes, filter, nodes.len() as int);
    (tree::ForestView {
        listed: tree::pids_of(nodes),
        links: kin.links,
        siblings,
        ancestors: kin.ancestors,
        filter,
    }).order(roots_among(nodes, kin.levels, nodes.len() as int), false)
}

impl Plugin for PsTree {
    open spec fn named(&self) -> Seq<char> {
        "windows.pstree.PsTree"@
    }

    open spec fn described(&self) -> Seq<char> {
        "Plugin for listing processes in a tree based on their parent process ID."@
    }

    open spec fn needs(&self) -> Seq<RequirementView> {
        seq![
            RequirementView::kernel(),
            RequirementView::new(
                "physical"@,
                "Display physical offsets instead of virtual"@,
                KindView::Bool,
            )
            .with_default(ConfigView::Bool(false)),
            RequirementView::pid_filter("Process ID to include (with ancestors and descendants, all other processes are excluded)"@),
        ]
    }

    open spec fn headings(&self) -> Seq<Column> {
        headings_for(false)
    }

    open spec fn system(&self) -> OperatingSystem {
        OperatingSystem::Windows
    }

    open spec fn report(&self, context: &Context, config: &Configuration) -> Result<Table, Failure> {
        match plugins::windows::kernel_of(context, config) {
            Some(kernel) => match symbols::windows::listed_processes(context, &kernel) {
                Some(processes) => {
                    let nodes = gathered(context, processes, processes.len() as int);
                    let filter = plugins::pid_list(config.lookup("pid"@));
                    let order = shown_order(nodes, tree::sibling_views(context.siblings@), filter);
                    Ok(
                        reported(
                            context,
                            plugins::windows::physical_name(config),
                            config.flag("physical"@),
                            nodes,
                            kinship(nodes, filter, nodes.len() as int).levels,
                            order,
                            order.len() as int,
                        ),
                    )
                },
                None => Err(Failure::Unavailable),
            },
            None => Err(plugins::windows::no_kernel()),
        }
    }

    fn name(&self) -> (name: &'static str) {
        "windows.pstree.PsTree"
    }

    fn description(&self) -> (description: &'static str) {
        "Plugin for listing processes in a tree based on their parent process ID."
    }

    fn requirements(&self) -> (requirements: Vec<Requirement>) {
        vec![
            Requirement::kernel(),
            Requirement::new(
                "physical",
                "Display physical offsets instead of virtual",
                RequirementKind::Bool,
            )
            .with_default(ConfigValue::Bool(false)),
            Requirement::pid_filter("Process ID to include (with ancestors and descendants, all other processes are excluded)"),
        ]
    }

    fn operating_system(&self) -> (system: OperatingSystem) {
        OperatingSystem::Windows
    }

    fn columns(&self) -> (columns: Vec<Column>) {
        columns_for(false)
    }

    fn epilog(&self) -> (epilog: Option<&'static str>) {
        None
    }

    fn timeline(&self, context: &Context, config: &Configuration) -> (timeline: Option<
        plugins::Timeline,
    >) {
        None
    }

    fn needs_kernel(&self) -> (needed: bool) {
        false
    }

    fn run(&self, context: &Context, config: &Configuration) -> (result: Result<TreeGrid, VolatilityError>) {
        let kernel = kernel_module(context, config)?;
        let physical = physical_layer(config);
        let show_physical = config.is_set("physical");
        let filter = pid_filter(config);
        let ghost wanted = plugins::filter_view(filter);
        let processes = match list_processes(context, kernel) {
            Some(processes) => processes,
            None => return Err(VolatilityError::Unavailable),
        };
        let nodes = gather(context, &processes);
        let mut links: Vec<Link> = Vec::new();
        let mut ancestors: Vec<u64> = Vec::new();
        let mut levels: Vec<usize> = Vec::new();
        let mut listed: Vec<u64> = Vec::new();
        for i in 0..nodes.len()
            invariant
                wanted == plugins::filter_view(filter),
                listed@ =~= tree::pids_of(nodes@).take(i as int),
                levels@.len() == i,
                (Kinship { links: links@, ancestors: ancestors@, levels: levels@ }) == kinship(
                    nodes@,
                    wanted,
                    i as int,
                ),
        {
            let pid: u64 = nodes[i].pid;
            let chain = climb(&nodes, pid);
            add_climb(pid, pid_matches(&filter, pid), &chain, &mut links, &mut ancestors);
            levels.push(chain.len());
            listed.push(pid);
        }
        assert(listed@ =~= tree::pids_of(nodes@));
        let roots = find_roots(&nodes, &levels);
        let forest = Forest { listed, links, siblings: &context.siblings, ancestors, filter };
        let order = forest.walk(&roots, false);
        let mut grid = TreeGrid::new(columns_for(show_physical));
        for i in 0..order.len()
            invariant
                levels@.len() == nodes@.len(),
                grid@ == reported(
                    context,
                    physical@,
                    show_physical,
                    nodes@,
                    levels@,
                    order@,
                    i as int,
                ),
        {
            if let Some(at) = find_node(&nodes, order[i]) {
                let depth: usize = if levels[at] == 0 {
                    0
                } else {
                    levels[at] - 1
                };
                grid.push(depth, emit(context, &physical, show_physical, nodes[at]));
            }
        }
        Ok(grid)
    }
}

} // verus!
