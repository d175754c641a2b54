//! Recover the arguments that programs were started with.

use crate::config::Configuration;
use crate::context::{self, cut_at_zero, Context, Object};
use crate::error::{Failure, VolatilityError};
use crate::plugins::{self, OperatingSystem, Plugin, Requirement, RequirementView};
use crate::plugins::mac::{chosen_processes, kernel_module};
use crate::renderers::{Cell, Column, Row, Table, TreeGrid, Value};
use crate::text::{self, join, push_text, utf8_lossy};
use vstd::prelude::*;

verus! {

/// Recovers the arguments that programs were started with.
pub struct PsAux;

/// A process with this many arguments or more is not believed.
pub const MOST_ARGUMENTS: u64 = 1024;

/// The quotes that stand around bytes in Python. A single quote inside the value
/// switches them to double ones, so that the value itself needs no escaping.
pub open spec fn quote_for(bytes: Seq<u8>) -> u8 {
    if bytes.contains(0x27u8) && !bytes.contains(0x22u8) {
        0x22u8
    } else {
        0x27u8
    }
}

/// How many characters stand for a byte between such quotes.
#[verifier::allow_in_spec]
pub fn escaped_length(byte: u8, quote: u8) -> (length: usize)
    returns
        (if byte == 0x5c || byte == 0x09 || byte == 0x0a || byte == 0x0d || byte == quote {
            2usize
        } else if 0x20 <= byte && byte <= 0x7e {
            1usize
        } else {
            4usize
        }),
{
    if byte == 0x5c || byte == 0x09 || byte == 0x0a || byte == 0x0d || byte == quote {
        2
    } else if 0x20 <= byte && byte <= 0x7e {
        1
    } else {
        4
    }
}

/// How many characters stand for the first of some bytes between quotes.
pub open spec fn escaped_total(bytes: Seq<u8>, quote: u8, count: int) -> nat
    decreases count,
{
    if count <= 0 {
        0
    } else {
        escaped_total(bytes, quote, count - 1) + escaped_length(bytes[count - 1], quote) as nat
    }
}

/// The length of `str(bytes)` in Python, which is the representation: a `b`,
/// the quotes around it, and any escapes inside.
pub open spec fn repr_length(bytes: Seq<u8>) -> nat {
    3 + escaped_total(bytes, quote_for(bytes), bytes.len() as int)
}

proof fn lemma_escaped_total(bytes: Seq<u8>, quote: u8, count: int)
    requires
        0 <= count,
    ensures
        escaped_total(bytes, quote, count) <= 4 * count,
    decreases count,
{
    if count > 0 {
        lemma_escaped_total(bytes, quote, count - 1);
    }
}

/// The representation of some bytes is always longer than the bytes are, so a walk
/// that steps by it never stands still.
pub proof fn law_representation_is_longer(bytes: Seq<u8>)
    ensures
        repr_length(bytes) >= bytes.len() + 3,
{
    lemma_escaped_at_least(bytes, quote_for(bytes), bytes.len() as int);
}

proof fn lemma_escaped_at_least(bytes: Seq<u8>, quote: u8, count: int)
    requires
        0 <= count,
    ensures
        escaped_total(bytes, quote, count) >= count,
    decreases count,
{
    if count > 0 {
        lemma_escaped_at_least(bytes, quote, count - 1);
    }
}

fn has_byte(bytes: &[u8], byte: u8) -> (found: bool)
    ensures
        found == bytes@.contains(byte),
{
    for i in 0..bytes.len()
        invariant
            forall|j: int| 0 <= j < i ==> bytes@[j] != byte,
    {
        if bytes[i] == byte {
            return true;
        }
    }
    false
}

/// The length of `str(bytes)` in Python.
///
/// The walk through the argument block advances by this length rather than by
/// the argument's own.
pub fn python_bytes_repr_length(bytes: &[u8]) -> (length: usize)
    requires
        3 + 4 * bytes@.len() <= usize::MAX,
    ensures
        length == repr_length(bytes@),
{
    let quote: u8 = if has_byte(bytes, 0x27) && !has_byte(bytes, 0x22) {
        0x22
    } else {
        0x27
    };
    let mut length: usize = 3;
    for i in 0..bytes.len()
        invariant
            3 + 4 * bytes@.len() <= usize::MAX,
            length == 3 + escaped_total(bytes@, quote, i as int),
    {
        proof {
            lemma_escaped_total(bytes@, quote, i as int);
        }
        length = length + escaped_length(bytes[i], quote);
    }
    length
}

/// The first place at or behind one, in front of a limit, that does not hold zero.
pub open spec fn behind_padding(context: &Context, layer: usize, position: u64, limit: u64) -> u64
    decreases limit - position,
{
    if position < limit && context.number_at(layer, position, 1) == Some(0u64) {
        behind_padding(context, layer, (position + 1) as u64, limit)
    } else {
        position
    }
}

fn skip_padding(context: &Context, layer: usize, position: u64, limit: u64) -> (place: u64)
    ensures
        place == behind_padding(context, layer, position, limit),
{
    let mut place: u64 = position;
    let mut going = true;
    while going
        invariant
            going ==> behind_padding(context, layer, position, limit) == behind_padding(
                context,
                layer,
                place,
                limit,
            ),
            !going ==> behind_padding(context, layer, position, limit) == place,
        decreases
                (if going {
                    if place < limit {
                        limit - place + 1
                    } else {
                        1
                    }
                } else {
                    0
                }),
    {
        if place < limit {
            match context.number_at(layer, place, 1) {
                Some(byte) => {
                    if byte == 0 {
                        place = place + 1;
                    } else {
                        going = false;
                    }
                },
                None => {
                    going = false;
                },
            }
        } else {
            going = false;
        }
    }
    place
}

/// Some arguments, and those that stand from a place on, `remaining` of them at
/// most. The first argument is preceded by padding, which is stepped over, and one
/// that repeats the first is left out.
pub open spec fn arguments_from(
    context: &Context,
    layer: usize,
    stack: u64,
    position: u64,
    remaining: nat,
    arguments: Seq<Seq<u8>>,
) -> Seq<Seq<u8>>
    decreases remaining,
{
    if remaining == 0 {
        arguments
    } else {
        match context.bytes_of(layer, position, 256, false) {
            Some(chunk) => {
                let argument = context::before_zero(chunk);
                let next = position.wrapping_add((repr_length(argument) + 1) as u64);
                if arguments.len() == 0 {
                    arguments_from(
                        context,
                        layer,
                        stack,
                        behind_padding(context, layer, next, stack),
                        (remaining - 1) as nat,
                        seq![argument],
                    )
                } else {
                    arguments_from(
                        context,
                        layer,
                        stack,
                        next,
                        (remaining - 1) as nat,
                        if argument == arguments[0] {
                            arguments
                        } else {
                            arguments.push(argument)
                        },
                    )
                }
            },
            None => arguments,
        }
    }
}

fn same_bytes(a: &Vec<u8>, b: &Vec<u8>) -> (same: bool)
    ensures
        same == (a@ == b@),
{
    if a.len() != b.len() {
        return false;
    }
    for i in 0..a.len()
        invariant
            a@.len() == b@.len(),
            forall|j: int| 0 <= j < i ==> a@[j] == b@[j],
    {
        if a[i] != b[i] {
            return false;
        }
    }
    assert(a@ =~= b@);
    true
}

proof fn lemma_before_zero(bytes: Seq<u8>)
    ensures
        context::before_zero(bytes).len() <= bytes.len(),
    decreases bytes.len(),
{
    reveal_with_fuel(context::before_zero, 2);
    if bytes.len() > 0 {
        lemma_before_zero(bytes.drop_first());
    }
}

fn read_arguments(context: &Context, layer: usize, stack: u64, start: u64, count: u64) -> (arguments:
    Vec<Vec<u8>>)
    ensures
        context::byte_lists(arguments@) == arguments_from(
            context,
            layer,
            stack,
            start,
            count as nat,
            Seq::empty(),
        ),
{
    let mut arguments: Vec<Vec<u8>> = Vec::new();
    let mut position: u64 = start;
    let mut remaining: u64 = count;
    let mut going = true;
    assert(context::byte_lists(arguments@) =~= Seq::<Seq<u8>>::empty());
    let ghost whole = arguments_from(context, layer, stack, start, count as nat, Seq::empty());
    while going
        invariant
            context::byte_lists(arguments@).len() == arguments@.len(),
            going ==> whole == arguments_from(
                context,
                layer,
                stack,
                position,
                remaining as nat,
                context::byte_lists(arguments@),
            ),
            !going ==> whole == context::byte_lists(arguments@),
        decreases
                (if going {
                    remaining + 1
                } else {
                    0
                }),
    {
        if remaining == 0 {
            going = false;
        } else {
            match context.read(layer, position, 256, false) {
                Some(chunk) => {
                    let argument = cut_at_zero(&chunk);
                    proof {
                        lemma_before_zero(chunk@);
                        lemma_escaped_total(
                            argument@,
                            quote_for(argument@),
                            argument@.len() as int,
                        );
                    }
                    let step: usize = python_bytes_repr_length(argument.as_slice());
                    position = position.wrapping_add(step as u64 + 1);
                    remaining = remaining - 1;
                    let ghost before = context::byte_lists(arguments@);
                    let ghost added = argument@;
                    if arguments.is_empty() {
                        position = skip_padding(context, layer, position, stack);
                        arguments.push(argument);
                        assert(context::byte_lists(arguments@) =~= seq![added]);
                    } else {
                        assert(before[0] == arguments@[0]@);
                        if !same_bytes(&argument, &arguments[0]) {
                            arguments.push(argument);
                            assert(context::byte_lists(arguments@) =~= before.push(added));
                        }
                    }
                },
                None => {
                    going = false;
                },
            }
        }
    }
    arguments
}

/// Arguments as text.
pub open spec fn argument_texts(arguments: Seq<Seq<u8>>) -> Seq<Seq<char>> {
    Seq::new(arguments.len(), |i: int| text::utf8_lossy_text(arguments[i]))
}

fn write_arguments(arguments: &Vec<Vec<u8>>) -> (text: String)
    ensures
        text@ == text::joined(argument_texts(context::byte_lists(arguments@)), " "@),
{
    let mut parts: Vec<String> = Vec::new();
    let ghost all = argument_texts(context::byte_lists(arguments@));
    for i in 0..arguments.len()
        invariant
            all == argument_texts(context::byte_lists(arguments@)),
            text::texts(parts@) =~= all.take(i as int),
    {
        push_text(&mut parts, utf8_lossy(arguments[i].as_slice()));
    }
    assert(text::texts(parts@) =~= all);
    join(&parts, " ")
}

/// Where the arguments of a process stand: the top of its stack, their first byte
/// and how many there are.
pub open spec fn argument_block(context: &Context, process: Object, layer: usize) -> Option<
    (u64, u64, u64),
> {
    match (
        context.member_u64(process, "user_stack"),
        context.member_u64(process, "p_argslen"),
        context.member_u64(process, "p_argc"),
    ) {
        (Some(stack), Some(length), Some(count)) => {
            let start = stack.wrapping_sub(length);
            if !context.is_valid(layer, start, 1) || length == 0 || count == 0 || count
                >= MOST_ARGUMENTS {
                None
            } else {
                Some((stack, start, count))
            }
        },
        _ => None,
    }
}

fn find_block(context: &Context, process: Object, layer: usize) -> (block: Option<(u64, u64, u64)>)
    ensures
        block == argument_block(context, process, layer),
{
    match (
        context.member_u64(process, "user_stack"),
        context.member_u64(process, "p_argslen"),
        context.member_u64(process, "p_argc"),
    ) {
        (Some(stack), Some(length), Some(count)) => {
            let start: u64 = stack.wrapping_sub(length);
            if !context.is_valid(layer, start, 1) || length == 0 || count == 0 || count
                >= MOST_ARGUMENTS {
                None
            } else {
                Some((stack, start, count))
            }
        },
        _ => None,
    }
}

/// The row of a process. One more argument than the count is read, because the
/// first two are usually the same string twice.
pub open spec fn process_row(
    context: &Context,
    process: Object,
    pid: u64,
    layer: usize,
    stack: u64,
    start: u64,
    count: u64,
) -> Seq<Cell> {
    let arguments = arguments_from(
        context,
        layer,
        stack,
        start,
        (count + 1) as nat,
        Seq::empty(),
    );
    seq![
        Cell::integer(pid as i64),
        Cell::text_or_unreadable(context.mac_name_of(process)),
        Cell::integer(count as i64),
        Cell::Text(text::joined(argument_texts(arguments), " "@)),
    ]
}

/// A report with one more process. The arguments live in the process's own address
/// space, so a process whose page tables cannot be read is passed over.
#[verifier::opaque]
pub open spec fn with_process(context: &Context, table: Table, process: Object) -> Table {
    match (context.mac_pid(process), context.process_space(process)) {
        (Some(pid), Some(Some(layer))) => match argument_block(context, process, layer) {
            Some((stack, start, count)) => table.push(
                0,
                process_row(context, process, pid, layer, stack, start, count),
            ),
            None => table,
        },
        _ => table,
    }
}

fn add_process(context: &Context, grid: &mut TreeGrid, process: Object)
    ensures
        final(grid)@ == with_process(context, old(grid)@, process),
{
    reveal(with_process);
    if let (Some(pid), Some(Some(layer))) = (
        context.mac_pid(process),
        context.process_layer(process),
    ) {
        if let Some((stack, start, count)) = find_block(context, process, layer) {
            let arguments = read_arguments(context, layer, stack, start, count + 1);
            let row = Row::new().with(Value::integer(pid as i64)).with(
                Value::text_or_unreadable(&context.mac_name(process)),
            ).with(Value::integer(count as i64)).with(
                Value::String(write_arguments(&arguments)),
            );
            assert(row@ == process_row(context, process, pid, layer, stack, start, count));
            grid.push(0, row);
        }
    }
}

/// The report on the first of some processes.
pub open spec fn reported(
    context: &Context,
    headings: Seq<Column>,
    processes: Seq<Object>,
    count: int,
) -> Table
    decreases count,
{
    if count <= 0 {
        Table::empty(headings)
    } else {
        with_process(
            context,
            reported(context, headings, processes, count - 1),
            processes[count - 1],
        )
    }
}

impl Plugin for PsAux {
    open spec fn named(&self) -> Seq<char> {
        "mac.psaux.Psaux"@
    }

    open spec fn described(&self) -> Seq<char> {
        "Recovers program command line arguments."@
    }

    open spec fn needs(&self) -> Seq<RequirementView> {
        seq![RequirementView::kernel(), RequirementView::pid_filter("Filter on specific process IDs"@)]
    }

    open spec fn headings(&self) -> Seq<Column> {
        seq![
            Column::integer("PID"),
            Column::string("Process"),
            Column::integer("Argc"),
            Column::string("Arguments"),
        ]
    }

    open spec fn system(&self) -> OperatingSystem {
        OperatingSystem::Mac
    }

    open spec fn report(&self, context: &Context, config: &Configuration) -> Result<Table, Failure> {
        match plugins::mac::kernel_of(context, config) {
            Some(_) => match plugins::mac::chosen(context, config) {
                Some(processes) => Ok(
                    reported(context, self.headings(), processes, processes.len() as int),
                ),
                None => Err(Failure::Unavailable),
            },
            None => Err(plugins::mac::no_kernel()),
        }
    }

    fn name(&self) -> (name: &'static str) {
        "mac.psaux.Psaux"
    }

    fn description(&self) -> (description: &'static str) {
        "Recovers program command line arguments."
    }

    fn requirements(&self) -> (requirements: Vec<Requirement>) {
        vec![Requirement::kernel(), Requirement::pid_filter("Filter on specific process IDs")]
    }

    fn operating_system(&self) -> (system: OperatingSystem) {
        OperatingSystem::Mac
    }

    fn columns(&self) -> (columns: Vec<Column>) {
        vec![
            Column::integer("PID"),
            Column::string("Process"),
            Column::integer("Argc"),
            Column::string("Arguments"),
        ]
    }

    fn epilog(&self) -> (epilog: Option<&'static str>) {
        None
    }

    fn timeline(&self, context: &Context, config: &Configuration) -> (timeline: Option<
        plugins::Timeline,
    >) {
        None
    }

    fn needs_kernel(&self) -> (needed: bool) {
        false
    }

    fn run(&self, context: &Context, config: &Configuration) -> (result: Result<TreeGrid, VolatilityError>) {
        let _kernel = kernel_module(context, config)?;
        let processes = chosen_processes(context, config)?;
        let mut grid = TreeGrid::new(self.columns());
        let ghost headings = self.headings();
        for i in 0..processes.len()
            invariant
                grid@ == reported(context, headings, processes@, i as int),
        {
            add_process(context, &mut grid, processes[i]);
        }
        Ok(grid)
    }
}

} // verus!
