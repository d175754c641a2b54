//! Recover the kernel message buffer.

use crate::config::Configuration;
use crate::context::{Context, Module, Object};
use crate::error::{Failure, VolatilityError};
use crate::plugins::{self, OperatingSystem, Plugin, Requirement, RequirementView};
use crate::plugins::mac::kernel_module;
use crate::renderers::{Cell, Column, Row, Table, TreeGrid, Value};
use crate::text::{self, assemble, characters, push_text};
use vstd::prelude::*;

verus! {

/// Recovers the kernel message buffer.
pub struct Dmesg;

/// Whether a character ends a line.
#[verifier::allow_in_spec]
pub fn is_break(c: char) -> (ends: bool)
    returns
        (c == '\n' || c == '\r' || c == '\u{b}' || c == '\u{c}' || c == '\u{1c}' || c == '\u{1d}'
            || c == '\u{1e}' || c == '\u{85}' || c == '\u{2028}' || c == '\u{2029}'),
{
    c == '\n' || c == '\r' || c == '\u{b}' || c == '\u{c}' || c == '\u{1c}' || c == '\u{1d}' || c
        == '\u{1e}' || c == '\u{85}' || c == '\u{2028}' || c == '\u{2029}'
}

/// Where a text goes on behind the break at a place. A carriage return followed by
/// a newline is one break, not two.
pub open spec fn behind_break(text: Seq<char>, at: int) -> int {
    if text[at] == '\r' && at + 1 < text.len() && text[at + 1] == '\n' {
        at + 2
    } else {
        at + 1
    }
}

/// The lines of a text from a place on, the first of which has begun with some
/// characters. A trailing break is dropped.
pub open spec fn lines_from(text: Seq<char>, at: int, line: Seq<char>) -> Seq<Seq<char>>
    decreases text.len() - at,
{
    if at < 0 || at >= text.len() {
        if line.len() == 0 {
            Seq::empty()
        } else {
            seq![line]
        }
    } else if is_break(text[at]) {
        seq![line] + lines_from(text, behind_break(text, at), Seq::empty())
    } else {
        lines_from(text, at + 1, line.push(text[at]))
    }
}

/// The lines of a text.
pub open spec fn lines_of(text: Seq<char>) -> Seq<Seq<char>> {
    lines_from(text, 0, Seq::empty())
}

/// Split text into lines the way Python does, which breaks on more than just the
/// newline character and drops a trailing break.
pub fn split_lines(text: &str) -> (lines: Vec<String>)
    ensures
        text::texts(lines@) == lines_of(text@),
{
    let list = characters(text);
    let mut lines: Vec<String> = Vec::new();
    let mut line = String::new();
    let mut at: usize = 0;
    let total: usize = list.len();
    let ghost whole = lines_of(text@);
    assert(text::texts(lines@) + whole =~= whole);
    while at < total
        invariant
            list@ == text@,
            total == list@.len(),
            at <= total,
            whole == text::texts(lines@) + lines_from(text@, at as int, line@),
        decreases total - at,
    {
        let c = list[at];
        if is_break(c) {
            let ghost before = text::texts(lines@);
            let ghost ended = line@;
            let ghost rest = lines_from(text@, behind_break(text@, at as int), Seq::empty());
            push_text(&mut lines, line);
            assert(before + (seq![ended] + rest) =~= text::texts(lines@) + rest);
            line = String::new();
            assert(line@ =~= Seq::<char>::empty());
            if c == '\r' && at + 1 < total && list[at + 1] == '\n' {
                at = at + 2;
            } else {
                at = at + 1;
            }
        } else {
            line.push(c);
            at = at + 1;
        }
    }
    if line.unicode_len() != 0 {
        let ghost before = text::texts(lines@);
        let ghost ended = line@;
        push_text(&mut lines, line);
        assert(before + seq![ended] =~= text::texts(lines@));
    } else {
        assert(text::texts(lines@) + Seq::<Seq<char>>::empty() =~= text::texts(lines@));
    }
    lines
}

/// Whether a text holds no break.
pub open spec fn is_unbroken(line: Seq<char>) -> bool {
    forall|i: int| 0 <= i < line.len() ==> !is_break(#[trigger] line[i])
}

/// No line holds a break.
pub proof fn law_lines_are_unbroken(text: Seq<char>)
    ensures
        forall|i: int| 0 <= i < lines_of(text).len() ==> is_unbroken(#[trigger] lines_of(text)[i]),
{
    lemma_unbroken(text, 0, Seq::empty());
}

proof fn lemma_unbroken(text: Seq<char>, at: int, line: Seq<char>)
    requires
        is_unbroken(line),
    ensures
        forall|i: int|
            0 <= i < lines_from(text, at, line).len() ==> is_unbroken(
                #[trigger] lines_from(text, at, line)[i],
            ),
    decreases text.len() - at,
{
    if at < 0 || at >= text.len() {
        let all = lines_from(text, at, line);
        assert forall|i: int| 0 <= i < all.len() implies is_unbroken(#[trigger] all[i]) by {
            assert(all == seq![line]);
        }
    } else if is_break(text[at]) {
        lemma_unbroken(text, behind_break(text, at), Seq::empty());
        let rest = lines_from(text, behind_break(text, at), Seq::empty());
        let all = lines_from(text, at, line);
        assert(all == seq![line] + rest);
        assert forall|i: int| 0 <= i < all.len() implies is_unbroken(#[trigger] all[i]) by {
            if i > 0 {
                assert(all[i] == rest[i - 1]);
            }
        }
    } else {
        lemma_unbroken(text, at + 1, line.push(text[at]));
        assert(lines_from(text, at, line) == lines_from(text, at + 1, line.push(text[at])));
    }
}

/// The characters of a text from a place on that are no breaks.
pub open spec fn unbroken_from(text: Seq<char>, at: int) -> Seq<char>
    decreases text.len() - at,
{
    if at < 0 || at >= text.len() {
        Seq::empty()
    } else if is_break(text[at]) {
        unbroken_from(text, at + 1)
    } else {
        seq![text[at]] + unbroken_from(text, at + 1)
    }
}

/// Lines, one behind the other.
pub open spec fn run_together(lines: Seq<Seq<char>>) -> Seq<char>
    decreases lines.len(),
{
    if lines.len() == 0 {
        Seq::empty()
    } else {
        lines[0] + run_together(lines.skip(1))
    }
}

/// Splitting a text into lines loses nothing but the breaks.
pub proof fn law_lines_keep_the_text(text: Seq<char>)
    ensures
        run_together(lines_of(text)) == unbroken_from(text, 0),
{
    lemma_run_together(text, 0, Seq::empty());
    assert(Seq::<char>::empty() + unbroken_from(text, 0) =~= unbroken_from(text, 0));
}

proof fn lemma_run_together(text: Seq<char>, at: int, line: Seq<char>)
    requires
        0 <= at,
    ensures
        run_together(lines_from(text, at, line)) == line + unbroken_from(text, at),
    decreases text.len() - at,
{
    if at >= text.len() {
        if line.len() == 0 {
            assert(line + Seq::<char>::empty() =~= Seq::<char>::empty());
        } else {
            assert(seq![line].skip(1) =~= Seq::<Seq<char>>::empty());
            assert(run_together(seq![line]) =~= line + run_together(
                Seq::<Seq<char>>::empty(),
            ));
        }
    } else if is_break(text[at]) {
        let next = behind_break(text, at);
        let rest = lines_from(text, next, Seq::empty());
        lemma_run_together(text, next, Seq::empty());
        assert((seq![line] + rest).skip(1) =~= rest);
        assert(Seq::<char>::empty() + unbroken_from(text, next) =~= unbroken_from(text, next));
        if next == at + 2 {
            assert(is_break(text[at + 1]));
            assert(unbroken_from(text, at + 1) == unbroken_from(text, at + 2));
        }
    } else {
        lemma_run_together(text, at + 1, line.push(text[at]));
        assert(line.push(text[at]) + unbroken_from(text, at + 1) =~= line + (seq![text[at]]
            + unbroken_from(text, at + 1)));
    }
}

/// The buffer's text with the oldest message first. The buffer is written in a
/// circle, so once it has filled up the oldest message is the one at the write
/// position.
pub open spec fn in_order(text: Seq<char>, written: u64, size: u64) -> Seq<char> {
    let start = if written > size {
        0
    } else {
        written as int
    };
    let cut = if start < text.len() {
        start
    } else {
        text.len() as int
    };
    text.skip(cut) + text.take(cut)
}

/// The buffer's text with the oldest message first.
pub fn unroll(text: &str, written: u64, size: u64) -> (log: String)
    ensures
        log@ == in_order(text@, written, size),
{
    let list = characters(text);
    let total: usize = list.len();
    let start: u64 = if written > size {
        0
    } else {
        written
    };
    let cut: usize = if start < total as u64 {
        start as usize
    } else {
        total
    };
    let mut log = assemble(list.as_slice(), cut, total);
    log.append(&assemble(list.as_slice(), 0, cut));
    assert(log@ =~= in_order(text@, written, size));
    log
}

/// The messages that the kernel keeps, the oldest first. The buffer is described by
/// a small header holding its address, its size, and how far the kernel has written
/// into it.
pub open spec fn log_text(context: &Context, kernel: &Module) -> Option<Seq<char>> {
    match buffer_of(context, kernel) {
        Some(buffer) => match (
            context.member_u64(buffer, "msg_size"),
            context.member_u64(buffer, "msg_bufx"),
            context.member(buffer, "msg_bufc"),
        ) {
            (Some(size), Some(written), Some(characters)) => match context.pointed_text(
                characters,
                size as usize,
            ) {
                Some(text) => Some(in_order(text, written, size)),
                None => None,
            },
            _ => None,
        },
        None => None,
    }
}

pub open spec fn spec_buffer_of(context: &Context, kernel: &Module) -> Option<Object> {
    match context.object_from_symbol(kernel, "msgbufp") {
        Some(pointer) => context.dereference(pointer),
        None => None,
    }
}

/// The header of the kernel's message buffer.
#[verifier::when_used_as_spec(spec_buffer_of)]
pub fn buffer_of(context: &Context, kernel: &Module) -> (buffer: Option<Object>)
    ensures
        buffer == spec_buffer_of(context, kernel),
{
    match context.object_from_symbol(kernel, "msgbufp") {
        Some(pointer) => context.dereference(pointer),
        None => None,
    }
}

fn read_log(context: &Context, kernel: &Module) -> (log: Option<String>)
    ensures
        text::maybe_text(log) == log_text(context, kernel),
{
    match buffer_of(context, kernel) {
        Some(buffer) => match (
            context.member_u64(buffer, "msg_size"),
            context.member_u64(buffer, "msg_bufx"),
            context.member(buffer, "msg_bufc"),
        ) {
            (Some(size), Some(written), Some(characters)) => match context.pointer_to_string(
                characters,
                size as usize,
            ) {
                Some(text) => Some(unroll(&text, written, size)),
                None => None,
            },
            _ => None,
        },
        None => None,
    }
}

/// The report on the first of some lines.
pub open spec fn reported(headings: Seq<Column>, lines: Seq<Seq<char>>, count: int) -> Table
    decreases count,
{
    if count <= 0 {
        Table::empty(headings)
    } else {
        reported(headings, lines, count - 1).push(0, seq![Cell::Text(lines[count - 1])])
    }
}

impl Plugin for Dmesg {
    open spec fn named(&self) -> Seq<char> {
        "mac.dmesg.Dmesg"@
    }

    open spec fn described(&self) -> Seq<char> {
        "Prints the kernel log buffer."@
    }

    open spec fn needs(&self) -> Seq<RequirementView> {
        seq![RequirementView::kernel()]
    }

    open spec fn headings(&self) -> Seq<Column> {
        seq![Column::string("line")]
    }

    open spec fn system(&self) -> OperatingSystem {
        OperatingSystem::Mac
    }

    open spec fn report(&self, context: &Context, config: &Configuration) -> Result<Table, Failure> {
        match plugins::mac::kernel_of(context, config) {
            Some(kernel) => match log_text(context, &kernel) {
                Some(log) => Ok(
                    reported(self.headings(), lines_of(log), lines_of(log).len() as int),
                ),
                None => Err(Failure::Unavailable),
            },
            None => Err(plugins::mac::no_kernel()),
        }
    }

    fn name(&self) -> (name: &'static str) {
        "mac.dmesg.Dmesg"
    }

    fn description(&self) -> (description: &'static str) {
        "Prints the kernel log buffer."
    }

    fn requirements(&self) -> (requirements: Vec<Requirement>) {
        vec![Requirement::kernel()]
    }

    fn operating_system(&self) -> (system: OperatingSystem) {
        OperatingSystem::Mac
    }

    fn columns(&self) -> (columns: Vec<Column>) {
        vec![Column::string("line")]
    }

    fn epilog(&self) -> (epilog: Option<&'static str>) {
        None
    }

    fn timeline(&self, context: &Context, config: &Configuration) -> (timeline: Option<
        plugins::Timeline,
    >) {
        None
    }

    fn needs_kernel(&self) -> (needed: bool) {
        false
    }

    fn run(&self, context: &Context, config: &Configuration) -> (result: Result<TreeGrid, VolatilityError>) {
        let kernel = kernel_module(context, config)?;
        let log = match read_log(context, kernel) {
            Some(log) => log,
            None => return Err(VolatilityError::Unavailable),
        };
        let lines = split_lines(&log);
        let mut grid = TreeGrid::new(self.columns());
        let ghost headings = self.headings();
        let ghost all = text::texts(lines@);
        for i in 0..lines.len()
            invariant
                all == text::texts(lines@),
                grid@ == reported(headings, all, i as int),
        {
            let row = Row::new().with(Value::string(&lines[i]));
            assert(row@ =~= seq![Cell::Text(all[i as int])]);
            grid.push(0, row);
        }
        Ok(grid)
    }
}

} // verus!
