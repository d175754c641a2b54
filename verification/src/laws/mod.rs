//! What holds of every image: laws that tie what the plugins report to what the image
//! holds.

pub mod basics;
pub mod callbacks;
pub mod dumpfiles;
pub mod handles;
pub mod mac;
pub mod mac_kernel;
pub mod mftscan;
pub mod modules;
pub mod netscan;
pub mod processes;
pub mod recovery;
pub mod scans;
pub mod tables;
pub mod threads;
pub mod tokens;
pub mod windows;

use crate::renderers::{Cell, Column, Table};
use vstd::prelude::*;

verus! {

/// Whether a report has a row.
pub open spec fn has_row(table: Table, cells: Seq<Cell>) -> bool {
    exists|n: int| 0 <= n < table.lines.len() && (#[trigger] table.lines[n]).cells == cells
}

/// Whether a report has all the rows that another one has, in the same places.
pub open spec fn grows(before: Table, after: Table) -> bool {
    before.lines.len() <= after.lines.len() && forall|n: int|
        0 <= n < before.lines.len() ==> #[trigger] after.lines[n] == before.lines[n]
}

/// A report that grows keeps its rows.
pub proof fn lemma_kept(before: Table, after: Table, cells: Seq<Cell>)
    requires
        grows(before, after),
        has_row(before, cells),
    ensures
        has_row(after, cells),
{
    let n = choose|n: int|
        0 <= n < before.lines.len() && (#[trigger] before.lines[n]).cells == cells;
    assert(after.lines[n].cells == cells);
}

/// A row that is added is there.
pub proof fn lemma_pushed(table: Table, depth: int, cells: Seq<Cell>)
    ensures
        has_row(table.push(depth, cells), cells),
        grows(table, table.push(depth, cells)),
{
    assert(table.push(depth, cells).lines[table.lines.len() as int].cells == cells);
}

/// Rows that are added are there.
pub proof fn lemma_all_pushed(table: Table, rows: Seq<Seq<Cell>>, k: int)
    requires
        0 <= k < rows.len(),
    ensures
        has_row(table.push_all(rows), rows[k]),
        grows(table, table.push_all(rows)),
{
    assert(table.push_all(rows).lines[table.lines.len() + k].cells == rows[k]);
}

/// The names of some columns, in order.
pub open spec fn names_of(columns: Seq<Column>) -> Seq<Seq<char>> {
    Seq::new(columns.len(), |i: int| columns[i].name@)
}

/// What the rows of a report say, in order.
pub open spec fn cells_of(table: Table) -> Seq<Seq<Cell>> {
    Seq::new(table.lines.len(), |i: int| table.lines[i].cells)
}

/// Whether a report is another one with some rows behind its own.
pub open spec fn adds(before: Table, after: Table, rows: Seq<Seq<Cell>>) -> bool {
    &&& after.columns == before.columns
    &&& cells_of(after) == cells_of(before) + rows
}

/// The rows of the first of some things, one behind the other.
pub open spec fn flat(rows: spec_fn(int) -> Seq<Seq<Cell>>, count: int) -> Seq<Seq<Cell>>
    decreases count,
{
    if count <= 0 {
        Seq::empty()
    } else {
        flat(rows, count - 1) + rows(count - 1)
    }
}

/// Nothing added leaves a report as it is.
pub proof fn lemma_adds_none(table: Table)
    ensures
        adds(table, table, Seq::empty()),
{
    assert(cells_of(table) + Seq::<Seq<Cell>>::empty() =~= cells_of(table));
}

/// A row that is pushed is added.
pub proof fn lemma_adds_one(table: Table, depth: int, cells: Seq<Cell>)
    ensures
        adds(table, table.push(depth, cells), seq![cells]),
{
    assert(cells_of(table.push(depth, cells)) =~= cells_of(table) + seq![cells]);
}

/// Rows that are pushed are added.
pub proof fn lemma_adds_all(table: Table, rows: Seq<Seq<Cell>>)
    ensures
        adds(table, table.push_all(rows), rows),
{
    assert(cells_of(table.push_all(rows)) =~= cells_of(table) + rows);
}

/// Rows that are added in two steps are added.
pub proof fn lemma_adds_both(
    before: Table,
    between: Table,
    after: Table,
    first: Seq<Seq<Cell>>,
    second: Seq<Seq<Cell>>,
)
    requires
        adds(before, between, first),
        adds(between, after, second),
    ensures
        adds(before, after, first + second),
{
    assert(cells_of(before) + first + second =~= cells_of(before) + (first + second));
}

/// What is added step by step is added.
pub proof fn lemma_flat_adds(
    steps: spec_fn(int) -> Table,
    rows: spec_fn(int) -> Seq<Seq<Cell>>,
    count: int,
)
    requires
        0 <= count,
        forall|k: int| 0 <= k < count ==> adds(steps(k), steps(k + 1), #[trigger] rows(k)),
    ensures
        adds(steps(0), steps(count), flat(rows, count)),
        steps(0).lines.len() == 0 ==> cells_of(steps(count)) == flat(rows, count),
    decreases count,
{
    lemma_adds_none(steps(0));
    if count > 0 {
        lemma_flat_adds(steps, rows, count - 1);
        assert(adds(steps(count - 1), steps(count), rows(count - 1)));
        lemma_adds_both(
            steps(0),
            steps(count - 1),
            steps(count),
            flat(rows, count - 1),
            rows(count - 1),
        );
    }
    if steps(0).lines.len() == 0 {
        assert(cells_of(steps(0)) + flat(rows, count) =~= flat(rows, count));
    }
}

} // verus!
