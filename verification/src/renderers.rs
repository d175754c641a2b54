//! What a plugin reports: columns, values and rows.

use crate::context::copy_bytes;
use crate::text::{decimal, hex_byte, hexadecimal, push_text, signed_decimal};
use crate::time::{format_time, DateTime};
use vstd::prelude::*;

verus! {

/// Why a value is not there.
#[derive(Clone, Copy, PartialEq, Eq, Structural, Debug)]
pub enum AbsentValue {
    /// The question does not arise here.
    NotApplicable,
    /// The answer was never recorded.
    NotAvailable,
    /// The memory that holds the answer is not in the image.
    Unreadable,
    /// What the memory holds makes no sense.
    Unparsable,
}

/// The base in which a column shows a number.
#[derive(Clone, Copy, PartialEq, Eq, Structural, Debug)]
pub enum Hint {
    Decimal,
    Hexadecimal,
}

/// One value of a row.
#[derive(Debug)]
pub enum Value {
    Int(i64, Hint),
    UInt(u64, Hint),
    String(String),
    Bool(bool),
    DateTime(DateTime),
    /// A moment to be shown in the time zone of whoever reads it.
    LocalTime(DateTime),
    HexDump(Vec<u8>),
    HexPairs(Vec<u8>),
    /// Bytes of a layer, with the places of those that the layer does not hold.
    LayerDump { missing: Vec<usize>, bytes: Vec<u8> },
    Absent(AbsentValue),
}

/// What a value says.
#[verifier::ext_equal]
pub enum Cell {
    Int(i64, Hint),
    UInt(u64, Hint),
    Text(Seq<char>),
    Bool(bool),
    Time(DateTime),
    LocalTime(DateTime),
    HexDump(Seq<u8>),
    HexPairs(Seq<u8>),
    LayerDump(Seq<usize>, Seq<u8>),
    Absent(AbsentValue),
}

impl View for Value {
    type V = Cell;

    open spec fn view(&self) -> Cell {
        match self {
            Value::Int(number, hint) => Cell::Int(*number, *hint),
            Value::UInt(number, hint) => Cell::UInt(*number, *hint),
            Value::String(text) => Cell::Text(text@),
            Value::Bool(flag) => Cell::Bool(*flag),
            Value::DateTime(when) => Cell::Time(*when),
            Value::LocalTime(when) => Cell::LocalTime(*when),
            Value::HexDump(bytes) => Cell::HexDump(bytes@),
            Value::HexPairs(bytes) => Cell::HexPairs(bytes@),
            Value::LayerDump { missing, bytes } => Cell::LayerDump(missing@, bytes@),
            Value::Absent(why) => Cell::Absent(*why),
        }
    }
}

impl Cell {
    pub open spec fn integer(number: i64) -> Cell {
        Cell::Int(number, Hint::Decimal)
    }

    pub open spec fn uint(number: u64) -> Cell {
        Cell::UInt(number, Hint::Decimal)
    }

    pub open spec fn hex(number: u64) -> Cell {
        Cell::UInt(number, Hint::Hexadecimal)
    }

    pub open spec fn not_applicable() -> Cell {
        Cell::Absent(AbsentValue::NotApplicable)
    }

    pub open spec fn not_available() -> Cell {
        Cell::Absent(AbsentValue::NotAvailable)
    }

    pub open spec fn unreadable() -> Cell {
        Cell::Absent(AbsentValue::Unreadable)
    }

    pub open spec fn unparsable() -> Cell {
        Cell::Absent(AbsentValue::Unparsable)
    }

    /// A text, or that it could not be read.
    pub open spec fn text_or_unreadable(text: Option<Seq<char>>) -> Cell {
        match text {
            Some(text) => Cell::Text(text),
            None => Cell::unreadable(),
        }
    }

    /// A number in decimal, or that it could not be read.
    pub open spec fn integer_or_unreadable(number: Option<u64>) -> Cell {
        match number {
            Some(number) => Cell::integer(number as i64),
            None => Cell::unreadable(),
        }
    }

    /// A signed number in decimal, or that it could not be read.
    pub open spec fn signed_or_unreadable(number: Option<i64>) -> Cell {
        match number {
            Some(number) => Cell::integer(number),
            None => Cell::unreadable(),
        }
    }

    /// A number in hexadecimal, or that it could not be read.
    pub open spec fn hex_or_unreadable(number: Option<u64>) -> Cell {
        match number {
            Some(number) => Cell::hex(number),
            None => Cell::unreadable(),
        }
    }

    /// The value as the text a table shows.
    pub open spec fn shown(self) -> Seq<char> {
        match self {
            Cell::Int(number, Hint::Decimal) => crate::text::decimal_text(number as int),
            Cell::Int(number, Hint::Hexadecimal) => crate::text::hex_text((number as u64) as nat),
            Cell::UInt(number, Hint::Decimal) => crate::text::decimal_text(number as int),
            Cell::UInt(number, Hint::Hexadecimal) => crate::text::hex_text(number as nat),
            Cell::Text(text) => text,
            Cell::Bool(flag) => if flag {
                "True"@
            } else {
                "False"@
            },
            Cell::Time(when) => shown_time(when),
            Cell::LocalTime(when) => shown_time(when),
            Cell::HexDump(bytes) => shown_bytes(bytes),
            Cell::HexPairs(bytes) => shown_bytes(bytes),
            Cell::LayerDump(_, bytes) => shown_bytes(bytes),
            Cell::Absent(AbsentValue::NotApplicable) => "N/A"@,
            Cell::Absent(_) => "-"@,
        }
    }
}

/// A moment as text: date, time and offset from UTC.
pub open spec fn shown_time(when: DateTime) -> Seq<char> {
    match crate::time::calendar_text(when.seconds, "%Y-%m-%d %H:%M:%S%:z"@) {
        Some(text) => text,
        None => "-"@,
    }
}

/// Bytes as pairs of hexadecimal digits with a blank between each two.
pub open spec fn shown_bytes(bytes: Seq<u8>) -> Seq<char> {
    crate::text::joined(byte_texts(bytes), seq![' '])
}

/// Each byte as two hexadecimal digits.
pub open spec fn byte_texts(bytes: Seq<u8>) -> Seq<Seq<char>> {
    Seq::new(bytes.len(), |i: int| crate::text::byte_text(bytes[i]))
}

fn show_time(when: DateTime) -> (text: String)
    ensures
        text@ == shown_time(when),
{
    match format_time(when.seconds, "%Y-%m-%d %H:%M:%S%:z") {
        Some(text) => text,
        None => "-".to_owned(),
    }
}

fn show_bytes(bytes: &Vec<u8>) -> (text: String)
    ensures
        text@ == shown_bytes(bytes@),
{
    let mut parts: Vec<String> = Vec::new();
    for i in 0..bytes.len()
        invariant
            crate::text::texts(parts@) =~= byte_texts(bytes@).take(i as int),
    {
        push_text(&mut parts, hex_byte(bytes[i]));
    }
    assert(crate::text::texts(parts@) =~= byte_texts(bytes@));
    let mut blank = String::new();
    blank.push(' ');
    crate::text::join(&parts, &blank)
}

fn copy_places(places: &Vec<usize>) -> (copy: Vec<usize>)
    ensures
        copy@ == places@,
{
    let mut copy: Vec<usize> = Vec::new();
    for i in 0..places.len()
        invariant
            copy@ == places@.take(i as int),
    {
        copy.push(places[i]);
    }
    copy
}

impl Value {
    pub fn integer(number: i64) -> (value: Value)
        ensures
            value@ == Cell::integer(number),
    {
        Value::Int(number, Hint::Decimal)
    }

    pub fn uint(number: u64) -> (value: Value)
        ensures
            value@ == Cell::uint(number),
    {
        Value::UInt(number, Hint::Decimal)
    }

    pub fn hex(number: u64) -> (value: Value)
        ensures
            value@ == Cell::hex(number),
    {
        Value::UInt(number, Hint::Hexadecimal)
    }

    pub fn string(text: &str) -> (value: Value)
        ensures
            value@ == Cell::Text(text@),
    {
        Value::String(text.to_owned())
    }

    pub fn not_applicable() -> (value: Value)
        ensures
            value@ == Cell::not_applicable(),
    {
        Value::Absent(AbsentValue::NotApplicable)
    }

    pub fn not_available() -> (value: Value)
        ensures
            value@ == Cell::not_available(),
    {
        Value::Absent(AbsentValue::NotAvailable)
    }

    pub fn unreadable() -> (value: Value)
        ensures
            value@ == Cell::unreadable(),
    {
        Value::Absent(AbsentValue::Unreadable)
    }

    pub fn unparsable() -> (value: Value)
        ensures
            value@ == Cell::unparsable(),
    {
        Value::Absent(AbsentValue::Unparsable)
    }

    /// A text, or that it could not be read.
    pub fn text_or_unreadable(text: &Option<String>) -> (value: Value)
        ensures
            value@ == Cell::text_or_unreadable(crate::text::maybe_text(*text)),
    {
        match text {
            Some(text) => Value::string(text),
            None => Value::unreadable(),
        }
    }

    /// A number in decimal, or that it could not be read.
    pub fn integer_or_unreadable(number: Option<u64>) -> (value: Value)
        ensures
            value@ == Cell::integer_or_unreadable(number),
    {
        match number {
            Some(number) => Value::integer(number as i64),
            None => Value::unreadable(),
        }
    }

    /// A signed number in decimal, or that it could not be read.
    pub fn signed_or_unreadable(number: Option<i64>) -> (value: Value)
        ensures
            value@ == Cell::signed_or_unreadable(number),
    {
        match number {
            Some(number) => Value::integer(number),
            None => Value::unreadable(),
        }
    }

    /// A number in hexadecimal, or that it could not be read.
    pub fn hex_or_unreadable(number: Option<u64>) -> (value: Value)
        ensures
            value@ == Cell::hex_or_unreadable(number),
    {
        match number {
            Some(number) => Value::hex(number),
            None => Value::unreadable(),
        }
    }

    /// A copy of the value.
    pub fn copy(&self) -> (value: Value)
        ensures
            value@ == self@,
    {
        match self {
            Value::Int(number, hint) => Value::Int(*number, *hint),
            Value::UInt(number, hint) => Value::UInt(*number, *hint),
            Value::String(text) => Value::String(text.clone()),
            Value::Bool(flag) => Value::Bool(*flag),
            Value::DateTime(moment) => Value::DateTime(*moment),
            Value::LocalTime(moment) => Value::LocalTime(*moment),
            Value::HexDump(bytes) => Value::HexDump(copy_bytes(bytes)),
            Value::HexPairs(bytes) => Value::HexPairs(copy_bytes(bytes)),
            Value::LayerDump { missing, bytes } => Value::LayerDump {
                missing: copy_places(missing),
                bytes: copy_bytes(bytes),
            },
            Value::Absent(why) => Value::Absent(*why),
        }
    }

    /// Whether the value is not there.
    pub fn is_absent(&self) -> (absent: bool)
        ensures
            absent == (self@ is Absent),
    {
        match self {
            Value::Absent(_) => true,
            _ => false,
        }
    }

    /// The value as the text a table shows.
    pub fn show(&self) -> (text: String)
        ensures
            text@ == self@.shown(),
    {
        match self {
            Value::Int(number, Hint::Decimal) => signed_decimal(*number),
            Value::Int(number, Hint::Hexadecimal) => hexadecimal(*number as u64),
            Value::UInt(number, Hint::Decimal) => decimal(*number),
            Value::UInt(number, Hint::Hexadecimal) => hexadecimal(*number),
            Value::String(text) => text.clone(),
            Value::Bool(flag) => if *flag {
                "True".to_owned()
            } else {
                "False".to_owned()
            },
            Value::DateTime(when) => show_time(*when),
            Value::LocalTime(when) => show_time(*when),
            Value::HexDump(bytes) => show_bytes(bytes),
            Value::HexPairs(bytes) => show_bytes(bytes),
            Value::LayerDump { missing: _, bytes } => show_bytes(bytes),
            Value::Absent(AbsentValue::NotApplicable) => "N/A".to_owned(),
            Value::Absent(_) => "-".to_owned(),
        }
    }
}

/// What the values of a column are.
#[derive(Clone, Copy, PartialEq, Eq, Structural, Debug)]
pub enum ColumnType {
    Int,
    UInt,
    String,
    Bool,
    Bytes,
    DateTime,
}

/// One column of a report.
#[derive(Clone, Copy, Debug)]
pub struct Column {
    pub name: &'static str,
    pub kind: ColumnType,
}

impl Column {
    /// A column with a name and a type.
    #[verifier::allow_in_spec]
    pub fn new(name: &'static str, kind: ColumnType) -> (column: Column)
        returns
            (Column { name, kind }),
    {
        Column { name, kind }
    }

    #[verifier::allow_in_spec]
    pub fn integer(name: &'static str) -> (column: Column)
        returns
            (Column { name, kind: ColumnType::Int }),
    {
        Column { name, kind: ColumnType::Int }
    }

    #[verifier::allow_in_spec]
    pub fn uint(name: &'static str) -> (column: Column)
        returns
            (Column { name, kind: ColumnType::UInt }),
    {
        Column { name, kind: ColumnType::UInt }
    }

    #[verifier::allow_in_spec]
    pub fn string(name: &'static str) -> (column: Column)
        returns
            (Column { name, kind: ColumnType::String }),
    {
        Column { name, kind: ColumnType::String }
    }

    #[verifier::allow_in_spec]
    pub fn boolean(name: &'static str) -> (column: Column)
        returns
            (Column { name, kind: ColumnType::Bool }),
    {
        Column { name, kind: ColumnType::Bool }
    }

    #[verifier::allow_in_spec]
    pub fn bytes(name: &'static str) -> (column: Column)
        returns
            (Column { name, kind: ColumnType::Bytes }),
    {
        Column { name, kind: ColumnType::Bytes }
    }

    #[verifier::allow_in_spec]
    pub fn datetime(name: &'static str) -> (column: Column)
        returns
            (Column { name, kind: ColumnType::DateTime }),
    {
        Column { name, kind: ColumnType::DateTime }
    }
}

/// The values of one row, in the order of the columns.
#[derive(Debug)]
pub struct Row {
    pub values: Vec<Value>,
}

/// What a list of values says.
pub open spec fn cells(values: Seq<Value>) -> Seq<Cell> {
    Seq::new(values.len(), |i: int| values[i]@)
}

impl View for Row {
    type V = Seq<Cell>;

    open spec fn view(&self) -> Seq<Cell> {
        cells(self.values@)
    }
}

impl Row {
    /// A row without values.
    pub fn new() -> (row: Row)
        ensures
            row@ == Seq::<Cell>::empty(),
    {
        Row { values: Vec::new() }
    }

    /// The row with one more value.
    pub fn with(self, value: Value) -> (row: Row)
        ensures
            row@ == self@.push(value@),
    {
        let mut row = self;
        row.values.push(value);
        assert(row@ =~= self@.push(value@));
        row
    }
}

/// What a list of rows says.
pub open spec fn row_views(rows: Seq<Row>) -> Seq<Seq<Cell>> {
    Seq::new(rows.len(), |i: int| rows[i]@)
}

/// Add a row to a list of them.
pub fn push_row(rows: &mut Vec<Row>, row: Row)
    ensures
        row_views(final(rows)@) == row_views(old(rows)@).push(row@),
{
    rows.push(row);
    assert(row_views(rows@) =~= row_views(old(rows)@).push(row@));
}

/// One row of a report, with how deep it stands below the rows before it.
#[derive(Debug)]
pub struct Line {
    pub depth: usize,
    pub row: Row,
}

/// What one row of a report says.
#[verifier::ext_equal]
pub struct LineView {
    pub depth: int,
    pub cells: Seq<Cell>,
}

impl View for Line {
    type V = LineView;

    open spec fn view(&self) -> LineView {
        LineView { depth: self.depth as int, cells: self.row@ }
    }
}

/// A file that a plugin recovered from the image.
#[derive(Debug)]
pub struct Extracted {
    pub name: String,
    pub data: Vec<u8>,
}

/// What a recovered file holds.
#[verifier::ext_equal]
pub struct FileView {
    pub name: Seq<char>,
    pub data: Seq<u8>,
}

impl View for Extracted {
    type V = FileView;

    open spec fn view(&self) -> FileView {
        FileView { name: self.name@, data: self.data@ }
    }
}

/// A report: its columns, its rows, and the files to be written beside it.
#[derive(Debug)]
pub struct TreeGrid {
    pub columns: Vec<Column>,
    pub lines: Vec<Line>,
    pub files: Vec<Extracted>,
}

/// What a report says.
#[verifier::ext_equal]
pub struct Table {
    pub columns: Seq<Column>,
    pub lines: Seq<LineView>,
    pub files: Seq<FileView>,
}

impl View for TreeGrid {
    type V = Table;

    open spec fn view(&self) -> Table {
        Table {
            columns: self.columns@,
            lines: Seq::new(self.lines@.len(), |i: int| self.lines@[i]@),
            files: Seq::new(self.files@.len(), |i: int| self.files@[i]@),
        }
    }
}

impl Table {
    /// A report without rows or files.
    pub open spec fn empty(columns: Seq<Column>) -> Table {
        Table { columns, lines: Seq::empty(), files: Seq::empty() }
    }

    /// A report with rows and no files.
    pub open spec fn of(columns: Seq<Column>, lines: Seq<LineView>) -> Table {
        Table { columns, lines, files: Seq::empty() }
    }

    /// The report with rows at its end that stand below no other.
    pub open spec fn push_all(self, rows: Seq<Seq<Cell>>) -> Table {
        Table { lines: self.lines + Seq::new(rows.len(), |i: int| top(rows[i])), ..self }
    }

    /// The report with one more row at its end.
    pub open spec fn push(self, depth: int, cells: Seq<Cell>) -> Table {
        Table { lines: self.lines.push(LineView { depth, cells }), ..self }
    }
}

/// A row that stands below no other.
pub open spec fn top(cells: Seq<Cell>) -> LineView {
    LineView { depth: 0, cells }
}

impl TreeGrid {
    /// A report without rows.
    pub fn new(columns: Vec<Column>) -> (grid: TreeGrid)
        ensures
            grid@ == Table::empty(columns@),
    {
        TreeGrid { columns, lines: Vec::new(), files: Vec::new() }
    }

    /// Add a row at the end.
    pub fn push(&mut self, depth: usize, row: Row)
        ensures
            final(self)@ == old(self)@.push(depth as int, row@),
    {
        self.lines.push(Line { depth, row });
        assert(self@ =~= old(self)@.push(depth as int, row@));
    }

    /// Add rows at the end that stand below no other.
    pub fn push_all(&mut self, rows: Vec<Row>)
        ensures
            final(self)@ == old(self)@.push_all(row_views(rows@)),
    {
        let mut rows = rows;
        let ghost given = rows@;
        let ghost all = row_views(given);
        let ghost before = self@;
        let ghost mut done: int = 0;
        assert(given.skip(0) =~= given);
        assert(before.push_all(all.take(0)).lines =~= before.lines);
        while rows.len() > 0
            invariant
                0 <= done <= given.len(),
                all == row_views(given),
                rows@ == given.skip(done),
                self@ == before.push_all(all.take(done)),
            decreases rows@.len(),
        {
            let row = rows.remove(0);
            assert(row == given[done]);
            assert(all[done] == row@);
            self.push(0, row);
            assert(rows@ =~= given.skip(done + 1));
            assert(self@.lines =~= before.push_all(all.take(done + 1)).lines);
            proof {
                done = done + 1;
            }
        }
        assert(all.take(done) =~= all);
    }

    /// Add a file at the end.
    pub fn keep(&mut self, name: String, data: Vec<u8>)
        ensures
            final(self)@ == (Table {
                files: old(self)@.files.push(FileView { name: name@, data: data@ }),
                ..old(self)@
            }),
    {
        self.files.push(Extracted { name, data });
        assert(self@.files =~= old(self)@.files.push(FileView { name: name@, data: data@ }));
    }
}

} // verus!
