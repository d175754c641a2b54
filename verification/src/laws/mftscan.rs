//! Laws on the records of the file table.

use crate::context::{self, Context};
use crate::plugins::windows::mftscan::{
    content_row, name_row, of_kind, record_at, standard_row, stream_row, streams, with_content, Ads,
    Attribute, MftScan, RecordView, ResidentData,
};
use crate::plugins::Plugin;
use crate::renderers::{Cell, Column, ColumnType, Table};
use crate::time;
use vstd::prelude::*;

verus! {

proof fn lemma_of_kind(list: Seq<Attribute>, kind: u8, i: int, k: int)
    ensures
        0 <= i < list.len() && list[i].kind == kind ==> of_kind(list, kind).contains(list[i]),
        0 <= k < of_kind(list, kind).len() ==> of_kind(list, kind)[k].kind == kind && list.contains(
            of_kind(list, kind)[k],
        ),
    decreases list.len(),
{
    if list.len() > 0 {
        let less = list.drop_last();
        lemma_of_kind(less, kind, i, k);
        let before = of_kind(less, kind);
        let all = of_kind(list, kind);
        if 0 <= i < list.len() && list[i].kind == kind {
            if i < less.len() {
                assert(less[i] == list[i]);
                let n = choose|n: int| 0 <= n < before.len() && before[n] == list[i];
                assert(all[n] == list[i]);
            } else {
                assert(all[before.len() as int] == list[i]);
            }
        }
        if 0 <= k < all.len() {
            if k < before.len() {
                let n = choose|n: int| 0 <= n < less.len() && less[n] == before[k];
                assert(list[n] == all[k]);
            } else {
                assert(list[list.len() - 1] == all[k]);
            }
        }
    }
}

proof fn lemma_longest(
    record: RecordView,
    context: &Context,
    layer: usize,
    list: Seq<Attribute>,
    count: int,
    i: int,
)
    requires
        count <= list.len(),
    ensures
        match record.longest_in(context, layer, list, count) {
            Some(best) => {
                &&& exists|k: int|
                    0 <= k < count && record.name_in(context, layer, #[trigger] list[k]) == Some(best)
                &&& 0 <= i < count ==> (record.name_in(context, layer, list[i]) matches Some(name)
                    ==> name.len() <= best.len())
            },
            None => 0 <= i < count ==> record.name_in(context, layer, list[i]) is None,
        },
    decreases count,
{
    if count > 0 {
        lemma_longest(record, context, layer, list, count - 1, i);
        let held = record.longest_in(context, layer, list, count - 1);
        let after = record.longest_in(context, layer, list, count);
        if after is Some && after == held {
            let k = choose|k: int|
                0 <= k < count - 1 && record.name_in(context, layer, #[trigger] list[k]) == held;
            assert(record.name_in(context, layer, list[k]) == after);
        } else if after is Some {
            assert(record.name_in(context, layer, list[count - 1]) == after);
        }
    }
}

/// The name given for a record is one that a name attribute of it carries, and no name
/// attribute of the record carries a longer one. A record has no name only where none of
/// its name attributes can be read.
pub proof fn law_a_record_goes_by_its_longest_name(
    record: RecordView,
    context: &Context,
    layer: usize,
    i: int,
)
    ensures
        ({
            let found = record.walk(context, layer).found;
            let whole = record.after(context, layer);
            match record.longest_name(context, layer) {
                Some(best) => {
                    &&& exists|attribute: Attribute| #[trigger]
                        found.contains(attribute) && attribute.kind == 48 && whole.name_in(
                            context,
                            layer,
                            attribute,
                        ) == Some(best)
                    &&& 0 <= i < found.len() && found[i].kind == 48 ==> (whole.name_in(
                        context,
                        layer,
                        found[i],
                    ) matches Some(name) ==> name.len() <= best.len())
                },
                None => 0 <= i < found.len() && found[i].kind == 48 ==> whole.name_in(
                    context,
                    layer,
                    found[i],
                ) is None,
            }
        }),
{
    let found = record.walk(context, layer).found;
    let whole = record.after(context, layer);
    let list = of_kind(found, 48);
    lemma_longest(whole, context, layer, list, list.len() as int, 0);
    if let Some(best) = record.longest_name(context, layer) {
        let k = choose|k: int|
            0 <= k < list.len() && whole.name_in(context, layer, #[trigger] list[k]) == Some(best);
        lemma_of_kind(found, 48, 0, k);
        assert(found.contains(list[k]));
    }
    if 0 <= i < found.len() && found[i].kind == 48 {
        lemma_of_kind(found, 48, i, 0);
        let k = choose|k: int| 0 <= k < list.len() && list[k] == found[i];
        lemma_longest(whole, context, layer, list, list.len() as int, k);
    }
}

/// The columns under which the content and the streams of files are reported.
pub proof fn law_columns_of_content()
    ensures
        ResidentData.headings() == seq![
            Column::new("Offset", ColumnType::UInt),
            Column::string("Record Type"),
            Column::integer("Record Number"),
            Column::string("MFT Type"),
            Column::string("Filename"),
            Column::bytes("Hexdump"),
        ],
        Ads.headings() == seq![
            Column::new("Offset", ColumnType::UInt),
            Column::string("Record Type"),
            Column::integer("Record Number"),
            Column::string("MFT Type"),
            Column::string("Filename"),
            Column::string("ADS Filename"),
            Column::bytes("Hexdump"),
        ],
{
}

/// A file is named by the longest of its record's names, whether its content or a stream
/// beside it is reported; its row also says where the data stands, what the record begins
/// with and its number.
pub proof fn law_content_is_reported_under_the_files_name(
    context: &Context,
    layer: usize,
    record: RecordView,
    attribute: Attribute,
    name: Seq<char>,
)
    requires
        record.longest_name(context, layer) == Some(name),
        name.len() > 0,
        attribute.offset + 24 <= u64::MAX,
    ensures
        content_row(context, layer, record, attribute).len() == 6,
        content_row(context, layer, record, attribute)[0] == Cell::hex(
            (attribute.offset + 24) as u64,
        ),
        content_row(context, layer, record, attribute)[1] == Cell::Text(record.signature),
        content_row(context, layer, record, attribute)[2] == Cell::integer(
            record.record_number as i64,
        ),
        content_row(context, layer, record, attribute)[4] == Cell::Text(name),
        stream_row(context, layer, record, attribute).len() == 7,
        stream_row(context, layer, record, attribute)[0] == Cell::hex(
            (attribute.offset + 24) as u64,
        ),
        stream_row(context, layer, record, attribute)[1] == Cell::Text(record.signature),
        stream_row(context, layer, record, attribute)[2] == Cell::integer(
            record.record_number as i64,
        ),
        stream_row(context, layer, record, attribute)[4] == Cell::Text(name),
        record.after(context, layer).stream(attribute) matches Some(stream) ==> stream_row(
            context,
            layer,
            record,
            attribute,
        )[5] == Cell::Text(stream),
        attribute.content_length <= 0x400000 ==> (crate::plugins::layer_cell(
            context,
            layer,
            attribute.offset.wrapping_add(attribute.content_offset as u64),
            attribute.content_length as usize,
        ) matches Some(bytes) ==> content_row(context, layer, record, attribute)[5] == bytes
            && stream_row(context, layer, record, attribute)[6] == bytes),
{
}

proof fn lemma_streams(list: Seq<Attribute>, named: bool, i: int, k: int)
    ensures
        0 <= i < list.len() && list[i].kind == 128 && list[i].non_resident == 0 && (
        list[i].name_length != 0) == named ==> streams(list, named).contains(list[i]),
        0 <= k < streams(list, named).len() ==> streams(list, named)[k].kind == 128 && streams(
            list,
            named,
        )[k].non_resident == 0 && (streams(list, named)[k].name_length != 0) == named,
    decreases list.len(),
{
    if list.len() > 0 {
        let less = list.drop_last();
        lemma_streams(less, named, i, k);
        let before = streams(less, named);
        let all = streams(list, named);
        if 0 <= i < list.len() && list[i].kind == 128 && list[i].non_resident == 0 && (
        list[i].name_length != 0) == named {
            if i < less.len() {
                assert(less[i] == list[i]);
                let n = choose|n: int| 0 <= n < before.len() && before[n] == list[i];
                assert(all[n] == list[i]);
            } else {
                assert(all[before.len() as int] == list[i]);
            }
        }
        if 0 <= k < all.len() && k >= before.len() {
            assert(all[k] == list.last());
        }
    }
}

/// A file's own content is a data attribute without a name that is stored in the record;
/// a stream beside it is one with a name. Content stored elsewhere is neither.
pub proof fn law_streams_have_names_and_content_has_none(
    list: Seq<Attribute>,
    named: bool,
    i: int,
    k: int,
)
    ensures
        0 <= i < list.len() && list[i].kind == 128 && list[i].non_resident == 0 && (
        list[i].name_length != 0) == named ==> streams(list, named).contains(list[i]),
        0 <= k < streams(list, named).len() ==> streams(list, named)[k].kind == 128 && streams(
            list,
            named,
        )[k].non_resident == 0 && (streams(list, named)[k].name_length != 0) == named,
{
    lemma_streams(list, named, i, k);
}

/// A record with content of its own adds one row, and one without adds none.
pub proof fn law_content_is_one_row(
    context: &Context,
    layer: usize,
    table: Table,
    record: RecordView,
    i: int,
)
    ensures
        ({
            let found = record.walk(context, layer).found;
            let after = with_content(context, layer, table, record);
            &&& 0 <= i < found.len() && found[i].kind == 128 && found[i].non_resident == 0
                && found[i].name_length == 0 ==> after.lines.len() == table.lines.len() + 1
            &&& (forall|j: int|
                0 <= j < found.len() ==> !((#[trigger] found[j]).kind == 128 && found[j].non_resident
                    == 0 && found[j].name_length == 0)) ==> after == table
        }),
{
    reveal(with_content);
    let found = record.walk(context, layer).found;
    lemma_streams(found, false, i, 0);
    let list = streams(found, false);
    if list.len() > 0 {
        lemma_member(found, false, 0);
    }
}

proof fn lemma_member(list: Seq<Attribute>, named: bool, k: int)
    requires
        0 <= k < streams(list, named).len(),
    ensures
        exists|j: int|
            0 <= j < list.len() && #[trigger] list[j] == streams(list, named)[k] && list[j].kind == 128
                && list[j].non_resident == 0 && (list[j].name_length != 0) == named,
    decreases list.len(),
{
    let less = list.drop_last();
    let before = streams(less, named);
    if k < before.len() {
        lemma_member(less, named, k);
        let j = choose|j: int|
            0 <= j < less.len() && #[trigger] less[j] == before[k] && less[j].kind == 128
                && less[j].non_resident == 0 && (less[j].name_length != 0) == named;
        assert(list[j] == streams(list, named)[k]);
    } else {
        assert(list[list.len() - 1] == streams(list, named)[k]);
    }
}

/// The columns under which records are reported.
pub proof fn law_columns_of_records()
    ensures
        MftScan.headings() == seq![
            Column::new("Offset", ColumnType::UInt),
            Column::string("Record Type"),
            Column::integer("Record Number"),
            Column::integer("Link Count"),
            Column::string("MFT Type"),
            Column::string("Permissions"),
            Column::string("Attribute Type"),
            Column::datetime("Created"),
            Column::datetime("Modified"),
            Column::datetime("Updated"),
            Column::datetime("Accessed"),
            Column::string("Filename"),
        ],
{
}

/// The moment that the eight bytes at a place of a record name.
pub open spec fn moment_at(record: RecordView, at: int) -> Cell {
    time::wintime_cell(context::word(record.window.subrange(at, at + 8)))
}

proof fn lemma_times(record: RecordView, attribute: Attribute, from: u64)
    requires
        record.offset <= attribute.offset,
        attribute.offset - record.offset + 24 + from + 32 <= record.window.len(),
        record.window.len() <= u64::MAX,
    ensures
        ({
            let at = attribute.offset - record.offset + 24 + from;
            record.times(attribute, from) matches Some(times) && time::wintime_cell(times.0)
                == moment_at(record, at) && time::wintime_cell(times.1) == moment_at(record, at + 8)
                && time::wintime_cell(times.2) == moment_at(record, at + 16) && time::wintime_cell(
                times.3,
            ) == moment_at(record, at + 24)
        }),
{
    let at = attribute.offset - record.offset + 24 + from;
    let bytes = record.window.subrange(at, at + 32);
    assert(record.content(attribute).wrapping_add(from) == at);
    assert(bytes.subrange(0, 8) =~= record.window.subrange(at, at + 8));
    assert(bytes.subrange(8, 16) =~= record.window.subrange(at + 8, at + 16));
    assert(bytes.subrange(16, 24) =~= record.window.subrange(at + 16, at + 24));
    assert(bytes.subrange(24, 32) =~= record.window.subrange(at + 24, at + 32));
}

/// The moments of a record itself stand at the start of its attribute's content, and those
/// of a name eight bytes further in: when it was created, modified, updated and accessed,
/// eight bytes each.
#[verifier::rlimit(60)]
#[verifier::spinoff_prover]
pub proof fn law_moments_stand_in_their_columns(
    context: &Context,
    layer: usize,
    record: RecordView,
    attribute: Attribute,
)
    requires
        record.offset <= attribute.offset,
        attribute.offset - record.offset + 64 <= record.window.len(),
        record.window.len() <= u64::MAX,
        attribute.offset + 24 <= u64::MAX,
    ensures
        ({
            let at = attribute.offset - record.offset + 24;
            &&& standard_row(record, attribute) matches Some(row) && row.len() == 12 && row[0]
                == Cell::hex((attribute.offset + 24) as u64) && row[1] == Cell::Text(
                record.signature,
            ) && row[2] == Cell::integer(record.record_number as i64) && row[3] == Cell::integer(
                record.link_count as i64,
            ) && row[6] == Cell::Text("STANDARD_INFORMATION"@) && row[7] == moment_at(record, at)
                && row[8] == moment_at(record, at + 8) && row[9] == moment_at(record, at + 16)
                && row[10] == moment_at(record, at + 24)
            &&& name_row(context, layer, record, attribute) matches Some(row) && row.len() == 12
                && row[0] == Cell::hex((attribute.offset + 24) as u64) && row[1] == Cell::Text(
                record.signature,
            ) && row[2] == Cell::integer(record.record_number as i64) && row[3] == Cell::integer(
                record.link_count as i64,
            ) && row[6] == Cell::Text("FILE_NAME"@) && row[7] == moment_at(record, at + 8) && row[8]
                == moment_at(record, at + 16) && row[9] == moment_at(record, at + 24) && row[10]
                == moment_at(record, at + 32) && (record.name_in(context, layer, attribute) matches Some(
                name,
            ) ==> row[11] == Cell::Text(name))
        }),
{
    lemma_times(record, attribute, 0);
    lemma_times(record, attribute, 8);
}

/// What a record is, is told by two bits of its flags: whether it is in use, and whether it
/// is a directory.
pub proof fn law_a_records_kind_is_told_by_its_flags(record: RecordView, attribute: Attribute)
    requires
        standard_row(record, attribute) is Some,
    ensures
        record.flags == 0 ==> standard_row(record, attribute)->0[4] == Cell::Text("Removed"@),
        record.flags == 1 ==> standard_row(record, attribute)->0[4] == Cell::Text("File"@),
        record.flags == 2 ==> standard_row(record, attribute)->0[4] == Cell::Text("Directory"@),
        record.flags == 3 ==> standard_row(record, attribute)->0[4] == Cell::Text("DirInUse"@),
{
}

/// The header of a record that is whole: its signature, the number of its links at byte 18,
/// where its attributes start at byte 20, its flags at byte 22 and its number at byte 44,
/// the lowest byte of each first.
pub proof fn law_the_header_of_a_record(context: &Context, layer: usize, offset: u64, bytes: Seq<u8>)
    requires
        context.bytes_of(layer, offset, 0x1000, false) == Some(bytes),
        bytes.len() == 0x1000,
    ensures
        record_at(context, layer, offset) matches Some(record) && record.offset == offset
            && record.window == bytes && record.link_count == bytes[18] + 256 * bytes[19]
            && record.first_attribute == bytes[20] + 256 * bytes[21] && record.flags == bytes[22]
            && record.record_number == bytes[44] + 256 * bytes[45] + 65536 * bytes[46] + 16777216
            * bytes[47],
{
}

} // verus!
