//! Scan memory for NTFS Master File Table records.
//!
//! An MFT record describes one file: its timestamps, its names, and where its
//! data lives. Records are self-identifying (each opens with `FILE`, or with
//! `BAAD` when the filesystem marked it corrupt), so they can be recovered from
//! memory without the filesystem being mounted.
//!
//! A record is a header followed by a chain of attributes, each naming its own
//! kind and length. The three views here read the same chain and report
//! different parts of it: the timestamps and names, the streams hidden beside
//! a file, and the content small enough to live inside the record itself.

use crate::config::Configuration;
use crate::context::{self, copy_bytes, word_of, Context};
use crate::error::{Failure, VolatilityError};
use crate::plugins::{
    self, layer_data, KindView, MomentView, OperatingSystem, Plugin, Requirement, RequirementKind,
    RequirementView, TimeKind, Timeline, TimelineView,
};
use crate::plugins::windows::physical_layer;
use crate::renderers::{Cell, Column, ColumnType, Row, Table, TreeGrid, Value};
use crate::symbols::windows::Stretch;
use crate::text::{self, cut_at_nul, hexadecimal, units_of, utf16};
use crate::time::{self, wintime_value};
use vstd::prelude::*;

verus! {

/// Reports the timestamps and names of the records.
pub struct MftScan;

/// Reports the streams a file carries beside its own content.
///
/// NTFS lets a file hold any number of named streams, which no ordinary
/// listing shows. Hiding a payload in one is a long-standing technique.
pub struct Ads;

/// Reports file content small enough to be stored inside its MFT record.
///
/// NTFS keeps a small file's content in the record itself rather than
/// allocating clusters for it, so those files can be recovered whole from the
/// record alone.
pub struct ResidentData;

/// How much of a record is read at a time. Records are 1KB in practice. The
/// window grows if an attribute chain runs past what was read.
pub const WINDOW: u64 = 0x1000;

/// The furthest a chain is followed before it is treated as nonsense.
pub const MAX_WINDOW: u64 = 0x10000;

/// How far into an attribute its content begins.
pub const ATTRIBUTE_DATA: u64 = 24;

/// The largest content a record is believed about. A record claiming more than
/// this has been smeared.
pub const MAX_RESIDENT: u32 = 0x400000;

/// The kind of an attribute that holds the record's own timestamps.
pub const STANDARD_INFORMATION: u8 = 16;

/// The kind of an attribute that holds a name.
pub const FILE_NAME: u8 = 48;

/// The kind of an attribute that holds content.
pub const DATA: u8 = 128;

/// What a record's first bytes look like: `FILE0`, `FILE*` or `BAAD`. The fifth
/// byte is where the update sequence begins, and only two placements of it are
/// ever seen, so searching for them together rejects most text that happens to
/// read `FILE`.
pub open spec fn signatures() -> Seq<Seq<u8>> {
    seq![
        seq![0x46u8, 0x49u8, 0x4cu8, 0x45u8, 0x30u8],
        seq![0x46u8, 0x49u8, 0x4cu8, 0x45u8, 0x2au8],
        seq![0x42u8, 0x41u8, 0x41u8, 0x44u8],
    ]
}

fn signature_bytes() -> (list: Vec<Vec<u8>>)
    ensures
        context::byte_lists(list@) == signatures(),
{
    let full: Vec<u8> = vec![0x46u8, 0x49u8, 0x4cu8, 0x45u8, 0x30u8];
    let star: Vec<u8> = vec![0x46u8, 0x49u8, 0x4cu8, 0x45u8, 0x2au8];
    let bad: Vec<u8> = vec![0x42u8, 0x41u8, 0x41u8, 0x44u8];
    assert(full@ =~= signatures()[0]);
    assert(star@ =~= signatures()[1]);
    assert(bad@ =~= signatures()[2]);
    let list = vec![full, star, bad];
    assert(context::byte_lists(list@) =~= signatures());
    list
}

/// Whether attributes can be of a kind: standard information, attribute list,
/// file name, object id, security descriptor, volume name, volume information,
/// index root, data, index allocation, bitmap, reparse point, extended attribute
/// information, extended attribute or property set.
#[verifier::allow_in_spec]
pub fn is_attribute_kind(code: u8) -> (known: bool)
    returns
        code == 16 || code == 32 || code == 48 || code == 64 || code == 80 || code == 96 || code
            == 112 || code == 114 || code == 128 || code == 160 || code == 176 || code == 192
            || code == 208 || code == 224 || code == 240,
{
    code == 16 || code == 32 || code == 48 || code == 64 || code == 80 || code == 96 || code == 112
        || code == 114 || code == 128 || code == 160 || code == 176 || code == 192 || code == 208
        || code == 224 || code == 240
}

/// What a record says it is.
pub open spec fn record_kind(code: u8) -> Seq<char> {
    if code == 0 {
        "Removed"@
    } else if code == 1 {
        "File"@
    } else if code == 2 {
        "Directory"@
    } else if code == 3 {
        "DirInUse"@
    } else {
        text::hex_text(code as nat)
    }
}

/// What a record says it is.
pub fn name_record_kind(code: u8) -> (name: String)
    ensures
        name@ == record_kind(code),
{
    if code == 0 {
        "Removed".to_owned()
    } else if code == 1 {
        "File".to_owned()
    } else if code == 2 {
        "Directory".to_owned()
    } else if code == 3 {
        "DirInUse".to_owned()
    } else {
        hexadecimal(code as u64)
    }
}

/// The permissions a name attribute records.
pub open spec fn permissions(code: u8) -> Seq<char> {
    if code == 1 {
        "ReadOnly"@
    } else if code == 2 {
        "Hidden"@
    } else if code == 4 {
        "System"@
    } else if code == 32 {
        "Archive"@
    } else if code == 34 {
        "ArchiveHidden"@
    } else if code == 36 {
        "ArchiveSystem"@
    } else if code == 38 {
        "ArchiveHiddenSystem"@
    } else if code == 60 {
        "Device"@
    } else if code == 128 {
        "Normal"@
    } else {
        text::hex_text(code as nat)
    }
}

/// The permissions a name attribute records.
pub fn name_permissions(code: u8) -> (name: String)
    ensures
        name@ == permissions(code),
{
    if code == 1 {
        "ReadOnly".to_owned()
    } else if code == 2 {
        "Hidden".to_owned()
    } else if code == 4 {
        "System".to_owned()
    } else if code == 32 {
        "Archive".to_owned()
    } else if code == 34 {
        "ArchiveHidden".to_owned()
    } else if code == 36 {
        "ArchiveSystem".to_owned()
    } else if code == 38 {
        "ArchiveHiddenSystem".to_owned()
    } else if code == 60 {
        "Device".to_owned()
    } else if code == 128 {
        "Normal".to_owned()
    } else {
        hexadecimal(code as u64)
    }
}

/// Up to `length` bytes, settling for a half, a quarter and so on where the layer
/// does not hold them all.
pub open spec fn window_at(context: &Context, layer: usize, offset: u64, length: usize) -> Option<
    Seq<u8>,
>
    decreases length,
{
    if length < 0x40 {
        None
    } else {
        match context.bytes_of(layer, offset, length, false) {
            Some(bytes) => Some(bytes),
            None => window_at(context, layer, offset, length / 2),
        }
    }
}

/// Read up to `length` bytes, settling for less where the layer ends.
pub fn read_window(context: &Context, layer: usize, offset: u64, length: usize) -> (window: Option<
    Vec<u8>,
>)
    ensures
        match window {
            Some(window) => window_at(context, layer, offset, length) == Some(window@),
            None => window_at(context, layer, offset, length) is None,
        },
{
    let mut wanted: usize = length;
    while wanted >= 0x40
        invariant
            window_at(context, layer, offset, length) == window_at(
                context,
                layer,
                offset,
                wanted,
            ),
        decreases wanted,
    {
        if let Some(window) = context.read(layer, offset, wanted, false) {
            return Some(window);
        }
        wanted = wanted / 2;
    }
    None
}

/// A number that stands in some bytes.
pub open spec fn number_in(bytes: Seq<u8>, at: int, size: int) -> u64 {
    context::word(bytes.subrange(at, at + size))
}

fn read_number(bytes: &Vec<u8>, at: usize, size: usize) -> (number: u64)
    requires
        at + size <= bytes@.len(),
    ensures
        number == number_in(bytes@, at as int, size as int),
{
    let list = bytes.as_slice();
    assert(list.len() <= usize::MAX);
    word_of(vstd::slice::slice_subrange(list, at, at + size))
}

/// A part of some bytes, where they reach that far.
pub open spec fn part_of(bytes: Seq<u8>, at: u64, length: u64) -> Option<Seq<u8>> {
    if at + length <= bytes.len() {
        Some(bytes.subrange(at as int, at + length))
    } else {
        None
    }
}

fn read_part(bytes: &Vec<u8>, at: u64, length: u64) -> (part: Option<Vec<u8>>)
    ensures
        match part {
            Some(part) => part_of(bytes@, at, length) == Some(part@),
            None => part_of(bytes@, at, length) is None,
        },
{
    let total: u64 = bytes.len() as u64;
    if at <= total && length <= total - at {
        Some(
            copy_bytes(
                vstd::slice::slice_subrange(bytes.as_slice(), at as usize, (at + length) as usize),
            ),
        )
    } else {
        None
    }
}

/// The characters of some bytes, one for each, before the first NUL.
pub open spec fn latin_text(bytes: Seq<u8>) -> Seq<char> {
    text::before_nul(Seq::new(bytes.len(), |i: int| bytes[i] as char))
}

/// Decode bytes of a signature the way a byte-per-character encoding would.
pub fn latin1(bytes: &[u8]) -> (text: String)
    ensures
        text@ == latin_text(bytes@),
{
    let mut whole = String::new();
    for i in 0..bytes.len()
        invariant
            whole@ == Seq::new(i as nat, |j: int| bytes@[j] as char),
    {
        whole.push(bytes[i] as char);
        assert(whole@ =~= Seq::new((i + 1) as nat, |j: int| bytes@[j] as char));
    }
    cut_at_nul(&whole)
}

/// The 16 bit units that bytes hold, the high byte of each first.
pub open spec fn big_units(bytes: Seq<u8>) -> Seq<u16> {
    Seq::new(bytes.len() / 2, |i: int| (256 * bytes[2 * i] + bytes[2 * i + 1]) as u16)
}

fn big_units_of(bytes: &[u8]) -> (list: Vec<u16>)
    ensures
        list@ == big_units(bytes@),
{
    let mut list: Vec<u16> = Vec::new();
    let total: usize = bytes.len();
    for i in 0..total / 2
        invariant
            total == bytes@.len(),
            list@ == big_units(bytes@).take(i as int),
    {
        list.push(256u16 * (bytes[2 * i] as u16) + bytes[2 * i + 1] as u16);
    }
    list
}

/// Whether bytes begin with the mark of pairs with the low byte first.
pub open spec fn marked_little(bytes: Seq<u8>) -> bool {
    bytes.len() >= 2 && bytes[0] == 0xff && bytes[1] == 0xfe
}

/// Whether bytes begin with the mark of pairs with the high byte first.
pub open spec fn marked_big(bytes: Seq<u8>) -> bool {
    bytes.len() >= 2 && bytes[0] == 0xfe && bytes[1] == 0xff
}

/// The text of a wide string without its mark. An odd byte at the end cannot be
/// half of anything.
pub open spec fn unmarked_text(bytes: Seq<u8>, big: bool) -> Seq<char> {
    text::utf16_text(
        if big {
            big_units(bytes)
        } else {
            text::units(bytes)
        },
    ) + if bytes.len() % 2 == 1 {
        seq!['\u{fffd}']
    } else {
        Seq::empty()
    }
}

/// The text of a wide string before its first terminator. A leading mark says
/// which way round the pairs are. Without one they are little-endian.
pub open spec fn wide_text(bytes: Seq<u8>) -> Seq<char> {
    text::before_nul(
        if marked_little(bytes) || marked_big(bytes) {
            unmarked_text(bytes.subrange(2, bytes.len() as int), marked_big(bytes))
        } else {
            unmarked_text(bytes, false)
        },
    )
}

fn decode_unmarked(bytes: &[u8], big: bool) -> (text: String)
    ensures
        text@ == unmarked_text(bytes@, big),
{
    let units = if big {
        big_units_of(bytes)
    } else {
        units_of(bytes)
    };
    let mut text = utf16(units.as_slice());
    if bytes.len() % 2 == 1 {
        text.push('\u{fffd}');
    }
    assert(text@ =~= unmarked_text(bytes@, big));
    text
}

/// Decode a wide string, cutting it at the first terminator.
pub fn decode_utf16(bytes: &[u8]) -> (text: String)
    ensures
        text@ == wide_text(bytes@),
{
    let total: usize = bytes.len();
    let little = total >= 2 && bytes[0] == 0xff && bytes[1] == 0xfe;
    let big = total >= 2 && bytes[0] == 0xfe && bytes[1] == 0xff;
    if little || big {
        cut_at_nul(&decode_unmarked(vstd::slice::slice_subrange(bytes, 2, total), big))
    } else {
        cut_at_nul(&decode_unmarked(bytes, false))
    }
}

/// One attribute of a record.
#[derive(Clone, Copy, PartialEq, Eq, Structural, Debug)]
pub struct Attribute {
    /// Where the attribute itself begins.
    pub offset: u64,
    pub kind: u8,
    pub length: u32,
    pub non_resident: u8,
    pub name_length: u8,
    pub name_offset: u16,
    pub content_length: u32,
    pub content_offset: u16,
}

/// One MFT record, with as much of it as has been read so far.
#[derive(Debug)]
pub struct MftRecord {
    pub offset: u64,
    pub signature: String,
    pub link_count: u16,
    pub flags: u8,
    pub record_number: u32,
    pub first_attribute: u16,
    /// The bytes read starting at `offset`.
    pub window: Vec<u8>,
}

/// What is known of a record.
#[verifier::ext_equal]
pub struct RecordView {
    pub offset: u64,
    pub signature: Seq<char>,
    pub link_count: u16,
    pub flags: u8,
    pub record_number: u32,
    pub first_attribute: u16,
    pub window: Seq<u8>,
}

impl View for MftRecord {
    type V = RecordView;

    open spec fn view(&self) -> RecordView {
        RecordView {
            offset: self.offset,
            signature: self.signature@,
            link_count: self.link_count,
            flags: self.flags,
            record_number: self.record_number,
            first_attribute: self.first_attribute,
            window: self.window@,
        }
    }
}

/// The attributes of a chain, and the bytes that had to be read to follow it.
#[verifier::ext_equal]
pub struct Walk {
    pub found: Seq<Attribute>,
    pub window: Seq<u8>,
}

/// The bytes of a record once they reach a place, where they can.
pub open spec fn reached(
    context: &Context,
    layer: usize,
    offset: u64,
    window: Seq<u8>,
    upto: u64,
) -> Option<Seq<u8>> {
    if upto <= window.len() {
        Some(window)
    } else if upto > MAX_WINDOW {
        None
    } else {
        match window_at(
            context,
            layer,
            offset,
            ((upto + WINDOW - 1) / WINDOW as int * WINDOW) as usize,
        ) {
            Some(wider) if wider.len() >= upto => Some(wider),
            _ => None,
        }
    }
}

/// The attribute that stands at a place of a record's bytes.
pub open spec fn attribute_at(offset: u64, window: Seq<u8>, at: u64) -> Attribute {
    Attribute {
        offset: offset.wrapping_add(at),
        kind: window[at as int],
        length: number_in(window, at + 4, 4) as u32,
        non_resident: window[at + 8],
        name_length: window[at + 9],
        name_offset: number_in(window, at + 10, 2) as u16,
        content_length: number_in(window, at + 16, 4) as u32,
        content_offset: number_in(window, at + 20, 2) as u16,
    }
}

/// The chain of attributes from a place of a record on.
///
/// The chain has no count: it runs until an attribute names a kind that does not
/// exist, and a zero-length attribute ends it too, since it would otherwise
/// never advance.
pub open spec fn walked(
    context: &Context,
    layer: usize,
    offset: u64,
    window: Seq<u8>,
    at: u64,
) -> Walk
    decreases
            (if at > MAX_WINDOW {
                0
            } else {
                MAX_WINDOW + 1 - at
            }),
{
    if at > MAX_WINDOW {
        Walk { found: Seq::empty(), window }
    } else {
        match reached(context, layer, offset, window, (at + 24) as u64) {
            None => Walk { found: Seq::empty(), window },
            Some(window) => {
                let attribute = attribute_at(offset, window, at);
                if !is_attribute_kind(attribute.kind) {
                    Walk { found: Seq::empty(), window }
                } else if attribute.length == 0 {
                    Walk { found: seq![attribute], window }
                } else {
                    let rest = walked(
                        context,
                        layer,
                        offset,
                        window,
                        (at + attribute.length) as u64,
                    );
                    Walk { found: seq![attribute] + rest.found, window: rest.window }
                }
            },
        }
    }
}

/// Every attribute that the chain gives is of a kind that exists, and only the last
/// one can have no length.
pub proof fn law_the_chain_advances(
    context: &Context,
    layer: usize,
    offset: u64,
    window: Seq<u8>,
    at: u64,
    i: int,
)
    requires
        0 <= i < walked(context, layer, offset, window, at).found.len(),
    ensures
        ({
            let found = walked(context, layer, offset, window, at).found;
            is_attribute_kind(found[i].kind) && (i < found.len() - 1 ==> found[i].length > 0)
        }),
    decreases
            (if at > MAX_WINDOW {
                0
            } else {
                MAX_WINDOW + 1 - at
            }),
{
    if at <= MAX_WINDOW && i > 0 {
        let more = reached(context, layer, offset, window, (at + 24) as u64)->0;
        let attribute = attribute_at(offset, more, at);
        let rest = walked(context, layer, offset, more, (at + attribute.length) as u64).found;
        law_the_chain_advances(
            context,
            layer,
            offset,
            more,
            (at + attribute.length) as u64,
            i - 1,
        );
        assert(walked(context, layer, offset, window, at).found[i] == rest[i - 1]);
    }
}

/// The attributes of one kind, in the order the chain gives them.
pub open spec fn of_kind(list: Seq<Attribute>, kind: u8) -> Seq<Attribute>
    decreases list.len(),
{
    if list.len() == 0 {
        Seq::empty()
    } else if list.last().kind == kind {
        of_kind(list.drop_last(), kind).push(list.last())
    } else {
        of_kind(list.drop_last(), kind)
    }
}

/// The resident `$DATA` attributes, either the named ones or the unnamed.
pub open spec fn streams(list: Seq<Attribute>, named: bool) -> Seq<Attribute>
    decreases list.len(),
{
    if list.len() == 0 {
        Seq::empty()
    } else if list.last().kind == DATA && list.last().non_resident == 0 && (list.last().name_length
        != 0) == named {
        streams(list.drop_last(), named).push(list.last())
    } else {
        streams(list.drop_last(), named)
    }
}

impl RecordView {
    /// The record's attribute chain.
    pub open spec fn walk(self, context: &Context, layer: usize) -> Walk {
        walked(context, layer, self.offset, self.window, self.first_attribute as u64)
    }

    /// The record once its chain was followed.
    pub open spec fn after(self, context: &Context, layer: usize) -> RecordView {
        RecordView { window: self.walk(context, layer).window, ..self }
    }

    /// Where in the record's bytes the content of an attribute begins.
    pub open spec fn content(self, attribute: Attribute) -> u64 {
        attribute.offset.wrapping_sub(self.offset).wrapping_add(ATTRIBUTE_DATA)
    }

    /// The four timestamps an attribute's content begins with, `from` bytes in.
    pub open spec fn times(self, attribute: Attribute, from: u64) -> Option<(u64, u64, u64, u64)> {
        match part_of(self.window, self.content(attribute).wrapping_add(from), 32) {
            Some(bytes) => Some(
                (
                    number_in(bytes, 0, 8),
                    number_in(bytes, 8, 8),
                    number_in(bytes, 16, 8),
                    number_in(bytes, 24, 8),
                ),
            ),
            None => None,
        }
    }

    /// One byte of an attribute's content.
    pub open spec fn content_byte(self, attribute: Attribute, from: u64) -> Option<u8> {
        match part_of(self.window, self.content(attribute).wrapping_add(from), 1) {
            Some(bytes) => Some(bytes[0]),
            None => None,
        }
    }

    /// The name a `FILE_NAME` attribute carries.
    ///
    /// The name is read where it sits rather than out of the record's own bytes
    /// where those end too early, since a record whose tail is not in the image
    /// can still have a readable name.
    pub open spec fn name_in(self, context: &Context, layer: usize, attribute: Attribute) -> Option<
        Seq<char>,
    > {
        match self.content_byte(attribute, 64) {
            Some(count) => match part_of(
                self.window,
                self.content(attribute).wrapping_add(66),
                (count * 2) as u64,
            ) {
                Some(bytes) => Some(wide_text(bytes)),
                None => match context.bytes_of(
                    layer,
                    attribute.offset.wrapping_add(ATTRIBUTE_DATA).wrapping_add(66),
                    (count * 2) as usize,
                    false,
                ) {
                    Some(bytes) => Some(wide_text(bytes)),
                    None => None,
                },
            },
            None => None,
        }
    }

    /// The longest name that the first of some attributes carry. Where two names
    /// are the same length the first is kept.
    pub open spec fn longest_in(
        self,
        context: &Context,
        layer: usize,
        list: Seq<Attribute>,
        count: int,
    ) -> Option<Seq<char>>
        decreases count,
    {
        if count <= 0 {
            None
        } else {
            let held = self.longest_in(context, layer, list, count - 1);
            match (self.name_in(context, layer, list[count - 1]), held) {
                (Some(name), Some(best)) => if name.len() > best.len() {
                    Some(name)
                } else {
                    held
                },
                (Some(name), None) => Some(name),
                (None, _) => held,
            }
        }
    }

    /// The longest of the record's names, which is the one that is not the
    /// shortened form the filesystem also keeps.
    pub open spec fn longest_name(self, context: &Context, layer: usize) -> Option<Seq<char>> {
        let list = of_kind(self.walk(context, layer).found, FILE_NAME);
        self.after(context, layer).longest_in(context, layer, list, list.len() as int)
    }

    /// The name of a stream, which sits between an attribute's header and its
    /// content.
    pub open spec fn stream(self, attribute: Attribute) -> Option<Seq<char>> {
        match part_of(
            self.window,
            attribute.offset.wrapping_sub(self.offset).wrapping_add(attribute.name_offset as u64),
            (attribute.name_length * 2) as u64,
        ) {
            Some(bytes) => Some(wide_text(bytes)),
            None => None,
        }
    }
}

/// The record whose header stands at a place.
pub open spec fn record_at(context: &Context, layer: usize, offset: u64) -> Option<RecordView> {
    match window_at(context, layer, offset, WINDOW as usize) {
        Some(window) if window.len() >= 48 => Some(
            RecordView {
                offset,
                signature: latin_text(window.subrange(0, 4)),
                link_count: number_in(window, 18, 2) as u16,
                flags: window[22],
                record_number: number_in(window, 44, 4) as u32,
                first_attribute: number_in(window, 20, 2) as u16,
                window,
            },
        ),
        _ => None,
    }
}

/// What the records of a list say.
pub open spec fn record_views(records: Seq<MftRecord>) -> Seq<RecordView> {
    Seq::new(records.len(), |i: int| records[i]@)
}

/// The records whose headers stand at the first of some places.
pub open spec fn records_at(context: &Context, layer: usize, offsets: Seq<u64>, count: int) -> Seq<
    RecordView,
>
    decreases count,
{
    if count <= 0 {
        Seq::empty()
    } else {
        let before = records_at(context, layer, offsets, count - 1);
        match record_at(context, layer, offsets[count - 1]) {
            Some(record) => before.push(record),
            None => before,
        }
    }
}

/// Whether a stretch of a search sees a match that begins at a place.
pub open spec fn sees(stretch: Stretch, layer: usize, place: u64) -> bool {
    stretch.layer == layer && stretch.first <= place <= stretch.last
}

/// How many of the first of some stretches see a place.
pub open spec fn watchers(stretches: Seq<Stretch>, layer: usize, place: u64, count: int) -> nat
    decreases count,
{
    if count <= 0 {
        0
    } else {
        watchers(stretches, layer, place, count - 1) + if sees(
            stretches[count - 1],
            layer,
            place,
        ) {
            1nat
        } else {
            0nat
        }
    }
}

/// The first of some places that a stretch sees.
pub open spec fn seen_in(stretch: Stretch, layer: usize, places: Seq<u64>, count: int) -> Seq<u64>
    decreases count,
{
    if count <= 0 {
        Seq::empty()
    } else {
        let before = seen_in(stretch, layer, places, count - 1);
        if sees(stretch, layer, places[count - 1]) {
            before.push(places[count - 1])
        } else {
            before
        }
    }
}

/// The places that the first of some stretches see, stretch by stretch.
pub open spec fn seen_by(stretches: Seq<Stretch>, layer: usize, places: Seq<u64>, count: int) -> Seq<
    u64,
>
    decreases count,
{
    if count <= 0 {
        Seq::empty()
    } else {
        seen_by(stretches, layer, places, count - 1) + seen_in(
            stretches[count - 1],
            layer,
            places,
            places.len() as int,
        )
    }
}

/// The first of some places that no stretch sees.
pub open spec fn unseen(stretches: Seq<Stretch>, layer: usize, places: Seq<u64>, count: int) -> Seq<
    u64,
>
    decreases count,
{
    if count <= 0 {
        Seq::empty()
    } else {
        let before = unseen(stretches, layer, places, count - 1);
        if watchers(stretches, layer, places[count - 1], stretches.len() as int) == 0 {
            before.push(places[count - 1])
        } else {
            before
        }
    }
}

/// The places that a search comes upon. The search does not hold back what falls
/// where two stretches overlap, so a place there comes up once for each stretch that
/// sees it. A place in no stretch comes up once.
pub open spec fn come_upon(stretches: Seq<Stretch>, layer: usize, places: Seq<u64>) -> Seq<u64> {
    seen_by(stretches, layer, places, stretches.len() as int) + unseen(
        stretches,
        layer,
        places,
        places.len() as int,
    )
}

/// How often a place is in a list.
pub open spec fn times(list: Seq<u64>, place: u64) -> nat
    decreases list.len(),
{
    if list.len() == 0 {
        0
    } else {
        times(list.drop_last(), place) + if list.last() == place {
            1nat
        } else {
            0nat
        }
    }
}

proof fn lemma_times_of_both(a: Seq<u64>, b: Seq<u64>, place: u64)
    ensures
        times(a + b, place) == times(a, place) + times(b, place),
    decreases b.len(),
{
    if b.len() == 0 {
        assert(a + b =~= a);
    } else {
        lemma_times_of_both(a, b.drop_last(), place);
        assert((a + b).drop_last() =~= a + b.drop_last());
    }
}

proof fn lemma_times_in(stretch: Stretch, layer: usize, places: Seq<u64>, place: u64, count: int)
    requires
        0 <= count <= places.len(),
    ensures
        times(seen_in(stretch, layer, places, count), place) == if sees(stretch, layer, place) {
            times(places.take(count), place)
        } else {
            0
        },
    decreases count,
{
    if count > 0 {
        lemma_times_in(stretch, layer, places, place, count - 1);
        assert(places.take(count).drop_last() =~= places.take(count - 1));
        let before = seen_in(stretch, layer, places, count - 1);
        assert(before.push(places[count - 1]).drop_last() =~= before);
    }
}

proof fn lemma_times_by(
    stretches: Seq<Stretch>,
    layer: usize,
    places: Seq<u64>,
    place: u64,
    count: int,
)
    requires
        times(places, place) == 1,
        count <= stretches.len(),
    ensures
        times(seen_by(stretches, layer, places, count), place) == watchers(
            stretches,
            layer,
            place,
            count,
        ),
    decreases count,
{
    if count > 0 {
        lemma_times_by(stretches, layer, places, place, count - 1);
        lemma_times_in(stretches[count - 1], layer, places, place, places.len() as int);
        assert(places.take(places.len() as int) =~= places);
        lemma_times_of_both(
            seen_by(stretches, layer, places, count - 1),
            seen_in(stretches[count - 1], layer, places, places.len() as int),
            place,
        );
    }
}

proof fn lemma_times_unseen(
    stretches: Seq<Stretch>,
    layer: usize,
    places: Seq<u64>,
    place: u64,
    count: int,
)
    requires
        0 <= count <= places.len(),
    ensures
        times(unseen(stretches, layer, places, count), place) == if watchers(
            stretches,
            layer,
            place,
            stretches.len() as int,
        ) == 0 {
            times(places.take(count), place)
        } else {
            0
        },
    decreases count,
{
    if count > 0 {
        lemma_times_unseen(stretches, layer, places, place, count - 1);
        assert(places.take(count).drop_last() =~= places.take(count - 1));
        let before = unseen(stretches, layer, places, count - 1);
        assert(before.push(places[count - 1]).drop_last() =~= before);
    }
}

/// A place comes up once for each stretch that sees it, and once where none does, so
/// no record is missed.
pub proof fn law_a_place_comes_up_for_each_stretch(
    stretches: Seq<Stretch>,
    layer: usize,
    places: Seq<u64>,
    place: u64,
)
    requires
        times(places, place) == 1,
    ensures
        times(come_upon(stretches, layer, places), place) == if watchers(
            stretches,
            layer,
            place,
            stretches.len() as int,
        ) == 0 {
            1
        } else {
            watchers(stretches, layer, place, stretches.len() as int)
        },
{
    lemma_times_by(stretches, layer, places, place, stretches.len() as int);
    lemma_times_unseen(stretches, layer, places, place, places.len() as int);
    assert(places.take(places.len() as int) =~= places);
    lemma_times_of_both(
        seen_by(stretches, layer, places, stretches.len() as int),
        unseen(stretches, layer, places, places.len() as int),
        place,
    );
}

fn is_seen(stretches: &Vec<Stretch>, layer: usize, place: u64) -> (seen: bool)
    ensures
        seen == (watchers(stretches@, layer, place, stretches@.len() as int) > 0),
{
    let mut seen = false;
    for i in 0..stretches.len()
        invariant
            seen == (watchers(stretches@, layer, place, i as int) > 0),
    {
        let stretch = stretches[i];
        if stretch.layer == layer && stretch.first <= place && place <= stretch.last {
            seen = true;
        }
    }
    seen
}

/// The places that a search comes upon, given those at which there is something.
pub fn search(stretches: &Vec<Stretch>, layer: usize, places: &Vec<u64>) -> (found: Vec<u64>)
    ensures
        found@ == come_upon(stretches@, layer, places@),
{
    let mut found: Vec<u64> = Vec::new();
    for s in 0..stretches.len()
        invariant
            found@ == seen_by(stretches@, layer, places@, s as int),
    {
        let stretch = stretches[s];
        let ghost before = found@;
        for i in 0..places.len()
            invariant
                found@ == before + seen_in(stretch, layer, places@, i as int),
        {
            if stretch.layer == layer && stretch.first <= places[i] && places[i] <= stretch.last {
                found.push(places[i]);
            }
            assert(found@ =~= before + seen_in(stretch, layer, places@, i + 1));
        }
    }
    let ghost seen = found@;
    for i in 0..places.len()
        invariant
            found@ == seen + unseen(stretches@, layer, places@, i as int),
    {
        if !is_seen(stretches, layer, places[i]) {
            found.push(places[i]);
        }
        assert(found@ =~= seen + unseen(stretches@, layer, places@, i + 1));
    }
    found
}

/// Every record in a layer, as often as the search comes upon it.
pub open spec fn records_in(context: &Context, layer: usize) -> Seq<RecordView> {
    let space = context.layers@[layer as int];
    let offsets = come_upon(
        context.windows.stretches@,
        layer,
        space.any_found(signatures(), space.regions@.len() as int),
    );
    records_at(context, layer, offsets, offsets.len() as int)
}

/// Find every record in the layer and read its header.
pub fn enumerate_records(context: &Context, layer: usize) -> (records: Vec<MftRecord>)
    requires
        layer < context.layers@.len(),
    ensures
        record_views(records@) == records_in(context, layer),
{
    let places = context.layers[layer].scan_any(&signature_bytes());
    let offsets = search(&context.windows.stretches, layer, &places);
    let mut records: Vec<MftRecord> = Vec::new();
    for i in 0..offsets.len()
        invariant
            record_views(records@) == records_at(context, layer, offsets@, i as int),
    {
        let ghost before = record_views(records@);
        if let Some(record) = MftRecord::read(context, layer, offsets[i]) {
            records.push(record);
            assert(record_views(records@) =~= before.push(record@));
        }
    }
    records
}

impl MftRecord {
    /// Read a record's header at `offset`.
    pub fn read(context: &Context, layer: usize, offset: u64) -> (record: Option<MftRecord>)
        ensures
            match record {
                Some(record) => record_at(context, layer, offset) == Some(record@),
                None => record_at(context, layer, offset) is None,
            },
    {
        match read_window(context, layer, offset, 0x1000) {
            Some(window) => if window.len() < 48 {
                None
            } else {
                let record = MftRecord {
                    offset,
                    signature: latin1(vstd::slice::slice_subrange(window.as_slice(), 0, 4)),
                    link_count: read_number(&window, 18, 2) as u16,
                    flags: window[22],
                    record_number: read_number(&window, 44, 4) as u32,
                    first_attribute: read_number(&window, 20, 2) as u16,
                    window,
                };
                Some(record)
            },
            None => None,
        }
    }

    /// Read further into the record if an attribute reaches past what is held.
    fn ensure(&mut self, context: &Context, layer: usize, upto: u64) -> (held: bool)
        ensures
            match reached(context, layer, old(self)@.offset, old(self)@.window, upto) {
                Some(window) => held && final(self)@ == (RecordView { window, ..old(self)@ }),
                None => !held && final(self)@ == old(self)@,
            },
    {
        if upto <= self.window.len() as u64 {
            return true;
        }
        if upto > MAX_WINDOW {
            return false;
        }
        let wanted: u64 = (upto + WINDOW - 1) / WINDOW * WINDOW;
        match read_window(context, layer, self.offset, wanted as usize) {
            Some(window) => {
                if window.len() as u64 >= upto {
                    self.window = window;
                    true
                } else {
                    false
                }
            },
            None => false,
        }
    }

    /// Walk the record's attribute chain.
    pub fn attributes(&mut self, context: &Context, layer: usize) -> (found: Vec<Attribute>)
        ensures
            found@ == old(self)@.walk(context, layer).found,
            final(self)@ == old(self)@.after(context, layer),
    {
        let mut found: Vec<Attribute> = Vec::new();
        let mut at: u64 = self.first_attribute as u64;
        let ghost whole = self@.walk(context, layer);
        let mut going = true;
        while going
            invariant
                at <= MAX_WINDOW + u32::MAX,
                self@ == (RecordView { window: self@.window, ..old(self)@ }),
                whole == old(self)@.walk(context, layer),
                going ==> at <= MAX_WINDOW,
                going ==> whole.found == found@ + walked(
                    context,
                    layer,
                    self@.offset,
                    self@.window,
                    at,
                ).found,
                going ==> whole.window == walked(
                    context,
                    layer,
                    self@.offset,
                    self@.window,
                    at,
                ).window,
                !going ==> whole.found == found@ && whole.window == self@.window,
            decreases
                    (if going {
                        MAX_WINDOW + 2 - at
                    } else {
                        0
                    }),
        {
            if !self.ensure(context, layer, at + 24) {
                going = false;
            } else {
                let start: usize = at as usize;
                let attribute = Attribute {
                    offset: self.offset.wrapping_add(at),
                    kind: self.window[start],
                    length: read_number(&self.window, start + 4, 4) as u32,
                    non_resident: self.window[start + 8],
                    name_length: self.window[start + 9],
                    name_offset: read_number(&self.window, start + 10, 2) as u16,
                    content_length: read_number(&self.window, start + 16, 4) as u32,
                    content_offset: read_number(&self.window, start + 20, 2) as u16,
                };
                assert(attribute == attribute_at(self@.offset, self@.window, at));
                if !is_attribute_kind(attribute.kind) {
                    going = false;
                } else {
                    let ghost before = found@;
                    found.push(attribute);
                    if attribute.length == 0 {
                        going = false;
                    } else {
                        at = at + attribute.length as u64;
                        if at > MAX_WINDOW {
                            going = false;
                        }
                    }
                    assert(found@ =~= before + seq![attribute]);
                }
            }
        }
        found
    }

    /// The attributes of one kind, in the order the chain gives them.
    pub fn attributes_of(&mut self, context: &Context, layer: usize, wanted: u8) -> (found: Vec<
        Attribute,
    >)
        ensures
            found@ == of_kind(old(self)@.walk(context, layer).found, wanted),
            final(self)@ == old(self)@.after(context, layer),
    {
        let all = self.attributes(context, layer);
        let mut found: Vec<Attribute> = Vec::new();
        for i in 0..all.len()
            invariant
                found@ == of_kind(all@.take(i as int), wanted),
        {
            assert(all@.take(i + 1).drop_last() =~= all@.take(i as int));
            if all[i].kind == wanted {
                found.push(all[i]);
            }
        }
        assert(all@.take(all@.len() as int) =~= all@);
        found
    }

    /// The resident `$DATA` attributes, either the named ones or the unnamed.
    pub fn data_attributes(&mut self, context: &Context, layer: usize, named: bool) -> (found: Vec<
        Attribute,
    >)
        ensures
            found@ == streams(old(self)@.walk(context, layer).found, named),
            final(self)@ == old(self)@.after(context, layer),
    {
        let all = self.attributes(context, layer);
        let mut found: Vec<Attribute> = Vec::new();
        for i in 0..all.len()
            invariant
                found@ == streams(all@.take(i as int), named),
        {
            assert(all@.take(i + 1).drop_last() =~= all@.take(i as int));
            if all[i].kind == DATA && all[i].non_resident == 0 && (all[i].name_length != 0)
                == named {
                found.push(all[i]);
            }
        }
        assert(all@.take(all@.len() as int) =~= all@);
        found
    }

    /// The four timestamps an attribute's content begins with, `from` bytes in.
    pub fn timestamps(&self, attribute: Attribute, from: u64) -> (times: Option<
        (u64, u64, u64, u64),
    >)
        ensures
            times == self@.times(attribute, from),
    {
        let at: u64 = attribute.offset.wrapping_sub(self.offset).wrapping_add(
            ATTRIBUTE_DATA,
        ).wrapping_add(from);
        match read_part(&self.window, at, 32) {
            Some(bytes) => Some(
                (
                    read_number(&bytes, 0, 8),
                    read_number(&bytes, 8, 8),
                    read_number(&bytes, 16, 8),
                    read_number(&bytes, 24, 8),
                ),
            ),
            None => None,
        }
    }

    /// One byte of an attribute's content.
    pub fn byte_at(&self, attribute: Attribute, from: u64) -> (byte: Option<u8>)
        ensures
            byte == self@.content_byte(attribute, from),
    {
        let at: u64 = attribute.offset.wrapping_sub(self.offset).wrapping_add(
            ATTRIBUTE_DATA,
        ).wrapping_add(from);
        match read_part(&self.window, at, 1) {
            Some(bytes) => Some(bytes[0]),
            None => None,
        }
    }

    /// The name a `FILE_NAME` attribute carries.
    pub fn file_name(&self, context: &Context, layer: usize, attribute: Attribute) -> (name: Option<
        String,
    >)
        ensures
            text::maybe_text(name) == self@.name_in(context, layer, attribute),
    {
        match self.byte_at(attribute, 64) {
            Some(count) => {
                let at: u64 = attribute.offset.wrapping_sub(self.offset).wrapping_add(
                    ATTRIBUTE_DATA,
                ).wrapping_add(66);
                let length: u64 = count as u64 * 2;
                match read_part(&self.window, at, length) {
                    Some(bytes) => Some(decode_utf16(bytes.as_slice())),
                    None => match context.read(
                        layer,
                        attribute.offset.wrapping_add(ATTRIBUTE_DATA).wrapping_add(66),
                        length as usize,
                        false,
                    ) {
                        Some(bytes) => Some(decode_utf16(bytes.as_slice())),
                        None => None,
                    },
                }
            },
            None => None,
        }
    }

    /// The longest of the record's names.
    pub fn longest_file_name(&mut self, context: &Context, layer: usize) -> (longest: Option<String>)
        ensures
            text::maybe_text(longest) == old(self)@.longest_name(context, layer),
            final(self)@ == old(self)@.after(context, layer),
    {
        let list = self.attributes_of(context, layer, FILE_NAME);
        let mut longest: Option<String> = None;
        for i in 0..list.len()
            invariant
                self@ == old(self)@.after(context, layer),
                text::maybe_text(longest) == self@.longest_in(context, layer, list@, i as int),
        {
            if let Some(name) = self.file_name(context, layer, list[i]) {
                let better = match &longest {
                    Some(held) => name.unicode_len() > held.unicode_len(),
                    None => true,
                };
                if better {
                    longest = Some(name);
                }
            }
        }
        longest
    }

    /// The name of a stream.
    pub fn stream_name(&self, attribute: Attribute) -> (name: Option<String>)
        ensures
            text::maybe_text(name) == self@.stream(attribute),
    {
        let at: u64 = attribute.offset.wrapping_sub(self.offset).wrapping_add(
            attribute.name_offset as u64,
        );
        match read_part(&self.window, at, attribute.name_length as u64 * 2) {
            Some(bytes) => Some(decode_utf16(bytes.as_slice())),
            None => None,
        }
    }
}

/// The content stored inside an attribute, where the attribute is believed.
pub open spec fn content_cell(context: &Context, layer: usize, attribute: Attribute) -> Cell {
    if attribute.content_length > MAX_RESIDENT {
        Cell::not_available()
    } else {
        match plugins::layer_cell(
            context,
            layer,
            attribute.offset.wrapping_add(attribute.content_offset as u64),
            attribute.content_length as usize,
        ) {
            Some(cell) => cell,
            None => Cell::not_available(),
        }
    }
}

/// The content stored inside an attribute, as the layer holds it.
pub fn resident_content(context: &Context, layer: usize, attribute: Attribute) -> (value: Value)
    ensures
        value@ == content_cell(context, layer, attribute),
{
    if attribute.content_length > MAX_RESIDENT {
        Value::not_available()
    } else {
        match layer_data(
            context,
            layer,
            attribute.offset.wrapping_add(attribute.content_offset as u64),
            attribute.content_length as usize,
        ) {
            Some(value) => value,
            None => Value::not_available(),
        }
    }
}

/// A row for the timestamps that the filesystem keeps for the record itself.
pub open spec fn standard_row(record: RecordView, attribute: Attribute) -> Option<Seq<Cell>> {
    match record.times(attribute, 0) {
        Some(times) => Some(
            seq![
                Cell::hex(attribute.offset.wrapping_add(ATTRIBUTE_DATA)),
                Cell::Text(record.signature),
                Cell::integer(record.record_number as i64),
                Cell::integer(record.link_count as i64),
                Cell::Text(record_kind(record.flags)),
                Cell::not_applicable(),
                Cell::Text("STANDARD_INFORMATION"@),
                time::wintime_cell(times.0),
                time::wintime_cell(times.1),
                time::wintime_cell(times.2),
                time::wintime_cell(times.3),
                Cell::not_applicable(),
            ],
        ),
        None => None,
    }
}

fn standard_values(record: &MftRecord, attribute: Attribute) -> (row: Option<Row>)
    ensures
        match row {
            Some(row) => standard_row(record@, attribute) == Some(row@),
            None => standard_row(record@, attribute) is None,
        },
{
    match record.timestamps(attribute, 0) {
        Some(times) => {
            let row = Row::new().with(
                Value::hex(attribute.offset.wrapping_add(ATTRIBUTE_DATA)),
            ).with(Value::string(&record.signature)).with(
                Value::integer(record.record_number as i64),
            ).with(Value::integer(record.link_count as i64)).with(
                Value::String(name_record_kind(record.flags)),
            ).with(Value::not_applicable()).with(Value::string("STANDARD_INFORMATION")).with(
                wintime_value(times.0),
            ).with(wintime_value(times.1)).with(wintime_value(times.2)).with(
                wintime_value(times.3),
            ).with(Value::not_applicable());
            assert(standard_row(record@, attribute) == Some(row@));
            Some(row)
        },
        None => None,
    }
}

/// A row for one of the names hanging off a record.
pub open spec fn name_row(
    context: &Context,
    layer: usize,
    record: RecordView,
    attribute: Attribute,
) -> Option<Seq<Cell>> {
    match record.times(attribute, 8) {
        Some(times) => Some(
            seq![
                Cell::hex(attribute.offset.wrapping_add(ATTRIBUTE_DATA)),
                Cell::Text(record.signature),
                Cell::integer(record.record_number as i64),
                Cell::integer(record.link_count as i64),
                Cell::Text(record_kind(record.flags)),
                Cell::Text(
                    match record.content_byte(attribute, 56) {
                        Some(flags) => permissions(flags),
                        None => "0x0"@,
                    },
                ),
                Cell::Text("FILE_NAME"@),
                time::wintime_cell(times.0),
                time::wintime_cell(times.1),
                time::wintime_cell(times.2),
                time::wintime_cell(times.3),
                match record.name_in(context, layer, attribute) {
                    Some(name) => Cell::Text(name),
                    None => Cell::not_available(),
                },
            ],
        ),
        None => None,
    }
}

fn name_values(context: &Context, layer: usize, record: &MftRecord, attribute: Attribute) -> (row:
    Option<Row>)
    ensures
        match row {
            Some(row) => name_row(context, layer, record@, attribute) == Some(row@),
            None => name_row(context, layer, record@, attribute) is None,
        },
{
    match record.timestamps(attribute, 8) {
        Some(times) => {
            let permissions = match record.byte_at(attribute, 56) {
                Some(flags) => name_permissions(flags),
                None => "0x0".to_owned(),
            };
            let name = match record.file_name(context, layer, attribute) {
                Some(name) => Value::String(name),
                None => Value::not_available(),
            };
            let row = Row::new().with(
                Value::hex(attribute.offset.wrapping_add(ATTRIBUTE_DATA)),
            ).with(Value::string(&record.signature)).with(
                Value::integer(record.record_number as i64),
            ).with(Value::integer(record.link_count as i64)).with(
                Value::String(name_record_kind(record.flags)),
            ).with(Value::String(permissions)).with(Value::string("FILE_NAME")).with(
                wintime_value(times.0),
            ).with(wintime_value(times.1)).with(wintime_value(times.2)).with(
                wintime_value(times.3),
            ).with(name);
            assert(name_row(context, layer, record@, attribute) == Some(row@));
            Some(row)
        },
        None => None,
    }
}

/// A report with the rows of the first of a record's own timestamps.
pub open spec fn with_standard(
    table: Table,
    record: RecordView,
    list: Seq<Attribute>,
    count: int,
) -> Table
    decreases count,
{
    if count <= 0 {
        table
    } else {
        let before = with_standard(table, record, list, count - 1);
        match standard_row(record, list[count - 1]) {
            Some(row) => before.push(0, row),
            None => before,
        }
    }
}

/// A report with the rows of the first of a record's names.
pub open spec fn with_names(
    context: &Context,
    layer: usize,
    table: Table,
    record: RecordView,
    list: Seq<Attribute>,
    count: int,
) -> Table
    decreases count,
{
    if count <= 0 {
        table
    } else {
        let before = with_names(context, layer, table, record, list, count - 1);
        match name_row(context, layer, record, list[count - 1]) {
            Some(row) => before.push(1, row),
            None => before,
        }
    }
}

/// A report with the rows of one more record: the timestamps the filesystem
/// keeps for the record itself come first, and the names hanging off it are
/// reported beneath.
#[verifier::opaque]
pub open spec fn with_record(
    context: &Context,
    layer: usize,
    table: Table,
    record: RecordView,
) -> Table {
    let own = of_kind(record.walk(context, layer).found, STANDARD_INFORMATION);
    let once = record.after(context, layer);
    let names = of_kind(once.walk(context, layer).found, FILE_NAME);
    with_names(
        context,
        layer,
        with_standard(table, once, own, own.len() as int),
        once.after(context, layer),
        names,
        names.len() as int,
    )
}

fn add_record(context: &Context, layer: usize, grid: &mut TreeGrid, record: &mut MftRecord)
    ensures
        final(grid)@ == with_record(context, layer, old(grid)@, old(record)@),
{
    reveal(with_record);
    let own = record.attributes_of(context, layer, STANDARD_INFORMATION);
    let ghost once = record@;
    for i in 0..own.len()
        invariant
            record@ == once,
            grid@ == with_standard(old(grid)@, once, own@, i as int),
    {
        if let Some(row) = standard_values(record, own[i]) {
            grid.push(0, row);
        }
    }
    let names = record.attributes_of(context, layer, FILE_NAME);
    let ghost twice = record@;
    let ghost start = grid@;
    for i in 0..names.len()
        invariant
            record@ == twice,
            grid@ == with_names(context, layer, start, twice, names@, i as int),
    {
        if let Some(row) = name_values(context, layer, record, names[i]) {
            grid.push(1, row);
        }
    }
}

/// The report on the first of some records.
pub open spec fn reported(
    context: &Context,
    layer: usize,
    headings: Seq<Column>,
    records: Seq<RecordView>,
    count: int,
) -> Table
    decreases count,
{
    if count <= 0 {
        Table::empty(headings)
    } else {
        with_record(
            context,
            layer,
            reported(context, layer, headings, records, count - 1),
            records[count - 1],
        )
    }
}

/// A file's name, unless a record whose names are all empty has none worth
/// reporting.
pub open spec fn worth_reporting(name: Option<Seq<char>>) -> Option<Seq<char>> {
    match name {
        Some(name) if name.len() > 0 => Some(name),
        _ => None,
    }
}

fn reportable_name(record: &mut MftRecord, context: &Context, layer: usize) -> (name: Option<String>)
    ensures
        text::maybe_text(name) == worth_reporting(old(record)@.longest_name(context, layer)),
        final(record)@ == old(record)@.after(context, layer),
{
    match record.longest_file_name(context, layer) {
        Some(name) => if name.unicode_len() > 0 {
            Some(name)
        } else {
            None
        },
        None => None,
    }
}

/// A row for a stream beside a file's own content.
pub open spec fn stream_row(
    context: &Context,
    layer: usize,
    record: RecordView,
    attribute: Attribute,
) -> Seq<Cell> {
    seq![
        Cell::hex(attribute.offset.wrapping_add(ATTRIBUTE_DATA)),
        Cell::Text(record.signature),
        Cell::integer(record.record_number as i64),
        Cell::Text("DATA"@),
        match worth_reporting(record.longest_name(context, layer)) {
            Some(name) => Cell::Text(name),
            None => Cell::not_available(),
        },
        match record.after(context, layer).stream(attribute) {
            Some(name) => Cell::Text(name),
            None => Cell::not_available(),
        },
        content_cell(context, layer, attribute),
    ]
}

fn stream_values(
    context: &Context,
    layer: usize,
    record: &mut MftRecord,
    attribute: Attribute,
) -> (row: Row)
    ensures
        row@ == stream_row(context, layer, old(record)@, attribute),
        final(record)@ == old(record)@.after(context, layer),
{
    let name = match reportable_name(record, context, layer) {
        Some(name) => Value::String(name),
        None => Value::not_available(),
    };
    let stream = match record.stream_name(attribute) {
        Some(name) => Value::String(name),
        None => Value::not_available(),
    };
    Row::new().with(Value::hex(attribute.offset.wrapping_add(ATTRIBUTE_DATA))).with(
        Value::string(&record.signature),
    ).with(Value::integer(record.record_number as i64)).with(Value::string("DATA")).with(name).with(
        stream,
    ).with(resident_content(context, layer, attribute))
}

/// A report, and the record it is about as far as it was read.
#[verifier::ext_equal]
pub struct StreamProgress {
    pub table: Table,
    pub record: RecordView,
}

/// How far the report is once the first of a record's streams are in it.
pub open spec fn after_streams(
    context: &Context,
    layer: usize,
    start: StreamProgress,
    list: Seq<Attribute>,
    count: int,
) -> StreamProgress
    decreases count,
{
    if count <= 0 {
        start
    } else {
        let before = after_streams(context, layer, start, list, count - 1);
        StreamProgress {
            table: before.table.push(
                0,
                stream_row(context, layer, before.record, list[count - 1]),
            ),
            record: before.record.after(context, layer),
        }
    }
}

/// A report with the streams of one more record.
#[verifier::opaque]
pub open spec fn with_streams(
    context: &Context,
    layer: usize,
    table: Table,
    record: RecordView,
) -> Table {
    let list = streams(record.walk(context, layer).found, true);
    after_streams(
        context,
        layer,
        StreamProgress { table, record: record.after(context, layer) },
        list,
        list.len() as int,
    ).table
}

fn add_streams(context: &Context, layer: usize, grid: &mut TreeGrid, record: &mut MftRecord)
    ensures
        final(grid)@ == with_streams(context, layer, old(grid)@, old(record)@),
{
    reveal(with_streams);
    let list = record.data_attributes(context, layer, true);
    let ghost start = StreamProgress { table: grid@, record: record@ };
    for i in 0..list.len()
        invariant
            (StreamProgress { table: grid@, record: record@ }) == after_streams(
                context,
                layer,
                start,
                list@,
                i as int,
            ),
    {
        let row = stream_values(context, layer, record, list[i]);
        grid.push(0, row);
    }
}

/// The report on the streams of the first of some records.
pub open spec fn streams_reported(
    context: &Context,
    layer: usize,
    headings: Seq<Column>,
    records: Seq<RecordView>,
    count: int,
) -> Table
    decreases count,
{
    if count <= 0 {
        Table::empty(headings)
    } else {
        with_streams(
            context,
            layer,
            streams_reported(context, layer, headings, records, count - 1),
            records[count - 1],
        )
    }
}

/// A row for the content of a file that is stored in its record. The name is
/// written out as text whether or not there is one, so a record with none says
/// so in words.
pub open spec fn content_row(
    context: &Context,
    layer: usize,
    record: RecordView,
    attribute: Attribute,
) -> Seq<Cell> {
    seq![
        Cell::hex(attribute.offset.wrapping_add(ATTRIBUTE_DATA)),
        Cell::Text(record.signature),
        Cell::integer(record.record_number as i64),
        Cell::Text("DATA"@),
        Cell::Text(
            match worth_reporting(record.longest_name(context, layer)) {
                Some(name) => name,
                None => "N/A"@,
            },
        ),
        content_cell(context, layer, attribute),
    ]
}

/// A report with the content of one more record: only the file's own stream, and
/// only the first of them.
#[verifier::opaque]
pub open spec fn with_content(
    context: &Context,
    layer: usize,
    table: Table,
    record: RecordView,
) -> Table {
    let list = streams(record.walk(context, layer).found, false);
    if list.len() == 0 {
        table
    } else {
        table.push(0, content_row(context, layer, record.after(context, layer), list[0]))
    }
}

fn add_content(context: &Context, layer: usize, grid: &mut TreeGrid, record: &mut MftRecord)
    ensures
        final(grid)@ == with_content(context, layer, old(grid)@, old(record)@),
{
    reveal(with_content);
    let list = record.data_attributes(context, layer, false);
    if list.len() > 0 {
        let ghost once = record@;
        let attribute = list[0];
        let name = match reportable_name(record, context, layer) {
            Some(name) => name,
            None => "N/A".to_owned(),
        };
        let row = Row::new().with(
            Value::hex(attribute.offset.wrapping_add(ATTRIBUTE_DATA)),
        ).with(Value::string(&record.signature)).with(
            Value::integer(record.record_number as i64),
        ).with(Value::string("DATA")).with(Value::String(name)).with(
            resident_content(context, layer, attribute),
        );
        assert(row@ == content_row(context, layer, once, attribute));
        grid.push(0, row);
    }
}

/// The report on the content of the first of some records.
pub open spec fn content_reported(
    context: &Context,
    layer: usize,
    headings: Seq<Column>,
    records: Seq<RecordView>,
    count: int,
) -> Table
    decreases count,
{
    if count <= 0 {
        Table::empty(headings)
    } else {
        with_content(
            context,
            layer,
            content_reported(context, layer, headings, records, count - 1),
            records[count - 1],
        )
    }
}

/// The four moments of an attribute.
pub open spec fn four_moments(description: Seq<char>, times: (u64, u64, u64, u64)) -> Seq<
    MomentView,
> {
    seq![
        MomentView { description, kind: TimeKind::Created, time: time::wintime_cell(times.0) },
        MomentView { description, kind: TimeKind::Modified, time: time::wintime_cell(times.1) },
        MomentView { description, kind: TimeKind::Changed, time: time::wintime_cell(times.2) },
        MomentView { description, kind: TimeKind::Accessed, time: time::wintime_cell(times.3) },
    ]
}

fn add_moments(timeline: &mut Timeline, description: &str, times: (u64, u64, u64, u64))
    ensures
        final(timeline)@ == (TimelineView {
            entries: old(timeline)@.entries + four_moments(description@, times),
            ..old(timeline)@
        }),
{
    timeline.push(description, TimeKind::Created, wintime_value(times.0));
    timeline.push(description, TimeKind::Modified, wintime_value(times.1));
    timeline.push(description, TimeKind::Changed, wintime_value(times.2));
    timeline.push(description, TimeKind::Accessed, wintime_value(times.3));
    assert(timeline@.entries =~= old(timeline)@.entries + four_moments(description@, times));
}

/// The moments of the first of a record's own timestamps.
pub open spec fn own_moments(
    record: RecordView,
    name: Seq<char>,
    list: Seq<Attribute>,
    count: int,
) -> Seq<MomentView>
    decreases count,
{
    if count <= 0 {
        Seq::empty()
    } else {
        let before = own_moments(record, name, list, count - 1);
        match record.times(list[count - 1], 0) {
            Some(times) => before + four_moments(
                "MFT STANDARD_INFORMATION entry for "@ + name,
                times,
            ),
            None => before,
        }
    }
}

/// The moments of the first of a record's names.
pub open spec fn name_moments(
    context: &Context,
    layer: usize,
    record: RecordView,
    list: Seq<Attribute>,
    count: int,
) -> Seq<MomentView>
    decreases count,
{
    if count <= 0 {
        Seq::empty()
    } else {
        let before = name_moments(context, layer, record, list, count - 1);
        match (
            record.times(list[count - 1], 8),
            record.name_in(context, layer, list[count - 1]),
        ) {
            (Some(times), Some(name)) => before + four_moments(
                "MFT FILE_NAME entry for "@ + name,
                times,
            ),
            _ => before,
        }
    }
}

/// The moments of a record. Its own timestamps are described by the longest of
/// the names it carries, which is the one closest to a full path, or by a word
/// that says there is none.
#[verifier::opaque]
pub open spec fn record_moments(context: &Context, layer: usize, record: RecordView) -> Seq<
    MomentView,
> {
    let name = match record.longest_name(context, layer) {
        Some(name) => name,
        None => "None"@,
    };
    let once = record.after(context, layer);
    let own = of_kind(once.walk(context, layer).found, STANDARD_INFORMATION);
    let twice = once.after(context, layer);
    let names = of_kind(twice.walk(context, layer).found, FILE_NAME);
    own_moments(twice, name, own, own.len() as int) + name_moments(
        context,
        layer,
        twice.after(context, layer),
        names,
        names.len() as int,
    )
}

fn add_record_moments(
    context: &Context,
    layer: usize,
    timeline: &mut Timeline,
    record: &mut MftRecord,
)
    ensures
        final(timeline)@ == (TimelineView {
            entries: old(timeline)@.entries + record_moments(context, layer, old(record)@),
            ..old(timeline)@
        }),
{
    reveal(record_moments);
    let ghost start = timeline@;
    let name = match record.longest_file_name(context, layer) {
        Some(name) => name,
        None => "None".to_owned(),
    };
    let own = record.attributes_of(context, layer, STANDARD_INFORMATION);
    let ghost twice = record@;
    let ghost first = own_moments(twice, name@, own@, own@.len() as int);
    assert(start.entries =~= start.entries + own_moments(twice, name@, own@, 0));
    for i in 0..own.len()
        invariant
            record@ == twice,
            timeline@ == (TimelineView {
                entries: start.entries + own_moments(twice, name@, own@, i as int),
                ..start
            }),
    {
        if let Some(times) = record.timestamps(own[i], 0) {
            let mut description = "MFT STANDARD_INFORMATION entry for ".to_owned();
            description.append(&name);
            add_moments(timeline, &description, times);
        }
        assert(timeline@.entries =~= start.entries + own_moments(twice, name@, own@, i + 1));
    }
    let names = record.attributes_of(context, layer, FILE_NAME);
    let ghost thrice = record@;
    assert(start.entries + first =~= start.entries + (first + name_moments(
        context,
        layer,
        thrice,
        names@,
        0,
    )));
    for i in 0..names.len()
        invariant
            record@ == thrice,
            timeline@ == (TimelineView {
                entries: start.entries + (first + name_moments(
                    context,
                    layer,
                    thrice,
                    names@,
                    i as int,
                )),
                ..start
            }),
    {
        if let Some(times) = record.timestamps(names[i], 8) {
            if let Some(name) = record.file_name(context, layer, names[i]) {
                let mut description = "MFT FILE_NAME entry for ".to_owned();
                description.append(&name);
                add_moments(timeline, &description, times);
            }
        }
        assert(timeline@.entries =~= start.entries + (first + name_moments(
            context,
            layer,
            thrice,
            names@,
            i + 1,
        )));
    }
}

/// The moments of the first of some records.
pub open spec fn moments_of(
    context: &Context,
    layer: usize,
    records: Seq<RecordView>,
    count: int,
) -> Seq<MomentView>
    decreases count,
{
    if count <= 0 {
        Seq::empty()
    } else {
        moments_of(context, layer, records, count - 1) + record_moments(
            context,
            layer,
            records[count - 1],
        )
    }
}

/// The layer that holds the machine's memory.
pub open spec fn memory_layer(context: &Context, config: &Configuration) -> Option<usize> {
    match context::named_from(context.layers@, plugins::windows::physical_name(config), 0) {
        Some(layer) => Some(layer as usize),
        None => None,
    }
}

fn find_memory(context: &Context, config: &Configuration) -> (layer: Option<usize>)
    ensures
        layer == memory_layer(context, config),
        layer is Some ==> layer->0 < context.layers@.len(),
{
    let physical = physical_layer(config);
    proof {
        context::lemma_named_from(context.layers@, physical@, 0);
    }
    context.layer_named(&physical)
}

impl Plugin for MftScan {
    open spec fn named(&self) -> Seq<char> {
        "windows.mftscan.MFTScan"@
    }

    open spec fn described(&self) -> Seq<char> {
        "Scans for MFT FILE objects present in a particular windows memory image."@
    }

    open spec fn needs(&self) -> Seq<RequirementView> {
        seq![
            RequirementView::new(
                "primary"@,
                "Memory layer for the kernel"@,
                KindView::TranslationLayer,
            ).for_architectures(seq!["Intel32", "Intel64"]),
        ]
    }

    open spec fn headings(&self) -> Seq<Column> {
        seq![
            Column::new("Offset", ColumnType::UInt),
            Column::string("Record Type"),
            Column::integer("Record Number"),
            Column::integer("Link Count"),
            Column::string("MFT Type"),
            Column::string("Permissions"),
            Column::string("Attribute Type"),
            Column::datetime("Created"),
            Column::datetime("Modified"),
            Column::datetime("Updated"),
            Column::datetime("Accessed"),
            Column::string("Filename"),
        ]
    }

    open spec fn system(&self) -> OperatingSystem {
        OperatingSystem::Windows
    }

    open spec fn report(&self, context: &Context, config: &Configuration) -> Result<Table, Failure> {
        match memory_layer(context, config) {
            Some(layer) => {
                let records = records_in(context, layer);
                Ok(reported(context, layer, self.headings(), records, records.len() as int))
            },
            None => Err(Failure::Unavailable),
        }
    }

    open spec fn moments(&self, context: &Context, config: &Configuration) -> Option<TimelineView> {
        match memory_layer(context, config) {
            Some(layer) => Some(
                TimelineView {
                    entries: moments_of(
                        context,
                        layer,
                        records_in(context, layer),
                        records_in(context, layer).len() as int,
                    ),
                    failed: false,
                },
            ),
            None => None,
        }
    }

    fn name(&self) -> (name: &'static str) {
        "windows.mftscan.MFTScan"
    }

    fn description(&self) -> (description: &'static str) {
        "Scans for MFT FILE objects present in a particular windows memory image."
    }

    fn requirements(&self) -> (requirements: Vec<Requirement>) {
        vec![
            Requirement::new(
                "primary",
                "Memory layer for the kernel",
                RequirementKind::TranslationLayer,
            ).for_architectures(&["Intel32", "Intel64"]),
        ]
    }

    fn operating_system(&self) -> (system: OperatingSystem) {
        OperatingSystem::Windows
    }

    fn columns(&self) -> (columns: Vec<Column>) {
        vec![
            Column::new("Offset", ColumnType::UInt),
            Column::string("Record Type"),
            Column::integer("Record Number"),
            Column::integer("Link Count"),
            Column::string("MFT Type"),
            Column::string("Permissions"),
            Column::string("Attribute Type"),
            Column::datetime("Created"),
            Column::datetime("Modified"),
            Column::datetime("Updated"),
            Column::datetime("Accessed"),
            Column::string("Filename"),
        ]
    }

    fn timeline(&self, context: &Context, config: &Configuration) -> (timeline: Option<Timeline>) {
        let layer = match find_memory(context, config) {
            Some(layer) => layer,
            None => return None,
        };
        let mut records = enumerate_records(context, layer);
        let mut timeline = Timeline::new();
        let ghost all = record_views(records@);
        let total: usize = records.len();
        for i in 0..total
            invariant
                total == records@.len(),
                all.len() == total,
                forall|j: int| i <= j < total ==> records@[j]@ == #[trigger] all[j],
                timeline@ == (TimelineView {
                    entries: moments_of(context, layer, all, i as int),
                    failed: false,
                }),
        {
            add_record_moments(context, layer, &mut timeline, &mut records[i]);
        }
        Some(timeline)
    }

    fn epilog(&self) -> (epilog: Option<&'static str>) {
        None
    }

    fn needs_kernel(&self) -> (needed: bool) {
        false
    }

    fn run(&self, context: &Context, config: &Configuration) -> (result: Result<TreeGrid, VolatilityError>) {
        let layer = match find_memory(context, config) {
            Some(layer) => layer,
            None => return Err(VolatilityError::Unavailable),
        };
        let mut records = enumerate_records(context, layer);
        let mut grid = TreeGrid::new(self.columns());
        let ghost headings = self.headings();
        let ghost all = record_views(records@);
        let total: usize = records.len();
        for i in 0..total
            invariant
                total == records@.len(),
                all.len() == total,
                forall|j: int| i <= j < total ==> records@[j]@ == #[trigger] all[j],
                grid@ == reported(context, layer, headings, all, i as int),
        {
            add_record(context, layer, &mut grid, &mut records[i]);
        }
        Ok(grid)
    }
}

impl Plugin for Ads {
    open spec fn named(&self) -> Seq<char> {
        "windows.mftscan.ADS"@
    }

    open spec fn described(&self) -> Seq<char> {
        "Scans for Alternate Data Stream"@
    }

    open spec fn needs(&self) -> Seq<RequirementView> {
        seq![
            RequirementView::new(
                "primary"@,
                "Memory layer for the kernel"@,
                KindView::TranslationLayer,
            ).for_architectures(seq!["Intel32", "Intel64"]),
        ]
    }

    open spec fn headings(&self) -> Seq<Column> {
        seq![
            Column::new("Offset", ColumnType::UInt),
            Column::string("Record Type"),
            Column::integer("Record Number"),
            Column::string("MFT Type"),
            Column::string("Filename"),
            Column::string("ADS Filename"),
            Column::bytes("Hexdump"),
        ]
    }

    open spec fn system(&self) -> OperatingSystem {
        OperatingSystem::Windows
    }

    open spec fn report(&self, context: &Context, config: &Configuration) -> Result<Table, Failure> {
        match memory_layer(context, config) {
            Some(layer) => {
                let records = records_in(context, layer);
                Ok(
                    streams_reported(
                        context,
                        layer,
                        self.headings(),
                        records,
                        records.len() as int,
                    ),
                )
            },
            None => Err(Failure::Unavailable),
        }
    }

    fn name(&self) -> (name: &'static str) {
        "windows.mftscan.ADS"
    }

    fn description(&self) -> (description: &'static str) {
        "Scans for Alternate Data Stream"
    }

    fn requirements(&self) -> (requirements: Vec<Requirement>) {
        vec![
            Requirement::new(
                "primary",
                "Memory layer for the kernel",
                RequirementKind::TranslationLayer,
            ).for_architectures(&["Intel32", "Intel64"]),
        ]
    }

    fn operating_system(&self) -> (system: OperatingSystem) {
        OperatingSystem::Windows
    }

    fn columns(&self) -> (columns: Vec<Column>) {
        vec![
            Column::new("Offset", ColumnType::UInt),
            Column::string("Record Type"),
            Column::integer("Record Number"),
            Column::string("MFT Type"),
            Column::string("Filename"),
            Column::string("ADS Filename"),
            Column::bytes("Hexdump"),
        ]
    }

    fn epilog(&self) -> (epilog: Option<&'static str>) {
        None
    }

    fn timeline(&self, context: &Context, config: &Configuration) -> (timeline: Option<
        plugins::Timeline,
    >) {
        None
    }

    fn needs_kernel(&self) -> (needed: bool) {
        false
    }

    fn run(&self, context: &Context, config: &Configuration) -> (result: Result<TreeGrid, VolatilityError>) {
        let layer = match find_memory(context, config) {
            Some(layer) => layer,
            None => return Err(VolatilityError::Unavailable),
        };
        let mut records = enumerate_records(context, layer);
        let mut grid = TreeGrid::new(self.columns());
        let ghost headings = self.headings();
        let ghost all = record_views(records@);
        let total: usize = records.len();
        for i in 0..total
            invariant
                total == records@.len(),
                all.len() == total,
                forall|j: int| i <= j < total ==> records@[j]@ == #[trigger] all[j],
                grid@ == streams_reported(context, layer, headings, all, i as int),
        {
            add_streams(context, layer, &mut grid, &mut records[i]);
        }
        Ok(grid)
    }
}

impl Plugin for ResidentData {
    open spec fn named(&self) -> Seq<char> {
        "windows.mftscan.ResidentData"@
    }

    open spec fn described(&self) -> Seq<char> {
        "Scans for MFT Records with Resident Data"@
    }

    open spec fn needs(&self) -> Seq<RequirementView> {
        seq![
            RequirementView::new(
                "primary"@,
                "Memory layer for the kernel"@,
                KindView::TranslationLayer,
            ).for_architectures(seq!["Intel32", "Intel64"]),
        ]
    }

    open spec fn headings(&self) -> Seq<Column> {
        seq![
            Column::new("Offset", ColumnType::UInt),
            Column::string("Record Type"),
            Column::integer("Record Number"),
            Column::string("MFT Type"),
            Column::string("Filename"),
            Column::bytes("Hexdump"),
        ]
    }

    open spec fn system(&self) -> OperatingSystem {
        OperatingSystem::Windows
    }

    open spec fn report(&self, context: &Context, config: &Configuration) -> Result<Table, Failure> {
        match memory_layer(context, config) {
            Some(layer) => {
                let records = records_in(context, layer);
                Ok(
                    content_reported(
                        context,
                        layer,
                        self.headings(),
                        records,
                        records.len() as int,
                    ),
                )
            },
            None => Err(Failure::Unavailable),
        }
    }

    fn name(&self) -> (name: &'static str) {
        "windows.mftscan.ResidentData"
    }

    fn description(&self) -> (description: &'static str) {
        "Scans for MFT Records with Resident Data"
    }

    fn requirements(&self) -> (requirements: Vec<Requirement>) {
        vec![
            Requirement::new(
                "primary",
                "Memory layer for the kernel",
                RequirementKind::TranslationLayer,
            ).for_architectures(&["Intel32", "Intel64"]),
        ]
    }

    fn operating_system(&self) -> (system: OperatingSystem) {
        OperatingSystem::Windows
    }

    fn columns(&self) -> (columns: Vec<Column>) {
        vec![
            Column::new("Offset", ColumnType::UInt),
            Column::string("Record Type"),
            Column::integer("Record Number"),
            Column::string("MFT Type"),
            Column::string("Filename"),
            Column::bytes("Hexdump"),
        ]
    }

    fn epilog(&self) -> (epilog: Option<&'static str>) {
        None
    }

    fn timeline(&self, context: &Context, config: &Configuration) -> (timeline: Option<
        plugins::Timeline,
    >) {
        None
    }

    fn needs_kernel(&self) -> (needed: bool) {
        false
    }

    fn run(&self, context: &Context, config: &Configuration) -> (result: Result<TreeGrid, VolatilityError>) {
        let layer = match find_memory(context, config) {
            Some(layer) => layer,
            None => return Err(VolatilityError::Unavailable),
        };
        let mut records = enumerate_records(context, layer);
        let mut grid = TreeGrid::new(self.columns());
        let ghost headings = self.headings();
        let ghost all = record_views(records@);
        let total: usize = records.len();
        for i in 0..total
            invariant
                total == records@.len(),
                all.len() == total,
                forall|j: int| i <= j < total ==> records@[j]@ == #[trigger] all[j],
                grid@ == content_reported(context, layer, headings, all, i as int),
        {
            add_content(context, layer, &mut grid, &mut records[i]);
        }
        Ok(grid)
    }
}

} // verus!
