//! A memory image: its layers of bytes, the types its symbols describe, and the
//! objects those types make of the bytes.

use crate::plugins::output::Output;
use crate::plugins::tree::Siblings;
use crate::symbols::mac::Mac;
use crate::symbols::windows::Windows;
use crate::text::{same_text, utf16, utf8_lossy, units_of};
use vstd::prelude::*;

verus! {

/// Something found by its name.
pub trait Named {
    /// The name.
    spec fn called(&self) -> Seq<char>;

    /// The name.
    fn label(&self) -> (name: &str)
        ensures
            name@ == self.called(),
    ;
}

/// The place of the first item of a name at or behind a place.
pub open spec fn named_from<T: Named>(list: Seq<T>, name: Seq<char>, from: int) -> Option<int>
    decreases list.len() - from,
{
    if from < 0 || from >= list.len() {
        None
    } else if list[from].called() == name {
        Some(from)
    } else {
        named_from(list, name, from + 1)
    }
}

/// The first item of a name.
pub open spec fn named<T: Named>(list: Seq<T>, name: Seq<char>) -> Option<T> {
    match named_from(list, name, 0) {
        Some(at) => Some(list[at]),
        None => None,
    }
}

/// The place of an item of a name is a place of the list, and holds that name.
pub proof fn lemma_named_from<T: Named>(list: Seq<T>, name: Seq<char>, from: int)
    requires
        0 <= from,
    ensures
        named_from(list, name, from) matches Some(at) ==> from <= at < list.len()
            && list[at].called() == name,
    decreases list.len() - from,
{
    if from < list.len() && list[from].called() != name {
        lemma_named_from(list, name, from + 1);
    }
}

/// The place of the first item of a name.
pub fn find_named<T: Named>(list: &Vec<T>, name: &str) -> (found: Option<usize>)
    ensures
        match found {
            Some(at) => at < list@.len() && named_from(list@, name@, 0) == Some(at as int),
            None => named_from(list@, name@, 0) is None,
        },
{
    let mut i: usize = 0;
    while i < list.len()
        invariant
            i <= list@.len(),
            named_from(list@, name@, 0) == named_from(list@, name@, i as int),
        decreases list@.len() - i,
    {
        if same_text(list[i].label(), name) {
            return Some(i);
        }
        i = i + 1;
    }
    None
}

/// A run of bytes that a layer holds, and where the layer below holds them.
#[derive(Debug)]
pub struct Region {
    pub start: u64,
    /// Where the bytes stand in the layer below.
    pub mapped: u64,
    /// The layer below.
    pub below: usize,
    pub bytes: Vec<u8>,
}

impl Region {
    /// Whether an address lies in the region.
    pub open spec fn covers(&self, address: int) -> bool {
        self.start <= address < self.start + self.bytes@.len()
    }
}

/// An address space.
#[derive(Debug)]
pub struct Layer {
    pub name: String,
    /// The bits an address of this layer has.
    pub mask: u64,
    pub minimum: u64,
    pub maximum: u64,
    pub regions: Vec<Region>,
    /// What sort of address space this is.
    pub kind: String,
    /// Where the page tables begin, for a layer that has some.
    pub page_map: Option<u64>,
    /// Whether the page tables are of the extended 32 bit form.
    pub pae: bool,
    /// The names of the layers that this one rests on.
    pub below: Vec<String>,
}

impl Named for Layer {
    open spec fn called(&self) -> Seq<char> {
        self.name@
    }

    fn label(&self) -> &str {
        self.name.as_str()
    }
}

/// The byte that the first region to cover an address holds there.
pub open spec fn byte_from(regions: Seq<Region>, address: int, from: int) -> Option<u8>
    decreases regions.len() - from,
{
    if from < 0 || from >= regions.len() {
        None
    } else if regions[from].covers(address) {
        Some(regions[from].bytes@[address - regions[from].start])
    } else {
        byte_from(regions, address, from + 1)
    }
}

impl Layer {
    /// The byte at an address.
    pub open spec fn byte(&self, address: int) -> Option<u8> {
        if 0 <= address <= u64::MAX {
            byte_from(self.regions@, address, 0)
        } else {
            None
        }
    }

    /// Whether every byte of a range is there.
    pub open spec fn has(&self, address: int, length: int) -> bool {
        forall|i: int| 0 <= i < length ==> self.byte(#[trigger] (address + i)) is Some
    }

    /// The bytes of a range, with a zero for each that is not there.
    pub open spec fn padded(&self, address: int, length: int) -> Seq<u8> {
        Seq::new(
            length as nat,
            |i: int|
                match self.byte(address + i) {
                    Some(byte) => byte,
                    None => 0u8,
                },
        )
    }

    fn byte_at(&self, address: u64) -> (byte: Option<u8>)
        ensures
            byte == self.byte(address as int),
    {
        let mut i: usize = 0;
        while i < self.regions.len()
            invariant
                i <= self.regions@.len(),
                self.byte(address as int) == byte_from(
                    self.regions@,
                    address as int,
                    i as int,
                ),
            decreases self.regions@.len() - i,
        {
            let region = &self.regions[i];
            if region.start <= address && address - region.start < region.bytes.len() as u64 {
                return Some(region.bytes[(address - region.start) as usize]);
            }
            i = i + 1;
        }
        None
    }
}

/// Where the layer below holds the byte at an address: the first region to
/// cover it says so.
pub open spec fn mapped_from(regions: Seq<Region>, address: int, from: int) -> Option<u64>
    decreases regions.len() - from,
{
    if from < 0 || from >= regions.len() {
        None
    } else if regions[from].covers(address) {
        Some(regions[from].mapped.wrapping_add((address - regions[from].start) as u64))
    } else {
        mapped_from(regions, address, from + 1)
    }
}

impl Context {
    pub open spec fn spec_translate(&self, layer: usize, address: u64) -> Option<u64> {
        if layer < self.layers@.len() {
            mapped_from(self.layers@[layer as int].regions@, address as int, 0)
        } else {
            None
        }
    }

    /// Where the layer below holds the byte at an address.
    #[verifier::when_used_as_spec(spec_translate)]
    pub fn translate(&self, layer: usize, address: u64) -> (mapped: Option<u64>)
        ensures
            mapped == self.spec_translate(layer, address),
    {
        if layer >= self.layers.len() {
            return None;
        }
        let regions = &self.layers[layer].regions;
        let mut i: usize = 0;
        while i < regions.len()
            invariant
                layer < self.layers@.len(),
                *regions == self.layers@[layer as int].regions,
                i <= regions@.len(),
                self.spec_translate(layer, address) == mapped_from(
                    regions@,
                    address as int,
                    i as int,
                ),
            decreases regions@.len() - i,
        {
            let region = &regions[i];
            if region.start <= address && address - region.start < region.bytes.len() as u64 {
                return Some(region.mapped.wrapping_add(address - region.start));
            }
            i = i + 1;
        }
        None
    }
}

/// A stretch of a layer and the stretch of the layer below that it maps to.
#[derive(Clone, Copy, PartialEq, Eq, Structural, Debug)]
pub struct MappingEntry {
    pub offset: u64,
    pub size: u64,
    pub mapped_offset: u64,
    pub mapped_size: u64,
    pub layer: usize,
}

impl Region {
    /// The part of the region that lies in a range, where some of it does.
    pub open spec fn part(&self, start: u64, length: u64) -> Option<MappingEntry> {
        let low = if self.start < start {
            start
        } else {
            self.start
        };
        let high = if self.start + self.bytes@.len() < start + length {
            self.start + self.bytes@.len()
        } else {
            start + length
        };
        if low < high {
            Some(
                MappingEntry {
                    offset: low,
                    size: (high - low) as u64,
                    mapped_offset: self.mapped.wrapping_add((low - self.start) as u64),
                    mapped_size: (high - low) as u64,
                    layer: self.below,
                },
            )
        } else {
            None
        }
    }

    fn part_of(&self, start: u64, length: u64) -> (part: Option<MappingEntry>)
        ensures
            part == self.part(start, length),
    {
        let low: u64 = if self.start < start {
            start
        } else {
            self.start
        };
        let region_end: u128 = self.start as u128 + self.bytes.len() as u128;
        let range_end: u128 = start as u128 + length as u128;
        let high: u128 = if region_end < range_end {
            region_end
        } else {
            range_end
        };
        if (low as u128) < high {
            let size: u64 = (high - low as u128) as u64;
            Some(
                MappingEntry {
                    offset: low,
                    size,
                    mapped_offset: self.mapped.wrapping_add(low - self.start),
                    mapped_size: size,
                    layer: self.below,
                },
            )
        } else {
            None
        }
    }
}

/// The parts of regions that lie in a range, in order.
pub open spec fn parts(regions: Seq<Region>, start: u64, length: u64) -> Seq<MappingEntry>
    decreases regions.len(),
{
    if regions.len() == 0 {
        Seq::empty()
    } else {
        let before = parts(regions.drop_last(), start, length);
        match regions.last().part(start, length) {
            Some(part) => before.push(part),
            None => before,
        }
    }
}

impl Layer {
    /// The stretches of a range that the layer holds, in order.
    pub fn mapping(&self, start: u64, length: u64) -> (entries: Vec<MappingEntry>)
        ensures
            entries@ == parts(self.regions@, start, length),
    {
        let mut entries: Vec<MappingEntry> = Vec::new();
        for i in 0..self.regions.len()
            invariant
                entries@ == parts(self.regions@.take(i as int), start, length),
        {
            assert(self.regions@.take(i + 1).drop_last() =~= self.regions@.take(i as int));
            if let Some(part) = self.regions[i].part_of(start, length) {
                entries.push(part);
            }
        }
        assert(self.regions@.take(self.regions@.len() as int) =~= self.regions@);
        entries
    }

    /// Whether bytes stand at an address.
    pub open spec fn spells(&self, address: int, bytes: Seq<u8>) -> bool {
        forall|i: int| 0 <= i < bytes.len() ==> self.byte(#[trigger] (address + i)) == Some(bytes[i])
    }

    fn is_spelled(&self, address: u64, bytes: &[u8]) -> (spelled: bool)
        ensures
            spelled == self.spells(address as int, bytes@),
    {
        for i in 0..bytes.len()
            invariant
                forall|j: int|
                    0 <= j < i ==> self.byte(#[trigger] (address as int + j)) == Some(bytes@[j]),
        {
            let found = match address.checked_add(i as u64) {
                Some(at) => self.byte_at(at),
                None => None,
            };
            assert(found == self.byte(address as int + i as int));
            match found {
                Some(byte) => if byte != bytes[i] {
                    return false;
                },
                None => {
                    return false;
                },
            }
        }
        true
    }

    /// The addresses of the first bytes of a region at which a needle stands.
    pub open spec fn found_in_region(&self, region: Region, needle: Seq<u8>, count: int) -> Seq<u64>
        decreases count,
    {
        if count <= 0 {
            Seq::empty()
        } else {
            let before = self.found_in_region(region, needle, count - 1);
            let address = region.start + count - 1;
            if address <= u64::MAX && self.spells(address, needle) {
                before.push(address as u64)
            } else {
                before
            }
        }
    }

    /// The addresses at which a needle stands, region by region.
    pub open spec fn found(&self, needle: Seq<u8>, count: int) -> Seq<u64>
        decreases count,
    {
        if count <= 0 {
            Seq::empty()
        } else {
            self.found(needle, count - 1) + self.found_in_region(
                self.regions@[count - 1],
                needle,
                self.regions@[count - 1].bytes@.len() as int,
            )
        }
    }

    /// Every address at which a needle stands.
    pub open spec fn occurrences(&self, needle: Seq<u8>) -> Seq<u64> {
        self.found(needle, self.regions@.len() as int)
    }

    /// Every address at which a needle stands.
    pub fn scan(&self, needle: &[u8]) -> (hits: Vec<u64>)
        ensures
            hits@ == self.occurrences(needle@),
    {
        let mut hits: Vec<u64> = Vec::new();
        for r in 0..self.regions.len()
            invariant
                hits@ == self.found(needle@, r as int),
        {
            let region = &self.regions[r];
            let ghost before = hits@;
            for i in 0..region.bytes.len()
                invariant
                    hits@ == before + self.found_in_region(*region, needle@, i as int),
            {
                if let Some(address) = region.start.checked_add(i as u64) {
                    if self.is_spelled(address, needle) {
                        hits.push(address);
                    }
                }
                assert(hits@ =~= before + self.found_in_region(*region, needle@, i + 1));
            }
        }
        hits
    }
}

/// The bytes of each of some lists.
pub open spec fn byte_lists(lists: Seq<Vec<u8>>) -> Seq<Seq<u8>> {
    Seq::new(lists.len(), |i: int| lists[i]@)
}

impl Layer {
    /// Whether one of some needles stands at an address.
    pub open spec fn spells_one(&self, address: int, needles: Seq<Seq<u8>>) -> bool {
        exists|k: int| 0 <= k < needles.len() && self.spells(address, #[trigger] needles[k])
    }

    fn is_one_spelled(&self, address: u64, needles: &Vec<Vec<u8>>) -> (spelled: bool)
        ensures
            spelled == self.spells_one(address as int, byte_lists(needles@)),
    {
        for k in 0..needles.len()
            invariant
                forall|j: int|
                    0 <= j < k ==> !self.spells(
                        address as int,
                        #[trigger] byte_lists(needles@)[j],
                    ),
        {
            if self.is_spelled(address, needles[k].as_slice()) {
                assert(self.spells(address as int, byte_lists(needles@)[k as int]));
                return true;
            }
            assert(!self.spells(address as int, byte_lists(needles@)[k as int]));
        }
        false
    }

    /// The addresses of the first bytes of a region at which one of some needles
    /// stands.
    pub open spec fn any_in_region(&self, region: Region, needles: Seq<Seq<u8>>, count: int) -> Seq<
        u64,
    >
        decreases count,
    {
        if count <= 0 {
            Seq::empty()
        } else {
            let before = self.any_in_region(region, needles, count - 1);
            let address = region.start + count - 1;
            if address <= u64::MAX && self.spells_one(address, needles) {
                before.push(address as u64)
            } else {
                before
            }
        }
    }

    /// The addresses of the first regions at which one of some needles stands.
    pub open spec fn any_found(&self, needles: Seq<Seq<u8>>, count: int) -> Seq<u64>
        decreases count,
    {
        if count <= 0 {
            Seq::empty()
        } else {
            self.any_found(needles, count - 1) + self.any_in_region(
                self.regions@[count - 1],
                needles,
                self.regions@[count - 1].bytes@.len() as int,
            )
        }
    }

    /// Every address at which one of some needles stands, region by region.
    pub fn scan_any(&self, needles: &Vec<Vec<u8>>) -> (hits: Vec<u64>)
        ensures
            hits@ == self.any_found(byte_lists(needles@), self.regions@.len() as int),
    {
        let mut hits: Vec<u64> = Vec::new();
        let ghost wanted = byte_lists(needles@);
        for r in 0..self.regions.len()
            invariant
                wanted == byte_lists(needles@),
                hits@ == self.any_found(wanted, r as int),
        {
            let region = &self.regions[r];
            let ghost before = hits@;
            for i in 0..region.bytes.len()
                invariant
                    wanted == byte_lists(needles@),
                    hits@ == before + self.any_in_region(*region, wanted, i as int),
            {
                if let Some(address) = region.start.checked_add(i as u64) {
                    if self.is_one_spelled(address, needles) {
                        hits.push(address);
                    }
                }
                assert(hits@ =~= before + self.any_in_region(*region, wanted, i + 1));
            }
        }
        hits
    }
}

/// The type of an object: one of the types of one of the symbol tables.
#[derive(Clone, Copy, PartialEq, Eq, Structural, Debug)]
pub struct TypeId {
    pub table: usize,
    pub index: usize,
}

/// Part of a structure.
#[derive(Debug)]
pub struct Member {
    pub name: String,
    pub offset: u64,
    /// The member's type, in the table of the structure.
    pub kind: usize,
}

impl Named for Member {
    open spec fn called(&self) -> Seq<char> {
        self.name@
    }

    fn label(&self) -> &str {
        self.name.as_str()
    }
}

/// A value of an enumeration and its name.
#[derive(Debug)]
pub struct Choice {
    pub name: String,
    pub value: i64,
}

/// What a type makes of the bytes it covers.
#[derive(Debug)]
pub enum Shape {
    Structure(Vec<Member>),
    Integer { size: u64, signed: bool },
    /// Some bits of an integer.
    Bits { size: u64, position: u64, length: u64 },
    Pointer { size: u64, target: usize },
    Array { element: usize, count: u64 },
    Enumeration { size: u64, choices: Vec<Choice> },
    /// Characters up to a zero byte.
    Text { length: u64 },
    Opaque,
}

/// A type of a symbol table.
#[derive(Debug)]
pub struct TypeDefinition {
    pub name: String,
    pub size: u64,
    pub shape: Shape,
}

impl Named for TypeDefinition {
    open spec fn called(&self) -> Seq<char> {
        self.name@
    }

    fn label(&self) -> &str {
        self.name.as_str()
    }
}

/// A named address.
#[derive(Debug)]
pub struct Symbol {
    pub name: String,
    pub address: u64,
    /// The type of what stands there, in the symbol's table.
    pub kind: Option<usize>,
}

impl Named for Symbol {
    open spec fn called(&self) -> Seq<char> {
        self.name@
    }

    fn label(&self) -> &str {
        self.name.as_str()
    }
}

/// The types and symbols of one binary.
#[derive(Debug)]
pub struct SymbolTable {
    pub name: String,
    pub pointer_size: u64,
    /// Where the table was read from.
    pub source: Option<String>,
    pub types: Vec<TypeDefinition>,
    pub symbols: Vec<Symbol>,
}

impl Named for SymbolTable {
    open spec fn called(&self) -> Seq<char> {
        self.name@
    }

    fn label(&self) -> &str {
        self.name.as_str()
    }
}

/// A binary in memory: where it is loaded, and the table that describes it.
#[derive(Debug)]
pub struct Module {
    pub name: String,
    pub table: usize,
    pub layer: usize,
    pub offset: u64,
    /// Whether the table's addresses stand for themselves.
    pub absolute: bool,
}

impl Named for Module {
    open spec fn called(&self) -> Seq<char> {
        self.name@
    }

    fn label(&self) -> &str {
        self.name.as_str()
    }
}

/// A place in a layer, seen as a type. Its pointers lead into `native`.
#[derive(Clone, Copy, PartialEq, Eq, Structural, Debug)]
pub struct Object {
    pub kind: TypeId,
    pub layer: usize,
    pub native: usize,
    pub offset: u64,
}

/// The image.
#[derive(Debug)]
pub struct Context {
    pub layers: Vec<Layer>,
    pub tables: Vec<SymbolTable>,
    pub modules: Vec<Module>,
    pub output: Output,
    /// The orders in which the children of processes are handed over.
    pub siblings: Vec<Siblings>,
    pub windows: Windows,
    pub mac: Mac,
}

/// The number that one, two, four or eight bytes spell, the lowest byte first.
pub open spec fn word(bytes: Seq<u8>) -> u64 {
    if bytes.len() == 1 {
        bytes[0] as u64
    } else if bytes.len() == 2 {
        (bytes[0] + 0x100 * bytes[1]) as u64
    } else if bytes.len() == 4 {
        (bytes[0] + 0x100 * bytes[1] + 0x1_0000 * bytes[2] + 0x100_0000 * bytes[3]) as u64
    } else if bytes.len() == 8 {
        (bytes[0] + 0x100 * bytes[1] + 0x1_0000 * bytes[2] + 0x100_0000 * bytes[3]
            + 0x1_0000_0000 * bytes[4] + 0x100_0000_0000 * bytes[5] + 0x1_0000_0000_0000 * bytes[6]
            + 0x100_0000_0000_0000 * bytes[7]) as u64
    } else {
        0
    }
}

/// Whether a number can have this many bytes.
pub open spec fn is_word_size(size: u64) -> bool {
    size == 1 || size == 2 || size == 4 || size == 8
}

/// The number that one, two, four or eight bytes spell, the lowest byte first.
pub fn word_of(bytes: &[u8]) -> (value: u64)
    ensures
        value == word(bytes@),
{
    if bytes.len() == 1 {
        bytes[0] as u64
    } else if bytes.len() == 2 {
        bytes[0] as u64 + 0x100 * bytes[1] as u64
    } else if bytes.len() == 4 {
        bytes[0] as u64 + 0x100 * bytes[1] as u64 + 0x1_0000 * bytes[2] as u64 + 0x100_0000
            * bytes[3] as u64
    } else if bytes.len() == 8 {
        bytes[0] as u64 + 0x100 * bytes[1] as u64 + 0x1_0000 * bytes[2] as u64 + 0x100_0000
            * bytes[3] as u64 + 0x1_0000_0000 * bytes[4] as u64 + 0x100_0000_0000
            * bytes[5] as u64 + 0x1_0000_0000_0000 * bytes[6] as u64 + 0x100_0000_0000_0000
            * bytes[7] as u64
    } else {
        0
    }
}

/// A number of some bytes read as a signed one.
pub open spec fn signed_word(value: u64, size: u64) -> i64 {
    if size == 1 {
        (if value < 0x80 {
            value as int
        } else {
            value - 0x100
        }) as i64
    } else if size == 2 {
        (if value < 0x8000 {
            value as int
        } else {
            value - 0x1_0000
        }) as i64
    } else if size == 4 {
        (if value < 0x8000_0000 {
            value as int
        } else {
            value - 0x1_0000_0000
        }) as i64
    } else {
        (if value < 0x8000_0000_0000_0000 {
            value as int
        } else {
            value - 0x1_0000_0000_0000_0000
        }) as i64
    }
}

/// A number of some bytes read as a signed one.
pub fn signed_word_of(value: u64, size: u64) -> (signed: i64)
    requires
        size == 1 ==> value < 0x100,
        size == 2 ==> value < 0x1_0000,
        size == 4 ==> value < 0x1_0000_0000,
    ensures
        signed == signed_word(value, size),
{
    let wide: i128 = value as i128;
    if size == 1 {
        if value < 0x80 {
            wide as i64
        } else {
            (wide - 0x100) as i64
        }
    } else if size == 2 {
        if value < 0x8000 {
            wide as i64
        } else {
            (wide - 0x1_0000) as i64
        }
    } else if size == 4 {
        if value < 0x8000_0000 {
            wide as i64
        } else {
            (wide - 0x1_0000_0000) as i64
        }
    } else {
        if value < 0x8000_0000_0000_0000 {
            wide as i64
        } else {
            (wide - 0x1_0000_0000_0000_0000) as i64
        }
    }
}

/// A copy of bytes.
pub fn copy_bytes(bytes: &[u8]) -> (copy: Vec<u8>)
    ensures
        copy@ == bytes@,
{
    let mut copy: Vec<u8> = Vec::new();
    for i in 0..bytes.len()
        invariant
            copy@ == bytes@.take(i as int),
    {
        copy.push(bytes[i]);
    }
    copy
}

/// The bytes in front of the first zero.
pub open spec fn before_zero(bytes: Seq<u8>) -> Seq<u8>
    decreases bytes.len(),
{
    if bytes.len() == 0 || bytes[0] == 0 {
        Seq::empty()
    } else {
        seq![bytes[0]] + before_zero(bytes.skip(1))
    }
}

/// Cut bytes off at the first zero.
pub fn cut_at_zero(bytes: &Vec<u8>) -> (cut: Vec<u8>)
    ensures
        cut@ == before_zero(bytes@),
{
    let mut cut: Vec<u8> = Vec::new();
    let mut i: usize = 0;
    assert(bytes@.skip(0) =~= bytes@);
    while i < bytes.len() && bytes[i] != 0
        invariant
            i <= bytes@.len(),
            before_zero(bytes@) == cut@ + before_zero(bytes@.skip(i as int)),
        decreases bytes@.len() - i,
    {
        assert(bytes@.skip(i as int).skip(1) =~= bytes@.skip(i + 1));
        let ghost before = cut@;
        cut.push(bytes[i]);
        assert(before_zero(bytes@) =~= cut@ + before_zero(bytes@.skip(i + 1)));
        i = i + 1;
    }
    cut
}

/// The name that choices from a place on give a value.
pub open spec fn choice_from(choices: Seq<Choice>, value: i64, from: int) -> Option<Seq<char>>
    decreases choices.len() - from,
{
    if from < 0 || from >= choices.len() {
        None
    } else if choices[from].value == value {
        Some(choices[from].name@)
    } else {
        choice_from(choices, value, from + 1)
    }
}

fn name_of_choice(choices: &Vec<Choice>, value: i64) -> (name: Option<String>)
    ensures
        crate::text::maybe_text(name) == choice_from(choices@, value, 0),
{
    let mut i: usize = 0;
    while i < choices.len()
        invariant
            i <= choices@.len(),
            choice_from(choices@, value, 0) == choice_from(choices@, value, i as int),
        decreases choices@.len() - i,
    {
        if choices[i].value == value {
            return Some(choices[i].name.clone());
        }
        i = i + 1;
    }
    None
}

impl Context {
    /// The bytes of a range of a layer: with `pad`, a zero for each that is not
    /// there; without it, nothing unless all are.
    pub open spec fn bytes_of(&self, layer: usize, offset: u64, length: usize, pad: bool) -> Option<
        Seq<u8>,
    > {
        if layer >= self.layers@.len() {
            None
        } else if pad || self.layers@[layer as int].has(offset as int, length as int) {
            Some(self.layers@[layer as int].padded(offset as int, length as int))
        } else {
            None
        }
    }

    /// The bytes of a range of a layer.
    pub fn read(&self, layer: usize, offset: u64, length: usize, pad: bool) -> (bytes: Option<
        Vec<u8>,
    >)
        ensures
            match bytes {
                Some(bytes) => self.bytes_of(layer, offset, length, pad) == Some(bytes@),
                None => self.bytes_of(layer, offset, length, pad) is None,
            },
    {
        if layer >= self.layers.len() {
            return None;
        }
        let space = &self.layers[layer];
        let mut bytes: Vec<u8> = Vec::new();
        for i in 0..length
            invariant
                layer < self.layers@.len(),
                *space == self.layers@[layer as int],
                bytes@ == space.padded(offset as int, i as int),
                pad || space.has(offset as int, i as int),
        {
            let found = match offset.checked_add(i as u64) {
                Some(address) => space.byte_at(address),
                None => None,
            };
            assert(found == space.byte(offset as int + i as int));
            match found {
                Some(byte) => bytes.push(byte),
                None => {
                    if !pad {
                        assert(!space.has(offset as int, length as int));
                        return None;
                    }
                    bytes.push(0u8);
                },
            }
            assert(bytes@ =~= space.padded(offset as int, i + 1));
        }
        Some(bytes)
    }

    pub open spec fn spec_is_valid(&self, layer: usize, offset: u64, length: usize) -> bool {
        layer < self.layers@.len() && self.layers@[layer as int].has(offset as int, length as int)
    }

    /// Whether every byte of a range is there.
    #[verifier::when_used_as_spec(spec_is_valid)]
    pub fn is_valid(&self, layer: usize, offset: u64, length: usize) -> (valid: bool)
        ensures
            valid == self.spec_is_valid(layer, offset, length),
    {
        self.read(layer, offset, length, false).is_some()
    }

    pub open spec fn spec_address_mask(&self, layer: usize) -> u64 {
        if layer < self.layers@.len() {
            self.layers@[layer as int].mask
        } else {
            u64::MAX
        }
    }

    /// The bits an address of a layer has.
    #[verifier::when_used_as_spec(spec_address_mask)]
    pub fn address_mask(&self, layer: usize) -> (mask: u64)
        ensures
            mask == self.spec_address_mask(layer),
    {
        if layer < self.layers.len() {
            self.layers[layer].mask
        } else {
            u64::MAX
        }
    }

    pub open spec fn spec_number_at(&self, layer: usize, offset: u64, size: u64) -> Option<u64> {
        if is_word_size(size) {
            match self.bytes_of(layer, offset, size as usize, false) {
                Some(bytes) => Some(word(bytes)),
                None => None,
            }
        } else {
            None
        }
    }

    /// The number that the one, two, four or eight bytes at a place spell.
    #[verifier::when_used_as_spec(spec_number_at)]
    pub fn number_at(&self, layer: usize, offset: u64, size: u64) -> (number: Option<u64>)
        ensures
            number == self.spec_number_at(layer, offset, size),
            number is Some && size == 1 ==> number->0 < 0x100,
            number is Some && size == 2 ==> number->0 < 0x1_0000,
            number is Some && size == 4 ==> number->0 < 0x1_0000_0000,
    {
        if size == 1 || size == 2 || size == 4 || size == 8 {
            match self.read(layer, offset, size as usize, false) {
                Some(bytes) => Some(word_of(&bytes)),
                None => None,
            }
        } else {
            None
        }
    }

    /// The type behind an identifier.
    pub open spec fn definition(&self, kind: TypeId) -> Option<TypeDefinition> {
        if kind.table < self.tables@.len() && kind.index < self.tables@[kind.table as int].types@.len() {
            Some(self.tables@[kind.table as int].types@[kind.index as int])
        } else {
            None
        }
    }

    /// The definition of a type.
    pub fn define(&self, kind: TypeId) -> (found: Option<&TypeDefinition>)
        ensures
            match found {
                Some(definition) => self.definition(kind) == Some(*definition),
                None => self.definition(kind) is None,
            },
    {
        if kind.table < self.tables.len() && kind.index < self.tables[kind.table].types.len() {
            Some(&self.tables[kind.table].types[kind.index])
        } else {
            None
        }
    }

    pub open spec fn spec_get_type(&self, table: usize, name: &str) -> Option<TypeId> {
        if table < self.tables@.len() {
            match named_from(self.tables@[table as int].types@, name@, 0) {
                Some(index) => Some(TypeId { table, index: index as usize }),
                None => None,
            }
        } else {
            None
        }
    }

    /// A type of a table by its name.
    #[verifier::when_used_as_spec(spec_get_type)]
    pub fn get_type(&self, table: usize, name: &str) -> (kind: Option<TypeId>)
        ensures
            kind == self.spec_get_type(table, name),
    {
        if table < self.tables.len() {
            match find_named(&self.tables[table].types, name) {
                Some(index) => Some(TypeId { table, index }),
                None => None,
            }
        } else {
            None
        }
    }

    /// The name of a type.
    pub open spec fn kind_text(&self, kind: TypeId) -> Seq<char> {
        match self.definition(kind) {
            Some(definition) => definition.name@,
            None => Seq::empty(),
        }
    }

    /// The name of a type.
    pub fn kind_name(&self, kind: TypeId) -> (name: String)
        ensures
            name@ == self.kind_text(kind),
    {
        match self.define(kind) {
            Some(definition) => definition.name.clone(),
            None => String::new(),
        }
    }

    pub open spec fn spec_size_of(&self, kind: TypeId) -> Option<u64> {
        match self.definition(kind) {
            Some(definition) => Some(definition.size),
            None => None,
        }
    }

    /// How many bytes a type covers.
    #[verifier::when_used_as_spec(spec_size_of)]
    pub fn size_of(&self, kind: TypeId) -> (size: Option<u64>)
        ensures
            size == self.spec_size_of(kind),
    {
        match self.define(kind) {
            Some(definition) => Some(definition.size),
            None => None,
        }
    }

    pub open spec fn spec_find_member(&self, kind: TypeId, name: &str) -> Option<(u64, TypeId)> {
        match self.definition(kind) {
            Some(definition) => match definition.shape {
                Shape::Structure(members) => match named(members@, name@) {
                    Some(member) => Some(
                        (member.offset, TypeId { table: kind.table, index: member.kind }),
                    ),
                    None => None,
                },
                _ => None,
            },
            None => None,
        }
    }

    /// Where a member of a structure stands in it, and its type.
    #[verifier::when_used_as_spec(spec_find_member)]
    pub fn find_member(&self, kind: TypeId, name: &str) -> (found: Option<(u64, TypeId)>)
        ensures
            found == self.spec_find_member(kind, name),
    {
        match self.define(kind) {
            Some(definition) => match &definition.shape {
                Shape::Structure(members) => match find_named(members, name) {
                    Some(at) => Some(
                        (
                            members[at].offset,
                            TypeId { table: kind.table, index: members[at].kind },
                        ),
                    ),
                    None => None,
                },
                _ => None,
            },
            None => None,
        }
    }

    pub open spec fn spec_has_member(&self, object: Object, name: &str) -> bool {
        self.find_member(object.kind, name) is Some
    }

    /// Whether the object's type has a member.
    #[verifier::when_used_as_spec(spec_has_member)]
    pub fn has_member(&self, object: Object, name: &str) -> (has: bool)
        ensures
            has == self.spec_has_member(object, name),
    {
        self.find_member(object.kind, name).is_some()
    }

    pub open spec fn spec_member(&self, object: Object, name: &str) -> Option<Object> {
        match self.find_member(object.kind, name) {
            Some((offset, kind)) => Some(
                Object { kind, offset: object.offset.wrapping_add(offset), ..object },
            ),
            None => None,
        }
    }

    /// A member of an object.
    #[verifier::when_used_as_spec(spec_member)]
    pub fn member(&self, object: Object, name: &str) -> (part: Option<Object>)
        ensures
            part == self.spec_member(object, name),
    {
        match self.find_member(object.kind, name) {
            Some((offset, kind)) => Some(
                Object {
                    kind,
                    layer: object.layer,
                    native: object.native,
                    offset: object.offset.wrapping_add(offset),
                },
            ),
            None => None,
        }
    }

    pub open spec fn spec_object(&self, kind: Option<TypeId>, layer: usize, offset: u64) -> Option<
        Object,
    > {
        match kind {
            Some(kind) => Some(Object { kind, layer, native: layer, offset }),
            None => None,
        }
    }

    /// The object of a type at a place.
    #[verifier::when_used_as_spec(spec_object)]
    pub fn object(&self, kind: Option<TypeId>, layer: usize, offset: u64) -> (object: Option<
        Object,
    >)
        ensures
            object == self.spec_object(kind, layer, offset),
    {
        match kind {
            Some(kind) => Some(Object { kind, layer, native: layer, offset }),
            None => None,
        }
    }

    pub open spec fn spec_as_i64(&self, object: Object) -> Option<i64> {
        match self.definition(object.kind) {
            Some(definition) => match definition.shape {
                Shape::Integer { size, signed } => match self.number_at(
                    object.layer,
                    object.offset,
                    size,
                ) {
                    Some(value) => Some(
                        if signed {
                            signed_word(value, size)
                        } else {
                            value as i64
                        },
                    ),
                    None => None,
                },
                Shape::Enumeration { size, .. } => match self.number_at(
                    object.layer,
                    object.offset,
                    size,
                ) {
                    Some(value) => Some(signed_word(value, size)),
                    None => None,
                },
                _ => match self.as_u64(object) {
                    Some(value) => Some(value as i64),
                    None => None,
                },
            },
            None => None,
        }
    }

    pub open spec fn spec_as_u64(&self, object: Object) -> Option<u64> {
        match self.definition(object.kind) {
            Some(definition) => match definition.shape {
                Shape::Integer { size, signed } => match self.number_at(
                    object.layer,
                    object.offset,
                    size,
                ) {
                    Some(value) => Some(
                        if signed {
                            signed_word(value, size) as u64
                        } else {
                            value
                        },
                    ),
                    None => None,
                },
                Shape::Enumeration { size, .. } => self.number_at(
                    object.layer,
                    object.offset,
                    size,
                ),
                Shape::Pointer { size, .. } => self.number_at(object.layer, object.offset, size),
                Shape::Bits { size, position, length } => match self.number_at(
                    object.layer,
                    object.offset,
                    size,
                ) {
                    Some(value) => if position < 64 && length < 64 {
                        Some((value >> position) & (1u64 << length).wrapping_sub(1))
                    } else {
                        None
                    },
                    None => None,
                },
                _ => None,
            },
            None => None,
        }
    }

    /// The object's value as an unsigned number.
    #[verifier::when_used_as_spec(spec_as_u64)]
    pub fn as_u64(&self, object: Object) -> (value: Option<u64>)
        ensures
            value == self.spec_as_u64(object),
    {
        match self.define(object.kind) {
            Some(definition) => match &definition.shape {
                Shape::Integer { size, signed } => match self.number_at(
                    object.layer,
                    object.offset,
                    *size,
                ) {
                    Some(value) => if *signed {
                        Some(signed_word_of(value, *size) as u64)
                    } else {
                        Some(value)
                    },
                    None => None,
                },
                Shape::Enumeration { size, choices: _ } => self.number_at(
                    object.layer,
                    object.offset,
                    *size,
                ),
                Shape::Pointer { size, target: _ } => self.number_at(
                    object.layer,
                    object.offset,
                    *size,
                ),
                Shape::Bits { size, position, length } => match self.number_at(
                    object.layer,
                    object.offset,
                    *size,
                ) {
                    Some(value) => if *position < 64 && *length < 64 {
                        Some((value >> *position) & (1u64 << *length).wrapping_sub(1))
                    } else {
                        None
                    },
                    None => None,
                },
                _ => None,
            },
            None => None,
        }
    }

    /// The object's value as a signed number.
    #[verifier::when_used_as_spec(spec_as_i64)]
    pub fn as_i64(&self, object: Object) -> (value: Option<i64>)
        ensures
            value == self.spec_as_i64(object),
    {
        match self.define(object.kind) {
            Some(definition) => match &definition.shape {
                Shape::Integer { size, signed } => match self.number_at(
                    object.layer,
                    object.offset,
                    *size,
                ) {
                    Some(value) => if *signed {
                        Some(signed_word_of(value, *size))
                    } else {
                        Some(value as i64)
                    },
                    None => None,
                },
                Shape::Enumeration { size, choices: _ } => match self.number_at(
                    object.layer,
                    object.offset,
                    *size,
                ) {
                    Some(value) => Some(signed_word_of(value, *size)),
                    None => None,
                },
                _ => match self.as_u64(object) {
                    Some(value) => Some(value as i64),
                    None => None,
                },
            },
            None => None,
        }
    }

    pub open spec fn spec_pointer_value(&self, object: Object) -> Option<u64> {
        match self.as_u64(object) {
            Some(value) => match self.definition(object.kind)->0.shape {
                Shape::Pointer { .. } => Some(value & self.address_mask(object.native)),
                _ => Some(value),
            },
            None => None,
        }
    }

    /// The address a pointer holds, cut to the bits an address has.
    #[verifier::when_used_as_spec(spec_pointer_value)]
    pub fn pointer_value(&self, object: Object) -> (address: Option<u64>)
        ensures
            address == self.spec_pointer_value(object),
    {
        match self.as_u64(object) {
            Some(value) => match self.define(object.kind) {
                Some(definition) => match &definition.shape {
                    Shape::Pointer { size: _, target: _ } => Some(
                        value & self.address_mask(object.native),
                    ),
                    _ => Some(value),
                },
                None => None,
            },
            None => None,
        }
    }

    pub open spec fn spec_dereference(&self, object: Object) -> Option<Object> {
        match self.definition(object.kind) {
            Some(definition) => match definition.shape {
                Shape::Pointer { target, .. } => self.dereference_as(
                    object,
                    Some(TypeId { table: object.kind.table, index: target }),
                ),
                _ => None,
            },
            None => None,
        }
    }

    /// What a pointer leads to.
    #[verifier::when_used_as_spec(spec_dereference)]
    pub fn dereference(&self, object: Object) -> (target: Option<Object>)
        ensures
            target == self.spec_dereference(object),
    {
        match self.define(object.kind) {
            Some(definition) => match &definition.shape {
                Shape::Pointer { size: _, target } => self.dereference_as(
                    object,
                    Some(TypeId { table: object.kind.table, index: *target }),
                ),
                _ => None,
            },
            None => None,
        }
    }

    pub open spec fn spec_dereference_as(&self, object: Object, kind: Option<TypeId>) -> Option<
        Object,
    > {
        match self.pointer_value(object) {
            Some(address) => self.object(kind, object.native, address),
            None => None,
        }
    }

    /// What a pointer leads to, seen as a type of the caller's choice.
    #[verifier::when_used_as_spec(spec_dereference_as)]
    pub fn dereference_as(&self, object: Object, kind: Option<TypeId>) -> (target: Option<Object>)
        ensures
            target == self.spec_dereference_as(object, kind),
    {
        match self.pointer_value(object) {
            Some(address) => self.object(kind, object.native, address),
            None => None,
        }
    }

    pub open spec fn spec_cast(&self, object: Object, kind: Option<TypeId>) -> Option<Object> {
        match kind {
            Some(kind) => Some(Object { kind, ..object }),
            None => None,
        }
    }

    /// The same place seen as another type.
    #[verifier::when_used_as_spec(spec_cast)]
    pub fn cast(&self, object: Object, kind: Option<TypeId>) -> (same: Option<Object>)
        ensures
            same == self.spec_cast(object, kind),
    {
        match kind {
            Some(kind) => Some(
                Object { kind, layer: object.layer, native: object.native, offset: object.offset },
            ),
            None => None,
        }
    }

    pub open spec fn spec_count(&self, object: Object) -> Option<u64> {
        match self.definition(object.kind) {
            Some(definition) => match definition.shape {
                Shape::Array { count, .. } => Some(count),
                _ => None,
            },
            None => None,
        }
    }

    /// How many elements an array has.
    #[verifier::when_used_as_spec(spec_count)]
    pub fn count(&self, object: Object) -> (count: Option<u64>)
        ensures
            count == self.spec_count(object),
    {
        match self.define(object.kind) {
            Some(definition) => match &definition.shape {
                Shape::Array { element: _, count } => Some(*count),
                _ => None,
            },
            None => None,
        }
    }

    pub open spec fn spec_index(&self, object: Object, at: u64) -> Option<Object> {
        match self.definition(object.kind) {
            Some(definition) => match definition.shape {
                Shape::Array { element, count } => {
                    let kind = TypeId { table: object.kind.table, index: element };
                    match self.size_of(kind) {
                        Some(size) if at < count => Some(
                            Object {
                                kind,
                                offset: object.offset.wrapping_add(size.wrapping_mul(at)),
                                ..object
                            },
                        ),
                        _ => None,
                    }
                },
                _ => None,
            },
            None => None,
        }
    }

    /// An element of an array.
    #[verifier::when_used_as_spec(spec_index)]
    pub fn index(&self, object: Object, at: u64) -> (element: Option<Object>)
        ensures
            element == self.spec_index(object, at),
    {
        match self.define(object.kind) {
            Some(definition) => match &definition.shape {
                Shape::Array { element, count } => {
                    let kind = TypeId { table: object.kind.table, index: *element };
                    match self.size_of(kind) {
                        Some(size) => if at < *count {
                            Some(
                                Object {
                                    kind,
                                    layer: object.layer,
                                    native: object.native,
                                    offset: object.offset.wrapping_add(size.wrapping_mul(at)),
                                },
                            )
                        } else {
                            None
                        },
                        None => None,
                    }
                },
                _ => None,
            },
            None => None,
        }
    }

    pub open spec fn spec_is_readable(&self, object: Object) -> bool {
        match self.size_of(object.kind) {
            Some(size) => size <= usize::MAX && self.is_valid(
                object.layer,
                object.offset,
                size as usize,
            ),
            None => false,
        }
    }

    /// Whether all the bytes an object covers are there.
    #[verifier::when_used_as_spec(spec_is_readable)]
    pub fn is_readable(&self, object: Object) -> (readable: bool)
        ensures
            readable == self.spec_is_readable(object),
    {
        match self.size_of(object.kind) {
            Some(size) => size <= usize::MAX as u64 && self.is_valid(
                object.layer,
                object.offset,
                size as usize,
            ),
            None => false,
        }
    }

    /// The name of an enumeration's value.
    pub open spec fn choice_of(&self, object: Object) -> Option<Seq<char>> {
        match self.definition(object.kind) {
            Some(definition) => match definition.shape {
                Shape::Enumeration { choices, .. } => match self.as_i64(object) {
                    Some(value) => choice_from(choices@, value, 0),
                    None => None,
                },
                _ => None,
            },
            None => None,
        }
    }

    /// The name of an enumeration's value.
    pub fn enum_name(&self, object: Object) -> (name: Option<String>)
        ensures
            crate::text::maybe_text(name) == self.choice_of(object),
    {
        match self.define(object.kind) {
            Some(definition) => match &definition.shape {
                Shape::Enumeration { size: _, choices } => match self.as_i64(object) {
                    Some(value) => name_of_choice(choices, value),
                    None => None,
                },
                _ => None,
            },
            None => None,
        }
    }

    /// The text in front of the first zero byte of a range.
    pub open spec fn text_at(&self, layer: usize, offset: u64, length: usize) -> Option<Seq<char>> {
        match self.bytes_of(layer, offset, length, false) {
            Some(bytes) => Some(crate::text::utf8_lossy_text(before_zero(bytes))),
            None => None,
        }
    }

    /// The text in front of the first zero byte of a range.
    pub fn read_text(&self, layer: usize, offset: u64, length: usize) -> (text: Option<String>)
        ensures
            crate::text::maybe_text(text) == self.text_at(layer, offset, length),
    {
        match self.read(layer, offset, length, false) {
            Some(bytes) => Some(utf8_lossy(&cut_at_zero(&bytes))),
            None => None,
        }
    }

    /// The text an object holds.
    pub open spec fn string_of(&self, object: Object) -> Option<Seq<char>> {
        match self.definition(object.kind) {
            Some(definition) => match definition.shape {
                Shape::Text { length } => if length <= usize::MAX {
                    self.text_at(object.layer, object.offset, length as usize)
                } else {
                    None
                },
                _ => None,
            },
            None => None,
        }
    }

    /// The text an object holds.
    pub fn as_string(&self, object: Object) -> (text: Option<String>)
        ensures
            crate::text::maybe_text(text) == self.string_of(object),
    {
        match self.define(object.kind) {
            Some(definition) => match &definition.shape {
                Shape::Text { length } => if *length <= usize::MAX as u64 {
                    self.read_text(object.layer, object.offset, *length as usize)
                } else {
                    None
                },
                _ => None,
            },
            None => None,
        }
    }

    /// The text a pointer leads to, of which at most so many bytes are read.
    pub open spec fn pointed_text(&self, object: Object, limit: usize) -> Option<Seq<char>> {
        match self.pointer_value(object) {
            Some(address) => self.text_at(object.native, address, limit),
            None => None,
        }
    }

    /// The text a pointer leads to, of which at most so many bytes are read.
    pub fn pointer_to_string(&self, object: Object, limit: usize) -> (text: Option<String>)
        ensures
            crate::text::maybe_text(text) == self.pointed_text(object, limit),
    {
        match self.pointer_value(object) {
            Some(address) => self.read_text(object.native, address, limit),
            None => None,
        }
    }

    pub open spec fn spec_member_u64(&self, object: Object, name: &str) -> Option<u64> {
        match self.member(object, name) {
            Some(part) => self.as_u64(part),
            None => None,
        }
    }

    /// The value of a member as an unsigned number.
    #[verifier::when_used_as_spec(spec_member_u64)]
    pub fn member_u64(&self, object: Object, name: &str) -> (value: Option<u64>)
        ensures
            value == self.spec_member_u64(object, name),
    {
        match self.member(object, name) {
            Some(part) => self.as_u64(part),
            None => None,
        }
    }

    pub open spec fn spec_member_i64(&self, object: Object, name: &str) -> Option<i64> {
        match self.member(object, name) {
            Some(part) => self.as_i64(part),
            None => None,
        }
    }

    /// The value of a member as a signed number.
    #[verifier::when_used_as_spec(spec_member_i64)]
    pub fn member_i64(&self, object: Object, name: &str) -> (value: Option<i64>)
        ensures
            value == self.spec_member_i64(object, name),
    {
        match self.member(object, name) {
            Some(part) => self.as_i64(part),
            None => None,
        }
    }

    pub open spec fn spec_member_pointer(&self, object: Object, name: &str) -> Option<u64> {
        match self.member(object, name) {
            Some(part) => self.pointer_value(part),
            None => None,
        }
    }

    /// The address a member holds.
    #[verifier::when_used_as_spec(spec_member_pointer)]
    pub fn member_pointer(&self, object: Object, name: &str) -> (address: Option<u64>)
        ensures
            address == self.spec_member_pointer(object, name),
    {
        match self.member(object, name) {
            Some(part) => self.pointer_value(part),
            None => None,
        }
    }

    pub open spec fn spec_member_target(&self, object: Object, name: &str) -> Option<Object> {
        match self.member(object, name) {
            Some(part) => self.dereference(part),
            None => None,
        }
    }

    /// What a member that is a pointer leads to.
    #[verifier::when_used_as_spec(spec_member_target)]
    pub fn member_target(&self, object: Object, name: &str) -> (target: Option<Object>)
        ensures
            target == self.spec_member_target(object, name),
    {
        match self.member(object, name) {
            Some(part) => self.dereference(part),
            None => None,
        }
    }

    /// The text of a counted UTF-16 string: `Length` bytes at `Buffer`.
    pub open spec fn unicode_of(&self, object: Object) -> Option<Seq<char>> {
        match (self.member_u64(object, "Length"), self.member_pointer(object, "Buffer")) {
            (Some(length), Some(buffer)) => if length <= usize::MAX {
                match self.bytes_of(object.native, buffer, length as usize, false) {
                    Some(bytes) => Some(crate::text::utf16_text(crate::text::units(bytes))),
                    None => None,
                }
            } else {
                None
            },
            _ => None,
        }
    }

    /// The text of a counted UTF-16 string.
    pub fn unicode_string(&self, object: Object) -> (text: Option<String>)
        ensures
            crate::text::maybe_text(text) == self.unicode_of(object),
    {
        match (self.member_u64(object, "Length"), self.member_pointer(object, "Buffer")) {
            (Some(length), Some(buffer)) => if length <= usize::MAX as u64 {
                match self.read(object.native, buffer, length as usize, false) {
                    Some(bytes) => Some(utf16(&units_of(&bytes))),
                    None => None,
                }
            } else {
                None
            },
            _ => None,
        }
    }

    /// The text of a member that is a counted UTF-16 string.
    pub open spec fn member_unicode_of(&self, object: Object, name: &str) -> Option<Seq<char>> {
        match self.member(object, name) {
            Some(part) => self.unicode_of(part),
            None => None,
        }
    }

    /// The text of a member that is a counted UTF-16 string.
    pub fn member_unicode(&self, object: Object, name: &str) -> (text: Option<String>)
        ensures
            crate::text::maybe_text(text) == self.member_unicode_of(object, name),
    {
        match self.member(object, name) {
            Some(part) => self.unicode_string(part),
            None => None,
        }
    }

    /// The first symbol of a name in a module's table.
    pub open spec fn symbol_of(&self, module: &Module, name: Seq<char>) -> Option<Symbol> {
        if module.table < self.tables@.len() {
            named(self.tables@[module.table as int].symbols@, name)
        } else {
            None
        }
    }

    /// The address at which a module's symbol stands.
    pub open spec fn address_of(module: &Module, symbol: Symbol) -> u64 {
        if module.absolute {
            symbol.address
        } else {
            module.offset.wrapping_add(symbol.address)
        }
    }

    pub open spec fn spec_symbol_offset(&self, module: &Module, name: &str) -> Option<u64> {
        match self.symbol_of(module, name@) {
            Some(symbol) => Some(Self::address_of(module, symbol)),
            None => None,
        }
    }

    /// The address of a module's symbol.
    #[verifier::when_used_as_spec(spec_symbol_offset)]
    pub fn symbol_offset(&self, module: &Module, name: &str) -> (address: Option<u64>)
        ensures
            address == self.spec_symbol_offset(module, name),
    {
        if module.table < self.tables.len() {
            let symbols = &self.tables[module.table].symbols;
            match find_named(symbols, name) {
                Some(at) => if module.absolute {
                    Some(symbols[at].address)
                } else {
                    Some(module.offset.wrapping_add(symbols[at].address))
                },
                None => None,
            }
        } else {
            None
        }
    }

    pub open spec fn spec_symbol_kind(&self, module: &Module, name: &str) -> Option<TypeId> {
        match self.symbol_of(module, name@) {
            Some(symbol) => match symbol.kind {
                Some(index) => Some(TypeId { table: module.table, index }),
                None => None,
            },
            None => None,
        }
    }

    /// The type of what a module's symbol names.
    #[verifier::when_used_as_spec(spec_symbol_kind)]
    pub fn symbol_kind(&self, module: &Module, name: &str) -> (kind: Option<TypeId>)
        ensures
            kind == self.spec_symbol_kind(module, name),
    {
        if module.table < self.tables.len() {
            let symbols = &self.tables[module.table].symbols;
            match find_named(symbols, name) {
                Some(at) => match symbols[at].kind {
                    Some(index) => Some(TypeId { table: module.table, index }),
                    None => None,
                },
                None => None,
            }
        } else {
            None
        }
    }

    pub open spec fn spec_object_from_symbol(&self, module: &Module, name: &str) -> Option<Object> {
        match self.symbol_offset(module, name) {
            Some(address) => self.object(self.symbol_kind(module, name), module.layer, address),
            None => None,
        }
    }

    /// What a module's symbol names.
    #[verifier::when_used_as_spec(spec_object_from_symbol)]
    pub fn object_from_symbol(&self, module: &Module, name: &str) -> (object: Option<Object>)
        ensures
            object == self.spec_object_from_symbol(module, name),
    {
        match self.symbol_offset(module, name) {
            Some(address) => self.object(self.symbol_kind(module, name), module.layer, address),
            None => None,
        }
    }

    pub open spec fn spec_typed_symbol(&self, module: &Module, name: &str, kind: &str) -> Option<
        Object,
    > {
        match self.symbol_offset(module, name) {
            Some(address) => self.object(self.get_type(module.table, kind), module.layer, address),
            None => None,
        }
    }

    /// What a module's symbol names, seen as a type of the module's table.
    #[verifier::when_used_as_spec(spec_typed_symbol)]
    pub fn typed_symbol(&self, module: &Module, name: &str, kind: &str) -> (object: Option<Object>)
        ensures
            object == self.spec_typed_symbol(module, name, kind),
    {
        match self.symbol_offset(module, name) {
            Some(address) => self.object(self.get_type(module.table, kind), module.layer, address),
            None => None,
        }
    }

    /// The module of a name.
    pub fn module(&self, name: &str) -> (found: Option<&Module>)
        ensures
            match found {
                Some(module) => named(self.modules@, name@) == Some(*module),
                None => named(self.modules@, name@) is None,
            },
    {
        match find_named(&self.modules, name) {
            Some(at) => Some(&self.modules[at]),
            None => None,
        }
    }

    pub open spec fn spec_layer_named(&self, name: &str) -> Option<usize> {
        match named_from(self.layers@, name@, 0) {
            Some(at) => Some(at as usize),
            None => None,
        }
    }

    /// The layer of a name.
    #[verifier::when_used_as_spec(spec_layer_named)]
    pub fn layer_named(&self, name: &str) -> (found: Option<usize>)
        ensures
            found == self.spec_layer_named(name),
    {
        find_named(&self.layers, name)
    }
}

} // verus!
