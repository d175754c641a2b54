//! Text: comparing, searching and building strings.

use vstd::prelude::*;

verus! {

/// `String::push` appends one character to the end of the string.
pub assume_specification[ std::string::String::push ](this: &mut std::string::String, c: char)
    ensures
        final(this)@ == old(this)@.push(c),
;

/// `char::from_u32` gives the character with that scalar value, and nothing
/// where the number is a surrogate or lies above the last scalar value.
pub assume_specification[ std::primitive::char::from_u32 ](value: u32) -> (found: Option<char>)
    ensures
        found is Some <==> is_scalar(value as int),
        found is Some ==> found->0 as int == value,
;

/// Whether a number is a Unicode scalar value.
pub open spec fn is_scalar(value: int) -> bool {
    0 <= value < 0xd800 || 0xe000 <= value <= 0x10ffff
}

/// The text an optional string holds.
pub open spec fn maybe_text(text: Option<String>) -> Option<Seq<char>> {
    match text {
        Some(text) => Some(text@),
        None => None,
    }
}

/// The texts a list of strings holds.
pub open spec fn texts(list: Seq<String>) -> Seq<Seq<char>> {
    Seq::new(list.len(), |i: int| list[i]@)
}

/// Add a string to a list of them.
pub fn push_text(list: &mut Vec<String>, text: String)
    ensures
        final(list)@ == old(list)@.push(text),
        texts(final(list)@) == texts(old(list)@).push(text@),
{
    list.push(text);
    assert(texts(list@) =~= texts(old(list)@).push(text@));
}

/// The characters of a string.
pub fn characters(text: &str) -> (list: Vec<char>)
    ensures
        list@ == text@,
{
    let mut list: Vec<char> = Vec::new();
    for c in it: text.chars()
        invariant
            list@ == it.seq().take(it.index()),
            it.seq() == text@,
    {
        list.push(c);
    }
    list
}

/// The string that part of a list of characters makes.
pub fn assemble(list: &[char], from: usize, to: usize) -> (text: String)
    requires
        from <= to <= list@.len(),
    ensures
        text@ == list@.subrange(from as int, to as int),
{
    let mut text = String::new();
    for i in from..to
        invariant
            from <= to <= list@.len(),
            text@ == list@.subrange(from as int, i as int),
    {
        text.push(list[i]);
    }
    text
}

/// Whether two strings hold the same characters.
pub fn same_text(a: &str, b: &str) -> (same: bool)
    ensures
        same == (a@ == b@),
{
    a.to_owned() == b.to_owned()
}

/// The character of one digit, in lower case above nine.
pub open spec fn digit(value: nat) -> char {
    if value < 10 {
        (48 + value) as char
    } else {
        (87 + value) as char
    }
}

/// The digits of a number in a base, without padding.
pub open spec fn digits(value: nat, base: nat) -> Seq<char>
    decreases value,
{
    if base < 2 {
        Seq::empty()
    } else if value < base {
        seq![digit(value)]
    } else {
        proof {
            vstd::arithmetic::div_mod::lemma_div_decreases(value as int, base as int);
        }
        digits(value / base, base).push(digit(value % base))
    }
}

/// A number in decimal.
pub open spec fn decimal_text(value: int) -> Seq<char> {
    if value < 0 {
        seq!['-'] + digits((-value) as nat, 10)
    } else {
        digits(value as nat, 10)
    }
}

/// A number in hexadecimal behind its `0x`.
pub open spec fn hex_text(value: nat) -> Seq<char> {
    seq!['0', 'x'] + digits(value, 16)
}

fn digit_char(value: u64) -> (c: char)
    requires
        value < 16,
    ensures
        c == digit(value as nat),
{
    if value < 10 {
        (48u8 + value as u8) as char
    } else {
        (87u8 + value as u8) as char
    }
}

fn append_digits(text: &mut String, value: u64, base: u64)
    requires
        2 <= base <= 16,
    ensures
        final(text)@ == old(text)@ + digits(value as nat, base as nat),
    decreases value,
{
    if value < base {
        text.push(digit_char(value));
    } else {
        proof {
            vstd::arithmetic::div_mod::lemma_div_decreases(value as int, base as int);
        }
        append_digits(text, value / base, base);
        text.push(digit_char(value % base));
    }
}

/// An unsigned number in decimal.
pub fn decimal(value: u64) -> (text: String)
    ensures
        text@ == decimal_text(value as int),
{
    let mut text = String::new();
    append_digits(&mut text, value, 10);
    text
}

/// A signed number in decimal.
pub fn signed_decimal(value: i64) -> (text: String)
    ensures
        text@ == decimal_text(value as int),
{
    let mut text = String::new();
    if value < 0 {
        text.push('-');
        let magnitude: u64 = (-(value as i128)) as u64;
        append_digits(&mut text, magnitude, 10);
    } else {
        append_digits(&mut text, value as u64, 10);
    }
    text
}

/// A number in hexadecimal behind its `0x`.
pub fn hexadecimal(value: u64) -> (text: String)
    ensures
        text@ == hex_text(value as nat),
{
    let mut text = String::new();
    text.push('0');
    text.push('x');
    append_digits(&mut text, value, 16);
    text
}

/// A number in hexadecimal without anything in front.
pub fn hex_plain(value: u64) -> (text: String)
    ensures
        text@ == digits(value as nat, 16),
{
    let mut text = String::new();
    append_digits(&mut text, value, 16);
    text
}

/// A number in hexadecimal, with a zero in front of a single digit.
pub open spec fn two_digits(value: nat) -> Seq<char> {
    if value < 16 {
        seq!['0', digit(value)]
    } else {
        digits(value, 16)
    }
}

/// A number in hexadecimal, with a zero in front of a single digit.
pub fn hex_two(value: u64) -> (text: String)
    ensures
        text@ == two_digits(value as nat),
{
    let mut text = String::new();
    if value < 16 {
        text.push('0');
        text.push(digit_char(value));
    } else {
        append_digits(&mut text, value, 16);
    }
    text
}

/// A byte as two hexadecimal digits.
pub open spec fn byte_text(byte: u8) -> Seq<char> {
    seq![digit((byte / 16) as nat), digit((byte % 16) as nat)]
}

/// A byte as two hexadecimal digits.
pub fn hex_byte(byte: u8) -> (text: String)
    ensures
        text@ == byte_text(byte),
{
    let mut text = String::new();
    text.push(digit_char((byte / 16) as u64));
    text.push(digit_char((byte % 16) as u64));
    text
}

/// An ASCII letter in lower case; any other character is left alone.
pub open spec fn lower_char(c: char) -> char {
    if 'A' <= c <= 'Z' {
        (c as u32 + 32) as char
    } else {
        c
    }
}

/// A text with its ASCII letters in lower case.
pub open spec fn lower(text: Seq<char>) -> Seq<char> {
    Seq::new(text.len(), |i: int| lower_char(text[i]))
}

/// One ASCII letter in lower case.
pub fn ascii_lower_char(c: char) -> (low: char)
    ensures
        low == lower_char(c),
{
    if 'A' <= c && c <= 'Z' {
        (c as u8 + 32u8) as char
    } else {
        c
    }
}

/// A string with its ASCII letters in lower case.
pub fn ascii_lower(text: &str) -> (low: String)
    ensures
        low@ == lower(text@),
{
    let list = characters(text);
    let mut low = String::new();
    for i in 0..list.len()
        invariant
            list@ == text@,
            low@ == lower(text@).take(i as int),
    {
        low.push(ascii_lower_char(list[i]));
    }
    low
}

/// Whether two strings agree when the case of ASCII letters is ignored.
pub fn same_ignoring_case(a: &str, b: &str) -> (same: bool)
    ensures
        same == (lower(a@) == lower(b@)),
{
    same_text(&ascii_lower(a), &ascii_lower(b))
}

/// Whether a text holds another one at a place.
pub open spec fn occurs_at<T>(text: Seq<T>, part: Seq<T>, at: int) -> bool {
    0 <= at && at + part.len() <= text.len() && text.subrange(at, at + part.len()) == part
}

/// Whether a text holds another one anywhere.
pub open spec fn holds(text: Seq<char>, part: Seq<char>) -> bool {
    exists|at: int| occurs_at(text, part, at)
}

/// Whether a text starts with another one.
pub open spec fn begins(text: Seq<char>, part: Seq<char>) -> bool {
    occurs_at(text, part, 0)
}

/// Whether a text ends with another one.
pub open spec fn ends(text: Seq<char>, part: Seq<char>) -> bool {
    occurs_at(text, part, text.len() - part.len())
}

fn matches_at(text: &[char], part: &[char], at: usize) -> (found: bool)
    requires
        at + part@.len() <= text@.len(),
    ensures
        found == occurs_at(text@, part@, at as int),
{
    let total: usize = text.len();
    for i in 0..part.len()
        invariant
            total == text@.len(),
            at + part@.len() <= total,
            forall|j: int| 0 <= j < i ==> text@[at + j] == part@[j],
    {
        if text[at + i] != part[i] {
            assert(text@.subrange(at as int, at + part@.len())[i as int] != part@[i as int]);
            return false;
        }
    }
    assert(text@.subrange(at as int, at + part@.len()) =~= part@);
    true
}

/// Whether a string holds another one.
pub fn contains(text: &str, part: &str) -> (found: bool)
    ensures
        found == holds(text@, part@),
{
    let text_list = characters(text);
    let part_list = characters(part);
    if part_list.len() > text_list.len() {
        return false;
    }
    let last: usize = text_list.len() - part_list.len();
    let mut at: usize = 0;
    while at <= last
        invariant
            text_list@ == text@,
            part_list@ == part@,
            last == text@.len() - part@.len(),
            at <= last + 1,
            forall|j: int| 0 <= j < at ==> !occurs_at(text@, part@, j),
        decreases last + 1 - at,
    {
        if matches_at(&text_list, &part_list, at) {
            return true;
        }
        if at == last {
            return false;
        }
        at = at + 1;
    }
    false
}

/// Whether a string starts with another one.
pub fn starts_with(text: &str, part: &str) -> (found: bool)
    ensures
        found == begins(text@, part@),
{
    let text_list = characters(text);
    let part_list = characters(part);
    part_list.len() <= text_list.len() && matches_at(&text_list, &part_list, 0)
}

/// Whether a string ends with another one.
pub fn ends_with(text: &str, part: &str) -> (found: bool)
    ensures
        found == ends(text@, part@),
{
    let text_list = characters(text);
    let part_list = characters(part);
    part_list.len() <= text_list.len() && matches_at(
        &text_list,
        &part_list,
        text_list.len() - part_list.len(),
    )
}

/// Where a character last stands in a text.
pub open spec fn last_index(text: Seq<char>, c: char) -> Option<int>
    decreases text.len(),
{
    if text.len() == 0 {
        None
    } else if text.last() == c {
        Some(text.len() - 1)
    } else {
        last_index(text.drop_last(), c)
    }
}

/// Where a character last stands in a list of them.
pub fn rfind(list: &[char], c: char) -> (found: Option<usize>)
    ensures
        found is Some <==> last_index(list@, c) is Some,
        found is Some ==> found->0 == last_index(list@, c)->0 && found->0 < list@.len()
            && list@[found->0 as int] == c,
{
    let mut i: usize = list.len();
    assert(list@.take(i as int) =~= list@);
    while i > 0
        invariant
            i <= list@.len(),
            last_index(list@, c) == last_index(list@.take(i as int), c),
        decreases i,
    {
        assert(list@.take(i as int).drop_last() =~= list@.take(i - 1));
        if list[i - 1] == c {
            return Some(i - 1);
        }
        i = i - 1;
    }
    None
}

/// Where a character first stands in a text at or behind a place.
pub open spec fn next_index<T>(text: Seq<T>, c: T, from: int) -> Option<int>
    decreases text.len() - from,
{
    if from < 0 || from >= text.len() {
        None
    } else if text[from] == c {
        Some(from)
    } else {
        next_index(text, c, from + 1)
    }
}

/// Where a character first stands in a list of them at or behind a place.
pub fn find_from(list: &[char], c: char, from: usize) -> (found: Option<usize>)
    requires
        from <= list@.len(),
    ensures
        found is Some <==> next_index(list@, c, from as int) is Some,
        found is Some ==> found->0 == next_index(list@, c, from as int)->0 && from <= found->0
            < list@.len() && list@[found->0 as int] == c,
{
    let mut i: usize = from;
    while i < list.len()
        invariant
            from <= i <= list@.len(),
            next_index(list@, c, from as int) == next_index(list@, c, i as int),
        decreases list@.len() - i,
    {
        if list[i] == c {
            return Some(i);
        }
        i = i + 1;
    }
    None
}

/// Texts one behind the other with a separator between each two.
pub open spec fn joined(parts: Seq<Seq<char>>, between: Seq<char>) -> Seq<char>
    decreases parts.len(),
{
    if parts.len() == 0 {
        Seq::empty()
    } else if parts.len() == 1 {
        parts[0]
    } else {
        joined(parts.drop_last(), between) + between + parts.last()
    }
}

/// Strings one behind the other with a separator between each two.
pub fn join(parts: &Vec<String>, between: &str) -> (text: String)
    ensures
        text@ == joined(texts(parts@), between@),
{
    let mut text = String::new();
    for i in 0..parts.len()
        invariant
            text@ == joined(texts(parts@).take(i as int), between@),
    {
        assert(texts(parts@).take(i + 1).drop_last() =~= texts(parts@).take(i as int));
        if i > 0 {
            text.append(between);
        }
        text.append(parts[i].as_str());
    }
    assert(texts(parts@).take(parts@.len() as int) =~= texts(parts@));
    text
}

/// The 16 bit units that bytes hold, the low byte of each first. A byte left
/// over at the end belongs to no unit.
pub open spec fn units(bytes: Seq<u8>) -> Seq<u16> {
    Seq::new(bytes.len() / 2, |i: int| (bytes[2 * i] + 256 * bytes[2 * i + 1]) as u16)
}

/// The characters that UTF-16 units from a place on stand for. A surrogate
/// without its partner stands for the replacement character.
pub open spec fn utf16_from(list: Seq<u16>, from: int) -> Seq<char>
    decreases list.len() - from,
{
    if from < 0 || from >= list.len() {
        Seq::empty()
    } else if list[from] < 0xd800 || list[from] >= 0xe000 {
        seq![list[from] as char] + utf16_from(list, from + 1)
    } else if list[from] < 0xdc00 && from + 1 < list.len() && 0xdc00 <= list[from + 1] < 0xe000 {
        seq![(0x10000 + (list[from] - 0xd800) * 0x400 + (list[from + 1] - 0xdc00)) as char]
            + utf16_from(list, from + 2)
    } else {
        seq!['\u{fffd}'] + utf16_from(list, from + 1)
    }
}

/// The characters that UTF-16 units stand for.
pub open spec fn utf16_text(list: Seq<u16>) -> Seq<char> {
    utf16_from(list, 0)
}

/// The 16 bit units that bytes hold.
pub fn units_of(bytes: &[u8]) -> (list: Vec<u16>)
    ensures
        list@ == units(bytes@),
{
    let mut list: Vec<u16> = Vec::new();
    let total: usize = bytes.len();
    for i in 0..total / 2
        invariant
            total == bytes@.len(),
            list@ == units(bytes@).take(i as int),
    {
        list.push(bytes[2 * i] as u16 + 256u16 * (bytes[2 * i + 1] as u16));
    }
    list
}

/// The string that UTF-16 units stand for.
pub fn utf16(list: &[u16]) -> (text: String)
    ensures
        text@ == utf16_text(list@),
{
    let mut text = String::new();
    let mut i: usize = 0;
    while i < list.len()
        invariant
            i <= list@.len(),
            utf16_text(list@) == text@ + utf16_from(list@, i as int),
        decreases list@.len() - i,
    {
        let unit: u32 = list[i] as u32;
        let ghost before = text@;
        if unit < 0xd800 || unit >= 0xe000 {
            if let Some(c) = char::from_u32(unit) {
                text.push(c);
            }
            assert(text@ =~= before + seq![list@[i as int] as char]);
            i = i + 1;
        } else if unit < 0xdc00 && i + 1 < list.len() && 0xdc00 <= list[i + 1] && list[i + 1]
            < 0xe000 {
            let value: u32 = 0x10000u32 + (unit - 0xd800u32) * 0x400u32 + (list[i + 1] as u32
                - 0xdc00u32);
            if let Some(c) = char::from_u32(value) {
                text.push(c);
            }
            assert(text@ =~= before + seq![value as char]);
            i = i + 2;
        } else {
            text.push('\u{fffd}');
            assert(text@ =~= before + seq!['\u{fffd}']);
            i = i + 1;
        }
        assert(utf16_text(list@) =~= text@ + utf16_from(list@, i as int));
    }
    text
}

/// Whether a text is one of a list.
pub fn is_listed(list: &Vec<String>, text: &str) -> (found: bool)
    ensures
        found == texts(list@).contains(text@),
{
    for i in 0..list.len()
        invariant
            forall|j: int| 0 <= j < i ==> texts(list@)[j] != text@,
    {
        if same_text(&list[i], text) {
            assert(texts(list@)[i as int] == text@);
            return true;
        }
    }
    false
}

/// What UTF-8 bytes spell once each part that is not UTF-8 is replaced.
pub uninterp spec fn utf8_lossy_text(bytes: Seq<u8>) -> Seq<char>;

/// `String::from_utf8_lossy` decodes UTF-8 and puts a replacement character for
/// each part that is not UTF-8. How long such a part is, is left unsaid: the
/// result is named as a function of the bytes.
#[verifier::external_body]
pub(crate) fn utf8_lossy(bytes: &[u8]) -> (text: String)
    ensures
        text@ == utf8_lossy_text(bytes@),
{
    String::from_utf8_lossy(bytes).into_owned()
}

/// A text in lower case by the Unicode rules.
pub uninterp spec fn lowercase_text(text: Seq<char>) -> Seq<char>;

/// `str::to_lowercase` applies Unicode's lower case mapping, whose tables are
/// left unsaid but for the ASCII characters: the result is named as a function of
/// the text.
#[verifier::external_body]
pub(crate) fn lowercase(text: &str) -> (low: String)
    ensures
        low@ == lowercase_text(text@),
        is_ascii(text@) ==> low@ == lower(text@),
{
    text.to_lowercase()
}

/// A text in upper case by the Unicode rules.
pub uninterp spec fn uppercase_text(text: Seq<char>) -> Seq<char>;

/// An ASCII letter in upper case; any other character as it is.
pub open spec fn upper_char(c: char) -> char {
    if 'a' <= c <= 'z' {
        (c as int - 32) as char
    } else {
        c
    }
}

/// A text with its ASCII letters in upper case.
pub open spec fn upper(text: Seq<char>) -> Seq<char> {
    Seq::new(text.len(), |i: int| upper_char(text[i]))
}

/// Whether a text has ASCII characters alone.
pub open spec fn is_ascii(text: Seq<char>) -> bool {
    forall|i: int| 0 <= i < text.len() ==> (#[trigger] text[i]) as int <= 0x7f
}

/// `str::to_uppercase` applies Unicode's upper case mapping, whose tables are
/// left unsaid but for the ASCII characters: the result is named as a function of
/// the text.
#[verifier::external_body]
pub(crate) fn uppercase(text: &str) -> (high: String)
    ensures
        high@ == uppercase_text(text@),
        is_ascii(text@) ==> high@ == upper(text@),
{
    text.to_uppercase()
}

/// Whether a text comes before another one in the order of characters.
pub open spec fn precedes(a: Seq<char>, b: Seq<char>) -> bool
    decreases a.len(),
{
    if b.len() == 0 {
        false
    } else if a.len() == 0 {
        true
    } else if a[0] != b[0] {
        a[0] < b[0]
    } else {
        precedes(a.skip(1), b.skip(1))
    }
}

/// Of two texts only one comes before the other.
pub proof fn lemma_precedes_one_way(a: Seq<char>, b: Seq<char>)
    requires
        precedes(a, b),
    ensures
        !precedes(b, a),
    decreases a.len(),
{
    if a.len() > 0 && a[0] == b[0] {
        lemma_precedes_one_way(a.skip(1), b.skip(1));
    }
}

/// A text that does not come before another one does not come before what that
/// one does not come after.
pub proof fn lemma_precedes_chain(a: Seq<char>, b: Seq<char>, c: Seq<char>)
    requires
        !precedes(b, a),
        !precedes(c, b),
    ensures
        !precedes(c, a),
    decreases a.len(),
{
    if a.len() > 0 && b.len() > 0 && c.len() > 0 && a[0] == b[0] && b[0] == c[0] {
        lemma_precedes_chain(a.skip(1), b.skip(1), c.skip(1));
    }
}

/// Whether a string comes before another one in the order of characters.
pub fn comes_before(a: &str, b: &str) -> (before: bool)
    ensures
        before == precedes(a@, b@),
{
    let left = characters(a);
    let right = characters(b);
    let mut i: usize = 0;
    assert(a@.skip(0) =~= a@);
    assert(b@.skip(0) =~= b@);
    while i < left.len() && i < right.len()
        invariant
            left@ == a@,
            right@ == b@,
            i <= a@.len(),
            i <= b@.len(),
            precedes(a@, b@) == precedes(a@.skip(i as int), b@.skip(i as int)),
        decreases a@.len() - i,
    {
        if left[i] != right[i] {
            return left[i] < right[i];
        }
        assert(a@.skip(i as int).skip(1) =~= a@.skip(i + 1));
        assert(b@.skip(i as int).skip(1) =~= b@.skip(i + 1));
        i = i + 1;
    }
    i < right.len()
}

/// A text without the characters of one kind at its end.
pub open spec fn trimmed_end(text: Seq<char>, c: char) -> Seq<char>
    decreases text.len(),
{
    if text.len() > 0 && text.last() == c {
        trimmed_end(text.drop_last(), c)
    } else {
        text
    }
}

/// A string without the characters of one kind at its end.
pub fn trim_end(text: &str, c: char) -> (trimmed: String)
    ensures
        trimmed@ == trimmed_end(text@, c),
{
    let list = characters(text);
    let mut end: usize = list.len();
    assert(list@.take(end as int) =~= text@);
    while end > 0 && list[end - 1] == c
        invariant
            list@ == text@,
            end <= list@.len(),
            trimmed_end(text@, c) == trimmed_end(list@.take(end as int), c),
        decreases end,
    {
        assert(list@.take(end as int).drop_last() =~= list@.take(end - 1));
        end = end - 1;
    }
    let trimmed = assemble(&list, 0, end);
    assert(trimmed@ =~= list@.take(end as int));
    trimmed
}

/// The part of a text before its first NUL character.
pub open spec fn before_nul(text: Seq<char>) -> Seq<char> {
    match next_index(text, '\0', 0) {
        Some(end) => text.take(end),
        None => text,
    }
}

/// The part of a text before its first NUL character.
pub fn cut_at_nul(text: &str) -> (cut: String)
    ensures
        cut@ == before_nul(text@),
{
    let list = characters(text);
    match find_from(list.as_slice(), '\0', 0) {
        Some(end) => {
            let cut = assemble(list.as_slice(), 0, end);
            assert(cut@ =~= text@.take(end as int));
            cut
        },
        None => {
            let cut = assemble(list.as_slice(), 0, list.len());
            assert(cut@ =~= text@);
            cut
        },
    }
}

/// The parts of a text between the places of a character, from a place on.
pub open spec fn pieces_from(text: Seq<char>, c: char, from: int) -> Seq<Seq<char>>
    decreases text.len() - from,
{
    if from < 0 || from > text.len() {
        Seq::empty()
    } else {
        proof {
            lemma_next_index(text, c, from);
        }
        match next_index(text, c, from) {
            Some(at) => seq![text.subrange(from, at)] + pieces_from(text, c, at + 1),
            None => seq![text.subrange(from, text.len() as int)],
        }
    }
}

/// What is found stands where it was looked for.
pub proof fn lemma_next_index<T>(text: Seq<T>, c: T, from: int)
    ensures
        next_index(text, c, from) is Some ==> from <= next_index(text, c, from)->0 < text.len()
            && text[next_index(text, c, from)->0] == c,
    decreases text.len() - from,
{
    if 0 <= from < text.len() && text[from] != c {
        lemma_next_index(text, c, from + 1);
    }
}

/// The parts of a text between the places of a character.
pub fn split(text: &str, c: char) -> (parts: Vec<String>)
    ensures
        texts(parts@) == pieces_from(text@, c, 0),
{
    let list = characters(text);
    let mut parts: Vec<String> = Vec::new();
    let mut from: usize = 0;
    assert(texts(parts@) =~= Seq::<Seq<char>>::empty());
    assert(pieces_from(text@, c, 0) =~= texts(parts@) + pieces_from(text@, c, 0));
    loop
        invariant
            list@ == text@,
            from <= list@.len(),
            pieces_from(text@, c, 0) == texts(parts@) + pieces_from(text@, c, from as int),
        decreases list@.len() - from,
    {
        let ghost before = texts(parts@);
        match find_from(list.as_slice(), c, from) {
            Some(at) => {
                let part = assemble(list.as_slice(), from, at);
                let ghost rest = pieces_from(text@, c, at + 1);
                push_text(&mut parts, part);
                assert(before + (seq![part@] + rest) =~= texts(parts@) + rest);
                from = at + 1;
            },
            None => {
                let part = assemble(list.as_slice(), from, list.len());
                push_text(&mut parts, part);
                assert(before + seq![part@] =~= texts(parts@));
                return parts;
            },
        }
    }
}

/// The UTF-16 units of a character.
pub open spec fn char_units(c: char) -> Seq<u16> {
    if (c as int) < 0x10000 {
        seq![c as u16]
    } else {
        seq![
            (0xd800 + (c as int - 0x10000) / 0x400) as u16,
            (0xdc00 + (c as int - 0x10000) % 0x400) as u16,
        ]
    }
}

/// The UTF-16 units of the first characters of a text.
pub open spec fn encoded(text: Seq<char>, count: int) -> Seq<u16>
    decreases count,
{
    if count <= 0 {
        Seq::empty()
    } else {
        encoded(text, count - 1) + char_units(text[count - 1])
    }
}

fn code_of(c: char) -> (code: u32)
    ensures
        code == c as int,
        code <= 0x10ffff,
{
    c as u32
}

/// The UTF-16 units of a text.
pub fn encode_utf16(text: &str) -> (units: Vec<u16>)
    ensures
        units@ == encoded(text@, text@.len() as int),
{
    let list = characters(text);
    let mut units: Vec<u16> = Vec::new();
    for i in 0..list.len()
        invariant
            list@ == text@,
            units@ == encoded(text@, i as int),
    {
        let ghost before = units@;
        let code: u32 = code_of(list[i]);
        if code < 0x10000 {
            units.push(code as u16);
            assert(units@ =~= before + char_units(text@[i as int]));
        } else {
            units.push((0xd800 + (code - 0x10000) / 0x400) as u16);
            units.push((0xdc00 + (code - 0x10000) % 0x400) as u16);
            assert(units@ =~= before + char_units(text@[i as int]));
        }
    }
    units
}

/// The bytes of some 16 bit units, the low byte of each first.
pub open spec fn unit_bytes(units: Seq<u16>) -> Seq<u8> {
    Seq::new(
        2 * units.len(),
        |i: int|
            if i % 2 == 0 {
                (units[i / 2] % 256) as u8
            } else {
                (units[i / 2] / 256) as u8
            },
    )
}

/// The bytes of some 16 bit units, the low byte of each first.
pub fn bytes_of_units(units: &Vec<u16>) -> (bytes: Vec<u8>)
    ensures
        bytes@ == unit_bytes(units@),
{
    let mut bytes: Vec<u8> = Vec::new();
    for i in 0..units.len()
        invariant
            bytes@ =~= unit_bytes(units@.take(i as int)),
    {
        let ghost before = bytes@;
        bytes.push((units[i] % 256) as u8);
        bytes.push((units[i] / 256) as u8);
        let ghost wider = unit_bytes(units@.take(i + 1));
        assert(bytes@ =~= wider) by {
            assert(wider.len() == bytes@.len());
            assert forall|k: int| 0 <= k < wider.len() implies bytes@[k] == wider[k] by {
                if k < 2 * i {
                    assert(before[k] == unit_bytes(units@.take(i as int))[k]);
                    assert(units@.take(i as int)[k / 2] == units@.take(i + 1)[k / 2]);
                } else {
                    assert(k / 2 == i);
                }
            }
        }
    }
    assert(units@.take(units@.len() as int) =~= units@);
    bytes
}

} // verus!
