//! Where the files that plugins recover go.

use crate::renderers::TreeGrid;
use crate::text::{assemble, characters, decimal, is_listed, push_text, rfind};
use vstd::prelude::*;

verus! {

/// The directory that recovered files go to, and what is known of it.
#[derive(Debug)]
pub struct Output {
    /// The working directory, where there is none.
    pub directory: Option<String>,
    /// The names that are taken there.
    pub existing: Vec<String>,
    /// The names under which nothing can be written there.
    pub refused: Vec<String>,
}

/// The place of a file: its name in a directory.
#[derive(Debug)]
pub struct OutputPath {
    pub directory: Option<String>,
    pub name: String,
}

/// Write extracted files somewhere other than the working directory.
pub fn set_output_directory(output: &mut Output, path: &str)
    ensures
        crate::text::maybe_text(final(output).directory) == Some(path@),
        final(output).existing == old(output).existing,
        final(output).refused == old(output).refused,
{
    output.directory = Some(path.to_owned());
}

/// The full path a named output file takes.
pub fn output_path(output: &Output, name: &str) -> (path: OutputPath)
    ensures
        path.directory == output.directory,
        path.name@ == name@,
{
    OutputPath {
        directory: match &output.directory {
            Some(directory) => Some(directory.clone()),
            None => None,
        },
        name: name.to_owned(),
    }
}

/// What stands in front of the last dot of a name, or all of it.
pub open spec fn stem(name: Seq<char>) -> Seq<char> {
    match crate::text::last_index(name, '.') {
        Some(dot) => name.take(dot),
        None => name,
    }
}

/// What stands in front of the last dot of a name, or all of it.
pub fn stem_of(name: &str) -> (front: String)
    ensures
        front@ == stem(name@),
{
    let list = characters(name);
    match rfind(&list, '.') {
        Some(dot) => {
            let front = assemble(&list, 0, dot);
            assert(front@ =~= stem(name@));
            front
        },
        None => name.to_owned(),
    }
}

/// The last dot of a name and what stands behind it, or nothing.
pub open spec fn extension(name: Seq<char>) -> Seq<char> {
    match crate::text::last_index(name, '.') {
        Some(dot) => name.skip(dot),
        None => Seq::empty(),
    }
}

/// A name with a counter between its stem and its extension; the name itself
/// for a counter of zero.
pub open spec fn numbered(name: Seq<char>, counter: nat) -> Seq<char> {
    if counter == 0 {
        name
    } else {
        stem(name) + seq!['-'] + crate::text::decimal_text(counter as int) + extension(name)
    }
}

/// The first name, counting up from a counter, that is not taken.
pub open spec fn free_from(name: Seq<char>, taken: Seq<Seq<char>>, counter: nat) -> Seq<char>
    decreases taken.len() + 1 - counter,
{
    if counter >= taken.len() || !taken.contains(numbered(name, counter)) {
        numbered(name, counter)
    } else {
        free_from(name, taken, counter + 1)
    }
}

/// The name an extracted file takes, given the names that are taken.
pub open spec fn free_name(name: Seq<char>, taken: Seq<Seq<char>>) -> Seq<char> {
    free_from(name, taken, 0)
}

/// Two numbers with the same digits are the same number.
pub proof fn lemma_digits_injective(a: nat, b: nat)
    requires
        crate::text::digits(a, 10) == crate::text::digits(b, 10),
    ensures
        a == b,
    decreases a + b,
{
    let left = crate::text::digits(a, 10);
    let right = crate::text::digits(b, 10);
    assert(left.last() == right.last());
    if a >= 10 {
        assert(left.drop_last() =~= crate::text::digits(a / 10, 10));
        lemma_digits_not_empty(a / 10);
    }
    if b >= 10 {
        assert(right.drop_last() =~= crate::text::digits(b / 10, 10));
        lemma_digits_not_empty(b / 10);
    }
    if a >= 10 && b >= 10 {
        lemma_digits_injective(a / 10, b / 10);
    }
}

proof fn lemma_digits_not_empty(a: nat)
    ensures
        crate::text::digits(a, 10).len() > 0,
{
}

/// The numbered forms of a name are all different.
pub proof fn lemma_numbered_injective(name: Seq<char>, a: nat, b: nat)
    requires
        numbered(name, a) == numbered(name, b),
    ensures
        a == b,
{
    lemma_last_index(name, '.');
    let front = stem(name) + seq!['-'];
    let behind = extension(name);
    assert(name.len() == stem(name).len() + behind.len());
    if a != 0 && b != 0 {
        let x = crate::text::digits(a, 10);
        let y = crate::text::digits(b, 10);
        assert(numbered(name, a).len() == front.len() + x.len() + behind.len());
        assert(x =~= numbered(name, a).subrange(front.len() as int, (front.len() + x.len()) as int));
        assert(y =~= numbered(name, b).subrange(front.len() as int, (front.len() + y.len()) as int));
        lemma_digits_injective(a, b);
    }
}

proof fn lemma_last_index(text: Seq<char>, c: char)
    ensures
        crate::text::last_index(text, c) matches Some(at) ==> 0 <= at < text.len(),
    decreases text.len(),
{
    if text.len() > 0 && text.last() != c {
        lemma_last_index(text.drop_last(), c);
    }
}

/// The numbered forms with counters below a bound.
spec fn numbered_below(name: Seq<char>, bound: nat) -> Set<Seq<char>>
    decreases bound,
{
    if bound == 0 {
        Set::empty()
    } else {
        numbered_below(name, (bound - 1) as nat).insert(numbered(name, (bound - 1) as nat))
    }
}

proof fn lemma_numbered_below(name: Seq<char>, bound: nat)
    ensures
        numbered_below(name, bound).finite(),
        numbered_below(name, bound).len() == bound,
        forall|form: Seq<char>| #[trigger]
            numbered_below(name, bound).contains(form) <==> exists|counter: nat|
                counter < bound && form == numbered(name, counter),
    decreases bound,
{
    if bound > 0 {
        let last = (bound - 1) as nat;
        lemma_numbered_below(name, last);
        assert(!numbered_below(name, last).contains(numbered(name, last))) by {
            if numbered_below(name, last).contains(numbered(name, last)) {
                let counter = choose|counter: nat|
                    counter < last && numbered(name, last) == numbered(name, counter);
                lemma_numbered_injective(name, last, counter);
            }
        }
        assert forall|form: Seq<char>| #[trigger]
            numbered_below(name, bound).contains(form) <==> exists|counter: nat|
                counter < bound && form == numbered(name, counter) by {
            if numbered_below(name, bound).contains(form) {
                if form == numbered(name, last) {
                    assert(last < bound);
                } else {
                    let counter = choose|counter: nat|
                        counter < last && form == numbered(name, counter);
                    assert(counter < bound);
                }
            }
            if exists|counter: nat| counter < bound && form == numbered(name, counter) {
                let counter = choose|counter: nat| counter < bound && form == numbered(name, counter);
                if counter != last {
                    assert(numbered_below(name, last).contains(form));
                }
            }
        }
    }
}

proof fn lemma_free_from(name: Seq<char>, taken: Seq<Seq<char>>, counter: nat)
    requires
        counter <= taken.len(),
        forall|earlier: nat| earlier < counter ==> taken.contains(#[trigger] numbered(name, earlier)),
    ensures
        !taken.contains(free_from(name, taken, counter)),
    decreases taken.len() - counter,
{
    if !taken.contains(numbered(name, counter)) {
    } else if counter < taken.len() {
        lemma_free_from(name, taken, counter + 1);
    } else {
        let forms = numbered_below(name, (taken.len() + 1) as nat);
        lemma_numbered_below(name, (taken.len() + 1) as nat);
        assert(forms.subset_of(taken.to_set())) by {
            assert forall|form: Seq<char>| forms.contains(form) implies taken.to_set().contains(
                form,
            ) by {
                let c = choose|c: nat| c < taken.len() + 1 && form == numbered(name, c);
                assert(taken.contains(numbered(name, c)));
            }
        }
        vstd::set_lib::lemma_len_subset(forms, taken.to_set());
        taken.lemma_cardinality_of_set();
    }
}

/// A recovered file never takes a name that is taken.
pub proof fn law_free_name_is_free(name: Seq<char>, taken: Seq<Seq<char>>)
    ensures
        !taken.contains(free_name(name, taken)),
{
    lemma_free_from(name, taken, 0);
}

/// A name that is not taken is kept as it is.
pub proof fn law_free_name_keeps_a_free_one(name: Seq<char>, taken: Seq<Seq<char>>)
    requires
        !taken.contains(name),
    ensures
        free_name(name, taken) == name,
{
}

/// The name an extracted file will actually take, given what is already there.
pub fn free_extracted_name(name: &str, taken: &Vec<String>) -> (chosen: String)
    ensures
        chosen@ == free_name(name@, crate::text::texts(taken@)),
        !crate::text::texts(taken@).contains(chosen@),
{
    proof {
        law_free_name_is_free(name@, crate::text::texts(taken@));
    }
    if taken.len() == 0 || !is_listed(taken, name) {
        return name.to_owned();
    }
    let list = characters(name);
    proof {
        lemma_last_index(name@, '.');
    }
    let (front, behind) = match rfind(&list, '.') {
        Some(dot) => (assemble(&list, 0, dot), assemble(&list, dot, list.len())),
        None => (name.to_owned(), String::new()),
    };
    assert(front@ =~= stem(name@));
    assert(behind@ =~= extension(name@));
    let mut counter: usize = 1;
    loop
        invariant
            1 <= counter <= taken@.len(),
            front@ == stem(name@),
            behind@ == extension(name@),
            free_name(name@, crate::text::texts(taken@)) == free_from(
                name@,
                crate::text::texts(taken@),
                counter as nat,
            ),
            !crate::text::texts(taken@).contains(free_name(name@, crate::text::texts(taken@))),
        decreases taken@.len() - counter,
    {
        let mut candidate = front.clone();
        candidate.push('-');
        candidate.append(&decimal(counter as u64));
        candidate.append(&behind);
        assert(candidate@ =~= numbered(name@, counter as nat));
        if counter >= taken.len() || !is_listed(taken, &candidate) {
            return candidate;
        }
        counter = counter + 1;
    }
}

/// The names that are taken while a report is made: those the directory holds,
/// and those of the files recovered so far.
pub open spec fn taken_names(table: crate::renderers::Table, output: &Output) -> Seq<Seq<char>> {
    crate::text::texts(output.existing@) + Seq::new(
        table.files.len(),
        |i: int| table.files[i].name,
    )
}

/// The report once a file is kept beside it, and the name the file took. Where
/// nothing can be written under that name, the report stays as it is.
pub open spec fn extracted(
    table: crate::renderers::Table,
    output: &Output,
    name: Seq<char>,
    data: Seq<u8>,
) -> (crate::renderers::Table, Option<Seq<char>>) {
    let chosen = free_name(name, taken_names(table, output));
    if crate::text::texts(output.refused@).contains(chosen) {
        (table, None)
    } else {
        (
            crate::renderers::Table {
                files: table.files.push(crate::renderers::FileView { name: chosen, data }),
                ..table
            },
            Some(chosen),
        )
    }
}

/// A recovered file overwrites nothing: neither a file that the directory held nor
/// one that was recovered before. Those stay as they are, and so does the report.
pub proof fn law_nothing_is_overwritten(
    table: crate::renderers::Table,
    output: &Output,
    name: Seq<char>,
    data: Seq<u8>,
)
    ensures
        extracted(table, output, name, data).1 matches Some(chosen) ==> {
            let after = extracted(table, output, name, data).0;
            &&& !crate::text::texts(output.existing@).contains(chosen)
            &&& forall|i: int|
                0 <= i < table.files.len() ==> (#[trigger] table.files[i]).name != chosen
            &&& after.files.drop_last() == table.files
            &&& after.files.last() == (crate::renderers::FileView { name: chosen, data })
            &&& after == (crate::renderers::Table { files: after.files, ..table })
        },
        extracted(table, output, name, data).1 is None ==> extracted(table, output, name, data).0
            == table,
{
    let taken = taken_names(table, output);
    let first = crate::text::texts(output.existing@);
    let chosen = free_name(name, taken);
    law_free_name_is_free(name, taken);
    assert forall|i: int| 0 <= i < first.len() implies first[i] != chosen by {
        assert(taken[i] == first[i]);
    }
    assert forall|i: int| 0 <= i < table.files.len() implies (#[trigger] table.files[i]).name
        != chosen by {
        assert(taken[first.len() + i] == table.files[i].name);
    }
    if extracted(table, output, name, data).1 is Some {
        assert(extracted(table, output, name, data).0.files.drop_last() =~= table.files);
    }
}

/// Keep a file a plugin has extracted, without overwriting an earlier one.
///
/// A run can produce two files that want the same name (the same executable
/// running as several processes, say), so a name already taken gains a counter.
/// The name actually taken is returned: a plugin that reports its files after
/// writing them reports that one, while a plugin that reports them as it opens
/// them reports the name it asked for.
pub fn extract(grid: &mut TreeGrid, output: &Output, name: &str, data: Vec<u8>) -> (written: Option<
    String,
>)
    ensures
        (final(grid)@, crate::text::maybe_text(written)) == extracted(
            old(grid)@,
            output,
            name@,
            data@,
        ),
{
    let mut taken: Vec<String> = Vec::new();
    for i in 0..output.existing.len()
        invariant
            crate::text::texts(taken@) == crate::text::texts(output.existing@).take(i as int),
    {
        let copy = output.existing[i].clone();
        push_text(&mut taken, copy);
    }
    let ghost first = crate::text::texts(output.existing@);
    assert(crate::text::texts(taken@) =~= first);
    for i in 0..grid.files.len()
        invariant
            *grid == *old(grid),
            crate::text::texts(taken@) == first + Seq::new(
                grid@.files.len(),
                |j: int| grid@.files[j].name,
            ).take(i as int),
    {
        let copy = grid.files[i].name.clone();
        push_text(&mut taken, copy);
        assert(crate::text::texts(taken@) =~= first + Seq::new(
            grid@.files.len(),
            |j: int| grid@.files[j].name,
        ).take(i + 1));
    }
    assert(crate::text::texts(taken@) =~= taken_names(grid@, output));
    let chosen = free_extracted_name(name, &taken);
    if is_listed(&output.refused, &chosen) {
        None
    } else {
        grid.keep(chosen.clone(), data);
        Some(chosen)
    }
}

} // verus!
