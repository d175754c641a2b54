//! Laws on the recovery of cached files.

use crate::context::{Context, Module, Object, TypeId};
use crate::lists;
use crate::plugins::windows::dumpfiles::{
    area_pages, pages_from, read_subsection, resident, run_pages, section_of, Page, Run, Section,
    Subsection,
};
use vstd::prelude::*;

verus! {

/// How many addresses there are.
pub open spec fn range() -> int {
    0x1_0000_0000_0000_0000
}

/// Whether a page table entry says that its page is at a place of memory. A mapped
/// page is at 4096 times its frame number. One on its way out is at 4096 times the low
/// thirty-three bits of it.
pub open spec fn entry_says(context: &Context, entry: Object, place: u64) -> bool {
    let union = context.member(entry, "u")->0;
    let hard = context.member(union, "Hard")->0;
    let trans = context.member(union, "Trans")->0;
    &&& context.member(entry, "u") is Some
    &&& context.member(union, "Hard") is Some
    &&& context.member_u64(hard, "Valid") is Some
    &&& if context.member_u64(hard, "Valid") == Some(1u64) {
        context.member_u64(hard, "PageFrameNumber") matches Some(frame) && place == frame * 4096
            % range()
    } else {
        context.member(union, "Trans") is Some && context.member_u64(trans, "Transition") == Some(
            1u64,
        ) && (context.member_u64(trans, "PageFrameNumber") matches Some(frame) && place == (frame
            % 0x2_0000_0000) * 4096)
    }
}

/// The subsection of an area at an address.
pub open spec fn subsection_at(context: &Context, kernel: &Module, area: Object, at: u64) -> Object {
    Object {
        kind: context.get_type(kernel.table, "_SUBSECTION")->0,
        layer: area.layer,
        native: area.layer,
        offset: at,
    }
}

/// The page table entry of a number that a subsection has.
pub open spec fn entry_of(context: &Context, kernel: &Module, subsection: Object, index: int) -> Object {
    let kind = context.get_type(kernel.table, "_MMPTE")->0;
    Object {
        kind,
        layer: subsection.layer,
        native: subsection.layer,
        offset: ((context.member_pointer(subsection, "SubsectionBase")->0 + context.size_of(kind)->0
            * index) % range()) as u64,
    }
}

/// Whether a page is the one of a number of a subsection, in a file that is described
/// in units of so many bytes.
#[verifier::opaque]
pub open spec fn is_page_of(
    context: &Context,
    kernel: &Module,
    area: Object,
    at: u64,
    index: int,
    unit: int,
    page: Page,
) -> bool {
    let subsection = subsection_at(context, kernel, area, at);
    &&& context.member_pointer(subsection, "ControlArea") == Some(area.offset)
    &&& context.member_u64(subsection, "PtesInSubsection") matches Some(count) && 0 <= index < count
    &&& context.member_u64(subsection, "StartingSector") matches Some(sector) && page.file_offset == (
    sector * unit + index * 4096) % range()
    &&& page.size == 4096
    &&& entry_says(context, entry_of(context, kernel, subsection, index), page.memory_offset)
}

/// Whether a subsection belongs to an area and all that it says can be read.
pub open spec fn is_whole(context: &Context, area: Object, subsection: Object) -> bool {
    &&& context.member_pointer(subsection, "ControlArea") == Some(area.offset)
    &&& context.member_u64(subsection, "StartingSector") is Some
    &&& context.member_pointer(subsection, "SubsectionBase") is Some
    &&& context.member_u64(subsection, "PtesInSubsection") is Some
    &&& context.member_pointer(subsection, "NextSubsection") is Some
}

/// Whether addresses are those of subsections that lead from one to the next.
pub open spec fn is_chain(context: &Context, kernel: &Module, area: Object, chain: Seq<u64>) -> bool {
    &&& chain.no_duplicates()
    &&& forall|i: int|
        0 <= i < chain.len() ==> is_whole(
            context,
            area,
            #[trigger] subsection_at(context, kernel, area, chain[i]),
        )
    &&& forall|i: int|
        0 <= i < chain.len() - 1 ==> chain[i + 1] != 0 && context.member_pointer(
            #[trigger] subsection_at(context, kernel, area, chain[i]),
            "NextSubsection",
        ) == Some(chain[i + 1])
}

proof fn lemma_resident(context: &Context, entry: Object)
    ensures
        forall|place: u64| #[trigger]
            entry_says(context, entry, place) <==> resident(context, entry) == Some(Some(place)),
{
    assert forall|place: u64| #[trigger]
        entry_says(context, entry, place) <==> resident(context, entry) == Some(Some(place)) by {
        let union = context.member(entry, "u")->0;
        let hard = context.member(union, "Hard")->0;
        let trans = context.member(union, "Trans")->0;
        if let Some(frame) = context.member_u64(hard, "PageFrameNumber") {
            assert(frame << 12u64 == (frame * 4096) % 0x1_0000_0000_0000_0000)
                by (bit_vector);
        }
        if let Some(frame) = context.member_u64(trans, "PageFrameNumber") {
            assert((frame & 0x1_ffff_ffffu64) << 12u64 == (frame % 0x2_0000_0000) * 4096) by (bit_vector);
        }
    }
}

proof fn lemma_place(start: u64, sector: u64, unit: u64, index: u64)
    requires
        start == sector.wrapping_mul(unit),
    ensures
        start.wrapping_add(index.wrapping_mul(4096)) == (sector * unit + index * 4096) % range(),
{
    let a = (sector as int) * (unit as int);
    let b = (index as int) * 4096;
    assert(start == a % range());
    assert(index.wrapping_mul(4096) == b % range());
    vstd::arithmetic::div_mod::lemma_add_mod_noop(a, b, range());
    assert((a % range() + b % range()) % range() == start.wrapping_add(index.wrapping_mul(4096)));
}

/// The page that an entry of a run gives, if its page is in memory.
#[verifier::opaque]
spec fn run_page(context: &Context, section: Section, run: Run, index: u64) -> Option<Page> {
    match context.object(
        section.entry,
        section.area.layer,
        run.base.wrapping_add(section.entry_size.wrapping_mul(index)),
    ) {
        Some(entry) => match resident(context, entry) {
            Some(Some(place)) => Some(
                Page {
                    memory_offset: place,
                    file_offset: run.start.wrapping_add(index.wrapping_mul(4096)),
                    size: 4096,
                },
            ),
            _ => None,
        },
        None => None,
    }
}

proof fn lemma_page(
    context: &Context,
    kernel: &Module,
    section: Section,
    at: u64,
    run: Run,
    index: u64,
    page: Page,
)
    requires
        section_of(context, kernel, section.area) == Some(section),
        read_subsection(
            context,
            subsection_at(context, kernel, section.area, at),
            section.area.offset,
            section.sector_size,
        ) == Subsection::Run(run),
        index < run.count,
        section.entry is Some,
    ensures
        is_page_of(
            context,
            kernel,
            section.area,
            at,
            index as int,
            section.sector_size as int,
            page,
        ) <==> run_page(context, section, run, index) == Some(page),
{
    reveal(is_page_of);
    reveal(run_page);
    let area = section.area;
    let subsection = subsection_at(context, kernel, area, at);
    let sector = context.member_u64(subsection, "StartingSector")->0;
    lemma_place(run.start, sector, section.sector_size, index);
    lemma_entry(context, kernel, section, subsection, run.base, index);
    let entry = entry_of(context, kernel, subsection, index as int);
    lemma_resident(context, entry);
    assert(entry_says(context, entry, page.memory_offset) <==> resident(context, entry) == Some(
        Some(page.memory_offset),
    ));
}

proof fn lemma_pushed(
    context: &Context,
    section: Section,
    run: Run,
    count: nat,
)
    requires
        0 < count,
        run_pages(context, section.entry, section.area.layer, section.entry_size, run, count) is Some,
    ensures
        ({
            let less = (count - 1) as nat;
            let before = run_pages(
                context,
                section.entry,
                section.area.layer,
                section.entry_size,
                run,
                less,
            );
            &&& before is Some
            &&& run_pages(
                context,
                section.entry,
                section.area.layer,
                section.entry_size,
                run,
                count,
            )->0 == match run_page(context, section, run, less as u64) {
                Some(page) => before->0.push(page),
                None => before->0,
            }
        }),
{
    reveal(run_page);
}

proof fn lemma_run_sound(context: &Context, section: Section, run: Run, count: nat, i: int) -> (index:
    u64)
    requires
        count <= run.count,
        run_pages(context, section.entry, section.area.layer, section.entry_size, run, count)
            matches Some(pages) && 0 <= i < pages.len(),
    ensures
        index < count,
        run_page(context, section, run, index) == Some(
            run_pages(
                context,
                section.entry,
                section.area.layer,
                section.entry_size,
                run,
                count,
            )->0[i],
        ),
    decreases count,
{
    let less = (count - 1) as nat;
    lemma_pushed(context, section, run, count);
    let before = run_pages(
        context,
        section.entry,
        section.area.layer,
        section.entry_size,
        run,
        less,
    )->0;
    if i < before.len() {
        lemma_run_sound(context, section, run, less, i)
    } else {
        less as u64
    }
}

proof fn lemma_run_complete(
    context: &Context,
    section: Section,
    run: Run,
    count: nat,
    index: u64,
    page: Page,
)
    requires
        index < count <= run.count,
        run_page(context, section, run, index) == Some(page),
        run_pages(context, section.entry, section.area.layer, section.entry_size, run, count) is Some,
    ensures
        run_pages(
            context,
            section.entry,
            section.area.layer,
            section.entry_size,
            run,
            count,
        )->0.contains(page),
    decreases count,
{
    let less = (count - 1) as nat;
    lemma_pushed(context, section, run, count);
    let layer = section.area.layer;
    let before = run_pages(context, section.entry, layer, section.entry_size, run, less)->0;
    let pages = run_pages(context, section.entry, layer, section.entry_size, run, count)->0;
    if index < less {
        lemma_run_complete(context, section, run, less, index, page);
        let n = choose|n: int| 0 <= n < before.len() && before[n] == page;
        assert(pages[n] == page);
    } else {
        assert(pages[before.len() as int] == page);
    }
}

proof fn lemma_entry(
    context: &Context,
    kernel: &Module,
    section: Section,
    subsection: Object,
    base: u64,
    index: u64,
)
    requires
        section_of(context, kernel, section.area) == Some(section),
        section.entry is Some,
        context.member_pointer(subsection, "SubsectionBase") == Some(base),
    ensures
        entry_of(context, kernel, subsection, index as int).offset == base.wrapping_add(
            section.entry_size.wrapping_mul(index),
        ),
        entry_of(context, kernel, subsection, index as int).kind == section.entry->0,
{
    let kind = section.entry->0;
    lemma_known(context, kernel.table, "_MMPTE");
    let size = context.size_of(kind)->0;
    assert(size == section.entry_size);
    let product = size * index;
    vstd::arithmetic::div_mod::lemma_add_mod_noop(base as int, product, range());
    assert(section.entry_size.wrapping_mul(index) == product % range());
    assert(base as int % range() == base);
}

/// A type that a table has is defined.
pub proof fn lemma_known(context: &Context, table: usize, name: &str)
    ensures
        context.get_type(table, name) matches Some(kind) ==> context.size_of(kind) is Some,
{
    if table < context.tables@.len() {
        crate::context::lemma_named_from(context.tables@[table as int].types@, name@, 0);
    }
}

/// Where a page of a section stems from.
struct Origin {
    at: u64,
    run: Run,
    index: u64,
}

/// Whether a page stems from a subsection.
spec fn stems(context: &Context, section: Section, origin: Origin, page: Page) -> bool {
    &&& read_subsection(
        context,
        Object {
            kind: section.subsection,
            layer: section.area.layer,
            native: section.area.layer,
            offset: origin.at,
        },
        section.area.offset,
        section.sector_size,
    ) == Subsection::Run(origin.run)
    &&& origin.index < origin.run.count
    &&& run_page(context, section, origin.run, origin.index) == Some(page)
}

proof fn lemma_sound(
    context: &Context,
    section: Section,
    at: u64,
    seen: Seq<u64>,
    most: nat,
    i: int,
) -> (origin: Origin)
    requires
        pages_from(context, section, at, seen, most) matches Some(pages) && 0 <= i < pages.len(),
    ensures
        stems(context, section, origin, pages_from(context, section, at, seen, most)->0[i]),
    decreases most,
{
    let subsection = Object {
        kind: section.subsection,
        layer: section.area.layer,
        native: section.area.layer,
        offset: at,
    };
    let run = read_subsection(
        context,
        subsection,
        section.area.offset,
        section.sector_size,
    )->Run_0;
    let first = run_pages(
        context,
        section.entry,
        section.area.layer,
        section.entry_size,
        run,
        run.count as nat,
    )->0;
    if i < first.len() {
        let index = lemma_run_sound(context, section, run, run.count as nat, i);
        Origin { at, run, index }
    } else {
        lemma_sound(context, section, run.next, seen.push(at), (most - 1) as nat, i - first.len())
    }
}

proof fn lemma_complete(
    context: &Context,
    section: Section,
    chain: Seq<u64>,
    runs: Seq<Run>,
    from: int,
    seen: Seq<u64>,
    most: nat,
    i: int,
    index: u64,
    page: Page,
)
    requires
        chain.no_duplicates(),
        runs.len() == chain.len(),
        0 <= from <= i < chain.len(),
        most >= chain.len() - from,
        forall|j: int|
            0 <= j < chain.len() - 1 ==> (#[trigger] runs[j]).next == chain[j + 1] && chain[j + 1] != 0,
        forall|j: int|
            0 <= j <= i ==> read_subsection(
                context,
                Object {
                    kind: section.subsection,
                    layer: section.area.layer,
                    native: section.area.layer,
                    offset: chain[j],
                },
                section.area.offset,
                section.sector_size,
            ) == Subsection::Run(#[trigger] runs[j]),
        forall|j: int| from <= j < chain.len() ==> !seen.contains(#[trigger] chain[j]),
        pages_from(context, section, chain[from], seen, most) is Some,
        index < runs[i].count,
        run_page(context, section, runs[i], index) == Some(page),
    ensures
        pages_from(context, section, chain[from], seen, most)->0.contains(page),
    decreases chain.len() - from,
{
    let at = chain[from];
    let run = runs[from];
    let pages = pages_from(context, section, at, seen, most)->0;
    let first = run_pages(
        context,
        section.entry,
        section.area.layer,
        section.entry_size,
        run,
        run.count as nat,
    )->0;
    if from == i {
        lemma_run_complete(context, section, run, run.count as nat, index, page);
        let n = choose|n: int| 0 <= n < first.len() && first[n] == page;
        assert(pages[n] == page);
    } else {
        let more = seen.push(at);
        assert forall|j: int| from + 1 <= j < chain.len() implies !more.contains(
            #[trigger] chain[j],
        ) by {
            assert(chain[j] != chain[from]);
            if more.contains(chain[j]) {
                let k = choose|k: int| 0 <= k < more.len() && more[k] == chain[j];
                if k < seen.len() {
                    assert(seen[k] == chain[j]);
                }
            }
        }
        assert(run.next == chain[from + 1]);
        lemma_complete(
            context,
            section,
            chain,
            runs,
            from + 1,
            more,
            (most - 1) as nat,
            i,
            index,
            page,
        );
        let rest = pages_from(context, section, run.next, more, (most - 1) as nat)->0;
        let n = choose|n: int| 0 <= n < rest.len() && rest[n] == page;
        assert(pages[first.len() + n] == page);
    }
}

/// Whether the flag that marks an image is set in a control area.
pub open spec fn holds_image(context: &Context, area: Object) -> bool {
    let union = context.member(area, "u")->0;
    context.member_u64(context.member(union, "Flags")->0, "Image") == Some(1u64)
}

/// Each page recovered of a program or library is some page of one of its
/// subsections: page number `k` of a subsection that starts at sector `s` goes to byte
/// `512 * s + 4096 * k` of the file, since an image counts in disk sectors.
pub proof fn law_image_pages_go_where_their_sector_says(
    context: &Context,
    kernel: &Module,
    area: Object,
    i: int,
)
    requires
        area_pages(context, kernel, area) matches Some(pages) && 0 <= i < pages.len(),
        holds_image(context, area),
    ensures
        exists|at: u64, index: int| #[trigger]
            is_page_of(
                context,
                kernel,
                area,
                at,
                index,
                512,
                area_pages(context, kernel, area)->0[i],
            ),
{
    let section = section_of(context, kernel, area)->0;
    let origin = lemma_sound(
        context,
        section,
        area.offset.wrapping_add(context.size_of(area.kind)->0),
        Seq::empty(),
        lists::address_count(),
        i,
    );
    let page = area_pages(context, kernel, area)->0[i];
    assert(section.entry is Some) by {
        reveal(run_page);
    }
    lemma_page(context, kernel, section, origin.at, origin.run, origin.index, page);
    assert(is_page_of(context, kernel, area, origin.at, origin.index as int, 512, page));
}

/// Each page recovered of a file that is mapped as data is some page of one of its
/// subsections: page number `k` of a subsection that starts at sector `s` goes to byte
/// `4096 * s + 4096 * k` of the file, since data is counted in pages.
pub proof fn law_data_pages_go_where_their_sector_says(
    context: &Context,
    kernel: &Module,
    area: Object,
    i: int,
)
    requires
        area_pages(context, kernel, area) matches Some(pages) && 0 <= i < pages.len(),
        !holds_image(context, area),
    ensures
        exists|at: u64, index: int| #[trigger]
            is_page_of(
                context,
                kernel,
                area,
                at,
                index,
                4096,
                area_pages(context, kernel, area)->0[i],
            ),
{
    let section = section_of(context, kernel, area)->0;
    let origin = lemma_sound(
        context,
        section,
        area.offset.wrapping_add(context.size_of(area.kind)->0),
        Seq::empty(),
        lists::address_count(),
        i,
    );
    let page = area_pages(context, kernel, area)->0[i];
    assert(section.entry is Some) by {
        reveal(run_page);
    }
    lemma_page(context, kernel, section, origin.at, origin.run, origin.index, page);
    assert(is_page_of(context, kernel, area, origin.at, origin.index as int, 4096, page));
}

/// No page that is still in memory is left out: the subsections begin right behind the
/// control area, and each page of each of them that a page table entry places in memory
/// is recovered.
pub proof fn law_every_resident_page_is_recovered(
    context: &Context,
    kernel: &Module,
    area: Object,
    chain: Seq<u64>,
    i: int,
    index: int,
    page: Page,
)
    requires
        area_pages(context, kernel, area) is Some,
        context.get_type(kernel.table, "_MMPTE") is Some,
        is_chain(context, kernel, area, chain),
        chain.len() > 0,
        context.size_of(area.kind) matches Some(size) && chain[0] == (area.offset + size) % range(),
        0 <= i < chain.len(),
        0 <= index < range(),
        is_page_of(
            context,
            kernel,
            area,
            chain[i],
            index,
            if holds_image(context, area) {
                512
            } else {
                4096
            },
            page,
        ),
    ensures
        area_pages(context, kernel, area)->0.contains(page),
{
    let section = section_of(context, kernel, area)->0;
    let size = context.size_of(area.kind)->0;
    assert(chain[0] == area.offset.wrapping_add(size));
    lists::lemma_different_addresses(chain);
    let runs = Seq::new(
        chain.len(),
        |j: int|
            read_subsection(
                context,
                subsection_at(context, kernel, area, chain[j]),
                area.offset,
                section.sector_size,
            )->Run_0,
    );
    assert forall|j: int| 0 <= j < chain.len() implies read_subsection(
        context,
        Object {
            kind: section.subsection,
            layer: area.layer,
            native: area.layer,
            offset: chain[j],
        },
        area.offset,
        section.sector_size,
    ) == Subsection::Run(#[trigger] runs[j]) && runs[j].next == context.member_pointer(
        subsection_at(context, kernel, area, chain[j]),
        "NextSubsection",
    )->0 by {
        assert(is_whole(context, area, subsection_at(context, kernel, area, chain[j])));
    }
    assert forall|j: int| 0 <= j < chain.len() - 1 implies (#[trigger] runs[j]).next == chain[j + 1]
        && chain[j + 1] != 0 by {
        let here = subsection_at(context, kernel, area, chain[j]);
        assert(context.member_pointer(here, "NextSubsection") == Some(chain[j + 1]));
    }
    assert(index < runs[i].count) by {
        reveal(is_page_of);
        assert(is_whole(context, area, subsection_at(context, kernel, area, chain[i])));
    }
    lemma_page(context, kernel, section, chain[i], runs[i], index as u64, page);
    lemma_complete(
        context,
        section,
        chain,
        runs,
        0,
        Seq::empty(),
        lists::address_count(),
        i,
        index as u64,
        page,
    );
}

} // verus!
