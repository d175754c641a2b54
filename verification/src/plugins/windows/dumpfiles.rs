//! Recover the cached contents of files.

use crate::config::{ConfigValue, Configuration};
use crate::context::{self, Context, Module, Object, TypeId};
use crate::error::{Failure, VolatilityError};
use crate::lists::{self, is_among};
use crate::patterns::{self, pattern_error, pattern_matches};
use crate::plugins::{
    self, int_list, pid_filter, ConfigView, KindView, OperatingSystem, Plugin, Requirement, RequirementKind,
    RequirementView,
};
use crate::plugins::output::{self, extract};
use crate::plugins::windows::{filtered_processes, kernel_module, physical_layer};
use crate::plugins::windows::dlllist::part_behind_slash;
use crate::plugins::windows::handles::{
    file_name_with_device, handles, object_type_of_header, Handle,
};
use crate::renderers::{Cell, Column, ColumnType, Row, Table, TreeGrid, Value};
use crate::symbols;
use crate::symbols::windows::{list_processes, walk_vad_tree, Vad};
use crate::text::{self, hexadecimal, same_text};
use vstd::prelude::*;

verus! {

/// Recovers the cached contents of files.
pub struct DumpFiles;

/// The devices whose files are worth recovering. The object type is also used
/// for pipes and sockets, which are not files on a disk.
pub const FILE_DEVICE_DISK: u64 = 0x7;

pub const FILE_DEVICE_NETWORK_FILE_SYSTEM: u64 = 0x14;

/// A page is this large, and a view of the cache holds this many bytes.
pub const PAGE_SIZE: u64 = 0x1000;

pub const VIEW_SIZE: u64 = 0x40000;

/// The bottom bits of a view's offset count references rather than bytes.
pub const VIEW_OFFSET_MASK: u64 = 0xffff_ffff_ffff_0000;

/// A view index array holds this many entries.
pub const VIEW_ARRAY: u64 = 0x80;

/// A file smaller than this is described by a single level of index array.
pub const FIRST_LEVEL_SIZE: u64 = 0x200_0000;

/// The bits of a frame number that a page on its way out leaves alone.
pub const TRANSITION_MASK: u64 = 0x1_ffff_ffff;

/// A page of a file that is still in memory: where it stands in memory, where in
/// the file, and how large it is.
#[derive(Clone, Copy, PartialEq, Eq, Structural, Debug)]
pub struct Page {
    pub memory_offset: u64,
    pub file_offset: u64,
    pub size: u64,
}

pub open spec fn spec_nested_u64(context: &Context, object: Object, outer: &str, inner: &str) -> Option<
    u64,
> {
    match context.member(object, outer) {
        Some(part) => context.member_u64(part, inner),
        None => None,
    }
}

/// A number of a part of a structure.
#[verifier::when_used_as_spec(spec_nested_u64)]
pub fn nested_u64(context: &Context, object: Object, outer: &str, inner: &str) -> (value: Option<u64>)
    ensures
        value == spec_nested_u64(context, object, outer, inner),
{
    match context.member(object, outer) {
        Some(part) => context.member_u64(part, inner),
        None => None,
    }
}

pub open spec fn spec_control_area_is_valid(context: &Context, area: Object) -> bool {
    match context.member_target(area, "Segment") {
        Some(segment) => match (
            context.member_pointer(segment, "ControlArea"),
            context.member_u64(segment, "TotalNumberOfPtes"),
            context.member_u64(segment, "SizeOfSegment"),
        ) {
            (Some(owner), Some(total), Some(size)) => owner == area.offset && size
                == total.wrapping_mul(PAGE_SIZE),
            _ => false,
        },
        None => false,
    }
}

/// Whether a section's control area describes something recoverable: the
/// segment points back at the area that owns it, and is as large as its pages.
#[verifier::when_used_as_spec(spec_control_area_is_valid)]
pub fn control_area_is_valid(context: &Context, area: Object) -> (valid: bool)
    ensures
        valid == spec_control_area_is_valid(context, area),
{
    match context.member_target(area, "Segment") {
        Some(segment) => match (
            context.member_pointer(segment, "ControlArea"),
            context.member_u64(segment, "TotalNumberOfPtes"),
            context.member_u64(segment, "SizeOfSegment"),
        ) {
            (Some(owner), Some(total), Some(size)) => owner == area.offset && size
                == total.wrapping_mul(PAGE_SIZE),
            _ => false,
        },
        None => false,
    }
}

pub open spec fn spec_resident(context: &Context, entry: Object) -> Option<Option<u64>> {
    match context.member(entry, "u") {
        Some(union) => match nested_u64(context, union, "Hard", "Valid") {
            Some(valid) => if valid == 1 {
                match nested_u64(context, union, "Hard", "PageFrameNumber") {
                    Some(frame) => Some(Some(frame << 12u64)),
                    None => None,
                }
            } else {
                match nested_u64(context, union, "Trans", "Transition") {
                    Some(transition) => if transition == 1 {
                        match nested_u64(context, union, "Trans", "PageFrameNumber") {
                            Some(frame) => Some(Some((frame & TRANSITION_MASK) << 12u64)),
                            None => None,
                        }
                    } else {
                        Some(None)
                    },
                    None => None,
                }
            },
            None => None,
        },
        None => None,
    }
}

/// Where in memory the page of a page table entry is: nowhere, or at a place. A
/// page is either mapped, or on its way out and still in memory, in which case
/// it keeps a flag in the top bits of its frame number. Nothing comes of an
/// entry that cannot be read.
#[verifier::when_used_as_spec(spec_resident)]
pub fn resident(context: &Context, entry: Object) -> (place: Option<Option<u64>>)
    ensures
        place == spec_resident(context, entry),
{
    match context.member(entry, "u") {
        Some(union) => match nested_u64(context, union, "Hard", "Valid") {
            Some(valid) => if valid == 1 {
                match nested_u64(context, union, "Hard", "PageFrameNumber") {
                    Some(frame) => Some(Some(frame << 12u64)),
                    None => None,
                }
            } else {
                match nested_u64(context, union, "Trans", "Transition") {
                    Some(transition) => if transition == 1 {
                        match nested_u64(context, union, "Trans", "PageFrameNumber") {
                            Some(frame) => Some(Some((frame & TRANSITION_MASK) << 12u64)),
                            None => None,
                        }
                    } else {
                        Some(None)
                    },
                    None => None,
                }
            },
            None => None,
        },
        None => None,
    }
}

/// A run of a file, as a subsection describes it.
#[derive(Clone, Copy, PartialEq, Eq, Structural, Debug)]
pub struct Run {
    /// Where in the file the run starts.
    pub start: u64,
    /// Where its page table entries stand.
    pub base: u64,
    pub count: u64,
    /// The next subsection, or zero.
    pub next: u64,
}

/// The pages of the first entries of a run that are still in memory. An entry
/// that can be built but not read abandons the file.
pub open spec fn run_pages(
    context: &Context,
    kind: Option<TypeId>,
    layer: usize,
    entry_size: u64,
    run: Run,
    count: nat,
) -> Option<Seq<Page>>
    decreases count,
{
    if count == 0 {
        Some(Seq::empty())
    } else {
        match run_pages(context, kind, layer, entry_size, run, (count - 1) as nat) {
            Some(before) => {
                let index = (count - 1) as u64;
                match context.object(
                    kind,
                    layer,
                    run.base.wrapping_add(entry_size.wrapping_mul(index)),
                ) {
                    Some(entry) => match resident(context, entry) {
                        Some(Some(memory_offset)) => Some(
                            before.push(
                                Page {
                                    memory_offset,
                                    file_offset: run.start.wrapping_add(
                                        index.wrapping_mul(PAGE_SIZE),
                                    ),
                                    size: PAGE_SIZE,
                                },
                            ),
                        ),
                        Some(None) => Some(before),
                        None => None,
                    },
                    None => Some(before),
                }
            },
            None => None,
        }
    }
}

proof fn lemma_run_pages_failed(
    context: &Context,
    kind: Option<TypeId>,
    layer: usize,
    entry_size: u64,
    run: Run,
    count: nat,
    more: nat,
)
    requires
        run_pages(context, kind, layer, entry_size, run, count) is None,
        count <= more,
    ensures
        run_pages(context, kind, layer, entry_size, run, more) is None,
    decreases more,
{
    if count < more {
        lemma_run_pages_failed(context, kind, layer, entry_size, run, count, (more - 1) as nat);
    }
}

fn add_run(
    context: &Context,
    kind: Option<TypeId>,
    layer: usize,
    entry_size: u64,
    run: Run,
    pages: &mut Vec<Page>,
) -> (read: bool)
    ensures
        read == (run_pages(context, kind, layer, entry_size, run, run.count as nat) is Some),
        read ==> final(pages)@ == old(pages)@ + run_pages(
            context,
            kind,
            layer,
            entry_size,
            run,
            run.count as nat,
        )->0,
{
    let ghost before = pages@;
    for index in 0..run.count
        invariant
            run_pages(context, kind, layer, entry_size, run, index as nat) is Some,
            pages@ == before + run_pages(
                context,
                kind,
                layer,
                entry_size,
                run,
                index as nat,
            )->0,
    {
        if let Some(entry) = context.object(
            kind,
            layer,
            run.base.wrapping_add(entry_size.wrapping_mul(index)),
        ) {
            match resident(context, entry) {
                Some(Some(memory_offset)) => {
                    pages.push(
                        Page {
                            memory_offset,
                            file_offset: run.start.wrapping_add(index.wrapping_mul(PAGE_SIZE)),
                            size: PAGE_SIZE,
                        },
                    );
                },
                Some(None) => {},
                None => {
                    proof {
                        lemma_run_pages_failed(
                            context,
                            kind,
                            layer,
                            entry_size,
                            run,
                            (index + 1) as nat,
                            run.count as nat,
                        );
                    }
                    return false;
                },
            }
        }
        assert(pages@ =~= before + run_pages(
            context,
            kind,
            layer,
            entry_size,
            run,
            (index + 1) as nat,
        )->0);
    }
    true
}

/// What a subsection comes to: the end of the chain where it belongs to another
/// area or cannot be read at all, a failure where one of its fields cannot be
/// read, or the run that it describes.
#[derive(Clone, Copy, PartialEq, Eq, Structural, Debug)]
pub enum Subsection {
    End,
    Failed,
    Run(Run),
}

pub open spec fn spec_read_subsection(
    context: &Context,
    subsection: Object,
    owner: u64,
    sector_size: u64,
) -> Subsection {
    match context.member_pointer(subsection, "ControlArea") {
        Some(area) => if area != owner {
            Subsection::End
        } else {
            match (
                context.member_u64(subsection, "StartingSector"),
                context.member_pointer(subsection, "SubsectionBase"),
                context.member_u64(subsection, "PtesInSubsection"),
                context.member_pointer(subsection, "NextSubsection"),
            ) {
                (Some(sector), Some(base), Some(count), Some(next)) => Subsection::Run(
                    Run { start: sector.wrapping_mul(sector_size), base, count, next },
                ),
                _ => Subsection::Failed,
            }
        },
        None => Subsection::End,
    }
}

/// What a subsection comes to.
#[verifier::when_used_as_spec(spec_read_subsection)]
pub fn read_subsection(
    context: &Context,
    subsection: Object,
    owner: u64,
    sector_size: u64,
) -> (found: Subsection)
    ensures
        found == spec_read_subsection(context, subsection, owner, sector_size),
{
    match context.member_pointer(subsection, "ControlArea") {
        Some(area) => if area != owner {
            Subsection::End
        } else {
            match (
                context.member_u64(subsection, "StartingSector"),
                context.member_pointer(subsection, "SubsectionBase"),
                context.member_u64(subsection, "PtesInSubsection"),
                context.member_pointer(subsection, "NextSubsection"),
            ) {
                (Some(sector), Some(base), Some(count), Some(next)) => Subsection::Run(
                    Run { start: sector.wrapping_mul(sector_size), base, count, next },
                ),
                _ => Subsection::Failed,
            }
        },
        None => Subsection::End,
    }
}

/// How the pages of a section are described.
#[derive(Clone, Copy, PartialEq, Eq, Structural, Debug)]
pub struct Section {
    pub area: Object,
    pub entry: Option<TypeId>,
    pub entry_size: u64,
    pub subsection: TypeId,
    pub sector_size: u64,
}

/// The pages of a section from a subsection on. A chain that comes back to a
/// subsection it has passed ends there.
pub open spec fn pages_from(
    context: &Context,
    section: Section,
    at: u64,
    seen: Seq<u64>,
    most: nat,
) -> Option<Seq<Page>>
    decreases most,
{
    if most == 0 || seen.contains(at) {
        Some(Seq::empty())
    } else {
        match read_subsection(
            context,
            Object {
                kind: section.subsection,
                layer: section.area.layer,
                native: section.area.layer,
                offset: at,
            },
            section.area.offset,
            section.sector_size,
        ) {
            Subsection::End => Some(Seq::empty()),
            Subsection::Failed => None,
            Subsection::Run(run) => match run_pages(
                context,
                section.entry,
                section.area.layer,
                section.entry_size,
                run,
                run.count as nat,
            ) {
                Some(pages) => if run.next == 0 {
                    Some(pages)
                } else {
                    match pages_from(
                        context,
                        section,
                        run.next,
                        seen.push(at),
                        (most - 1) as nat,
                    ) {
                        Some(rest) => Some(pages + rest),
                        None => None,
                    }
                },
                None => None,
            },
        }
    }
}

/// The section that a control area describes. A section holding an image is
/// described in disk sectors. One holding data is described in pages.
pub open spec fn section_of(context: &Context, kernel: &Module, area: Object) -> Option<Section> {
    let entry = context.get_type(kernel.table, "_MMPTE");
    match (
        context.size_of(area.kind),
        image_flag(context, area),
        context.get_type(kernel.table, "_SUBSECTION"),
    ) {
        (Some(_), Some(image), Some(subsection)) => Some(
            Section {
                area,
                entry,
                entry_size: match entry {
                    Some(kind) => match context.size_of(kind) {
                        Some(size) => size,
                        None => 8,
                    },
                    None => 8,
                },
                subsection,
                sector_size: if image == 1 {
                    0x200
                } else {
                    0x1000
                },
            },
        ),
        _ => None,
    }
}

pub open spec fn spec_image_flag(context: &Context, area: Object) -> Option<u64> {
    match context.member(area, "u") {
        Some(union) => nested_u64(context, union, "Flags", "Image"),
        None => None,
    }
}

/// Whether a section holds an image.
#[verifier::when_used_as_spec(spec_image_flag)]
pub fn image_flag(context: &Context, area: Object) -> (flag: Option<u64>)
    ensures
        flag == spec_image_flag(context, area),
{
    match context.member(area, "u") {
        Some(union) => nested_u64(context, union, "Flags", "Image"),
        None => None,
    }
}

fn find_section(context: &Context, kernel: &Module, area: Object) -> (section: Option<Section>)
    ensures
        section == section_of(context, kernel, area),
{
    let entry = context.get_type(kernel.table, "_MMPTE");
    let entry_size: u64 = match entry {
        Some(kind) => match context.size_of(kind) {
            Some(size) => size,
            None => 8,
        },
        None => 8,
    };
    match (
        context.size_of(area.kind),
        image_flag(context, area),
        context.get_type(kernel.table, "_SUBSECTION"),
    ) {
        (Some(_), Some(image), Some(subsection)) => Some(
            Section {
                area,
                entry,
                entry_size,
                subsection,
                sector_size: if image == 1 {
                    0x200
                } else {
                    0x1000
                },
            },
        ),
        _ => None,
    }
}

/// The pages of a section that are still in memory. The first subsection stands
/// right behind the area.
pub open spec fn area_pages(context: &Context, kernel: &Module, area: Object) -> Option<Seq<Page>> {
    match section_of(context, kernel, area) {
        Some(section) => pages_from(
            context,
            section,
            area.offset.wrapping_add(context.size_of(area.kind)->0),
            Seq::empty(),
            lists::address_count(),
        ),
        None => None,
    }
}

/// What pages so far and the rest of a section come to.
pub open spec fn followed_by(pages: Seq<Page>, rest: Option<Seq<Page>>) -> Option<Seq<Page>> {
    match rest {
        Some(rest) => Some(pages + rest),
        None => None,
    }
}

/// The pages of a section that are still in memory.
///
/// Each subsection describes a run of the file, and each of its page table
/// entries says whether that page is resident and where. A field that cannot
/// be read abandons the file: half a file is not worth writing out.
#[verifier::loop_isolation(false)]
pub fn control_area_pages(context: &Context, kernel: &Module, area: Object) -> (pages: Option<
    Vec<Page>,
>)
    ensures
        match pages {
            Some(pages) => area_pages(context, kernel, area) == Some(pages@),
            None => area_pages(context, kernel, area) is None,
        },
{
    let section = match find_section(context, kernel, area) {
        Some(section) => section,
        None => return None,
    };
    let size = match context.size_of(area.kind) {
        Some(size) => size,
        None => return None,
    };
    let mut at: u64 = area.offset.wrapping_add(size);
    let mut pages: Vec<Page> = Vec::new();
    let mut seen: Vec<u64> = Vec::new();
    let ghost whole = area_pages(context, kernel, area);
    let ghost mut most: nat = lists::address_count();
    assert(whole == followed_by(pages@, pages_from(context, section, at, seen@, most))) by {
        match pages_from(context, section, at, seen@, most) {
            Some(rest) => assert(pages@ + rest =~= rest),
            None => {},
        }
    }
    loop
        invariant
            seen@.no_duplicates(),
            seen@.len() + most == lists::address_count(),
            whole == followed_by(pages@, pages_from(context, section, at, seen@, most)),
        decreases most,
    {
        if is_among(&seen, at) {
            assert(pages@ + Seq::<Page>::empty() =~= pages@);
            return Some(pages);
        }
        proof {
            lists::lemma_different_addresses(seen@.push(at));
        }
        assert(most > 0);
        let subsection = Object {
            kind: section.subsection,
            layer: area.layer,
            native: area.layer,
            offset: at,
        };
        match read_subsection(context, subsection, area.offset, section.sector_size) {
            Subsection::End => {
                assert(pages@ + Seq::<Page>::empty() =~= pages@);
                return Some(pages);
            },
            Subsection::Failed => {
                return None;
            },
            Subsection::Run(run) => {
                let ghost before = pages@;
                if !add_run(
                    context,
                    section.entry,
                    area.layer,
                    section.entry_size,
                    run,
                    &mut pages,
                ) {
                    return None;
                }
                if run.next == 0 {
                    return Some(pages);
                }
                seen.push(at);
                at = run.next;
                proof {
                    most = (most - 1) as nat;
                    let rest = pages_from(context, section, at, seen@, most);
                    if rest is Some {
                        assert(pages@ + rest->0 =~= before + (run_pages(
                            context,
                            section.entry,
                            area.layer,
                            section.entry_size,
                            run,
                            run.count as nat,
                        )->0 + rest->0));
                    }
                }
            },
        }
    }
}

pub open spec fn spec_quad_i64(context: &Context, map: Object, name: &str) -> Option<i64> {
    match context.member(map, name) {
        Some(part) => context.member_i64(part, "QuadPart"),
        None => None,
    }
}

/// A signed number of the cache manager's record.
#[verifier::when_used_as_spec(spec_quad_i64)]
pub fn quad_i64(context: &Context, map: Object, name: &str) -> (value: Option<i64>)
    ensures
        value == spec_quad_i64(context, map, name),
{
    match context.member(map, name) {
        Some(part) => context.member_i64(part, "QuadPart"),
        None => None,
    }
}

pub open spec fn spec_cache_map_is_valid(context: &Context, map: Object) -> bool {
    match (
        quad_i64(context, map, "FileSize"),
        quad_i64(context, map, "ValidDataLength"),
        quad_i64(context, map, "SectionSize"),
    ) {
        (Some(file_size), Some(valid_length), Some(section_size)) => file_size > 0 && valid_length
            > 0 && section_size >= 0 && (file_size >= valid_length || valid_length
            == 0x7fff_ffff_ffff_ffff),
        _ => false,
    }
}

/// Whether the cache manager's record of a file is coherent.
#[verifier::when_used_as_spec(spec_cache_map_is_valid)]
pub fn cache_map_is_valid(context: &Context, map: Object) -> (valid: bool)
    ensures
        valid == spec_cache_map_is_valid(context, map),
{
    match (
        quad_i64(context, map, "FileSize"),
        quad_i64(context, map, "ValidDataLength"),
        quad_i64(context, map, "SectionSize"),
    ) {
        (Some(file_size), Some(valid_length), Some(section_size)) => file_size > 0 && valid_length
            > 0 && section_size >= 0 && (file_size >= valid_length || valid_length
            == 0x7fff_ffff_ffff_ffff),
        _ => false,
    }
}

pub open spec fn spec_belongs_to(context: &Context, view: Object, map: Object) -> bool {
    context.member_pointer(view, "SharedCacheMap") == Some(map.offset)
}

/// Whether a view belongs to the record being read.
#[verifier::when_used_as_spec(spec_belongs_to)]
pub fn belongs_to(context: &Context, view: Object, map: Object) -> (belongs: bool)
    ensures
        belongs == spec_belongs_to(context, view, map),
{
    match context.member_pointer(view, "SharedCacheMap") {
        Some(owner) => owner == map.offset,
        None => false,
    }
}

/// The page that a view of the cache holds, where it can be read.
pub open spec fn view_pages(context: &Context, view: Object) -> Seq<Page> {
    match (context.member_pointer(view, "BaseAddress"), view_offset(context, view)) {
        (Some(address), Some(offset)) => seq![
            Page {
                memory_offset: address,
                file_offset: offset & VIEW_OFFSET_MASK,
                size: VIEW_SIZE,
            },
        ],
        _ => Seq::empty(),
    }
}

pub open spec fn spec_view_offset(context: &Context, view: Object) -> Option<u64> {
    match context.member(view, "Overlay") {
        Some(overlay) => nested_u64(context, overlay, "FileOffset", "QuadPart"),
        None => None,
    }
}

/// Where in the file a view stands.
#[verifier::when_used_as_spec(spec_view_offset)]
pub fn view_offset(context: &Context, view: Object) -> (offset: Option<u64>)
    ensures
        offset == spec_view_offset(context, view),
{
    match context.member(view, "Overlay") {
        Some(overlay) => nested_u64(context, overlay, "FileOffset", "QuadPart"),
        None => None,
    }
}

/// The page of a view that belongs to a record.
pub open spec fn owned_pages(context: &Context, view: Option<Object>, map: Object) -> Seq<Page> {
    match view {
        Some(view) => if belongs_to(context, view, map) {
            view_pages(context, view)
        } else {
            Seq::empty()
        },
        None => Seq::empty(),
    }
}

fn save_view(context: &Context, view: Object, views: &mut Vec<Page>)
    ensures
        final(views)@ == old(views)@ + view_pages(context, view),
{
    if let (Some(address), Some(offset)) = (
        context.member_pointer(view, "BaseAddress"),
        view_offset(context, view),
    ) {
        views.push(
            Page {
                memory_offset: address,
                file_offset: offset & VIEW_OFFSET_MASK,
                size: VIEW_SIZE,
            },
        );
    }
    assert(views@ =~= old(views)@ + view_pages(context, view));
}

fn save_owned(context: &Context, view: Option<Object>, map: Object, views: &mut Vec<Page>)
    ensures
        final(views)@ == old(views)@ + owned_pages(context, view, map),
{
    if let Some(view) = view {
        if belongs_to(context, view, map) {
            save_view(context, view, views);
            return;
        }
    }
    assert(views@ + Seq::<Page>::empty() =~= views@);
}

pub open spec fn spec_initial_view(context: &Context, map: Object, index: u64) -> Option<Object> {
    match context.member(map, "InitialVacbs") {
        Some(array) => match context.index(array, index) {
            Some(slot) => context.dereference(slot),
            None => None,
        },
        None => None,
    }
}

/// One of the four views that the record itself holds.
#[verifier::when_used_as_spec(spec_initial_view)]
pub fn initial_view(context: &Context, map: Object, index: u64) -> (view: Option<Object>)
    ensures
        view == spec_initial_view(context, map, index),
{
    match context.member(map, "InitialVacbs") {
        Some(array) => match context.index(array, index) {
            Some(slot) => context.dereference(slot),
            None => None,
        },
        None => None,
    }
}

/// The pages of the first views that the record itself holds.
pub open spec fn initial_pages(context: &Context, map: Object, count: nat) -> Seq<Page>
    decreases count,
{
    if count == 0 {
        Seq::empty()
    } else {
        initial_pages(context, map, (count - 1) as nat) + owned_pages(
            context,
            initial_view(context, map, (count - 1) as u64),
            map,
        )
    }
}

/// How many of the record's own views describe a file of a size. A small file
/// is described by them alone.
pub open spec fn initial_count(section_size: u64) -> nat {
    let full = section_size / VIEW_SIZE;
    if full > 4 {
        0
    } else if section_size % VIEW_SIZE > 0 && full < 4 {
        (full + 1) as nat
    } else {
        full as nat
    }
}

pub open spec fn spec_pointed_view(context: &Context, kernel: &Module, map: Object, at: u64) -> Option<
    Object,
> {
    match context.number_at(map.layer, at, 8) {
        Some(pointer) => {
            let target = pointer & context.address_mask(map.layer);
            if target == 0 {
                None
            } else {
                context.object(context.get_type(kernel.table, "_VACB"), map.layer, target)
            }
        },
        None => None,
    }
}

/// The view that a slot of an index array points to.
#[verifier::when_used_as_spec(spec_pointed_view)]
pub fn pointed_view(context: &Context, kernel: &Module, map: Object, at: u64) -> (view: Option<Object>)
    ensures
        view == spec_pointed_view(context, kernel, map, at),
{
    match context.number_at(map.layer, at, 8) {
        Some(pointer) => {
            let target: u64 = pointer & context.address_mask(map.layer);
            if target == 0 {
                None
            } else {
                context.object(context.get_type(kernel.table, "_VACB"), map.layer, target)
            }
        },
        None => None,
    }
}

/// The pages of the views in the first slots of an array.
pub open spec fn array_pages(
    context: &Context,
    kernel: &Module,
    map: Object,
    array: u64,
    count: nat,
) -> Seq<Page>
    decreases count,
{
    if count == 0 {
        Seq::empty()
    } else {
        array_pages(context, kernel, map, array, (count - 1) as nat) + owned_pages(
            context,
            pointed_view(
                context,
                kernel,
                map,
                array.wrapping_add(((count - 1) as u64).wrapping_mul(8)),
            ),
            map,
        )
    }
}

/// How many views a file of a size is described by.
pub open spec fn view_count(section_size: u64) -> nat {
    (section_size / VIEW_SIZE) as nat + if section_size % VIEW_SIZE > 0 {
        1nat
    } else {
        0nat
    }
}

/// The least number of doublings that take one to a number or past it.
pub open spec fn ceil_log2(value: nat) -> nat
    decreases value,
{
    if value <= 1 {
        0
    } else {
        1 + ceil_log2(((value + 1) / 2) as nat)
    }
}

/// How many levels the tree of index arrays of a large file has.
pub open spec fn tree_depth(section_size: u64) -> nat {
    if ceil_log2(section_size as nat) <= 18 {
        0
    } else {
        ((ceil_log2(section_size as nat) - 18 + 6) / 7) as nat
    }
}

fn depth_of(section_size: u64) -> (depth: u64)
    ensures
        depth == tree_depth(section_size),
        depth <= 10,
{
    let mut value: u64 = section_size;
    let mut doublings: u64 = 0;
    proof {
        vstd::arithmetic::power2::lemma2_to64();
        lemma_log2_least(section_size as nat, 64);
    }
    while value > 1
        invariant
            ceil_log2(section_size as nat) == doublings + ceil_log2(value as nat),
            ceil_log2(section_size as nat) <= 64,
        decreases value,
    {
        value = value / 2 + value % 2;
        doublings = doublings + 1;
    }
    if doublings <= 18 {
        0
    } else {
        (doublings - 18 + 6) / 7
    }
}

proof fn lemma_log2_least(value: nat, doublings: nat)
    requires
        value <= vstd::arithmetic::power2::pow2(doublings),
    ensures
        ceil_log2(value) <= doublings,
    decreases doublings,
{
    if value > 1 {
        if doublings == 0 {
            vstd::arithmetic::power2::lemma2_to64();
        } else {
            vstd::arithmetic::power2::lemma_pow2_unfold(doublings);
            lemma_log2_least(((value + 1) / 2) as nat, (doublings - 1) as nat);
        }
    }
}

/// The pages of the views under the first slots of an index array. A slot that
/// points to no view of the record points to an array of the next level.
pub open spec fn tree_pages(
    context: &Context,
    kernel: &Module,
    map: Object,
    array: u64,
    level: nat,
    limit: nat,
    count: nat,
) -> Seq<Page>
    decreases limit + 1 - level, count,
{
    if level > limit || count == 0 || count > VIEW_ARRAY {
        Seq::empty()
    } else {
        tree_pages(context, kernel, map, array, level, limit, (count - 1) as nat) + match pointed_view(
            context,
            kernel,
            map,
            array.wrapping_add(((count - 1) as u64).wrapping_mul(8)),
        ) {
            Some(view) => if belongs_to(context, view, map) {
                view_pages(context, view)
            } else {
                tree_pages(
                    context,
                    kernel,
                    map,
                    view.offset,
                    level + 1,
                    limit,
                    VIEW_ARRAY as nat,
                )
            },
            None => Seq::empty(),
        }
    }
}

/// The pages of the views under one slot of an index array.
pub open spec fn slot_pages(
    context: &Context,
    kernel: &Module,
    map: Object,
    slot: u64,
    level: nat,
    limit: nat,
) -> Seq<Page> {
    match pointed_view(context, kernel, map, slot) {
        Some(view) => if belongs_to(context, view, map) {
            view_pages(context, view)
        } else {
            tree_pages(context, kernel, map, view.offset, level + 1, limit, VIEW_ARRAY as nat)
        },
        None => Seq::empty(),
    }
}

/// One slot more adds the pages under it.
proof fn lemma_slot(
    context: &Context,
    kernel: &Module,
    map: Object,
    array: u64,
    level: nat,
    limit: nat,
    index: u64,
    before: Seq<Page>,
)
    requires
        level <= limit,
        index < VIEW_ARRAY,
    ensures
        before + tree_pages(context, kernel, map, array, level, limit, (index + 1) as nat) == (before
            + tree_pages(context, kernel, map, array, level, limit, index as nat)) + slot_pages(
            context,
            kernel,
            map,
            array.wrapping_add(index.wrapping_mul(8)),
            level,
            limit,
        ),
{
    let first = tree_pages(context, kernel, map, array, level, limit, index as nat);
    let last = slot_pages(
        context,
        kernel,
        map,
        array.wrapping_add(index.wrapping_mul(8)),
        level,
        limit,
    );
    assert(tree_pages(context, kernel, map, array, level, limit, (index + 1) as nat) == first + last);
    assert(before + (first + last) =~= (before + first) + last);
}

fn walk_slot(
    context: &Context,
    kernel: &Module,
    map: Object,
    slot: u64,
    level: u64,
    limit: u64,
    views: &mut Vec<Page>,
)
    requires
        level <= limit < u64::MAX,
    ensures
        final(views)@ == old(views)@ + slot_pages(
            context,
            kernel,
            map,
            slot,
            level as nat,
            limit as nat,
        ),
    decreases limit + 1 - level, 0int,
{
    match pointed_view(context, kernel, map, slot) {
        Some(view) => {
            if belongs_to(context, view, map) {
                save_view(context, view, views);
            } else {
                walk_index(context, kernel, map, view.offset, level + 1, limit, views);
            }
        },
        None => {
            assert(views@ + Seq::<Page>::empty() =~= views@);
        },
    }
}

/// Walk one level of the tree of view index arrays.
pub fn walk_index(
    context: &Context,
    kernel: &Module,
    map: Object,
    array: u64,
    level: u64,
    limit: u64,
    views: &mut Vec<Page>,
)
    requires
        limit < u64::MAX,
    ensures
        final(views)@ == old(views)@ + tree_pages(
            context,
            kernel,
            map,
            array,
            level as nat,
            limit as nat,
            VIEW_ARRAY as nat,
        ),
    decreases limit + 1 - level, 1int,
{
    if level > limit {
        assert(views@ + Seq::<Page>::empty() =~= views@);
        return;
    }
    let ghost before = views@;
    assert(before + tree_pages(context, kernel, map, array, level as nat, limit as nat, 0) =~= before);
    for index in 0..VIEW_ARRAY
        invariant
            level <= limit < u64::MAX,
            views@ == before + tree_pages(
                context,
                kernel,
                map,
                array,
                level as nat,
                limit as nat,
                index as nat,
            ),
    {
        proof {
            lemma_slot(context, kernel, map, array, level as nat, limit as nat, index, before);
        }
        walk_slot(
            context,
            kernel,
            map,
            array.wrapping_add(index.wrapping_mul(8)),
            level,
            limit,
            views,
        );
    }
}

/// The pages of the views of a file the cache manager is holding. A small file
/// is described by the four views the record itself holds, and a larger file
/// needs an array of its own, which often begins with the same view the record
/// already holds. A file larger than one array can describe is held in a tree
/// of them.
pub open spec fn cache_pages(context: &Context, kernel: &Module, map: Object) -> Option<Seq<Page>> {
    match (nested_u64(context, map, "SectionSize", "QuadPart"), context.member_pointer(map, "Vacbs")) {
        (Some(section_size), Some(array)) => {
            let own = initial_pages(context, map, initial_count(section_size));
            if array == 0 || first_slot(context, map) == Some(array) {
                Some(own)
            } else if section_size <= FIRST_LEVEL_SIZE {
                Some(own + array_pages(context, kernel, map, array, view_count(section_size)))
            } else {
                Some(
                    own + tree_pages(
                        context,
                        kernel,
                        map,
                        array,
                        0,
                        tree_depth(section_size),
                        VIEW_ARRAY as nat,
                    ),
                )
            }
        },
        _ => None,
    }
}

pub open spec fn spec_first_slot(context: &Context, map: Object) -> Option<u64> {
    match context.member(map, "InitialVacbs") {
        Some(array) => match context.index(array, 0) {
            Some(slot) => Some(slot.offset),
            None => None,
        },
        None => None,
    }
}

/// Where the record's own first view stands.
#[verifier::when_used_as_spec(spec_first_slot)]
pub fn first_slot(context: &Context, map: Object) -> (slot: Option<u64>)
    ensures
        slot == spec_first_slot(context, map),
{
    match context.member(map, "InitialVacbs") {
        Some(array) => match context.index(array, 0) {
            Some(slot) => Some(slot.offset),
            None => None,
        },
        None => None,
    }
}

/// The views of a file the cache manager is holding.
pub fn cache_map_views(context: &Context, kernel: &Module, map: Object) -> (views: Option<Vec<Page>>)
    ensures
        match views {
            Some(views) => cache_pages(context, kernel, map) == Some(views@),
            None => cache_pages(context, kernel, map) is None,
        },
{
    let section_size = match nested_u64(context, map, "SectionSize", "QuadPart") {
        Some(size) => size,
        None => return None,
    };
    let array = match context.member_pointer(map, "Vacbs") {
        Some(array) => array,
        None => return None,
    };
    let full: u64 = section_size / VIEW_SIZE;
    let left_over: u64 = section_size % VIEW_SIZE;
    let mut views: Vec<Page> = Vec::new();
    let own: u64 = if full > 4 {
        0
    } else if left_over > 0 && full < 4 {
        full + 1
    } else {
        full
    };
    for index in 0..own
        invariant
            views@ == initial_pages(context, map, index as nat),
    {
        save_owned(context, initial_view(context, map, index), map, &mut views);
    }
    if array == 0 {
        return Some(views);
    }
    if let Some(first) = first_slot(context, map) {
        if first == array {
            return Some(views);
        }
    }
    let ghost before = views@;
    if section_size <= FIRST_LEVEL_SIZE {
        let count: u64 = if left_over > 0 {
            full + 1
        } else {
            full
        };
        assert(before =~= before + array_pages(context, kernel, map, array, 0));
        for counter in 0..count
            invariant
                views@ == before + array_pages(context, kernel, map, array, counter as nat),
        {
            save_owned(
                context,
                pointed_view(context, kernel, map, array.wrapping_add(counter.wrapping_mul(8))),
                map,
                &mut views,
            );
            assert(views@ =~= before + array_pages(
                context,
                kernel,
                map,
                array,
                (counter + 1) as nat,
            ));
        }
        assert(count == view_count(section_size));
        return Some(views);
    }
    let depth = depth_of(section_size);
    walk_index(context, kernel, map, array, 0, depth, &mut views);
    Some(views)
}

/// A file with bytes laid over it at a place. What lies in front of them and was
/// not there before is zero.
pub open spec fn laid_over(contents: Seq<u8>, at: nat, data: Seq<u8>) -> Seq<u8> {
    Seq::new(
        if contents.len() < at + data.len() {
            at + data.len()
        } else {
            contents.len()
        },
        |i: int|
            if at <= i < at + data.len() {
                data[i - at]
            } else if i < contents.len() {
                contents[i]
            } else {
                0u8
            },
    )
}

/// The contents that the first of some pages make. A page that cannot be read at
/// all, or that lies behind anything that memory can hold, abandons the whole file.
pub open spec fn contents_of(
    context: &Context,
    layer: Option<usize>,
    pages: Seq<Page>,
    count: int,
) -> Option<Seq<u8>>
    decreases count,
{
    if count <= 0 {
        Some(Seq::empty())
    } else {
        match (contents_of(context, layer, pages, count - 1), layer) {
            (Some(before), Some(layer)) => {
                let page = pages[count - 1];
                match context.bytes_of(layer, page.memory_offset, page.size as usize, true) {
                    Some(data) => if page.file_offset as usize + data.len() <= usize::MAX {
                        Some(laid_over(before, (page.file_offset as usize) as nat, data))
                    } else {
                        None
                    },
                    None => None,
                }
            },
            _ => None,
        }
    }
}

proof fn lemma_contents_failed(
    context: &Context,
    layer: Option<usize>,
    pages: Seq<Page>,
    count: int,
    more: int,
)
    requires
        contents_of(context, layer, pages, count) is None,
        count <= more,
    ensures
        contents_of(context, layer, pages, more) is None,
    decreases more - count,
{
    if count < more {
        lemma_contents_failed(context, layer, pages, count, more - 1);
    }
}

fn lay_over(contents: &mut Vec<u8>, at: usize, data: &Vec<u8>)
    requires
        at + data@.len() <= usize::MAX,
    ensures
        final(contents)@ == laid_over(old(contents)@, at as nat, data@),
{
    let end: usize = at + data.len();
    if contents.len() < end {
        contents.resize(end, 0);
    }
    let ghost padded = contents@;
    for i in 0..data.len()
        invariant
            at + data@.len() == end,
            end <= contents@.len(),
            contents@.len() == padded.len(),
            forall|j: int|
                0 <= j < contents@.len() ==> #[trigger] contents@[j] == if at <= j < at + i {
                    data@[j - at]
                } else {
                    padded[j]
                },
    {
        contents.set(at + i, data[i]);
    }
    assert(contents@ =~= laid_over(old(contents)@, at as nat, data@));
}

#[verifier::loop_isolation(false)]
fn assemble_contents(context: &Context, layer: Option<usize>, pages: &Vec<Page>) -> (contents: Option<
    Vec<u8>,
>)
    ensures
        match contents {
            Some(contents) => contents_of(context, layer, pages@, pages@.len() as int) == Some(
                contents@,
            ),
            None => contents_of(context, layer, pages@, pages@.len() as int) is None,
        },
{
    let mut contents: Vec<u8> = Vec::new();
    for i in 0..pages.len()
        invariant
            contents_of(context, layer, pages@, i as int) == Some(contents@),
    {
        let page = pages[i];
        let data = match layer {
            Some(layer) => context.read(layer, page.memory_offset, page.size as usize, true),
            None => None,
        };
        match data {
            Some(data) => {
                let at: usize = page.file_offset as usize;
                if data.len() > usize::MAX - at {
                    proof {
                        lemma_contents_failed(
                            context,
                            layer,
                            pages@,
                            i + 1,
                            pages@.len() as int,
                        );
                    }
                    return None;
                }
                lay_over(&mut contents, at, &data);
            },
            None => {
                proof {
                    lemma_contents_failed(context, layer, pages@, i + 1, pages@.len() as int);
                }
                return None;
            },
        }
    }
    Some(contents)
}

/// Whether any of the first of some pages holds bytes.
pub open spec fn any_held(pages: Seq<Page>, count: int) -> bool
    decreases count,
{
    count > 0 && (pages[count - 1].size as usize > 0 || any_held(pages, count - 1))
}

fn holds_bytes(pages: &Vec<Page>) -> (some: bool)
    ensures
        some == any_held(pages@, pages@.len() as int),
{
    let mut some = false;
    for i in 0..pages.len()
        invariant
            some == any_held(pages@, i as int),
    {
        if pages[i].size as usize > 0 {
            some = true;
        }
    }
    some
}

/// The name a cache of a file is written under.
pub open spec fn cache_file(
    file: Object,
    memory_object: Object,
    cache: Seq<char>,
    extension: Seq<char>,
    base: Seq<char>,
) -> Seq<char> {
    "file."@ + text::hex_text(file.offset as nat) + seq!['.'] + text::hex_text(
        memory_object.offset as nat,
    ) + seq!['.'] + cache + seq!['.'] + base + seq!['.'] + extension
}

/// The report once what some pages hold is kept beside it, and the name it was
/// kept under.
pub open spec fn pages_kept(
    context: &Context,
    layer: Option<usize>,
    pages: Option<Seq<Page>>,
    name: Seq<char>,
    table: Table,
) -> (Table, Option<Seq<char>>) {
    match pages {
        Some(pages) => match contents_of(context, layer, pages, pages.len() as int) {
            Some(contents) => if any_held(pages, pages.len() as int) {
                output::extracted(table, &context.output, name, contents)
            } else {
                (table, None)
            },
            None => (table, None),
        },
        None => (table, None),
    }
}

/// Write out what is still resident, returning the name of the file written.
///
/// The name reported is the one written, which is not the one asked for when a
/// file of that name was already there.
pub fn write_pages(
    context: &Context,
    layer: Option<usize>,
    pages: &Option<Vec<Page>>,
    name: &str,
    grid: &mut TreeGrid,
) -> (written: Option<String>)
    ensures
        (final(grid)@, text::maybe_text(written)) == pages_kept(
            context,
            layer,
            match *pages {
                Some(pages) => Some(pages@),
                None => None,
            },
            name@,
            old(grid)@,
        ),
{
    match pages {
        Some(pages) => match assemble_contents(context, layer, pages) {
            Some(contents) => if holds_bytes(pages) {
                extract(grid, &context.output, name, contents)
            } else {
                None
            },
            None => None,
        },
        None => None,
    }
}

/// What a row of the listing says.
pub open spec fn cache_cells(
    file: Object,
    cache: Seq<char>,
    base: Seq<char>,
    result: Option<Seq<char>>,
) -> Seq<Cell> {
    seq![
        Cell::Text(cache),
        Cell::hex(file.offset),
        Cell::Text(base),
        Cell::Text(
            match result {
                Some(name) => name,
                None => "Error dumping file"@,
            },
        ),
    ]
}

fn cache_row(file: Object, cache: &str, base: &str, result: Option<String>) -> (row: Row)
    ensures
        row@ == cache_cells(file, cache@, base@, text::maybe_text(result)),
{
    Row::new().with(Value::string(cache)).with(Value::hex(file.offset)).with(
        Value::string(base),
    ).with(
        match result {
            Some(name) => Value::String(name),
            // Nothing of the file is still in memory.
            None => Value::string("Error dumping file"),
        },
    )
}

/// The report once a cache of a file is in it.
pub open spec fn with_cache(
    context: &Context,
    layer: Option<usize>,
    pages: Option<Seq<Page>>,
    file: Object,
    memory_object: Object,
    cache: Seq<char>,
    extension: Seq<char>,
    base: Seq<char>,
    table: Table,
) -> Table {
    let kept = pages_kept(
        context,
        layer,
        pages,
        cache_file(file, memory_object, cache, extension, base),
        table,
    );
    kept.0.push(0, cache_cells(file, cache, base, kept.1))
}

fn add_cache(
    context: &Context,
    layer: Option<usize>,
    pages: Option<Vec<Page>>,
    file: Object,
    memory_object: Object,
    cache: &str,
    extension: &str,
    base: &str,
    grid: &mut TreeGrid,
)
    ensures
        final(grid)@ == with_cache(
            context,
            layer,
            match pages {
                Some(pages) => Some(pages@),
                None => None,
            },
            file,
            memory_object,
            cache@,
            extension@,
            base@,
            old(grid)@,
        ),
{
    let mut name = "file.".to_owned();
    name.append(&hexadecimal(file.offset));
    name.push('.');
    name.append(&hexadecimal(memory_object.offset));
    name.push('.');
    name.append(cache);
    name.push('.');
    name.append(base);
    name.push('.');
    name.append(extension);
    assert(name@ =~= cache_file(file, memory_object, cache@, extension@, base@));
    let written = write_pages(context, layer, &pages, &name, grid);
    grid.push(0, cache_row(file, cache, base, written));
}

/// The report once a section of a file is in it, where it describes something
/// recoverable. Section caches hold pages of physical memory.
pub open spec fn with_section(
    context: &Context,
    kernel: &Module,
    physical: Option<usize>,
    pointers: Object,
    file: Object,
    member: &str,
    extension: Seq<char>,
    base: Seq<char>,
    table: Table,
) -> Table {
    match context.member(pointers, member) {
        Some(section) => match context.dereference_as(
            section,
            context.get_type(kernel.table, "_CONTROL_AREA"),
        ) {
            Some(area) => if control_area_is_valid(context, area) {
                with_cache(
                    context,
                    physical,
                    area_pages(context, kernel, area),
                    file,
                    area,
                    member@,
                    extension,
                    base,
                    table,
                )
            } else {
                table
            },
            None => table,
        },
        None => table,
    }
}

fn add_section(
    context: &Context,
    kernel: &Module,
    physical: Option<usize>,
    pointers: Object,
    file: Object,
    member: &str,
    extension: &str,
    base: &str,
    grid: &mut TreeGrid,
)
    ensures
        final(grid)@ == with_section(
            context,
            kernel,
            physical,
            pointers,
            file,
            member,
            extension@,
            base@,
            old(grid)@,
        ),
{
    if let Some(section) = context.member(pointers, member) {
        if let Some(area) = context.dereference_as(
            section,
            context.get_type(kernel.table, "_CONTROL_AREA"),
        ) {
            if control_area_is_valid(context, area) {
                let pages = control_area_pages(context, kernel, area);
                add_cache(
                    context,
                    physical,
                    pages,
                    file,
                    area,
                    member,
                    extension,
                    base,
                    grid,
                );
            }
        }
    }
}

/// The report once the cache manager's views of a file are in it. They are pages
/// of the kernel's own space.
pub open spec fn with_views(
    context: &Context,
    kernel: &Module,
    pointers: Object,
    file: Object,
    base: Seq<char>,
    table: Table,
) -> Table {
    match context.member(pointers, "SharedCacheMap") {
        Some(pointer) => match context.dereference_as(
            pointer,
            context.get_type(kernel.table, "_SHARED_CACHE_MAP"),
        ) {
            Some(map) => if cache_map_is_valid(context, map) {
                with_cache(
                    context,
                    Some(kernel.layer),
                    cache_pages(context, kernel, map),
                    file,
                    map,
                    "SharedCacheMap"@,
                    "vacb"@,
                    base,
                    table,
                )
            } else {
                table
            },
            None => table,
        },
        None => table,
    }
}

fn add_views(
    context: &Context,
    kernel: &Module,
    pointers: Object,
    file: Object,
    base: &str,
    grid: &mut TreeGrid,
)
    ensures
        final(grid)@ == with_views(context, kernel, pointers, file, base@, old(grid)@),
{
    if let Some(pointer) = context.member(pointers, "SharedCacheMap") {
        if let Some(map) = context.dereference_as(
            pointer,
            context.get_type(kernel.table, "_SHARED_CACHE_MAP"),
        ) {
            if cache_map_is_valid(context, map) {
                let pages = cache_map_views(context, kernel, map);
                add_cache(
                    context,
                    Some(kernel.layer),
                    pages,
                    file,
                    map,
                    "SharedCacheMap",
                    "vacb",
                    base,
                    grid,
                );
            }
        }
    }
}

pub open spec fn spec_is_on_disk(context: &Context, file: Object) -> bool {
    match context.member_target(file, "DeviceObject") {
        Some(device) => match context.member_u64(device, "DeviceType") {
            Some(kind) => kind == FILE_DEVICE_DISK || kind == FILE_DEVICE_NETWORK_FILE_SYSTEM,
            None => false,
        },
        None => false,
    }
}

/// Whether a file object is a file on a disk. The object type is shared with
/// pipes and sockets, which have no cached contents to recover.
#[verifier::when_used_as_spec(spec_is_on_disk)]
pub fn is_on_disk(context: &Context, file: Object) -> (disk: bool)
    ensures
        disk == spec_is_on_disk(context, file),
{
    match context.member_target(file, "DeviceObject") {
        Some(device) => match context.member_u64(device, "DeviceType") {
            Some(kind) => kind == FILE_DEVICE_DISK || kind == FILE_DEVICE_NETWORK_FILE_SYSTEM,
            None => false,
        },
        None => false,
    }
}

/// The report once each cache of one file is in it.
#[verifier::opaque]
pub open spec fn with_file(
    context: &Context,
    kernel: &Module,
    physical: Option<usize>,
    file: Object,
    table: Table,
) -> Table {
    if !is_on_disk(context, file) {
        table
    } else {
        match context.member_target(file, "SectionObjectPointer") {
            Some(pointers) => {
                let base = plugins::windows::dlllist::last_part(
                    plugins::windows::handles::device_file_name(context, kernel, file),
                );
                with_views(
                    context,
                    kernel,
                    pointers,
                    file,
                    base,
                    with_section(
                        context,
                        kernel,
                        physical,
                        pointers,
                        file,
                        "ImageSectionObject",
                        "img"@,
                        base,
                        with_section(
                            context,
                            kernel,
                            physical,
                            pointers,
                            file,
                            "DataSectionObject",
                            "dat"@,
                            base,
                            table,
                        ),
                    ),
                )
            },
            None => table,
        }
    }
}

/// Recover each cache of one file.
pub fn dump_file(
    context: &Context,
    kernel: &Module,
    physical: Option<usize>,
    file: Object,
    grid: &mut TreeGrid,
)
    ensures
        final(grid)@ == with_file(context, kernel, physical, file, old(grid)@),
{
    reveal(with_file);
    if !is_on_disk(context, file) {
        return;
    }
    if let Some(pointers) = context.member_target(file, "SectionObjectPointer") {
        let name = file_name_with_device(context, kernel, file);
        let base = part_behind_slash(&name);
        add_section(
            context,
            kernel,
            physical,
            pointers,
            file,
            "DataSectionObject",
            "dat",
            &base,
            grid,
        );
        add_section(
            context,
            kernel,
            physical,
            pointers,
            file,
            "ImageSectionObject",
            "img",
            &base,
            grid,
        );
        add_views(context, kernel, pointers, file, &base, grid);
    }
}

pub open spec fn spec_file_of_header(context: &Context, kernel: &Module, header: Object) -> Option<
    Object,
> {
    match (
        context.get_type(kernel.table, "_OBJECT_HEADER"),
        context.get_type(kernel.table, "_FILE_OBJECT"),
    ) {
        (Some(header_kind), Some(kind)) => match context.find_member(header_kind, "Body") {
            Some((body, _)) => Some(
                Object {
                    kind,
                    layer: header.layer,
                    native: header.layer,
                    offset: header.offset.wrapping_add(body),
                },
            ),
            None => None,
        },
        _ => None,
    }
}

/// The object an object header precedes, as a file.
#[verifier::when_used_as_spec(spec_file_of_header)]
pub fn file_of_header(context: &Context, kernel: &Module, header: Object) -> (file: Option<Object>)
    ensures
        file == spec_file_of_header(context, kernel, header),
{
    match (
        context.get_type(kernel.table, "_OBJECT_HEADER"),
        context.get_type(kernel.table, "_FILE_OBJECT"),
    ) {
        (Some(header_kind), Some(kind)) => match context.find_member(header_kind, "Body") {
            Some((body, _)) => Some(
                Object {
                    kind,
                    layer: header.layer,
                    native: header.layer,
                    offset: header.offset.wrapping_add(body),
                },
            ),
            None => None,
        },
        _ => None,
    }
}

pub open spec fn spec_file_is_named(context: &Context, file: Object) -> bool {
    match context.member(file, "FileName") {
        Some(name) => match (
            context.member_u64(name, "Length"),
            context.member_pointer(name, "Buffer"),
        ) {
            (Some(length), Some(buffer)) => length != 0 && context.is_valid(
                file.native,
                buffer,
                1,
            ),
            _ => false,
        },
        None => false,
    }
}

/// Whether a file object still names a file.
#[verifier::when_used_as_spec(spec_file_is_named)]
pub fn file_is_named(context: &Context, file: Object) -> (named: bool)
    ensures
        named == spec_file_is_named(context, file),
{
    match context.member(file, "FileName") {
        Some(name) => match (
            context.member_u64(name, "Length"),
            context.member_pointer(name, "Buffer"),
        ) {
            (Some(length), Some(buffer)) => length != 0 && context.is_valid(
                file.native,
                buffer,
                1,
            ),
            _ => false,
        },
        None => false,
    }
}

/// The files among the first of some handles.
pub open spec fn open_files(context: &Context, kernel: &Module, list: Seq<Handle>, count: int) -> Seq<
    Object,
>
    decreases count,
{
    if count <= 0 {
        Seq::empty()
    } else {
        let before = open_files(context, kernel, list, count - 1);
        match (
            plugins::windows::handles::kind_of_header(
                context,
                list[count - 1].header,
                context.windows.type_names@,
                context.windows.cookie,
            ),
            file_of_header(context, kernel, list[count - 1].header),
        ) {
            (Some(kind), Some(file)) => if kind == "File"@ {
                before.push(file)
            } else {
                before
            },
            _ => before,
        }
    }
}

/// The files that the first of some ranges of memory map. A mapping whose file
/// has no name of its own names nothing worth recovering.
pub open spec fn mapped_files(context: &Context, vads: Seq<&Vad>, count: int) -> Seq<Object>
    decreases count,
{
    if count <= 0 {
        Seq::empty()
    } else {
        let before = mapped_files(context, vads, count - 1);
        match (vads[count - 1].control_area, vads[count - 1].file_object) {
            (Some(_), Some(file)) => if file_is_named(context, file) {
                before.push(file)
            } else {
                before
            },
            _ => before,
        }
    }
}

/// The files a process holds open, and then the ones it has mapped: a mapped
/// image usually has no handle left open on it.
#[verifier::opaque]
pub open spec fn files_of(context: &Context, kernel: &Module, process: Object) -> Seq<Object> {
    let held = match context.member(process, "ObjectTable") {
        Some(table) => {
            let list = plugins::windows::handles::handles_of(context, kernel, table);
            open_files(context, kernel, list, list.len() as int)
        },
        None => Seq::empty(),
    };
    let vads = symbols::windows::vads_of(context.windows.vads@, process.offset);
    held + mapped_files(context, vads, vads.len() as int)
}

fn collect_files(context: &Context, kernel: &Module, process: Object) -> (files: Vec<Object>)
    ensures
        files@ == files_of(context, kernel, process),
{
    reveal(files_of);
    let mut files: Vec<Object> = Vec::new();
    if let Some(table) = context.member(process, "ObjectTable") {
        let list = handles(context, kernel, table);
        for i in 0..list.len()
            invariant
                files@ == open_files(context, kernel, list@, i as int),
        {
            if let (Some(kind), Some(file)) = (
                object_type_of_header(
                    context,
                    list[i].header,
                    &context.windows.type_names,
                    context.windows.cookie,
                ),
                file_of_header(context, kernel, list[i].header),
            ) {
                if same_text(&kind, "File") {
                    files.push(file);
                }
            }
        }
    }
    let ghost held = files@;
    let vads = walk_vad_tree(context, process);
    assert(held + mapped_files(context, vads@, 0) =~= held);
    for i in 0..vads.len()
        invariant
            files@ == held + mapped_files(context, vads@, i as int),
    {
        if let (Some(_), Some(file)) = (vads[i].control_area, vads[i].file_object) {
            if file_is_named(context, file) {
                files.push(file);
            }
        }
        assert(files@ =~= held + mapped_files(context, vads@, i + 1));
    }
    files
}

/// A report and the files that are already in it.
#[verifier::ext_equal]
pub struct Progress {
    pub table: Table,
    pub dumped: Seq<u64>,
}

/// How far the report is once the first of some files are dealt with. A file
/// open in several processes is only recovered once.
pub open spec fn after_files(
    context: &Context,
    kernel: &Module,
    physical: Option<usize>,
    pattern: Option<Seq<char>>,
    files: Seq<Object>,
    progress: Progress,
    count: int,
) -> Progress
    decreases count,
{
    if count <= 0 {
        progress
    } else {
        let before = after_files(context, kernel, physical, pattern, files, progress, count - 1);
        let file = files[count - 1];
        if pattern is Some && !patterns::pattern_found(
            pattern->0,
            plugins::windows::handles::device_file_name(context, kernel, file),
        ) {
            before
        } else if before.dumped.contains(file.offset) {
            before
        } else {
            Progress {
                table: with_file(context, kernel, physical, file, before.table),
                dumped: before.dumped.push(file.offset),
            }
        }
    }
}

fn deal_with_files(
    context: &Context,
    kernel: &Module,
    physical: Option<usize>,
    pattern: &Option<String>,
    files: &Vec<Object>,
    grid: &mut TreeGrid,
    dumped: &mut Vec<u64>,
)
    ensures
        (Progress { table: final(grid)@, dumped: final(dumped)@ }) == after_files(
            context,
            kernel,
            physical,
            text::maybe_text(*pattern),
            files@,
            Progress { table: old(grid)@, dumped: old(dumped)@ },
            files@.len() as int,
        ),
{
    let ghost start = Progress { table: grid@, dumped: dumped@ };
    for i in 0..files.len()
        invariant
            (Progress { table: grid@, dumped: dumped@ }) == after_files(
                context,
                kernel,
                physical,
                text::maybe_text(*pattern),
                files@,
                start,
                i as int,
            ),
    {
        let file = files[i];
        let wanted = match pattern {
            Some(pattern) => pattern_matches(
                pattern,
                &file_name_with_device(context, kernel, file),
            ),
            None => true,
        };
        if wanted && !is_among(dumped, file.offset) {
            dumped.push(file.offset);
            dump_file(context, kernel, physical, file, grid);
        }
    }
}

/// How far the report is once the first of some processes are dealt with.
pub open spec fn after_processes(
    context: &Context,
    kernel: &Module,
    physical: Option<usize>,
    pattern: Option<Seq<char>>,
    headings: Seq<Column>,
    processes: Seq<Object>,
    count: int,
) -> Progress
    decreases count,
{
    if count <= 0 {
        Progress { table: Table::empty(headings), dumped: Seq::empty() }
    } else {
        let files = files_of(context, kernel, processes[count - 1]);
        after_files(
            context,
            kernel,
            physical,
            pattern,
            files,
            after_processes(context, kernel, physical, pattern, headings, processes, count - 1),
            files.len() as int,
        )
    }
}

proof fn lemma_files_once(
    context: &Context,
    kernel: &Module,
    physical: Option<usize>,
    pattern: Option<Seq<char>>,
    files: Seq<Object>,
    progress: Progress,
    count: int,
)
    requires
        progress.dumped.no_duplicates(),
    ensures
        after_files(context, kernel, physical, pattern, files, progress, count).dumped.no_duplicates(),
    decreases count,
{
    if count > 0 {
        lemma_files_once(context, kernel, physical, pattern, files, progress, count - 1);
    }
}

/// A file that is open in several processes is recovered only once.
pub proof fn law_each_file_is_recovered_once(
    context: &Context,
    kernel: &Module,
    physical: Option<usize>,
    pattern: Option<Seq<char>>,
    headings: Seq<Column>,
    processes: Seq<Object>,
    count: int,
)
    ensures
        after_processes(
            context,
            kernel,
            physical,
            pattern,
            headings,
            processes,
            count,
        ).dumped.no_duplicates(),
    decreases count,
{
    if count > 0 {
        law_each_file_is_recovered_once(
            context,
            kernel,
            physical,
            pattern,
            headings,
            processes,
            count - 1,
        );
        let files = files_of(context, kernel, processes[count - 1]);
        lemma_files_once(
            context,
            kernel,
            physical,
            pattern,
            files,
            after_processes(context, kernel, physical, pattern, headings, processes, count - 1),
            files.len() as int,
        );
    }
}

/// The report once the file objects at the first of some addresses are in it.
pub open spec fn with_addresses(
    context: &Context,
    kernel: &Module,
    physical: Option<usize>,
    layer: Option<usize>,
    addresses: Seq<u64>,
    table: Table,
    count: int,
) -> Table
    decreases count,
{
    if count <= 0 {
        table
    } else {
        let before = with_addresses(context, kernel, physical, layer, addresses, table, count - 1);
        match (layer, context.get_type(kernel.table, "_FILE_OBJECT")) {
            (Some(layer), Some(kind)) => with_file(
                context,
                kernel,
                physical,
                Object { kind, layer, native: layer, offset: addresses[count - 1] },
                before,
            ),
            _ => before,
        }
    }
}

fn add_addresses(
    context: &Context,
    kernel: &Module,
    physical: Option<usize>,
    layer: Option<usize>,
    addresses: &Vec<u64>,
    grid: &mut TreeGrid,
)
    ensures
        final(grid)@ == with_addresses(
            context,
            kernel,
            physical,
            layer,
            addresses@,
            old(grid)@,
            addresses@.len() as int,
        ),
{
    let ghost start = grid@;
    let kind = context.get_type(kernel.table, "_FILE_OBJECT");
    for i in 0..addresses.len()
        invariant
            kind == context.get_type(kernel.table, "_FILE_OBJECT"),
            grid@ == with_addresses(
                context,
                kernel,
                physical,
                layer,
                addresses@,
                start,
                i as int,
            ),
    {
        if let (Some(layer), Some(kind)) = (layer, kind) {
            let file = Object { kind, layer, native: layer, offset: addresses[i] };
            dump_file(context, kernel, physical, file, grid);
        }
    }
}

/// The pattern that files are asked for by.
pub open spec fn file_pattern(config: &Configuration) -> Option<Seq<char>> {
    match config.text_of("filter"@) {
        Some(pattern) => Some(
            if config.flag("ignore-case"@) {
                "(?i)"@ + pattern
            } else {
                pattern
            },
        ),
        None => None,
    }
}

/// What is wrong with what a configuration asks for. A name pattern and an
/// explicit address ask different questions, and asking both at once has no
/// answer.
pub open spec fn wrong_request(config: &Configuration) -> Option<Failure> {
    if file_pattern(config) is None {
        None
    } else if names_addresses(config) {
        Some(Failure::Other("Cannot use filter flag with an address flag"@))
    } else {
        match patterns::pattern_fault(file_pattern(config)->0) {
            Some(fault) => Some(Failure::Other("Could not compile the filter: "@ + fault)),
            None => None,
        }
    }
}

/// Whether a configuration names file objects by their addresses.
pub open spec fn names_addresses(config: &Configuration) -> bool {
    plugins::option_numbers(config.lookup("virtaddr"@)).len() > 0
        || plugins::option_numbers(config.lookup("physaddr"@)).len() > 0
}

fn check_request(config: &Configuration, by_address: bool) -> (pattern: Result<
    Option<String>,
    VolatilityError,
>)
    requires
        by_address == names_addresses(config),
    ensures
        match pattern {
            Ok(pattern) => wrong_request(config) is None && text::maybe_text(pattern)
                == file_pattern(config),
            Err(error) => wrong_request(config) == Some(error@),
        },
{
    match config.get_string("filter") {
        Some(given) => {
            if by_address {
                return Err(VolatilityError::other("Cannot use filter flag with an address flag"));
            }
            let pattern = if config.is_set("ignore-case") {
                let mut insensitive = "(?i)".to_owned();
                insensitive.append(&given);
                insensitive
            } else {
                given
            };
            match pattern_error(&pattern) {
                Some(fault) => {
                    let mut words = "Could not compile the filter: ".to_owned();
                    words.append(&fault);
                    Err(VolatilityError::Other(words))
                },
                None => Ok(Some(pattern)),
            }
        },
        None => Ok(None),
    }
}

/// The report of a configuration that asks for something sensible. Naming
/// addresses asks about those file objects alone, and the processes are not
/// walked at all.
pub open spec fn dump_report(
    context: &Context,
    kernel: &Module,
    config: &Configuration,
    headings: Seq<Column>,
) -> Result<Table, Failure> {
    let physical = physical_index(context, config);
    if names_addresses(config) {
        let virtual_addresses = plugins::option_numbers(
            config.lookup("virtaddr"@),
        );
        let physical_addresses = plugins::option_numbers(
            config.lookup("physaddr"@),
        );
        Ok(
            with_addresses(
                context,
                kernel,
                physical,
                physical,
                physical_addresses,
                with_addresses(
                    context,
                    kernel,
                    physical,
                    Some(kernel.layer),
                    virtual_addresses,
                    Table::empty(headings),
                    virtual_addresses.len() as int,
                ),
                physical_addresses.len() as int,
            ),
        )
    } else {
        match symbols::windows::listed_processes(context, kernel) {
            Some(processes) => {
                let chosen = plugins::windows::passing(
                    context,
                    processes,
                    plugins::pid_list(config.lookup("pid"@)),
                );
                Ok(
                    after_processes(
                        context,
                        kernel,
                        physical,
                        file_pattern(config),
                        headings,
                        chosen,
                        chosen.len() as int,
                    ).table,
                )
            },
            None => Err(Failure::Unavailable),
        }
    }
}

/// The layer of physical memory.
pub open spec fn physical_index(context: &Context, config: &Configuration) -> Option<usize> {
    match context::named_from(context.layers@, plugins::windows::physical_name(config), 0) {
        Some(at) => Some(at as usize),
        None => None,
    }
}

impl Plugin for DumpFiles {
    open spec fn named(&self) -> Seq<char> {
        "windows.dumpfiles.DumpFiles"@
    }

    open spec fn described(&self) -> Seq<char> {
        "Dumps cached file contents from Windows memory samples."@
    }

    open spec fn needs(&self) -> Seq<RequirementView> {
        seq![
            RequirementView::kernel(),
            RequirementView::new(
                "pid"@,
                "Process ID to include (all other processes are excluded)"@,
                KindView::Int,
            ),
            RequirementView::new(
                "virtaddr"@,
                "Dump the _FILE_OBJECTs at the given virtual address(es)"@,
                KindView::List(Box::new(KindView::Int)),
            ),
            RequirementView::new(
                "physaddr"@,
                "Dump a single _FILE_OBJECTs at the given physical address(es)"@,
                KindView::List(Box::new(KindView::Int)),
            ),
            RequirementView::new(
                "filter"@,
                "Dump files matching regular expression FILTER"@,
                KindView::String,
            ),
            RequirementView::new(
                "ignore-case"@,
                "Ignore case in filter match"@,
                KindView::Bool,
            )
            .with_default(ConfigView::Bool(false)),
        ]
    }

    open spec fn headings(&self) -> Seq<Column> {
        seq![
            Column::string("Cache"),
            Column::new("FileObject", ColumnType::UInt),
            Column::string("FileName"),
            Column::string("Result"),
        ]
    }

    open spec fn system(&self) -> OperatingSystem {
        OperatingSystem::Windows
    }

    open spec fn report(&self, context: &Context, config: &Configuration) -> Result<Table, Failure> {
        match plugins::windows::kernel_of(context, config) {
            Some(kernel) => match wrong_request(config) {
                Some(failure) => Err(failure),
                None => dump_report(context, &kernel, config, self.headings()),
            },
            None => Err(plugins::windows::no_kernel()),
        }
    }

    fn name(&self) -> (name: &'static str) {
        "windows.dumpfiles.DumpFiles"
    }

    fn description(&self) -> (description: &'static str) {
        "Dumps cached file contents from Windows memory samples."
    }

    fn requirements(&self) -> (requirements: Vec<Requirement>) {
        reveal_with_fuel(crate::plugins::kind_view, 3);
        reveal_with_fuel(crate::plugins::config_view, 3);
        vec![
            Requirement::kernel(),
            Requirement::new(
                "pid",
                "Process ID to include (all other processes are excluded)",
                RequirementKind::Int,
            ),
            Requirement::new(
                "virtaddr",
                "Dump the _FILE_OBJECTs at the given virtual address(es)",
                RequirementKind::List(Box::new(RequirementKind::Int)),
            ),
            Requirement::new(
                "physaddr",
                "Dump a single _FILE_OBJECTs at the given physical address(es)",
                RequirementKind::List(Box::new(RequirementKind::Int)),
            ),
            Requirement::new(
                "filter",
                "Dump files matching regular expression FILTER",
                RequirementKind::String,
            ),
            Requirement::new(
                "ignore-case",
                "Ignore case in filter match",
                RequirementKind::Bool,
            )
            .with_default(ConfigValue::Bool(false)),
        ]
    }

    fn operating_system(&self) -> (system: OperatingSystem) {
        OperatingSystem::Windows
    }

    fn columns(&self) -> (columns: Vec<Column>) {
        vec![
            Column::string("Cache"),
            Column::new("FileObject", ColumnType::UInt),
            Column::string("FileName"),
            Column::string("Result"),
        ]
    }

    fn epilog(&self) -> (epilog: Option<&'static str>) {
        None
    }

    fn timeline(&self, context: &Context, config: &Configuration) -> (timeline: Option<
        plugins::Timeline,
    >) {
        None
    }

    fn needs_kernel(&self) -> (needed: bool) {
        false
    }

    fn run(&self, context: &Context, config: &Configuration) -> (result: Result<TreeGrid, VolatilityError>) {
        let kernel = kernel_module(context, config)?;
        let physical = context.layer_named(&physical_layer(config));
        let virtual_addresses = int_list(config, "virtaddr");
        let physical_addresses = int_list(config, "physaddr");
        let by_address = !virtual_addresses.is_empty() || !physical_addresses.is_empty();
        let pattern = check_request(config, by_address)?;
        let mut grid = TreeGrid::new(self.columns());
        if by_address {
            add_addresses(
                context,
                kernel,
                physical,
                Some(kernel.layer),
                &virtual_addresses,
                &mut grid,
            );
            add_addresses(context, kernel, physical, physical, &physical_addresses, &mut grid);
            return Ok(grid);
        }
        let filter = pid_filter(config);
        let processes = match list_processes(context, kernel) {
            Some(processes) => filtered_processes(context, &processes, &filter),
            None => return Err(VolatilityError::Unavailable),
        };
        let mut dumped: Vec<u64> = Vec::new();
        let ghost headings = self.headings();
        for i in 0..processes.len()
            invariant
                text::maybe_text(pattern) == file_pattern(config),
                (Progress { table: grid@, dumped: dumped@ }) == after_processes(
                    context,
                    kernel,
                    physical,
                    file_pattern(config),
                    headings,
                    processes@,
                    i as int,
                ),
        {
            let files = collect_files(context, kernel, processes[i]);
            deal_with_files(
                context,
                kernel,
                physical,
                &pattern,
                &files,
                &mut grid,
                &mut dumped,
            );
        }
        Ok(grid)
    }
}

} // verus!
