//! Report the control region of each processor.

use crate::config::Configuration;
use crate::context::{Context, Module, Object, TypeId};
use crate::error::{Failure, VolatilityError};
use crate::plugins::{self, OperatingSystem, Plugin, Requirement, RequirementView};
use crate::plugins::windows::kernel_module;
use crate::renderers::{Cell, Column, ColumnType, Row, Table, TreeGrid, Value};
use vstd::prelude::*;

verus! {

/// Reports the control region of each processor.
pub struct Kpcrs;

/// What a walk of the processors needs.
#[derive(Clone, Copy, PartialEq, Eq, Structural, Debug)]
pub struct ProcessorWalk {
    pub kind: TypeId,
    /// Where in a region its block stands.
    pub relative: u64,
    /// Whether the region names the current block separately.
    pub named: bool,
    /// Where the array of pointers to the blocks stands.
    pub blocks: u64,
    pub pointer_size: u64,
}

pub open spec fn spec_processor_walk(context: &Context, kernel: &Module) -> Option<ProcessorWalk> {
    match (
        context.get_type(kernel.table, "_KPCR"),
        context.symbol_offset(kernel, "KiProcessorBlock"),
    ) {
        (Some(kind), Some(blocks)) => Some(
            ProcessorWalk {
                kind,
                relative: match context.find_member(kind, "Prcb") {
                    Some((offset, _)) => offset,
                    None => 0,
                },
                named: context.find_member(kind, "CurrentPrcb") is Some,
                blocks,
                pointer_size: context.pointer_size(kernel),
            },
        ),
        _ => None,
    }
}

/// What a walk of the processors needs, where the kernel describes it. Later
/// kernels name the current block separately from the one they hold.
#[verifier::when_used_as_spec(spec_processor_walk)]
pub fn processor_walk(context: &Context, kernel: &Module) -> (walk: Option<ProcessorWalk>)
    ensures
        walk == spec_processor_walk(context, kernel),
{
    match (
        context.get_type(kernel.table, "_KPCR"),
        context.symbol_offset(kernel, "KiProcessorBlock"),
    ) {
        (Some(kind), Some(blocks)) => Some(
            ProcessorWalk {
                kind,
                relative: match context.find_member(kind, "Prcb") {
                    Some((offset, _)) => offset,
                    None => 0,
                },
                named: context.find_member(kind, "CurrentPrcb").is_some(),
                blocks,
                pointer_size: context.pointer_size(kernel),
            },
        ),
        _ => None,
    }
}

pub open spec fn spec_region_at(
    context: &Context,
    kernel: &Module,
    walk: ProcessorWalk,
    index: u64,
) -> Option<(Object, u64)> {
    match context.number_at(
        kernel.layer,
        walk.blocks.wrapping_add(index.wrapping_mul(walk.pointer_size)),
        walk.pointer_size,
    ) {
        Some(raw) => {
            let block = raw & context.address_mask(kernel.layer);
            if block == 0 || !context.is_valid(kernel.layer, block, 1) {
                None
            } else {
                let kpcr = Object {
                    kind: walk.kind,
                    layer: kernel.layer,
                    native: kernel.layer,
                    offset: block.wrapping_sub(walk.relative),
                };
                Some(
                    (
                        kpcr,
                        match if walk.named {
                            context.member_u64(kpcr, "CurrentPrcb")
                        } else {
                            context.member_u64(kpcr, "Prcb")
                        } {
                            Some(prcb) => prcb,
                            None => 0,
                        },
                    ),
                )
            }
        },
        None => None,
    }
}

/// The control region of a processor and its current block. The region sits a fixed distance in front of the
/// block it contains. A block that cannot be read belongs to a processor the image
/// never captured.
#[verifier::when_used_as_spec(spec_region_at)]
pub fn region_at(context: &Context, kernel: &Module, walk: ProcessorWalk, index: u64) -> (region:
    Option<(Object, u64)>)
    ensures
        region == spec_region_at(context, kernel, walk, index),
{
    match context.number_at(
        kernel.layer,
        walk.blocks.wrapping_add(index.wrapping_mul(walk.pointer_size)),
        walk.pointer_size,
    ) {
        Some(raw) => {
            let block: u64 = raw & context.address_mask(kernel.layer);
            if block == 0 || !context.is_valid(kernel.layer, block, 1) {
                None
            } else {
                let kpcr = Object {
                    kind: walk.kind,
                    layer: kernel.layer,
                    native: kernel.layer,
                    offset: block.wrapping_sub(walk.relative),
                };
                let current = if walk.named {
                    context.member_u64(kpcr, "CurrentPrcb")
                } else {
                    context.member_u64(kpcr, "Prcb")
                };
                let prcb: u64 = match current {
                    Some(prcb) => prcb,
                    None => 0,
                };
                Some((kpcr, prcb))
            }
        },
        None => None,
    }
}

/// The control regions of the first processors.
pub open spec fn regions(context: &Context, kernel: &Module, walk: ProcessorWalk, count: nat) -> Seq<
    (Object, u64),
>
    decreases count,
{
    if count == 0 {
        Seq::empty()
    } else {
        let before = regions(context, kernel, walk, (count - 1) as nat);
        match region_at(context, kernel, walk, (count - 1) as u64) {
            Some(region) => before.push(region),
            None => before,
        }
    }
}

/// How many processors the machine has: one, where it does not say.
pub open spec fn processor_count(context: &Context, kernel: &Module) -> u64 {
    match plugins::windows::info::processors(context, kernel) {
        Some(count) => count,
        None => 1,
    }
}

/// The control region of each processor.
pub open spec fn control_regions(context: &Context, kernel: &Module) -> Option<Seq<(Object, u64)>> {
    match processor_walk(context, kernel) {
        Some(walk) => Some(regions(context, kernel, walk, processor_count(context, kernel) as nat)),
        None => None,
    }
}

/// The processor control region of each processor.
///
/// The kernel keeps an array of pointers to the control blocks, and the region
/// itself sits a fixed distance in front of the block it contains.
pub fn list_kpcrs(context: &Context, kernel: &Module) -> (found: Result<
    Vec<(Object, u64)>,
    VolatilityError,
>)
    ensures
        match found {
            Ok(list) => control_regions(context, kernel) == Some(list@),
            Err(error) => control_regions(context, kernel) is None && error@
                == Failure::Unavailable,
        },
{
    let walk = match processor_walk(context, kernel) {
        Some(walk) => walk,
        None => return Err(VolatilityError::Unavailable),
    };
    let count: u64 = match plugins::windows::info::processors(context, kernel) {
        Some(count) => count,
        None => 1,
    };
    let mut results: Vec<(Object, u64)> = Vec::new();
    for index in 0..count
        invariant
            results@ == regions(context, kernel, walk, index as nat),
    {
        if let Some(region) = region_at(context, kernel, walk, index) {
            results.push(region);
        }
    }
    Ok(results)
}

/// The report on the first of some processors.
pub open spec fn reported(headings: Seq<Column>, list: Seq<(Object, u64)>, count: int) -> Table
    decreases count,
{
    if count <= 0 {
        Table::empty(headings)
    } else {
        reported(headings, list, count - 1).push(
            0,
            seq![Cell::hex(list[count - 1].0.offset), Cell::hex(list[count - 1].1)],
        )
    }
}

impl Plugin for Kpcrs {
    open spec fn named(&self) -> Seq<char> {
        "windows.kpcrs.KPCRs"@
    }

    open spec fn described(&self) -> Seq<char> {
        "Print KPCR structure for each processor"@
    }

    open spec fn needs(&self) -> Seq<RequirementView> {
        seq![RequirementView::kernel()]
    }

    open spec fn headings(&self) -> Seq<Column> {
        seq![
            Column::new("Offset", ColumnType::UInt),
            Column::new("PRCB Offset", ColumnType::UInt),
        ]
    }

    open spec fn system(&self) -> OperatingSystem {
        OperatingSystem::Windows
    }

    open spec fn report(&self, context: &Context, config: &Configuration) -> Result<Table, Failure> {
        match plugins::windows::kernel_of(context, config) {
            Some(kernel) => match control_regions(context, &kernel) {
                Some(list) => Ok(reported(self.headings(), list, list.len() as int)),
                None => Err(Failure::Unavailable),
            },
            None => Err(plugins::windows::no_kernel()),
        }
    }

    fn name(&self) -> (name: &'static str) {
        "windows.kpcrs.KPCRs"
    }

    fn description(&self) -> (description: &'static str) {
        "Print KPCR structure for each processor"
    }

    fn requirements(&self) -> (requirements: Vec<Requirement>) {
        vec![Requirement::kernel()]
    }

    fn operating_system(&self) -> (system: OperatingSystem) {
        OperatingSystem::Windows
    }

    fn columns(&self) -> (columns: Vec<Column>) {
        vec![
            Column::new("Offset", ColumnType::UInt),
            Column::new("PRCB Offset", ColumnType::UInt),
        ]
    }

    fn epilog(&self) -> (epilog: Option<&'static str>) {
        None
    }

    fn timeline(&self, context: &Context, config: &Configuration) -> (timeline: Option<
        plugins::Timeline,
    >) {
        None
    }

    fn needs_kernel(&self) -> (needed: bool) {
        false
    }

    fn run(&self, context: &Context, config: &Configuration) -> (result: Result<TreeGrid, VolatilityError>) {
        let kernel = kernel_module(context, config)?;
        let list = list_kpcrs(context, kernel)?;
        let mut grid = TreeGrid::new(self.columns());
        let ghost headings = self.headings();
        for i in 0..list.len()
            invariant
                grid@ == reported(headings, list@, i as int),
        {
            let row = Row::new().with(Value::hex(list[i].0.offset)).with(
                Value::hex(list[i].1),
            );
            assert(row@ =~= seq![
                Cell::hex(list@[i as int].0.offset),
                Cell::hex(list@[i as int].1),
            ]);
            grid.push(0, row);
        }
        Ok(grid)
    }
}

} // verus!
