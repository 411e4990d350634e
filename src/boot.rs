//! The order of kernel start-up: descriptor tables first, so that any fault
//! has a handler; then the frame allocator; then the page table, whose first
//! change may fault and may need frames.
use vstd::prelude::*;

verus! {

/// How far start-up has come.
#[derive(Clone, Copy, Debug, PartialEq, Eq, Structural)]
pub enum InitStage {
    Start,
    TablesLoaded,
    AllocatorReady,
    PagingReady,
}

/// One step of start-up.
#[derive(Clone, Copy, Debug, PartialEq, Eq, Structural)]
pub enum InitStep {
    LoadDescriptorTables,
    InitFrameAllocator,
    InitPageTable,
}

pub open spec fn stage_rank(s: InitStage) -> int {
    match s {
        InitStage::Start => 0,
        InitStage::TablesLoaded => 1,
        InitStage::AllocatorReady => 2,
        InitStage::PagingReady => 3,
    }
}

pub open spec fn step_rank(s: InitStep) -> int {
    match s {
        InitStep::LoadDescriptorTables => 0,
        InitStep::InitFrameAllocator => 1,
        InitStep::InitPageTable => 2,
    }
}

/// The stage after `step` is taken at `stage`, or `None` where the step is
/// out of order: each step is taken once, in order.
pub fn advance(stage: InitStage, step: InitStep) -> (r: Option<InitStage>)
    ensures
        r is Some <==> step_rank(step) == stage_rank(stage),
        r is Some ==> stage_rank(r->Some_0) == stage_rank(stage) + 1,
{
    match (stage, step) {
        (InitStage::Start, InitStep::LoadDescriptorTables) => Some(InitStage::TablesLoaded),
        (InitStage::TablesLoaded, InitStep::InitFrameAllocator) => Some(InitStage::AllocatorReady),
        (InitStage::AllocatorReady, InitStep::InitPageTable) => Some(InitStage::PagingReady),
        _ => None,
    }
}

/// Pages may be mapped only once every table and the allocator are ready.
pub fn may_map(stage: InitStage) -> (r: bool)
    ensures
        r <==> stage == InitStage::PagingReady,
{
    match stage {
        InitStage::PagingReady => true,
        _ => false,
    }
}

} // verus!
