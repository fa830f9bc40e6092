//! The vocabulary of memory decay: the forgetting models, the events of a
//! memory's life, and what a decay cycle did.
use vstd::prelude::*;

verus! {

/// How retention falls over time.
#[derive(Debug, Clone, Copy, PartialEq, Eq, Structural)]
pub enum DecayModel {
    /// Exponential forgetting.
    Ebbinghaus,
    /// Power-law forgetting.
    PowerLaw,
    /// A blend of the two.
    Adaptive,
}

/// What happened to a memory.
#[derive(Debug, Clone, Copy, PartialEq, Eq, Structural)]
pub enum DecayEventType {
    Created,
    Accessed,
    Reinforced,
    Reviewed,
    Forgot,
    Pinned,
    Unpinned,
    ReEvaluated,
}

/// What one decay cycle did.
#[derive(Debug, Clone, Copy, PartialEq, Eq, Structural)]
pub struct DecayCycleResult {
    pub memories_updated: usize,
    pub memories_forgotten: usize,
    pub memories_needing_review: usize,
    pub cycle_duration_ms: u64,
}

impl Default for DecayCycleResult {
    /// Nothing done yet.
    fn default() -> (r: Self)
        ensures
            r.memories_updated == 0,
            r.memories_forgotten == 0,
            r.memories_needing_review == 0,
            r.cycle_duration_ms == 0,
    {
        DecayCycleResult { memories_updated: 0, memories_forgotten: 0, memories_needing_review: 0, cycle_duration_ms: 0 }
    }
}

} // verus!
