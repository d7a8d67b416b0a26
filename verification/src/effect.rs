//! What is known of an effect outside the process.

use vstd::prelude::*;

verus! {

/// How far an external effect got.
#[derive(Clone, Copy, Debug, PartialEq, Eq, Structural)]
pub enum EffectOutcome {
    /// Nothing was attempted.
    NotStarted,
    /// The effect took place.
    Confirmed,
    /// The effect is known not to have taken place.
    ConfirmedFailed,
    /// Part of the effect took place.
    PartiallyApplied,
    /// The effect may have taken place.
    PossiblyApplied,
    /// Only a person can tell.
    ReconciliationRequired,
}

/// A delivery that stopped before its last chunk.
#[derive(Clone, Copy, Debug, PartialEq, Eq, Structural)]
pub struct DeliveryFailure {
    pub outcome: EffectOutcome,
    pub chunk_index: usize,
    pub total_chunks: usize,
    pub confirmed_chunks: usize,
}

/// What a channel reports of a delivery that ended without an error.
#[derive(Clone, Copy, Debug, PartialEq, Eq, Structural)]
pub struct DeliverySummary {
    pub outcome: EffectOutcome,
    pub total_chunks: usize,
    pub confirmed_chunks: usize,
}

} // verus!
