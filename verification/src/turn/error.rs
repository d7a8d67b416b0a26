//! Errors of a turn: a chain of causes, the outermost first.
//!
//! A context names a reason without replacing the error below it. An error can
//! have another error as its source. Both are layers of one chain; which of
//! them a reader finds depends on where the contexts stand.

use crate::effect::DeliveryFailure;
use crate::turn::batch_failures::RetainedToolFailures;
use crate::turn::results_collect::ResultBudgetExceeded;
use crate::turn::sop_settlement::SopDriveEvidence;
use vstd::prelude::*;

verus! {

/// The kind of work whose deadline passed.
#[derive(Clone, Copy, Debug, PartialEq, Eq, Structural)]
pub enum Phase {
    Turn,
    Tool,
}

/// A deadline that passed before the work ended.
#[derive(Clone, Copy, Debug, PartialEq, Eq, Structural)]
pub struct DeadlineExceeded {
    pub phase: Phase,
    /// Whether the work had begun.
    pub started: bool,
}

/// A part of an operating procedure that did not settle.
#[derive(Clone, Copy, Debug, PartialEq, Eq, Structural)]
pub enum SopPhase {
    Assembly,
    NestedStep,
    StepCancellation,
    QueuedCancellation,
    Audit,
}

/// One reason in a chain.
pub enum Cause {
    /// The caller cancelled the turn.
    ToolLoopCancelled,
    /// The emergency stop interrupted the turn.
    EstopInterrupted,
    /// A deadline passed.
    DeadlineExceeded(DeadlineExceeded),
    /// A delivery failed.
    Delivery(DeliveryFailure),
    /// A part of an operating procedure did not settle.
    SopPhaseIncomplete(SopPhase),
    /// The turn did not settle in time after it was interrupted.
    TurnSettlementIncomplete,
    /// The turn completed with this output after it was interrupted.
    TurnCompletedAfterInterruption(String),
    /// Other tool failures of the same batch.
    RetainedToolFailures(RetainedToolFailures),
    /// Results that did not fit the budget.
    ResultBudgetExceeded(ResultBudgetExceeded),
    /// What a driver of operating procedures had done when it was interrupted.
    SopDriveInterrupted(SopDriveEvidence),
    /// Any other error, by its message.
    Other(String),
}

/// The variants of `Cause`.
#[derive(Clone, Copy, Debug, PartialEq, Eq, Structural)]
pub enum CauseKind {
    ToolLoopCancelled,
    EstopInterrupted,
    DeadlineExceeded,
    Delivery,
    SopPhaseIncomplete,
    TurnSettlementIncomplete,
    TurnCompletedAfterInterruption,
    RetainedToolFailures,
    ResultBudgetExceeded,
    SopDriveInterrupted,
    Other,
}

impl Cause {
    /// The variant.
    pub open spec fn kind(self) -> CauseKind {
        match self {
            Cause::ToolLoopCancelled => CauseKind::ToolLoopCancelled,
            Cause::EstopInterrupted => CauseKind::EstopInterrupted,
            Cause::DeadlineExceeded(_) => CauseKind::DeadlineExceeded,
            Cause::Delivery(_) => CauseKind::Delivery,
            Cause::SopPhaseIncomplete(_) => CauseKind::SopPhaseIncomplete,
            Cause::TurnSettlementIncomplete => CauseKind::TurnSettlementIncomplete,
            Cause::TurnCompletedAfterInterruption(_) => CauseKind::TurnCompletedAfterInterruption,
            Cause::RetainedToolFailures(_) => CauseKind::RetainedToolFailures,
            Cause::ResultBudgetExceeded(_) => CauseKind::ResultBudgetExceeded,
            Cause::SopDriveInterrupted(_) => CauseKind::SopDriveInterrupted,
            Cause::Other(_) => CauseKind::Other,
        }
    }

    /// The variant.
    pub fn get_kind(&self) -> (k: CauseKind)
        ensures
            k == self.kind(),
    {
        match self {
            Cause::ToolLoopCancelled => CauseKind::ToolLoopCancelled,
            Cause::EstopInterrupted => CauseKind::EstopInterrupted,
            Cause::DeadlineExceeded(_) => CauseKind::DeadlineExceeded,
            Cause::Delivery(_) => CauseKind::Delivery,
            Cause::SopPhaseIncomplete(_) => CauseKind::SopPhaseIncomplete,
            Cause::TurnSettlementIncomplete => CauseKind::TurnSettlementIncomplete,
            Cause::TurnCompletedAfterInterruption(_) => CauseKind::TurnCompletedAfterInterruption,
            Cause::RetainedToolFailures(_) => CauseKind::RetainedToolFailures,
            Cause::ResultBudgetExceeded(_) => CauseKind::ResultBudgetExceeded,
            Cause::SopDriveInterrupted(_) => CauseKind::SopDriveInterrupted,
            Cause::Other(_) => CauseKind::Other,
        }
    }
}

/// One layer of a chain.
pub struct Layer {
    pub cause: Cause,
    /// Whether the layer was added as context to the error below it.
    pub context: bool,
}

/// An error with its contexts and sources.
pub struct TurnError {
    pub layers: Vec<Layer>,
}

/// Whether an error of kind `k` can be taken out of the chain by its type: it is
/// one of the leading contexts, or the error that they were added to.
pub open spec fn downcasts(layers: Seq<Layer>, k: CauseKind) -> bool {
    exists|i: int|
        0 <= i < layers.len() && (#[trigger] layers[i]).cause.kind() == k && forall|j: int|
            0 <= j < i ==> (#[trigger] layers[j]).context
}

/// Whether an error of kind `k` is met on the way from source to source.
pub open spec fn in_sources(layers: Seq<Layer>, k: CauseKind) -> bool {
    exists|i: int|
        0 <= i < layers.len() && !(#[trigger] layers[i]).context && layers[i].cause.kind() == k
}

/// Whether an error of kind `k` can be found in the chain.
pub open spec fn carries(layers: Seq<Layer>, k: CauseKind) -> bool {
    downcasts(layers, k) || in_sources(layers, k)
}

/// Whether the chain says that the turn was stopped by the emergency stop.
pub open spec fn is_estop(layers: Seq<Layer>) -> bool {
    carries(layers, CauseKind::EstopInterrupted)
}

/// Whether the chain says that the turn was cancelled, by its caller or by the
/// emergency stop.
pub open spec fn is_cancelled(layers: Seq<Layer>) -> bool {
    carries(layers, CauseKind::ToolLoopCancelled) || is_estop(layers)
}

/// Whether the chain says that a deadline passed.
pub open spec fn is_deadline(layers: Seq<Layer>) -> bool {
    carries(layers, CauseKind::DeadlineExceeded)
}

impl TurnError {
    /// An error with one cause.
    pub fn new(cause: Cause) -> (e: TurnError)
        ensures
            e.layers@ == seq![Layer { cause, context: false }],
    {
        let mut layers: Vec<Layer> = Vec::new();
        layers.push(Layer { cause, context: false });
        assert(layers@ =~= seq![Layer { cause, context: false }]);
        TurnError { layers }
    }

    /// `self` with a context in front.
    pub fn context(self, cause: Cause) -> (e: TurnError)
        ensures
            e.layers@ == seq![Layer { cause, context: true }] + self.layers@,
    {
        let mut e: TurnError = self;
        e.layers.insert(0, Layer { cause, context: true });
        assert(e.layers@ =~= seq![Layer { cause, context: true }] + self.layers@);
        e
    }

    /// A new error with `self` as its source.
    pub fn source_of(self, cause: Cause) -> (e: TurnError)
        ensures
            e.layers@ == seq![Layer { cause, context: false }] + self.layers@,
    {
        let mut e: TurnError = self;
        e.layers.insert(0, Layer { cause, context: false });
        assert(e.layers@ =~= seq![Layer { cause, context: false }] + self.layers@);
        e
    }

    /// Whether an error of kind `k` can be taken out of the chain by its type.
    pub fn is(&self, k: CauseKind) -> (r: bool)
        ensures
            r == downcasts(self.layers@, k),
    {
        for i in 0..self.layers.len()
            invariant
                forall|j: int| 0 <= j < i ==> (#[trigger] self.layers@[j]).context,
                forall|j: int| 0 <= j < i ==> (#[trigger] self.layers@[j]).cause.kind() != k,
        {
            if self.layers[i].cause.get_kind() == k {
                return true;
            }
            if !self.layers[i].context {
                assert(!self.layers@[i as int].context);
                return false;
            }
        }
        false
    }

    /// Whether an error of kind `k` is met on the way from source to source.
    pub fn has_source(&self, k: CauseKind) -> (r: bool)
        ensures
            r == in_sources(self.layers@, k),
    {
        for i in 0..self.layers.len()
            invariant
                forall|j: int|
                    0 <= j < i ==> (#[trigger] self.layers@[j]).context
                        || self.layers@[j].cause.kind() != k,
        {
            if !self.layers[i].context && self.layers[i].cause.get_kind() == k {
                return true;
            }
        }
        false
    }

    /// Whether an error of kind `k` can be found in the chain.
    pub fn mentions(&self, k: CauseKind) -> (r: bool)
        ensures
            r == carries(self.layers@, k),
    {
        self.is(k) || self.has_source(k)
    }
}

/// Whether the emergency stop interrupted the turn.
pub fn is_estop_interrupted(error: &TurnError) -> (r: bool)
    ensures
        r == is_estop(error.layers@),
{
    error.mentions(CauseKind::EstopInterrupted)
}

/// Whether the turn was cancelled, by its caller or by the emergency stop.
pub fn is_tool_loop_cancelled(error: &TurnError) -> (r: bool)
    ensures
        r == is_cancelled(error.layers@),
{
    error.mentions(CauseKind::ToolLoopCancelled) || is_estop_interrupted(error)
}

/// A context in front of a chain can always be found.
pub proof fn lemma_context_found(cause: Cause, layers: Seq<Layer>)
    ensures
        downcasts(seq![Layer { cause, context: true }] + layers, cause.kind()),
{
    let all = seq![Layer { cause, context: true }] + layers;
    assert(all[0] == (Layer { cause, context: true }));
}

/// What could be found in a chain can be found under any context added to it.
pub proof fn lemma_context_keeps(cause: Cause, layers: Seq<Layer>, k: CauseKind)
    requires
        carries(layers, k),
    ensures
        carries(seq![Layer { cause, context: true }] + layers, k),
{
    let all = seq![Layer { cause, context: true }] + layers;
    if downcasts(layers, k) {
        let i = choose|i: int|
            0 <= i < layers.len() && (#[trigger] layers[i]).cause.kind() == k && forall|j: int|
                0 <= j < i ==> (#[trigger] layers[j]).context;
        assert(all[i + 1] == layers[i]);
        assert forall|j: int| 0 <= j < i + 1 implies (#[trigger] all[j]).context by {
            if j > 0 {
                assert(all[j] == layers[j - 1]);
            }
        }
    } else {
        let i = choose|i: int|
            0 <= i < layers.len() && !(#[trigger] layers[i]).context && layers[i].cause.kind() == k;
        assert(all[i + 1] == layers[i]);
    }
}

} // verus!
