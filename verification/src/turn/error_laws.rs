//! What can be found in the chain of an error.

use crate::turn::error;
use crate::turn::error::{
    is_estop_interrupted, is_tool_loop_cancelled, Cause, CauseKind, Layer, TurnError,
};
use vstd::prelude::*;

verus! {

/// Whether the layer at `i` can be reached: it is an error of its own, or one of
/// the contexts in front.
pub open spec fn reachable(layers: Seq<Layer>, i: int) -> bool {
    &&& 0 <= i < layers.len()
    &&& !layers[i].context || forall|j: int| 0 <= j < i ==> (#[trigger] layers[j]).context
}

/// A turn counts as cancelled exactly if a cancellation or the emergency stop can
/// be reached in its error.
pub proof fn law_cancellations_are_found(e: &TurnError, r: bool)
    requires
        call_ensures(is_tool_loop_cancelled, (e,), r),
    ensures
        r <==> exists|i: int| #[trigger]
            reachable(e.layers@, i) && (e.layers@[i].cause is ToolLoopCancelled
                || e.layers@[i].cause is EstopInterrupted),
{
    lemma_carries(e.layers@, CauseKind::ToolLoopCancelled);
    lemma_carries(e.layers@, CauseKind::EstopInterrupted);
    lemma_kinds(e.layers@);
}

/// A turn counts as stopped by the emergency stop exactly if that can be reached in
/// its error.
pub proof fn law_emergency_stops_are_found(e: &TurnError, r: bool)
    requires
        call_ensures(is_estop_interrupted, (e,), r),
    ensures
        r <==> exists|i: int| #[trigger]
            reachable(e.layers@, i) && e.layers@[i].cause is EstopInterrupted,
{
    lemma_carries(e.layers@, CauseKind::EstopInterrupted);
    lemma_kinds(e.layers@);
}

/// An error is taken out by its type from the contexts in front and the error that
/// they were added to, and from nowhere else.
pub proof fn law_types_are_found_in_front(e: &TurnError, k: CauseKind, r: bool)
    requires
        call_ensures(TurnError::is, (e, k), r),
    ensures
        r <==> exists|i: int|
            0 <= i < e.layers@.len() && (#[trigger] e.layers@[i]).cause.kind() == k && forall|j: int|
                0 <= j < i ==> (#[trigger] e.layers@[j]).context,
{
}

/// An error of a kind is mentioned exactly if it can be reached.
pub proof fn law_mentions_are_reachable(e: &TurnError, k: CauseKind, r: bool)
    requires
        call_ensures(TurnError::mentions, (e, k), r),
    ensures
        r <==> exists|i: int| #[trigger] reachable(e.layers@, i) && e.layers@[i].cause.kind() == k,
{
    lemma_carries(e.layers@, k);
}

/// A new error has its cause and nothing else; a context and a source are put in
/// front of an error, which stays as it is behind them.
pub proof fn law_errors_keep_what_they_are_built_on(
    cause: Cause,
    below: TurnError,
    alone: TurnError,
    with_context: TurnError,
    as_source: TurnError,
)
    requires
        call_ensures(TurnError::new, (cause,), alone),
        call_ensures(TurnError::context, (below, cause), with_context),
        call_ensures(TurnError::source_of, (below, cause), as_source),
    ensures
        alone.layers@.len() == 1 && alone.layers@[0].cause == cause && !alone.layers@[0].context,
        with_context.layers@.len() == below.layers@.len() + 1,
        with_context.layers@[0].cause == cause && with_context.layers@[0].context,
        with_context.layers@.drop_first() == below.layers@,
        as_source.layers@.len() == below.layers@.len() + 1,
        as_source.layers@[0].cause == cause && !as_source.layers@[0].context,
        as_source.layers@.drop_first() == below.layers@,
{
    assert(with_context.layers@.drop_first() =~= below.layers@);
    assert(as_source.layers@.drop_first() =~= below.layers@);
}

/// Each variant of a cause has a kind of its own.
pub proof fn law_kinds_tell_causes_apart(c: Cause)
    ensures
        c.kind() == CauseKind::ToolLoopCancelled <==> c is ToolLoopCancelled,
        c.kind() == CauseKind::EstopInterrupted <==> c is EstopInterrupted,
        c.kind() == CauseKind::DeadlineExceeded <==> c is DeadlineExceeded,
        c.kind() == CauseKind::Delivery <==> c is Delivery,
        c.kind() == CauseKind::SopPhaseIncomplete <==> c is SopPhaseIncomplete,
        c.kind() == CauseKind::TurnSettlementIncomplete <==> c is TurnSettlementIncomplete,
        c.kind() == CauseKind::TurnCompletedAfterInterruption <==> c
            is TurnCompletedAfterInterruption,
        c.kind() == CauseKind::RetainedToolFailures <==> c is RetainedToolFailures,
        c.kind() == CauseKind::ResultBudgetExceeded <==> c is ResultBudgetExceeded,
        c.kind() == CauseKind::SopDriveInterrupted <==> c is SopDriveInterrupted,
        c.kind() == CauseKind::Other <==> c is Other,
{
}

/// What a chain carries is what can be reached in it.
proof fn lemma_carries(layers: Seq<Layer>, k: CauseKind)
    ensures
        error::carries(layers, k) <==> exists|i: int| #[trigger]
            reachable(layers, i) && layers[i].cause.kind() == k,
{
    if error::downcasts(layers, k) {
        let i = choose|i: int|
            0 <= i < layers.len() && (#[trigger] layers[i]).cause.kind() == k && forall|j: int|
                0 <= j < i ==> (#[trigger] layers[j]).context;
        assert(reachable(layers, i));
    }
    if error::in_sources(layers, k) {
        let i = choose|i: int|
            0 <= i < layers.len() && !(#[trigger] layers[i]).context && layers[i].cause.kind() == k;
        assert(reachable(layers, i));
    }
    if exists|i: int| #[trigger] reachable(layers, i) && layers[i].cause.kind() == k {
        let i = choose|i: int| #[trigger] reachable(layers, i) && layers[i].cause.kind() == k;
        if layers[i].context {
            assert(error::downcasts(layers, k));
        } else {
            assert(error::in_sources(layers, k));
        }
    }
}

/// The kinds of the layers of a chain.
proof fn lemma_kinds(layers: Seq<Layer>)
    ensures
        forall|i: int| #[trigger]
            reachable(layers, i) ==> (layers[i].cause.kind() == CauseKind::ToolLoopCancelled
                <==> layers[i].cause is ToolLoopCancelled) && (layers[i].cause.kind()
                == CauseKind::EstopInterrupted <==> layers[i].cause is EstopInterrupted),
{
}

} // verus!
