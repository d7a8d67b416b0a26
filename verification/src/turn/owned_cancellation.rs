//! Cancellation ownership for a turn and its live driver of operating
//! procedures: which stop counts first, and what becomes of a result that is
//! ready when the stop comes.

use crate::turn::error;
use crate::turn::error::{Cause, CauseKind, DeadlineExceeded, Layer, Phase, TurnError};
use vstd::prelude::*;

verus! {

/// How long an interrupted turn may take to settle, in milliseconds.
pub const TURN_SETTLEMENT_BUDGET_MS: u64 = 750;

/// What the owner of a turn asks its invocation to publish.
#[derive(Clone, Copy, Debug, PartialEq, Eq, Structural)]
pub enum StopRequest {
    /// The emergency stop, for the tool that was checked or for the turn.
    Estop,
    /// The deadline.
    Deadline,
    /// The caller.
    User,
}

/// What the owner of a turn finds when it looks for a reason to stop.
pub struct StopSignals {
    /// The emergency stop's objection, where there is an emergency stop and it
    /// objects.
    pub authority: Option<TurnError>,
    /// The objection of the invocation itself.
    pub invocation: Option<TurnError>,
    /// The turn's deadline, on the clock of `now`.
    pub deadline: Option<u64>,
    pub now: u64,
    pub caller_cancelled: bool,
}

/// Whether the deadline has come.
pub open spec fn deadline_passed(s: StopSignals) -> bool {
    s.deadline matches Some(d) && d <= s.now
}

/// The chain of an error with one cause.
pub open spec fn single(cause: Cause) -> Seq<Layer> {
    seq![Layer { cause, context: false }]
}

/// The cause that stands for the turn's deadline.
pub open spec fn turn_deadline(started: bool) -> Cause {
    Cause::DeadlineExceeded(DeadlineExceeded { phase: Phase::Turn, started })
}

/// The first objection: the emergency stop's, the invocation's, the deadline's,
/// the caller's. Beside it stands what the invocation is asked to publish.
pub open spec fn objection(s: StopSignals) -> Option<(Seq<Layer>, Option<StopRequest>)> {
    if s.authority is Some {
        Some((s.authority->0.layers@, Some(StopRequest::Estop)))
    } else if s.invocation is Some {
        Some((s.invocation->0.layers@, None))
    } else if deadline_passed(s) {
        Some((single(turn_deadline(false)), Some(StopRequest::Deadline)))
    } else if s.caller_cancelled {
        Some((single(Cause::ToolLoopCancelled), Some(StopRequest::User)))
    } else {
        None
    }
}

/// Looks for a reason to stop before work is admitted.
pub fn check(signals: StopSignals) -> (r: (Result<(), TurnError>, Option<StopRequest>))
    ensures
        match objection(signals) {
            Some(o) => (r.0 matches Err(e) && e.layers@ == o.0) && r.1 == o.1,
            None => r.0 is Ok && r.1 is None,
        },
{
    let StopSignals { authority, invocation, deadline, now, caller_cancelled } = signals;
    if let Some(e) = authority {
        return (Err(e), Some(StopRequest::Estop));
    }
    if let Some(e) = invocation {
        return (Err(e), None);
    }
    let passed: bool = match deadline {
        Some(d) => d <= now,
        None => false,
    };
    if passed {
        let cause: Cause = Cause::DeadlineExceeded(
            DeadlineExceeded { phase: Phase::Turn, started: false },
        );
        return (Err(TurnError::new(cause)), Some(StopRequest::Deadline));
    }
    if caller_cancelled {
        return (Err(TurnError::new(Cause::ToolLoopCancelled)), Some(StopRequest::User));
    }
    (Ok(()), None)
}

/// The stops that have become ready while a turn runs.
pub struct ReadyStops {
    pub estop: bool,
    pub invocation: Option<TurnError>,
    pub deadline: bool,
    pub caller: bool,
}

/// The stop that counts when several are ready at once: the emergency stop, the
/// invocation, the deadline, the caller.
pub open spec fn interruption(ready: ReadyStops) -> Option<(Seq<Layer>, Option<StopRequest>)> {
    if ready.estop {
        Some((single(Cause::EstopInterrupted), Some(StopRequest::Estop)))
    } else if ready.invocation is Some {
        Some((ready.invocation->0.layers@, None))
    } else if ready.deadline {
        Some((single(turn_deadline(true)), Some(StopRequest::Deadline)))
    } else if ready.caller {
        Some((single(Cause::ToolLoopCancelled), Some(StopRequest::User)))
    } else {
        None
    }
}

/// Picks the stop that counts; none where none is ready.
pub fn interrupted(ready: ReadyStops) -> (r: Option<(TurnError, Option<StopRequest>)>)
    ensures
        match interruption(ready) {
            Some(o) => r matches Some(x) && x.0.layers@ == o.0 && x.1 == o.1,
            None => r is None,
        },
{
    let ReadyStops { estop, invocation, deadline, caller } = ready;
    if estop {
        return Some((TurnError::new(Cause::EstopInterrupted), Some(StopRequest::Estop)));
    }
    if let Some(e) = invocation {
        return Some((e, None));
    }
    if deadline {
        let cause: Cause = Cause::DeadlineExceeded(
            DeadlineExceeded { phase: Phase::Turn, started: true },
        );
        return Some((TurnError::new(cause), Some(StopRequest::Deadline)));
    }
    if caller {
        return Some((TurnError::new(Cause::ToolLoopCancelled), Some(StopRequest::User)));
    }
    None
}

/// Whether a chain says that the turn was stopped: cancelled, or out of time.
pub open spec fn stops_turn(layers: Seq<Layer>) -> bool {
    error::is_cancelled(layers) || error::is_deadline(layers)
}

/// Whether an error says that the turn was stopped.
pub fn is_terminal(error: &TurnError) -> (r: bool)
    ensures
        r == stops_turn(error.layers@),
{
    error::is_tool_loop_cancelled(error) || error.mentions(CauseKind::DeadlineExceeded)
}

/// The context that stands for a stop: the emergency stop, else the deadline,
/// else a cancellation.
pub open spec fn stop_context(cause: Seq<Layer>) -> Cause {
    if error::is_estop(cause) {
        Cause::EstopInterrupted
    } else if error::is_deadline(cause) {
        turn_deadline(true)
    } else {
        Cause::ToolLoopCancelled
    }
}

/// The chain of an error under the context of a stop.
pub open spec fn stopped(error: Seq<Layer>, cause: Seq<Layer>) -> Seq<Layer> {
    seq![Layer { cause: stop_context(cause), context: true }] + error
}

/// The error under the context of the stop that met it. The original error stays
/// below the context.
pub fn with_stop_cause(error: TurnError, cause: TurnError) -> (e: TurnError)
    ensures
        e.layers@ == stopped(error.layers@, cause.layers@),
{
    if error::is_estop_interrupted(&cause) {
        error.context(Cause::EstopInterrupted)
    } else if cause.mentions(CauseKind::DeadlineExceeded) {
        error.context(
            Cause::DeadlineExceeded(DeadlineExceeded { phase: Phase::Turn, started: true }),
        )
    } else {
        error.context(Cause::ToolLoopCancelled)
    }
}

/// The error of a turn that completed after it was stopped. It holds the output.
pub fn completed_after_interruption(output: String, cause: TurnError) -> (e: TurnError)
    ensures
        e.layers@ == seq![
            Layer { cause: Cause::TurnCompletedAfterInterruption(output), context: false },
        ] + cause.layers@,
{
    cause.source_of(Cause::TurnCompletedAfterInterruption(output))
}

/// How a turn came to its end.
pub enum TurnEnd {
    /// It was not admitted.
    Refused(TurnError),
    /// It ended by itself; `after` is what a look for a reason to stop found then.
    Finished { result: Result<String, TurnError>, after: Result<(), TurnError> },
    /// It was interrupted; `settled` is what it came to within the settlement
    /// budget.
    Interrupted { cause: TurnError, settled: Option<Result<String, TurnError>> },
}

/// The chain of the error that a turn ends with; none where it ends well.
pub open spec fn turn_error(end: TurnEnd) -> Option<Seq<Layer>> {
    match end {
        TurnEnd::Refused(e) => Some(e.layers@),
        TurnEnd::Finished { result: Ok(_), after: Ok(_) } => None,
        TurnEnd::Finished { result: Err(e), after: Ok(_) } => Some(e.layers@),
        TurnEnd::Finished { result: Err(e), after: Err(cause) } => Some(
            stopped(e.layers@, cause.layers@),
        ),
        TurnEnd::Finished { result: Ok(output), after: Err(cause) } => Some(
            seq![Layer { cause: Cause::TurnCompletedAfterInterruption(output), context: false }]
                + cause.layers@,
        ),
        TurnEnd::Interrupted { cause, settled: Some(Err(e)) } => Some(
            stopped(e.layers@, cause.layers@),
        ),
        TurnEnd::Interrupted { cause, settled: Some(Ok(output)) } => Some(
            seq![Layer { cause: Cause::TurnCompletedAfterInterruption(output), context: false }]
                + cause.layers@,
        ),
        TurnEnd::Interrupted { cause, settled: None } => Some(
            seq![Layer { cause: Cause::TurnSettlementIncomplete, context: false }] + cause.layers@,
        ),
    }
}

/// What a turn returns. A result that was ready belongs to the turn even where a
/// stop became ready at the same time.
pub fn run_turn(end: TurnEnd) -> (r: Result<String, TurnError>)
    ensures
        match turn_error(end) {
            Some(layers) => r matches Err(e) && e.layers@ == layers,
            None => end matches TurnEnd::Finished { result, after } && r == result,
        },
{
    match end {
        TurnEnd::Refused(e) => Err(e),
        TurnEnd::Finished { result, after } => match after {
            Ok(()) => result,
            Err(cause) => match result {
                Ok(output) => Err(completed_after_interruption(output, cause)),
                Err(e) => Err(with_stop_cause(e, cause)),
            },
        },
        TurnEnd::Interrupted { cause, settled } => match settled {
            Some(Ok(output)) => Err(completed_after_interruption(output, cause)),
            Some(Err(e)) => Err(with_stop_cause(e, cause)),
            None => Err(cause.source_of(Cause::TurnSettlementIncomplete)),
        },
    }
}

/// The output that a turn produced.
pub open spec fn produced(end: TurnEnd) -> Option<String> {
    match end {
        TurnEnd::Finished { result: Ok(output), after: _ } => Some(output),
        TurnEnd::Interrupted { cause: _, settled: Some(Ok(output)) } => Some(output),
        _ => None,
    }
}

/// A produced output is never lost: either the turn ends well, or its error
/// holds the output in front.
pub proof fn law_output_is_never_lost(end: TurnEnd)
    requires
        produced(end) is Some,
    ensures
        match turn_error(end) {
            None => end matches TurnEnd::Finished { result, after } && result == Ok::<
                String,
                TurnError,
            >(produced(end)->0),
            Some(layers) => layers.len() > 0 && layers[0] == (Layer {
                cause: Cause::TurnCompletedAfterInterruption(produced(end)->0),
                context: false,
            }),
        },
{
}

/// The cause of a stop stays visible: a failed turn that was stopped ends with an
/// error that says so.
pub proof fn law_stop_stays_visible(e: Seq<Layer>, cause: Seq<Layer>)
    ensures
        stops_turn(stopped(e, cause)),
        error::is_estop(cause) ==> error::is_estop(stopped(e, cause)),
        stopped(e, cause).drop_first() == e,
        forall|k: CauseKind| #[trigger] error::carries(e, k) ==> error::carries(
            stopped(e, cause),
            k,
        ),
{
    error::lemma_context_found(stop_context(cause), e);
    assert(stopped(e, cause).drop_first() =~= e);
    assert forall|k: CauseKind| #[trigger] error::carries(e, k) implies error::carries(
        stopped(e, cause),
        k,
    ) by {
        error::lemma_context_keeps(stop_context(cause), e, k);
    }
}

} // verus!
