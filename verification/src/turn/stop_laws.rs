//! What holds of the failures of a batch and of stops: which one counts, and what
//! is kept of the others.

use crate::turn::batch_failures;
use crate::turn::batch_failures::{PrimaryFailure, TerminalFailures};
use crate::turn::error::{
    is_estop_interrupted, is_tool_loop_cancelled, Cause, CauseKind, Layer, Phase, TurnError,
};
use crate::turn::owned_cancellation::{
    check, completed_after_interruption, interrupted, is_terminal, run_turn, with_stop_cause,
    ReadyStops, StopRequest, StopSignals, TurnEnd,
};
use vstd::prelude::*;
use vstd::string::*;

verus! {

/// A batch starts without failures.
pub proof fn law_a_batch_starts_without_failures(f: TerminalFailures)
    requires
        call_ensures(TerminalFailures::new, (), f),
    ensures
        f.primary is None,
        f.siblings@.len() == 0,
{
    assert(f@.failures.primary is None);
}

/// The first failure stands for its batch. A later one takes its place if it is a
/// failed delivery and the one before is none, or if the one before is a
/// cancellation and it is none. Whichever does not stand for the batch is set aside
/// behind the others, and none is dropped.
pub proof fn law_which_failure_stands_for_the_batch(
    f: &mut TerminalFailures,
    call_index: usize,
    e: TurnError,
    summary: String,
    new_cancelled: bool,
    new_delivery: bool,
    before: TurnError,
    old_cancelled: bool,
    old_delivery: bool,
)
    requires
        call_ensures(is_tool_loop_cancelled, (&e,), new_cancelled),
        call_ensures(TurnError::is, (&e, CauseKind::Delivery), new_delivery),
        old(f).primary is Some ==> before == old(f).primary->Some_0.error,
        call_ensures(is_tool_loop_cancelled, (&before,), old_cancelled),
        call_ensures(TurnError::is, (&before, CauseKind::Delivery), old_delivery),
        call_ensures(TerminalFailures::push, (f, call_index, e, summary), ()),
    ensures
        final(f).primary is Some,
        ({
            let was = old(f).primary;
            let now = final(f).primary->Some_0;
            let replaced = (old_cancelled && !new_cancelled) || (new_delivery && !old_delivery);
            &&& was is None || replaced ==> now.call_index == call_index && now.error == e
                && now.summary@ == summary@
            &&& was is None ==> final(f).siblings@ == old(f).siblings@
            &&& was matches Some(p) ==> (replaced ==> final(f).siblings@ == old(
                f,
            ).siblings@.push((p.call_index, p.error)))
            &&& was matches Some(p) ==> (!replaced ==> now.call_index == p.call_index && now.error
                == p.error && now.summary@ == p.summary@ && final(f).siblings@ == old(
                f,
            ).siblings@.push((call_index, e)))
        }),
{
    let a = old(f)@;
    let b = final(f)@;
    assert(b.failures.primary is Some);
    assert(final(f).primary is Some);
    assert(b.failures.primary == Some(
        (final(f).primary->Some_0.call_index, final(f).primary->Some_0.error),
    ));
    assert(b.summary == Some(final(f).primary->Some_0.summary@));
}

/// The failures of one call, in their order.
pub open spec fn of_call(s: Seq<(usize, TurnError)>, k: usize) -> Seq<(usize, TurnError)>
    decreases s.len(),
{
    if s.len() == 0 {
        Seq::empty()
    } else if s.last().0 == k {
        of_call(s.drop_last(), k).push(s.last())
    } else {
        of_call(s.drop_last(), k)
    }
}

proof fn lemma_of_call(s: Seq<(usize, TurnError)>, k: usize)
    ensures
        of_call(s, k) == batch_failures::at_position(s, k),
    decreases s.len(),
{
    reveal(Seq::filter);
    if s.len() > 0 {
        lemma_of_call(s.drop_last(), k);
    }
}

/// The error of a batch is its primary failure. Others are kept in front of it, as
/// context, in the order of their calls, and none of them is left out.
pub proof fn law_the_error_of_a_batch(f: TerminalFailures, r: Option<TurnError>, k: usize)
    requires
        call_ensures(TerminalFailures::into_error, (f,), r),
    ensures
        r is None <==> f.primary is None,
        f.primary is Some && f.siblings@.len() == 0 ==> r == Some(f.primary->Some_0.error),
        f.primary is Some && f.siblings@.len() > 0 ==> {
            let e = r->Some_0;
            let p = f.primary->Some_0;
            &&& e.layers@.len() == p.error.layers@.len() + 1
            &&& e.layers@.drop_first() == p.error.layers@
            &&& e.layers@[0].context
            &&& e.layers@[0].cause matches Cause::RetainedToolFailures(kept) && {
                &&& kept.primary_call_index == p.call_index
                &&& kept.summary@ == p.summary@
                &&& kept.siblings@.to_multiset() == f.siblings@.to_multiset()
                &&& forall|i: int, j: int|
                    0 <= i < j < kept.siblings@.len() ==> (#[trigger] kept.siblings@[i]).0 <= (
                    #[trigger] kept.siblings@[j]).0
                &&& of_call(kept.siblings@, k) == of_call(f.siblings@, k)
            }
        },
{
    let v = f@;
    if f.primary is Some && f.siblings@.len() > 0 {
        let e = r->Some_0;
        let kept = e.layers@[0].cause->RetainedToolFailures_0;
        assert(e.layers@.drop_first().len() == e.layers@.len() - 1);
        lemma_of_call(kept.siblings@, k);
        lemma_of_call(f.siblings@, k);
        assert(batch_failures::at_position(kept.siblings@, k) == batch_failures::at_position(
            f.siblings@,
            k,
        ));
    }
}

/// Whether an error consists of one cause alone.
pub open spec fn is_only(e: TurnError, cause: Cause) -> bool {
    e.layers@ == seq![Layer { cause, context: false }]
}

/// Whether an error is nothing but the turn's deadline.
pub open spec fn is_turn_deadline(e: TurnError, started: bool) -> bool {
    &&& e.layers@.len() == 1
    &&& !e.layers@[0].context
    &&& e.layers@[0].cause matches Cause::DeadlineExceeded(d) && d.phase is Turn && d.started
        == started
}

/// Work is admitted exactly if nobody objects: neither the emergency stop nor the
/// invocation nor the caller, and the deadline has not come. The first of these in
/// the order emergency stop, invocation, deadline, caller is told, and published
/// unless it is the invocation's own.
pub proof fn law_who_objects_first(
    s: StopSignals,
    r: (Result<(), TurnError>, Option<StopRequest>),
)
    requires
        call_ensures(check, (s,), r),
    ensures
        ({
            let late = s.deadline is Some && s.deadline->Some_0 <= s.now;
            &&& r.0 is Ok <==> s.authority is None && s.invocation is None && !late
                && !s.caller_cancelled
            &&& r.0 is Ok ==> r.1 is None
            &&& s.authority matches Some(e) ==> (r.0 matches Err(w) && w.layers@ == e.layers@)
                && r.1 == Some(StopRequest::Estop)
            &&& s.authority is None ==> (s.invocation matches Some(e) ==> (r.0 matches Err(w)
                && w.layers@ == e.layers@) && r.1 is None)
            &&& s.authority is None && s.invocation is None && late ==> (r.0 matches Err(w)
                && is_turn_deadline(w, false)) && r.1 == Some(StopRequest::Deadline)
            &&& s.authority is None && s.invocation is None && !late && s.caller_cancelled ==> (
            r.0 matches Err(w) && is_only(w, Cause::ToolLoopCancelled)) && r.1 == Some(
                StopRequest::User,
            )
        }),
{
}

/// A running turn is interrupted exactly if a stop is ready. Of several the first in
/// the order emergency stop, invocation, deadline, caller counts.
pub proof fn law_which_stop_counts(
    ready: ReadyStops,
    r: Option<(TurnError, Option<StopRequest>)>,
)
    requires
        call_ensures(interrupted, (ready,), r),
    ensures
        r is None <==> !ready.estop && ready.invocation is None && !ready.deadline && !ready.caller,
        ready.estop ==> is_only(r->Some_0.0, Cause::EstopInterrupted) && r->Some_0.1 == Some(
            StopRequest::Estop,
        ),
        !ready.estop ==> (ready.invocation matches Some(e) ==> r->Some_0.0.layers@ == e.layers@
            && r->Some_0.1 is None),
        !ready.estop && ready.invocation is None && ready.deadline ==> is_turn_deadline(
            r->Some_0.0,
            true,
        ) && r->Some_0.1 == Some(StopRequest::Deadline),
        !ready.estop && ready.invocation is None && !ready.deadline && ready.caller ==> is_only(
            r->Some_0.0,
            Cause::ToolLoopCancelled,
        ) && r->Some_0.1 == Some(StopRequest::User),
{
}

/// An error says that its turn was stopped exactly if it is a cancellation or tells
/// of a deadline.
pub proof fn law_which_errors_tell_of_a_stop(e: &TurnError, cancelled: bool, late: bool, r: bool)
    requires
        call_ensures(is_tool_loop_cancelled, (e,), cancelled),
        call_ensures(TurnError::mentions, (e, CauseKind::DeadlineExceeded), late),
        call_ensures(is_terminal, (e,), r),
    ensures
        r <==> cancelled || late,
{
}

/// An error that a stop met keeps all that it says, under one context for the stop:
/// the emergency stop before the deadline, and a cancellation otherwise.
pub proof fn law_stops_stand_in_front(
    error: TurnError,
    cause: TurnError,
    estop: bool,
    late: bool,
    e: TurnError,
)
    requires
        call_ensures(is_estop_interrupted, (&cause,), estop),
        call_ensures(TurnError::mentions, (&cause, CauseKind::DeadlineExceeded), late),
        call_ensures(with_stop_cause, (error, cause), e),
    ensures
        e.layers@.len() == error.layers@.len() + 1,
        e.layers@.drop_first() == error.layers@,
        e.layers@[0].context,
        estop ==> e.layers@[0].cause == Cause::EstopInterrupted,
        !estop && late ==> (e.layers@[0].cause matches Cause::DeadlineExceeded(d) && d.phase is Turn
            && d.started),
        !estop && !late ==> e.layers@[0].cause == Cause::ToolLoopCancelled,
{
    assert(e.layers@.drop_first() =~= error.layers@);
}

/// The output of a turn that was stopped is kept in front of the reason for the
/// stop.
pub proof fn law_a_late_output_is_kept(output: String, cause: TurnError, e: TurnError)
    requires
        call_ensures(completed_after_interruption, (output, cause), e),
    ensures
        e.layers@.len() == cause.layers@.len() + 1,
        e.layers@.drop_first() == cause.layers@,
        !e.layers@[0].context,
        e.layers@[0].cause == Cause::TurnCompletedAfterInterruption(output),
{
    assert(e.layers@.drop_first() =~= cause.layers@);
}

/// A turn ends well exactly if it finished with an output and nothing spoke against
/// going on. Otherwise it ends with its refusal or its own error; one that was
/// stopped has the stop in front of its error, its output in front of the stop, or
/// neither if it did not settle.
pub proof fn law_how_a_turn_ends(end: TurnEnd, r: Result<String, TurnError>)
    requires
        call_ensures(run_turn, (end,), r),
    ensures
        r is Ok <==> (end matches TurnEnd::Finished { result, after } && result is Ok && after is Ok),
        end matches TurnEnd::Refused(e) ==> r->Err_0.layers@ == e.layers@,
        end matches TurnEnd::Finished { result, after } ==> {
            &&& after is Ok && result is Ok ==> r == result
            &&& after is Ok && result is Err ==> r->Err_0.layers@ == result->Err_0.layers@
            &&& after is Err && result is Ok ==> r->Err_0.layers@[0].cause
                == Cause::TurnCompletedAfterInterruption(result->Ok_0)
                && r->Err_0.layers@.drop_first() == after->Err_0.layers@
            &&& after is Err && result is Err ==> r->Err_0.layers@[0].context
                && r->Err_0.layers@.drop_first() == result->Err_0.layers@
        },
        end matches TurnEnd::Interrupted { cause, settled } ==> {
            &&& settled is None ==> r->Err_0.layers@[0].cause == Cause::TurnSettlementIncomplete
                && r->Err_0.layers@.drop_first() == cause.layers@
            &&& settled matches Some(Ok(output)) ==> r->Err_0.layers@[0].cause
                == Cause::TurnCompletedAfterInterruption(output) && r->Err_0.layers@.drop_first()
                == cause.layers@
            &&& settled matches Some(Err(e)) ==> r->Err_0.layers@[0].context
                && r->Err_0.layers@.drop_first() == e.layers@
        },
{
    if let Err(w) = r {
        match end {
            TurnEnd::Finished { result, after } => {
                if after is Err {
                    if result is Ok {
                        assert(w.layers@.drop_first() =~= after->Err_0.layers@);
                    } else {
                        assert(w.layers@.drop_first() =~= result->Err_0.layers@);
                    }
                }
            },
            TurnEnd::Interrupted { cause, settled } => {
                match settled {
                    Some(Err(e)) => {
                        assert(w.layers@.drop_first() =~= e.layers@);
                    },
                    _ => {
                        assert(w.layers@.drop_first() =~= cause.layers@);
                    },
                }
            },
            _ => {},
        }
    }
}

/// What stands in front of an error that a stop met is what the stop tells by
/// itself.
pub proof fn law_a_stopped_turn_tells_the_stop(
    error: TurnError,
    cause: TurnError,
    alone: TurnError,
    finished: Result<String, TurnError>,
    settled: Result<String, TurnError>,
)
    requires
        call_ensures(with_stop_cause, (error, cause), alone),
        call_ensures(
            run_turn,
            (TurnEnd::Finished { result: Err(error), after: Err(cause) },),
            finished,
        ),
        call_ensures(
            run_turn,
            (TurnEnd::Interrupted { cause, settled: Some(Err(error)) },),
            settled,
        ),
    ensures
        finished->Err_0.layers@ == alone.layers@,
        settled->Err_0.layers@ == alone.layers@,
{
}

} // verus!
