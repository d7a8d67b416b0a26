//! What holds of interrupted procedures: what is kept of them, and what is shown.

use crate::text;
use crate::turn::describe;
use crate::turn::describe::{described, message, phase_text, Message};
use crate::turn::error::{Cause, CauseKind, Layer, SopPhase, TurnError};
use crate::turn::owned_cancellation;
use crate::turn::owned_cancellation::{is_terminal, with_stop_cause};
use crate::turn::sop_settlement;
use crate::turn::sop_settlement::{
    action_run_id, assemble, audit, audit_error, cancel_then_advance, cancel_unstarted,
    execute_step, interrupted, terminal_step_error, with_action, AdvanceAttempt, AssemblyEnd,
    AuditSettlement, CancelAttempt, DriveCounts, QueuedSettlement, QueuedSopAction,
    SopDriveEvidence, SopRunAction, SopStepStatus, StepEnd, StepSettlement,
};
use crate::turn::stop_laws::is_only;
use crate::turn::tool;
use vstd::prelude::*;
use vstd::string::*;

verus! {

/// Whether an error consists of a part that did not settle, and nothing else.
pub open spec fn is_unsettled(e: TurnError, phase: SopPhase) -> bool {
    is_only(e, Cause::SopPhaseIncomplete(phase))
}

/// Whether an error has, in front of another one, the context of a part that did
/// not settle.
pub open spec fn is_unsettled_under(e: TurnError, phase: SopPhase, below: TurnError) -> bool {
    &&& e.layers@.len() == below.layers@.len() + 1
    &&& e.layers@.drop_first() == below.layers@
    &&& e.layers@[0].context
    &&& e.layers@[0].cause == Cause::SopPhaseIncomplete(phase)
}

/// An action belongs to the run that it names, whatever it asks for; another action
/// for the same driver keeps the engine and the audit.
pub proof fn law_actions_name_their_run(
    action: SopRunAction,
    id: &str,
    queued: &QueuedSopAction,
    q: QueuedSopAction,
)
    requires
        call_ensures(action_run_id, (&action,), id),
        call_ensures(with_action, (queued, action), q),
    ensures
        match action {
            SopRunAction::ExecuteStep { run_id, detail } => id@ == run_id@,
            SopRunAction::DeterministicStep { run_id, detail } => id@ == run_id@,
            SopRunAction::WaitApproval { run_id, detail } => id@ == run_id@,
            SopRunAction::CheckpointWait { run_id, detail } => id@ == run_id@,
            SopRunAction::Pending { run_id, detail } => id@ == run_id@,
            SopRunAction::Completed { run_id, detail } => id@ == run_id@,
            SopRunAction::Cancelled { run_id, detail } => id@ == run_id@,
            SopRunAction::Failed { run_id, detail } => id@ == run_id@,
        },
        q.action == action,
        q.engine == queued.engine,
        q.audited == queued.audited,
{
}

/// An action that was not started stays with what came of its cancellation: a busy
/// engine leaves it open, a refused request is its error, and otherwise the end of
/// the cancellation counts.
pub proof fn law_unstarted_actions_are_settled(
    queued: QueuedSopAction,
    attempt: CancelAttempt,
    s: QueuedSettlement,
)
    requires
        call_ensures(cancel_unstarted, (queued, attempt), s),
    ensures
        s.queued == queued,
        attempt is Busy ==> (s.cancellation matches Err(e) && is_unsettled(
            e,
            SopPhase::QueuedCancellation,
        )),
        attempt matches CancelAttempt::NotRequested(e) ==> (s.cancellation matches Err(w) && w == e),
        attempt matches CancelAttempt::Finished(r) ==> s.cancellation == r,
{
}

/// An interrupted driver accounts for all that it held: the steps that ran as they
/// are, and each action that did not, the present one first, as it would be settled
/// by itself. Why it was interrupted stays below.
pub proof fn law_interrupted_drivers_account_for_all(
    cause: TurnError,
    current: Option<QueuedSopAction>,
    pending: Vec<QueuedSopAction>,
    steps: Vec<StepSettlement>,
    attempts: Vec<CancelAttempt>,
    e: TurnError,
)
    requires
        attempts@.len() == pending@.len() + (if current is Some {
            1int
        } else {
            0
        }),
        call_ensures(interrupted, (cause, current, pending, steps, attempts), e),
    ensures
        e.layers@.len() == cause.layers@.len() + 1,
        e.layers@.drop_first() == cause.layers@,
        !e.layers@[0].context,
        e.layers@[0].cause matches Cause::SopDriveInterrupted(evidence) && {
            let first = if current is Some {
                1int
            } else {
                0
            };
            &&& evidence.steps == steps
            &&& evidence.queued@.len() == pending@.len() + first
            &&& current matches Some(c) ==> evidence.queued@[0].queued == c
            &&& forall|i: int|
                0 <= i < pending@.len() ==> (#[trigger] evidence.queued@[first + i]).queued
                    == pending@[i]
            &&& forall|i: int|
                0 <= i < attempts@.len() ==> (match #[trigger] attempts@[i] {
                    CancelAttempt::Busy => evidence.queued@[i].cancellation matches Err(w)
                        && is_unsettled(w, SopPhase::QueuedCancellation),
                    CancelAttempt::NotRequested(w) => evidence.queued@[i].cancellation matches Err(x)
                        && x == w,
                    CancelAttempt::Finished(r) => evidence.queued@[i].cancellation == r,
                })
        },
{
    let evidence = e.layers@[0].cause->SopDriveInterrupted_0;
    let held = sop_settlement::held(current, pending@);
    assert(e.layers@.drop_first().len() == e.layers@.len() - 1);
    let first = if current is Some {
        1int
    } else {
        0
    };
    if current is Some {
        assert(evidence.queued@[0].queued == held[0]);
    }
    assert forall|i: int| 0 <= i < pending@.len() implies (
    #[trigger] evidence.queued@[first + i]).queued == pending@[i] by {
        assert(held[first + i] == pending@[i]);
    }
    assert forall|i: int| 0 <= i < attempts@.len() implies (match #[trigger] attempts@[i] {
        CancelAttempt::Busy => evidence.queued@[i].cancellation matches Err(w) && is_unsettled(
            w,
            SopPhase::QueuedCancellation,
        ),
        CancelAttempt::NotRequested(w) => evidence.queued@[i].cancellation matches Err(x) && x == w,
        CancelAttempt::Finished(r) => evidence.queued@[i].cancellation == r,
    }) by {
        assert(evidence.queued@[i].queued == held[i]);
    }
}

/// What was assembled counts only if nothing speaks against going on. An assembly
/// that was interrupted or ran out of time did not settle.
pub proof fn law_what_an_assembly_returns<T>(end: AssemblyEnd<T>, r: Result<T, TurnError>)
    requires
        call_ensures(assemble::<T>, (end,), r),
    ensures
        r is Ok <==> (end matches AssemblyEnd::Finished { result, after } && result is Ok
            && after is Ok),
        end matches AssemblyEnd::Refused(e) ==> r == Err::<T, TurnError>(e),
        end matches AssemblyEnd::Finished { result, after } ==> {
            &&& after is Ok ==> r == result
            &&& after matches Err(e) ==> r == Err::<T, TurnError>(e)
        },
        end matches AssemblyEnd::Interrupted(cause) ==> is_unsettled_under(
            r->Err_0,
            SopPhase::Assembly,
            cause,
        ),
        end is TimedOut ==> is_unsettled(r->Err_0, SopPhase::Assembly),
{
    if let AssemblyEnd::Interrupted(cause) = end {
        assert(r->Err_0.layers@.drop_first() =~= cause.layers@);
    }
}

/// A step that came to an output is completed, even if it was interrupted. An
/// interrupted one that failed tells the stop in front of its error; one that did
/// not settle says so.
pub proof fn law_what_a_step_returns(end: StepEnd, r: Result<String, TurnError>)
    requires
        call_ensures(execute_step, (end,), r),
    ensures
        end matches StepEnd::Refused(e) ==> r == Err::<String, TurnError>(e),
        end matches StepEnd::Finished(result) ==> r == result,
        end matches StepEnd::Interrupted { cause, settled } ==> {
            &&& settled matches Some(Ok(output)) ==> r == Ok::<String, TurnError>(output)
            &&& settled matches Some(Err(e)) ==> (r matches Err(w) && w.layers@.drop_first()
                == e.layers@ && w.layers@[0].context)
            &&& settled is None ==> (r matches Err(w) && is_unsettled_under(
                w,
                SopPhase::NestedStep,
                cause,
            ))
        },
{
    if let StepEnd::Interrupted { cause, settled } = end {
        match settled {
            Some(Err(e)) => {
                assert(r->Err_0.layers@.drop_first() =~= e.layers@);
            },
            None => {
                assert(r->Err_0.layers@.drop_first() =~= cause.layers@);
            },
            _ => {},
        }
    }
}

/// What stands in front of the error of an interrupted step is the stop that met
/// it.
pub proof fn law_a_stopped_step_tells_the_stop(
    error: TurnError,
    cause: TurnError,
    alone: TurnError,
    r: Result<String, TurnError>,
)
    requires
        call_ensures(with_stop_cause, (error, cause), alone),
        call_ensures(
            execute_step,
            (StepEnd::Interrupted { cause, settled: Some(Err(error)) },),
            r,
        ),
    ensures
        r matches Err(w) && w.layers@ == alone.layers@,
{
}

/// An error ends the drive exactly if it tells of a stop or of a part that did not
/// settle.
pub proof fn law_which_errors_end_the_drive(e: &TurnError, stop: bool, open: bool, r: bool)
    requires
        call_ensures(is_terminal, (e,), stop),
        call_ensures(TurnError::mentions, (e, CauseKind::SopPhaseIncomplete), open),
        call_ensures(terminal_step_error, (e,), r),
    ensures
        r <==> stop || open,
{
}

/// A run that is cancelled is handed out with its next action exactly if that
/// action ends it. A busy engine leaves its cancellation open.
pub proof fn law_what_becomes_of_a_cancelled_run<R>(
    attempt: AdvanceAttempt<R>,
    r: Result<(SopRunAction, Option<R>), TurnError>,
)
    requires
        call_ensures(cancel_then_advance::<R>, (attempt,), r),
    ensures
        r is Ok <==> attempt is Advanced,
        attempt is Busy ==> is_unsettled(r->Err_0, SopPhase::StepCancellation),
        attempt matches AdvanceAttempt::NotRequested(e) ==> r->Err_0 == e,
        attempt matches AdvanceAttempt::NotAdvanced(e) ==> r->Err_0 == e,
        attempt matches AdvanceAttempt::Advanced { action, run } ==> {
            let over = action is Completed || action is Failed || action is Cancelled;
            &&& r->Ok_0.0 == action
            &&& over ==> r->Ok_0.1 == run
            &&& !over ==> r->Ok_0.1 is None
        },
{
}

/// A run without an audit counts as audited. An audit is complete only if it ended
/// well, and one that is not leaves its part open.
pub proof fn law_what_an_audit_comes_to(
    audited: bool,
    attempt: Option<Result<(), TurnError>>,
    s: AuditSettlement,
    r: Option<TurnError>,
)
    requires
        call_ensures(audit, (audited, attempt), s),
        call_ensures(audit_error, (&s,), r),
    ensures
        s is Complete <==> !audited || (attempt matches Some(w) && w is Ok),
        audited ==> (attempt matches Some(Err(e)) ==> s == AuditSettlement::Failed(e)),
        audited && attempt is None ==> s is Incomplete,
        r is None <==> s is Complete,
        r matches Some(e) ==> is_unsettled(e, SopPhase::Audit),
{
}

/// The counts of a drive are those of what it holds: each step and action once, of
/// the steps those that are completed and those that could not be persisted, of the
/// actions those whose cancellation failed, and each run once.
pub proof fn law_drives_are_counted(evidence: &SopDriveEvidence, c: DriveCounts)
    requires
        call_ensures(SopDriveEvidence::counts, (evidence,), c),
    ensures
        c.steps == evidence.steps@.len(),
        c.queued == evidence.queued@.len(),
        c.completed_steps == evidence.steps@.filter(
            |s: StepSettlement| s.result.status is Completed,
        ).len(),
        c.persistence_failures == evidence.steps@.filter(
            |s: StepSettlement| s.persistence_error is Some,
        ).len(),
        c.pending_cancellations == evidence.queued@.filter(
            |q: QueuedSettlement| q.cancellation is Err,
        ).len(),
        c.owned_runs == (evidence.steps@.map_values(
            |s: StepSettlement| s.queued.action.run(),
        ) + evidence.queued@.map_values(
            |q: QueuedSettlement| q.queued.action.run(),
        )).to_set().len(),
{
    lemma_completed(evidence.steps@);
    lemma_persistence(evidence.steps@);
    lemma_open(evidence.queued@);
    assert((evidence.steps@.map_values(|s: StepSettlement| s.queued.action.run())
        + evidence.queued@.map_values(|q: QueuedSettlement| q.queued.action.run()))
        =~= sop_settlement::run_ids(*evidence));
}

/// The causes of failed audits are counted step by step: those of one more step are
/// the layers of its audit's error, if it failed.
pub proof fn law_audit_failures_are_counted_by_step(
    before: &SopDriveEvidence,
    after: &SopDriveEvidence,
    step: StepSettlement,
    a: DriveCounts,
    b: DriveCounts,
)
    requires
        after.steps@ == before.steps@.push(step),
        call_ensures(SopDriveEvidence::counts, (before,), a),
        call_ensures(SopDriveEvidence::counts, (after,), b),
    ensures
        step.audit matches AuditSettlement::Failed(e) ==> b.audit_failure_causes
            == a.audit_failure_causes + e.layers@.len(),
        !(step.audit is Failed) ==> b.audit_failure_causes == a.audit_failure_causes,
        before.steps@.len() == 0 ==> a.audit_failure_causes == 0,
{
    assert(after.steps@.drop_last() =~= before.steps@);
}

proof fn lemma_completed(s: Seq<StepSettlement>)
    ensures
        sop_settlement::completed_count(s) == s.filter(
            |s: StepSettlement| s.result.status is Completed,
        ).len(),
    decreases s.len(),
{
    reveal(Seq::filter);
    if s.len() > 0 {
        lemma_completed(s.drop_last());
    }
}

proof fn lemma_persistence(s: Seq<StepSettlement>)
    ensures
        sop_settlement::persistence_count(s) == s.filter(
            |s: StepSettlement| s.persistence_error is Some,
        ).len(),
    decreases s.len(),
{
    reveal(Seq::filter);
    if s.len() > 0 {
        lemma_persistence(s.drop_last());
    }
}

proof fn lemma_open(s: Seq<QueuedSettlement>)
    ensures
        sop_settlement::open_cancellations(s) == s.filter(
            |q: QueuedSettlement| q.cancellation is Err,
        ).len(),
    decreases s.len(),
{
    reveal(Seq::filter);
    if s.len() > 0 {
        lemma_open(s.drop_last());
    }
}

/// The names of the parts of a procedure.
pub proof fn law_parts_have_names(p: SopPhase, s: &'static str)
    requires
        call_ensures(phase_text, (p,), s),
    ensures
        p is Assembly ==> s@ == "assembly"@,
        p is NestedStep ==> s@ == "nested step"@,
        p is StepCancellation ==> s@ == "step cancellation"@,
        p is QueuedCancellation ==> s@ == "queued cancellation"@,
        p is Audit ==> s@ == "audit"@,
{
}

/// A developer is shown what kind of evidence a cause holds and how much of it.
pub proof fn law_what_a_developer_is_shown(cause: &Cause, name: &'static str, r: Option<String>)
    requires
        *cause matches Cause::SopPhaseIncomplete(p) ==> call_ensures(phase_text, (p,), name),
        call_ensures(described, (cause,), r),
    ensures
        r is Some <==> *cause is SopPhaseIncomplete || *cause is TurnSettlementIncomplete
            || *cause is TurnCompletedAfterInterruption || *cause is RetainedToolFailures
            || *cause is ResultBudgetExceeded || *cause is SopDriveInterrupted,
        *cause is SopPhaseIncomplete ==> r->Some_0@ == "SopPhaseIncomplete { phase: \""@ + name@
            + "\" }"@,
        *cause is TurnSettlementIncomplete ==> r->Some_0@ == "TurnSettlementIncomplete"@,
        *cause matches Cause::TurnCompletedAfterInterruption(s) ==> r->Some_0@
            == "TurnCompletedAfterInterruption { output_bytes: "@ + text::decimal(
            text::byte_len(s@),
        ) + ", .. }"@,
        *cause matches Cause::RetainedToolFailures(f) ==> r->Some_0@
            == "RetainedToolFailures { primary_call_index: "@ + text::decimal(
            f.primary_call_index as nat,
        ) + ", sibling_count: "@ + text::decimal(f.siblings@.len()) + ", .. }"@,
        *cause matches Cause::ResultBudgetExceeded(b) ==> r->Some_0@
            == "ResultBudgetExceeded { result_count: "@ + text::decimal(b.results@.len())
            + ", error_count: "@ + text::decimal(b.errors@.len()) + ", .. }"@,
{
    assert(tool::opt(r) == describe::description(*cause));
    assert(tool::opt(r) is Some <==> r is Some);
}

/// A developer is shown the counts of an interrupted drive, each under its name.
pub proof fn law_what_a_developer_is_shown_of_a_drive(
    e: SopDriveEvidence,
    c: DriveCounts,
    r: Option<String>,
)
    requires
        call_ensures(SopDriveEvidence::counts, (&e,), c),
        call_ensures(described, (&Cause::SopDriveInterrupted(e),), r),
    ensures
        r matches Some(s) && s@ == "SopDriveInterrupted { steps: "@ + text::decimal(c.steps as nat)
            + ", completed_steps: "@ + text::decimal(c.completed_steps as nat)
            + ", persistence_failures: "@ + text::decimal(c.persistence_failures as nat)
            + ", audit_failure_causes: "@ + text::decimal(c.audit_failure_causes as nat)
            + ", owned_runs: "@ + text::decimal(c.owned_runs as nat)
            + ", pending_cancellations: "@ + text::decimal(c.pending_cancellations as nat)
            + ", queued: "@ + text::decimal(c.queued as nat) + ", .. }"@,
{
}

/// A person is told what the first cause says that does not merely hold evidence;
/// without one there is nothing to tell.
pub proof fn law_what_a_person_is_told(error: &TurnError, m: Message, i: int)
    requires
        call_ensures(message, (error,), m),
        0 <= i < error.layers@.len(),
        forall|j: int|
            0 <= j < i ==> (#[trigger] error.layers@[j]).cause is TurnCompletedAfterInterruption
                || error.layers@[j].cause is SopDriveInterrupted,
        !(error.layers@[i].cause is TurnCompletedAfterInterruption),
        !(error.layers@[i].cause is SopDriveInterrupted),
    ensures
        match error.layers@[i].cause {
            Cause::SopPhaseIncomplete(_) => m matches Message::Key(k) && k@
                == "sop-settlement-incomplete"@,
            Cause::TurnSettlementIncomplete => m matches Message::Key(k) && k@
                == "turn-settlement-incomplete"@,
            Cause::ResultBudgetExceeded(_) => m matches Message::Key(k) && k@
                == "turn-tool-result-budget-exceeded"@,
            Cause::RetainedToolFailures(f) => m matches Message::Text(s) && s@ == f.summary@,
            Cause::Other(t) => m matches Message::Text(s) && s@ == t@,
            cause => m matches Message::Own(k) && k == cause.kind(),
        },
{
    lemma_message(error.layers@, i);
}

proof fn lemma_message(layers: Seq<Layer>, i: int)
    requires
        0 <= i < layers.len(),
        forall|j: int|
            0 <= j < i ==> (#[trigger] layers[j]).cause is TurnCompletedAfterInterruption
                || layers[j].cause is SopDriveInterrupted,
        !(layers[i].cause is TurnCompletedAfterInterruption),
        !(layers[i].cause is SopDriveInterrupted),
    ensures
        describe::message_of(layers) == describe::cause_message(layers[i].cause),
    decreases i,
{
    if i > 0 {
        let rest = layers.drop_first();
        assert(layers[0].cause is TurnCompletedAfterInterruption
            || layers[0].cause is SopDriveInterrupted);
        assert forall|j: int| 0 <= j < i - 1 implies (
        #[trigger] rest[j]).cause is TurnCompletedAfterInterruption
            || rest[j].cause is SopDriveInterrupted by {
            assert(rest[j] == layers[j + 1]);
        }
        lemma_message(rest, i - 1);
    }
}

/// Of evidence alone a person is told nothing.
pub proof fn law_evidence_alone_tells_nothing(error: &TurnError, m: Message)
    requires
        call_ensures(message, (error,), m),
        forall|j: int|
            0 <= j < error.layers@.len() ==> (
            #[trigger] error.layers@[j]).cause is TurnCompletedAfterInterruption
                || error.layers@[j].cause is SopDriveInterrupted,
    ensures
        m is Nothing,
{
    lemma_silence(error.layers@);
}

proof fn lemma_silence(layers: Seq<Layer>)
    requires
        forall|j: int|
            0 <= j < layers.len() ==> (#[trigger] layers[j]).cause is TurnCompletedAfterInterruption
                || layers[j].cause is SopDriveInterrupted,
    ensures
        describe::message_of(layers) is Nothing,
    decreases layers.len(),
{
    if layers.len() > 0 {
        let rest = layers.drop_first();
        assert(layers[0].cause is TurnCompletedAfterInterruption
            || layers[0].cause is SopDriveInterrupted);
        assert forall|j: int| 0 <= j < rest.len() implies (
        #[trigger] rest[j]).cause is TurnCompletedAfterInterruption
            || rest[j].cause is SopDriveInterrupted by {
            assert(rest[j] == layers[j + 1]);
        }
        lemma_silence(rest);
    }
}

} // verus!
