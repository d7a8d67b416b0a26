//! What holds of runs: what they report, and in which order their steps are taken.

use crate::clock;
use crate::clock::Moment;
use crate::cron::delivery::CronDeliveryOutcome;
use crate::cron::job::CronJob;
use crate::cron::manual_run::{
    refusal_key, run_manual_job, run_manual_job_with_request_id, ManualCronRunResult, ManualRunEnd,
};
use crate::cron::manual_steps::{
    refusal, ManualEvent, ManualRecord, ManualRun,
};
use crate::cron::scheduled_run::{ScheduledEvent, ScheduledRun, StepRecord};
use crate::cron::scheduler::{on_event, LoopEvent, LoopStep};
use crate::cron::startup;
use crate::cron::store::manual::{
    ClaimError, DuplicateManualReceipt, ManualAdmissionError, ManualClaim,
};
use crate::effect::EffectOutcome;
use crate::text;
use crate::text_laws;
use vstd::prelude::*;
use vstd::string::*;

verus! {

/// Whether a result tells of this job and of the time that it was asked for.
pub open spec fn is_about(r: ManualCronRunResult, job_id: Seq<char>, started_at: Moment) -> bool {
    r.job_id@ == job_id && r.started_at == started_at
}

/// A repeated request tells the earlier run again: its outcomes and its output. It
/// is a success exactly if that run is confirmed, and takes no time.
pub proof fn law_a_repeated_request_tells_the_earlier_run(
    job_id: &str,
    started_at: Moment,
    keyed: bool,
    receipt: DuplicateManualReceipt,
    at: Moment,
    r: ManualCronRunResult,
)
    requires
        call_ensures(
            run_manual_job_with_request_id,
            (job_id, started_at, keyed, ManualRunEnd::Duplicate { receipt, at }),
            r,
        ),
    ensures
        is_about(r, job_id@, started_at),
        r.duplicate,
        r.occurrence_id matches Some(id) && id@ == receipt.occurrence_id@,
        r.effect_outcome == receipt.effect,
        r.execution_outcome == receipt.execution,
        r.delivery_outcome == receipt.delivery,
        r.success <==> receipt.effect is Confirmed,
        receipt.effect is Confirmed ==> r.status@ == "ok"@,
        !(receipt.effect is Confirmed) ==> r.status@ == "uncertain"@,
        r.output@ == receipt.output@,
        r.duration_ms == 0,
        r.finished_at == at,
{
    assert(r@.occurrence_id == Some(receipt@.occurrence_id));
    assert(r@.output == r.output@);
}

/// A run that was refused is no success and has no occurrence. It certainly did
/// nothing, unless the job is in quarantine or an earlier run under the same
/// request may be behind it; both are left to a person.
pub proof fn law_a_refused_run_did_nothing(
    job_id: &str,
    started_at: Moment,
    keyed: bool,
    reason: Option<ManualAdmissionError>,
    told: String,
    at: Moment,
    r: ManualCronRunResult,
)
    requires
        call_ensures(
            run_manual_job_with_request_id,
            (job_id, started_at, keyed, ManualRunEnd::Refused { reason, text: told, at }),
            r,
        ),
    ensures
        is_about(r, job_id@, started_at),
        !r.duplicate,
        !r.success,
        r.occurrence_id is None,
        r.delivery_outcome is None,
        r.output@ == told@,
        r.duration_ms == 0,
        r.finished_at == at,
        ({
            let quarantined = reason == Some(ManualAdmissionError::Quarantined);
            let unknown = reason is None && keyed;
            &&& quarantined || unknown ==> r.effect_outcome is ReconciliationRequired && r.status@
                == "uncertain"@
            &&& !(quarantined || unknown) ==> r.effect_outcome is NotStarted && r.status@
                == "error"@
            &&& unknown ==> r.execution_outcome is PossiblyApplied
            &&& !unknown ==> r.execution_outcome is NotStarted
        }),
{
    assert(r@.occurrence_id is None);
}

/// A run that could not be recorded is left to a person: it is no success, and what
/// went wrong stands under its output.
pub proof fn law_an_unrecorded_run_is_left_to_a_person(
    job_id: &str,
    started_at: Moment,
    keyed: bool,
    id: String,
    success: bool,
    output: String,
    told: String,
    at: Moment,
    r: ManualCronRunResult,
)
    requires
        call_ensures(
            run_manual_job_with_request_id,
            (
                job_id,
                started_at,
                keyed,
                ManualRunEnd::Unrecorded { occurrence_id: id, success, output, text: told, at },
            ),
            r,
        ),
    ensures
        is_about(r, job_id@, started_at),
        !r.duplicate,
        !r.success,
        r.occurrence_id matches Some(i) && i@ == id@,
        r.effect_outcome is ReconciliationRequired,
        success ==> r.execution_outcome is Confirmed,
        !success ==> r.execution_outcome is PossiblyApplied,
        r.delivery_outcome is None,
        r.status@ == "uncertain"@,
        r.output@ == output@ + seq!['\n'] + told@,
        r.duration_ms == clock::millis_between(started_at, at),
        r.finished_at == at,
{
    assert(r@.occurrence_id == Some(id@));
    assert(output@.push('\n') =~= output@ + seq!['\n']);
}

/// A run that ended reports what its delivery came to and the effect that was
/// recorded. Where the end could not be recorded it is no success and is left to a
/// person, with what went wrong under its output.
pub proof fn law_an_ended_run_reports_its_end(
    job_id: &str,
    started_at: Moment,
    keyed: bool,
    id: String,
    success: bool,
    delivered: CronDeliveryOutcome,
    effect: Option<EffectOutcome>,
    told: String,
    at: Moment,
    r: ManualCronRunResult,
)
    requires
        call_ensures(
            run_manual_job_with_request_id,
            (
                job_id,
                started_at,
                keyed,
                ManualRunEnd::Ended { occurrence_id: id, success, delivered, effect, text: told, at },
            ),
            r,
        ),
    ensures
        is_about(r, job_id@, started_at),
        !r.duplicate,
        r.occurrence_id matches Some(i) && i@ == id@,
        success ==> r.execution_outcome is Confirmed,
        !success ==> r.execution_outcome is PossiblyApplied,
        r.delivery_outcome == delivered.delivery_outcome,
        r.duration_ms == clock::millis_between(started_at, at),
        r.finished_at == at,
        effect matches Some(e) ==> {
            &&& r.effect_outcome == e
            &&& r.success == delivered.success
            &&& r.status@ == delivered.status@
            &&& r.output@ == delivered.output@
        },
        effect is None ==> {
            &&& r.effect_outcome is ReconciliationRequired
            &&& !r.success
            &&& r.status@ == "uncertain"@
            &&& r.output@ == delivered.output@ + seq!['\n'] + told@
        },
{
    assert(r@.occurrence_id == Some(id@));
    assert(delivered.output@.push('\n') =~= delivered.output@ + seq!['\n']);
}

/// A run without a request identifier reports what the same run reports that has no
/// identifier to be repeated under.
pub proof fn law_runs_without_an_identifier(
    job_id: &str,
    started_at: Moment,
    end: ManualRunEnd,
    r: ManualCronRunResult,
    s: ManualCronRunResult,
)
    requires
        call_ensures(run_manual_job, (job_id, started_at, end), r),
        call_ensures(run_manual_job_with_request_id, (job_id, started_at, false, end), s),
    ensures
        r@ == s@,
{
}

/// What is shown of a refusal.
pub proof fn law_refusals_have_a_text(
    reason: Option<ManualAdmissionError>,
    keyed: bool,
    s: &'static str,
)
    requires
        call_ensures(refusal_key, (reason, keyed), s),
    ensures
        match reason {
            Some(ManualAdmissionError::Quarantined) => s@ == "cron-manual-quarantined"@,
            Some(ManualAdmissionError::InFlight) => s@ == "cron-manual-in-flight"@,
            Some(ManualAdmissionError::Changed) => s@ == "cron-manual-changed"@,
            Some(ManualAdmissionError::InvalidRequestId) => s@ == "cron-manual-invalid-request-id"@,
            None => if keyed {
                s@ == "cron-manual-receipt-unavailable"@
            } else {
                s@ == "cron-manual-storage-unavailable"@
            },
        },
{
}

/// Only a refusal has a reason, and only a request that was admitted before has a
/// receipt.
pub proof fn law_failed_claims_are_told_apart(
    error: ClaimError,
    r: Result<DuplicateManualReceipt, Option<ManualAdmissionError>>,
)
    requires
        call_ensures(refusal, (error,), r),
    ensures
        error matches ClaimError::Duplicate(receipt) ==> (r matches Ok(d) && d == receipt),
        error matches ClaimError::Refused(reason) ==> (r matches Err(Some(w)) && w == reason),
        error is NoJob || error is Unreadable || error is Taken ==> (r matches Err(w) && w is None),
{
}

/// A run by hand takes its steps in one order: an event that has its turn is
/// followed by the next step, any other by none. What the run has learned so far,
/// and its claim, go with it.
pub proof fn law_manual_steps_keep_their_order(run: ManualRun, event: ManualEvent, r: Option<ManualRun>)
    requires
        call_ensures(ManualRun::advance, (run, event), r),
    ensures
        r is Some <==> {
            ||| run is Claiming && (event is Admitted || event is Repeated || event is NotAdmitted)
            ||| run is Executing && event is Executed
            ||| run is Recording && (event is Recorded || event is NotRecorded)
            ||| run is Delivering && event is Delivered
            ||| run is Closing && (event is Closed || event is NotRecorded)
        },
        run is Claiming ==> {
            &&& event matches ManualEvent::Admitted { claim } ==> r == Some(
                ManualRun::Executing { claim },
            )
            &&& event matches ManualEvent::Repeated { receipt, at } ==> r == Some(
                ManualRun::Over { end: ManualRunEnd::Duplicate { receipt, at } },
            )
            &&& event matches ManualEvent::NotAdmitted { reason, text, at } ==> r == Some(
                ManualRun::Over { end: ManualRunEnd::Refused { reason, text, at } },
            )
        },
        run matches ManualRun::Executing { claim } ==> (
        event matches ManualEvent::Executed { success, output, at } ==> r == Some(
            ManualRun::Recording { claim, success, output, at },
        )),
        run matches ManualRun::Recording { claim, success, output, at } ==> {
            &&& event is Recorded ==> r == Some(
                ManualRun::Delivering { claim, success, output, at },
            )
            &&& event matches ManualEvent::NotRecorded { text } ==> r == Some(
                ManualRun::Over {
                    end: ManualRunEnd::Unrecorded {
                        occurrence_id: claim.occurrence_id,
                        success,
                        output,
                        text,
                        at,
                    },
                },
            )
        },
        run matches ManualRun::Delivering { claim, success, output, at } ==> (
        event matches ManualEvent::Delivered { delivered } ==> r == Some(
            ManualRun::Closing { claim, success, delivered, at },
        )),
        run matches ManualRun::Closing { claim, success, delivered, at } ==> {
            &&& event matches ManualEvent::Closed { effect } ==> (r matches Some(
                ManualRun::Over { end },
            ) && (end matches ManualRunEnd::Ended {
                occurrence_id,
                success: s,
                delivered: d,
                effect: e,
                text,
                at: t,
            } && occurrence_id == claim.occurrence_id && s == success && d == delivered && e
                == Some(effect) && text@.len() == 0 && t == at))
            &&& event matches ManualEvent::NotRecorded { text: why } ==> (r matches Some(
                ManualRun::Over { end },
            ) && (end matches ManualRunEnd::Ended {
                occurrence_id,
                success: s,
                delivered: d,
                effect: e,
                text,
                at: t,
            } && occurrence_id == claim.occurrence_id && s == success && d == delivered && e is None
                && text@ == why@ && t == at))
        },
{
}

/// What is recorded of a run by hand: its execution before it is delivered, and its
/// end after that, each with as much of the output as is kept.
pub proof fn law_what_is_recorded_of_a_manual_run(run: &ManualRun, limit: usize, r: ManualRecord)
    requires
        call_ensures(ManualRun::to_record, (run, limit), r),
    ensures
        r is Execution <==> run is Recording,
        r is End <==> run is Closing,
        *run matches ManualRun::Recording { claim, success, output, at } ==> (
        r matches ManualRecord::Execution { success: s, output: kept } && s == success && (
        text::byte_len(output@) <= limit ==> kept@ == output@)),
        *run matches ManualRun::Closing { claim, success, delivered, at } ==> (
        r matches ManualRecord::End { success: s, delivery, status, output: kept, at: t } && s
            == success && delivery == delivered.delivery_outcome && status@ == delivered.status@ && (
        text::byte_len(delivered.output@) <= limit ==> kept@ == delivered.output@) && t == at),
{
    match *run {
        ManualRun::Recording { output, .. } => {
            text_laws::lemma_fits(output@, limit as nat, r->Execution_output@);
        },
        ManualRun::Closing { delivered, .. } => {
            text_laws::lemma_fits(delivered.output@, limit as nat, r->End_output@);
        },
        _ => {},
    }
}

/// A scheduled run takes its steps in one order: an event that has its turn is
/// followed by the next step, any other by none. A step that cannot be recorded
/// ends it without success.
pub proof fn law_scheduled_steps_keep_their_order(
    run: ScheduledRun,
    event: ScheduledEvent,
    r: Option<ScheduledRun>,
)
    requires
        call_ensures(ScheduledRun::advance, (run, event), r),
    ensures
        r is Some <==> {
            ||| run is Starting && (event is Recorded || event is NotRecorded)
            ||| run is Running && event is Executed
            ||| run is Recording && (event is Recorded || event is NotRecorded)
            ||| run is Delivering && event is Delivered
            ||| run is Closing && (event is Recorded || event is NotRecorded)
            ||| run is Releasing && event is Released
        },
        r matches Some(next) ==> {
            &&& run is Starting && event is Recorded ==> next is Running
            &&& run is Starting ==> (event matches ScheduledEvent::NotRecorded { error } ==> (
            next matches ScheduledRun::Reported { success, output } && !success && output@
                == "occurrence checkpoint failed before execution: "@ + error@))
            &&& run is Running ==> (event matches ScheduledEvent::Executed { success, output } ==> (
            next matches ScheduledRun::Recording { success: s, output: o } && s == success && o@
                == output@))
            &&& run matches ScheduledRun::Recording { success, output } ==> {
                &&& event is Recorded ==> (next matches ScheduledRun::Delivering {
                    success: s,
                    output: o,
                } && s == success && o@ == output@)
                &&& event is NotRecorded ==> (next matches ScheduledRun::Reported {
                    success: s,
                    output: o,
                } && !s && o@ == output@)
            }
            &&& run matches ScheduledRun::Delivering { success, output } ==> (
            event matches ScheduledEvent::Delivered { success: d, delivery } ==> (
            next matches ScheduledRun::Closing { success: s, output: o, delivered, delivery: e }
                && s == success && o@ == output@ && delivered == d && e == delivery))
            &&& run matches ScheduledRun::Closing { success, output, delivered, delivery } ==> {
                &&& event is Recorded ==> (next matches ScheduledRun::Releasing {
                    delivered: d,
                    output: o,
                } && d == delivered && o@ == output@)
                &&& event is NotRecorded ==> (next matches ScheduledRun::Reported {
                    success: s,
                    output: o,
                } && !s && o@ == output@)
            }
            &&& run matches ScheduledRun::Releasing { delivered, output } ==> (
            next matches ScheduledRun::Reported { success: s, output: o } && s == delivered && o@
                == output@)
        },
{
}

/// What is recorded of a scheduled run: that it starts, how it went before its
/// result is delivered, and what came of the delivery.
pub proof fn law_what_is_recorded_of_a_scheduled_run(run: &ScheduledRun, r: Option<StepRecord>)
    requires
        call_ensures(ScheduledRun::to_record, (run,), r),
    ensures
        r is Some <==> run is Starting || run is Recording || run is Closing,
        r matches Some(step) ==> {
            &&& run is Starting ==> step.execution@ == "running"@ && step.delivery@
                == "not_started"@ && !step.with_output
            &&& *run matches ScheduledRun::Recording { success, output } ==> step.delivery@
                == "submitting"@ && step.with_output && (success ==> step.execution@
                == "confirmed"@) && (!success ==> step.execution@ == "possibly_applied"@)
            &&& *run matches ScheduledRun::Closing { success, output, delivered, delivery } ==> {
                &&& !step.with_output
                &&& success ==> step.execution@ == "confirmed"@
                &&& !success ==> step.execution@ == "possibly_applied"@
                &&& delivery is None ==> step.delivery@ == "not_started"@
                &&& delivery == Some(EffectOutcome::NotStarted) ==> step.delivery@
                    == "not_started"@
                &&& delivery == Some(EffectOutcome::Confirmed) ==> step.delivery@ == "confirmed"@
                &&& delivery == Some(EffectOutcome::ConfirmedFailed) ==> step.delivery@
                    == "confirmed_failed"@
                &&& delivery == Some(EffectOutcome::PartiallyApplied) ==> step.delivery@
                    == "partially_applied"@
                &&& delivery == Some(EffectOutcome::PossiblyApplied) ==> step.delivery@
                    == "possibly_applied"@
                &&& delivery == Some(EffectOutcome::ReconciliationRequired) ==> step.delivery@
                    == "reconciliation_required"@
            }
        },
{
}

/// The scheduler starts only after interrupted runs are on record and the runs to
/// make up for are known. After that a failed look for due jobs is reported, and
/// only a cancellation ends it.
pub proof fn law_what_the_scheduler_does_next(event: LoopEvent, r: LoopStep)
    requires
        call_ensures(on_event, (event,), r),
    ensures
        r is Stop <==> event is Cancelled,
        event matches LoopEvent::Recovered { failure } ==> {
            &&& failure is None ==> r is Prepare
            &&& failure matches Some(why) ==> (r matches LoopStep::Fail { message, cause }
                && message@ == "scheduler startup recovery failed"@ && cause == why)
        },
        event matches LoopEvent::Prepared { jobs } ==> {
            &&& jobs matches Ok(v) ==> (r matches LoopStep::Process { jobs: w } && w == v)
            &&& jobs matches Err(e) ==> (r matches LoopStep::Fail { message, cause } && message
                == e.message && cause == e.cause)
        },
        event matches LoopEvent::Polled { jobs } ==> {
            &&& jobs matches Ok(v) ==> (r matches LoopStep::Process { jobs: w } && w == v)
            &&& jobs matches Err(e) ==> (r matches LoopStep::ReportError { error } && error == e)
        },
{
}

} // verus!
