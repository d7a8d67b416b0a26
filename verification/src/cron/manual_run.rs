//! A run by hand, from its admission to its end.

use crate::clock;
use crate::clock::Moment;
use crate::cron::delivery::{CronDeliveryOutcome, OutcomeView};
use crate::cron::store::manual;
use crate::cron::store::manual::{
    DuplicateManualReceipt, DuplicateView, ManualAdmissionError,
};
use crate::effect::EffectOutcome;
use crate::text;
use crate::turn::tool;
use vstd::prelude::*;
use vstd::string::*;

verus! {

/// What a run by hand came to.
#[derive(Clone, Debug)]
pub struct ManualCronRunResult {
    /// Whether an earlier run under the same request identifier is told.
    pub duplicate: bool,
    pub occurrence_id: Option<String>,
    pub effect_outcome: EffectOutcome,
    pub execution_outcome: EffectOutcome,
    pub delivery_outcome: Option<EffectOutcome>,
    pub job_id: String,
    pub success: bool,
    pub status: String,
    pub output: String,
    pub duration_ms: i64,
    pub started_at: Moment,
    pub finished_at: Moment,
}

/// How far a run by hand got.
pub enum ManualRunEnd {
    /// It was admitted before.
    Duplicate { receipt: DuplicateManualReceipt, at: Moment },
    /// It was not admitted; without a reason where the store failed. `text` is
    /// what is shown of the refusal.
    Refused { reason: Option<ManualAdmissionError>, text: String, at: Moment },
    /// The job was run, but that could not be recorded. `text` is what is shown of
    /// that.
    Unrecorded {
        occurrence_id: String,
        success: bool,
        output: String,
        text: String,
        at: Moment,
    },
    /// The job was run and its result delivered. `effect` is what the recorded end
    /// says it came to, if it could be recorded; `text` is what is shown if not.
    Ended {
        occurrence_id: String,
        success: bool,
        delivered: CronDeliveryOutcome,
        effect: Option<EffectOutcome>,
        text: String,
        at: Moment,
    },
}

/// The model of what a run came to.
pub struct ResultView {
    pub duplicate: bool,
    pub occurrence_id: Option<Seq<char>>,
    pub effect_outcome: EffectOutcome,
    pub execution_outcome: EffectOutcome,
    pub delivery_outcome: Option<EffectOutcome>,
    pub job_id: Seq<char>,
    pub success: bool,
    pub status: Seq<char>,
    pub output: Seq<char>,
    pub duration_ms: int,
    pub started_at: Moment,
    pub finished_at: Moment,
}

/// The model of how far a run got.
pub enum EndView {
    Duplicate { receipt: DuplicateView, at: Moment },
    Refused { reason: Option<ManualAdmissionError>, text: Seq<char>, at: Moment },
    Unrecorded {
        occurrence_id: Seq<char>,
        success: bool,
        output: Seq<char>,
        text: Seq<char>,
        at: Moment,
    },
    Ended {
        occurrence_id: Seq<char>,
        success: bool,
        delivered: OutcomeView,
        effect: Option<EffectOutcome>,
        text: Seq<char>,
        at: Moment,
    },
}

impl View for ManualCronRunResult {
    type V = ResultView;

    open spec fn view(&self) -> ResultView {
        ResultView {
            duplicate: self.duplicate,
            occurrence_id: tool::opt(self.occurrence_id),
            effect_outcome: self.effect_outcome,
            execution_outcome: self.execution_outcome,
            delivery_outcome: self.delivery_outcome,
            job_id: self.job_id@,
            success: self.success,
            status: self.status@,
            output: self.output@,
            duration_ms: self.duration_ms as int,
            started_at: self.started_at,
            finished_at: self.finished_at,
        }
    }
}

impl View for ManualRunEnd {
    type V = EndView;

    open spec fn view(&self) -> EndView {
        match *self {
            ManualRunEnd::Duplicate { receipt, at } => EndView::Duplicate { receipt: receipt@, at },
            ManualRunEnd::Refused { reason, text, at } => EndView::Refused {
                reason,
                text: text@,
                at,
            },
            ManualRunEnd::Unrecorded {
                occurrence_id,
                success,
                output,
                text,
                at,
            } => EndView::Unrecorded {
                occurrence_id: occurrence_id@,
                success,
                output: output@,
                text: text@,
                at,
            },
            ManualRunEnd::Ended {
                occurrence_id,
                success,
                delivered,
                effect,
                text,
                at,
            } => EndView::Ended {
                occurrence_id: occurrence_id@,
                success,
                delivered: delivered@,
                effect,
                text: text@,
                at,
            },
        }
    }
}

impl EndView {
    /// When the run came to this end, or when the job had run.
    pub open spec fn time(self) -> Moment {
        match self {
            EndView::Duplicate { at, .. } => at,
            EndView::Refused { at, .. } => at,
            EndView::Unrecorded { at, .. } => at,
            EndView::Ended { at, .. } => at,
        }
    }

    /// Whether the job was run.
    pub open spec fn ran(self) -> bool {
        self is Unrecorded || self is Ended
    }
}

/// The key of the text that is shown of a refusal. Without a reason the store
/// failed; under a request identifier that leaves open what became of an earlier
/// run.
pub open spec fn refusal_key_of(reason: Option<ManualAdmissionError>, keyed: bool) -> Seq<char> {
    match reason {
        Some(ManualAdmissionError::Quarantined) => "cron-manual-quarantined"@,
        Some(ManualAdmissionError::InFlight) => "cron-manual-in-flight"@,
        Some(ManualAdmissionError::Changed) => "cron-manual-changed"@,
        Some(ManualAdmissionError::InvalidRequestId) => "cron-manual-invalid-request-id"@,
        None => if keyed {
            "cron-manual-receipt-unavailable"@
        } else {
            "cron-manual-storage-unavailable"@
        },
    }
}

/// The key of the text that is shown of a refusal.
pub fn refusal_key(reason: Option<ManualAdmissionError>, keyed: bool) -> (s: &'static str)
    ensures
        s@ == refusal_key_of(reason, keyed),
{
    match reason {
        Some(ManualAdmissionError::Quarantined) => "cron-manual-quarantined",
        Some(ManualAdmissionError::InFlight) => "cron-manual-in-flight",
        Some(ManualAdmissionError::Changed) => "cron-manual-changed",
        Some(ManualAdmissionError::InvalidRequestId) => "cron-manual-invalid-request-id",
        None => if keyed {
            "cron-manual-receipt-unavailable"
        } else {
            "cron-manual-storage-unavailable"
        },
    }
}

/// What a successful or failed execution is evidence of.
pub open spec fn execution_evidence(success: bool) -> EffectOutcome {
    if success {
        EffectOutcome::Confirmed
    } else {
        EffectOutcome::PossiblyApplied
    }
}

/// What a run by hand came to. `keyed` says whether it was asked for under a
/// request identifier.
pub open spec fn result_of(
    job_id: Seq<char>,
    started_at: Moment,
    keyed: bool,
    end: EndView,
) -> ResultView {
    let blank = ResultView {
        duplicate: false,
        occurrence_id: None,
        effect_outcome: EffectOutcome::NotStarted,
        execution_outcome: EffectOutcome::NotStarted,
        delivery_outcome: None,
        job_id,
        success: false,
        status: "error"@,
        output: ""@,
        duration_ms: 0,
        started_at,
        finished_at: end.time(),
    };
    match end {
        EndView::Duplicate { receipt, at } => {
            let confirmed = receipt.effect == EffectOutcome::Confirmed;
            ResultView {
                duplicate: true,
                occurrence_id: Some(receipt.occurrence_id),
                effect_outcome: receipt.effect,
                execution_outcome: receipt.execution,
                delivery_outcome: receipt.delivery,
                success: confirmed,
                status: if confirmed {
                    "ok"@
                } else {
                    "uncertain"@
                },
                output: receipt.output,
                ..blank
            }
        },
        EndView::Refused { reason, text, at } => {
            // An earlier run may be behind both of these.
            let open = reason == Some(ManualAdmissionError::Quarantined) || (reason is None
                && keyed);
            ResultView {
                effect_outcome: if open {
                    EffectOutcome::ReconciliationRequired
                } else {
                    EffectOutcome::NotStarted
                },
                execution_outcome: if reason is None && keyed {
                    EffectOutcome::PossiblyApplied
                } else {
                    EffectOutcome::NotStarted
                },
                status: if open {
                    "uncertain"@
                } else {
                    "error"@
                },
                output: text,
                ..blank
            }
        },
        EndView::Unrecorded { occurrence_id, success, output, text, at } => ResultView {
            occurrence_id: Some(occurrence_id),
            effect_outcome: EffectOutcome::ReconciliationRequired,
            execution_outcome: execution_evidence(success),
            status: "uncertain"@,
            output: output.push('\n') + text,
            duration_ms: clock::millis_between(started_at, at),
            ..blank
        },
        EndView::Ended { occurrence_id, success, delivered, effect, text, at } => {
            let ran = ResultView {
                occurrence_id: Some(occurrence_id),
                execution_outcome: execution_evidence(success),
                delivery_outcome: delivered.delivery_outcome,
                duration_ms: clock::millis_between(started_at, at),
                ..blank
            };
            match effect {
                Some(effect_outcome) => ResultView {
                    effect_outcome,
                    success: delivered.success,
                    status: delivered.status,
                    output: delivered.output,
                    ..ran
                },
                None => ResultView {
                    effect_outcome: EffectOutcome::ReconciliationRequired,
                    status: "uncertain"@,
                    output: delivered.output.push('\n') + text,
                    ..ran
                },
            }
        },
    }
}

/// What a successful or failed execution is evidence of.
fn evidence_of(success: bool) -> (r: EffectOutcome)
    ensures
        r == execution_evidence(success),
{
    if success {
        EffectOutcome::Confirmed
    } else {
        EffectOutcome::PossiblyApplied
    }
}

/// What a run by hand came to, with a request identifier or without one.
pub fn run_manual_job_with_request_id(
    job_id: &str,
    started_at: Moment,
    keyed: bool,
    end: ManualRunEnd,
) -> (r: ManualCronRunResult)
    requires
        started_at.in_range(),
        end@.time().in_range(),
    ensures
        r@ == result_of(job_id@, started_at, keyed, end@),
{
    match end {
        ManualRunEnd::Duplicate { receipt, at } => {
            let success: bool = receipt.effect == EffectOutcome::Confirmed;
            ManualCronRunResult {
                duplicate: true,
                occurrence_id: Some(receipt.occurrence_id),
                effect_outcome: receipt.effect,
                execution_outcome: receipt.execution,
                delivery_outcome: receipt.delivery,
                job_id: job_id.to_owned(),
                success,
                status: if success {
                    "ok".to_owned()
                } else {
                    "uncertain".to_owned()
                },
                output: receipt.output,
                duration_ms: 0,
                started_at,
                finished_at: at,
            }
        },
        ManualRunEnd::Refused { reason, text, at } => {
            let quarantined: bool = match reason {
                Some(ManualAdmissionError::Quarantined) => true,
                _ => false,
            };
            let unknown: bool = reason.is_none() && keyed;
            ManualCronRunResult {
                duplicate: false,
                occurrence_id: None,
                effect_outcome: if quarantined || unknown {
                    EffectOutcome::ReconciliationRequired
                } else {
                    EffectOutcome::NotStarted
                },
                execution_outcome: if unknown {
                    EffectOutcome::PossiblyApplied
                } else {
                    EffectOutcome::NotStarted
                },
                delivery_outcome: None,
                job_id: job_id.to_owned(),
                success: false,
                status: if quarantined || unknown {
                    "uncertain".to_owned()
                } else {
                    "error".to_owned()
                },
                output: text,
                duration_ms: 0,
                started_at,
                finished_at: at,
            }
        },
        ManualRunEnd::Unrecorded { occurrence_id, success, output, text, at } => {
            let mut told: String = output;
            told.push('\n');
            told.append(text.as_str());
            ManualCronRunResult {
                duplicate: false,
                occurrence_id: Some(occurrence_id),
                effect_outcome: EffectOutcome::ReconciliationRequired,
                execution_outcome: evidence_of(success),
                delivery_outcome: None,
                job_id: job_id.to_owned(),
                success: false,
                status: "uncertain".to_owned(),
                output: told,
                duration_ms: clock::elapsed_millis(started_at, at),
                started_at,
                finished_at: at,
            }
        },
        ManualRunEnd::Ended { occurrence_id, success, delivered, effect, text, at } => {
            let duration_ms: i64 = clock::elapsed_millis(started_at, at);
            let execution_outcome: EffectOutcome = evidence_of(success);
            match effect {
                Some(effect_outcome) => ManualCronRunResult {
                    duplicate: false,
                    occurrence_id: Some(occurrence_id),
                    effect_outcome,
                    execution_outcome,
                    delivery_outcome: delivered.delivery_outcome,
                    job_id: job_id.to_owned(),
                    success: delivered.success,
                    status: delivered.status,
                    output: delivered.output,
                    duration_ms,
                    started_at,
                    finished_at: at,
                },
                None => {
                    let mut told: String = delivered.output;
                    told.push('\n');
                    told.append(text.as_str());
                    ManualCronRunResult {
                        duplicate: false,
                        occurrence_id: Some(occurrence_id),
                        effect_outcome: EffectOutcome::ReconciliationRequired,
                        execution_outcome,
                        delivery_outcome: delivered.delivery_outcome,
                        job_id: job_id.to_owned(),
                        success: false,
                        status: "uncertain".to_owned(),
                        output: told,
                        duration_ms,
                        started_at,
                        finished_at: at,
                    }
                },
            }
        },
    }
}

/// What a run by hand without a request identifier came to.
pub fn run_manual_job(job_id: &str, started_at: Moment, end: ManualRunEnd) -> (r:
    ManualCronRunResult)
    requires
        started_at.in_range(),
        end@.time().in_range(),
    ensures
        r@ == result_of(job_id@, started_at, false, end@),
{
    run_manual_job_with_request_id(job_id, started_at, false, end)
}

/// A run that was not admitted now says so: it is no success unless an earlier
/// run under the same request identifier is confirmed, and it tells of no
/// execution of its own.
pub proof fn law_only_admitted_runs_execute(
    job_id: Seq<char>,
    started_at: Moment,
    keyed: bool,
    end: EndView,
)
    requires
        !end.ran(),
    ensures
        ({
            let r = result_of(job_id, started_at, keyed, end);
            &&& r.duration_ms == 0
            &&& r.success ==> r.duplicate && r.effect_outcome == EffectOutcome::Confirmed
            &&& !r.duplicate ==> r.occurrence_id is None && r.execution_outcome
                != EffectOutcome::Confirmed
        }),
{
}

/// A run whose receipt could not be read, or whose execution or end could not be
/// recorded, is never reported as one that certainly did not happen or certainly
/// succeeded: it is left to a person.
pub proof fn law_lost_records_are_left_to_a_person(
    job_id: Seq<char>,
    started_at: Moment,
    keyed: bool,
    end: EndView,
)
    requires
        match end {
            EndView::Refused { reason, .. } => reason is None && keyed,
            EndView::Unrecorded { .. } => true,
            EndView::Ended { effect, .. } => effect is None,
            EndView::Duplicate { .. } => false,
        },
    ensures
        ({
            let r = result_of(job_id, started_at, keyed, end);
            &&& !r.success
            &&& r.status == "uncertain"@
            &&& r.effect_outcome == EffectOutcome::ReconciliationRequired
            &&& r.execution_outcome != EffectOutcome::NotStarted
        }),
{
}

/// What a run reports as its effect is what its recorded end says, and a repeated
/// request reports the same.
pub proof fn law_repetition_reports_the_same_effect(
    job_id: Seq<char>,
    started_at: Moment,
    later: Moment,
    id: Seq<char>,
    success: bool,
    delivered: OutcomeView,
    text: Seq<char>,
    at: Moment,
    receipt: DuplicateView,
    again: Moment,
)
    requires
        receipt.occurrence_id == id,
        receipt.effect == manual::effect_of(success, delivered.delivery_outcome),
        receipt.execution == execution_evidence(success),
        receipt.delivery == delivered.delivery_outcome,
    ensures
        ({
            let first = result_of(
                job_id,
                started_at,
                true,
                EndView::Ended {
                    occurrence_id: id,
                    success,
                    delivered,
                    effect: Some(manual::effect_of(success, delivered.delivery_outcome)),
                    text,
                    at,
                },
            );
            let second = result_of(
                job_id,
                later,
                true,
                EndView::Duplicate { receipt, at: again },
            );
            &&& second.occurrence_id == first.occurrence_id
            &&& second.effect_outcome == first.effect_outcome
            &&& second.execution_outcome == first.execution_outcome
            &&& second.delivery_outcome == first.delivery_outcome
        }),
{
}

} // verus!
