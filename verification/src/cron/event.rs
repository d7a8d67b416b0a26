//! What is told to those who watch the results of jobs.

use crate::clock;
use crate::clock::Moment;
use crate::cron::manual_run::{ManualCronRunResult, ManualRunEnd};
use crate::effect::EffectOutcome;
use crate::turn::tool;
use vstd::prelude::*;
use vstd::string::*;

verus! {

/// The type under which a result is told.
pub const CRON_RESULT: &'static str = "cron_result";

/// What is told of a run by hand beside its result.
pub struct ManualEvidence {
    pub occurrence_id: Option<String>,
    pub effect_outcome: EffectOutcome,
    pub execution_outcome: EffectOutcome,
    pub delivery_outcome: Option<EffectOutcome>,
}

/// The result of one run.
pub struct CronResultEvent {
    pub job_id: String,
    pub success: bool,
    pub output: String,
    /// When the run ended, as an RFC 3339 timestamp.
    pub timestamp: String,
    /// None where the scheduler ran the job.
    pub manual: Option<ManualEvidence>,
}

/// The model of what is told of a run by hand beside its result.
pub struct EvidenceView {
    pub occurrence_id: Option<Seq<char>>,
    pub effect_outcome: EffectOutcome,
    pub execution_outcome: EffectOutcome,
    pub delivery_outcome: Option<EffectOutcome>,
}

/// The model of a told result.
pub struct EventView {
    pub job_id: Seq<char>,
    pub success: bool,
    pub output: Seq<char>,
    pub timestamp: Seq<char>,
    pub manual: Option<EvidenceView>,
}

impl View for CronResultEvent {
    type V = EventView;

    open spec fn view(&self) -> EventView {
        EventView {
            job_id: self.job_id@,
            success: self.success,
            output: self.output@,
            timestamp: self.timestamp@,
            manual: match self.manual {
                Some(m) => Some(
                    EvidenceView {
                        occurrence_id: tool::opt(m.occurrence_id),
                        effect_outcome: m.effect_outcome,
                        execution_outcome: m.execution_outcome,
                        delivery_outcome: m.delivery_outcome,
                    },
                ),
                None => None,
            },
        }
    }
}

/// What is told of a run by the scheduler that ended at the time of `timestamp`.
pub fn scheduled_event_given(
    job_id: &str,
    success: bool,
    output: &str,
    timestamp: String,
) -> (r: CronResultEvent)
    ensures
        r@ == (EventView {
            job_id: job_id@,
            success,
            output: output@,
            timestamp: timestamp@,
            manual: None,
        }),
{
    CronResultEvent {
        job_id: job_id.to_owned(),
        success,
        output: output.to_owned(),
        timestamp,
        manual: None,
    }
}

/// What is told of a run by the scheduler; nothing where its end cannot be
/// written as a timestamp.
pub fn scheduled_event(job_id: &str, success: bool, output: &str, at: Moment) -> (r: Option<
    CronResultEvent,
>)
    ensures
        match clock::written(at) {
            Some(timestamp) => r matches Some(e) && e@ == (EventView {
                job_id: job_id@,
                success,
                output: output@,
                timestamp,
                manual: None,
            }),
            None => r is None,
        },
{
    match clock::moment_text(at) {
        Some(timestamp) => Some(scheduled_event_given(job_id, success, output, timestamp)),
        None => None,
    }
}

/// Whether a run by hand is told of at all: only one that was run, recorded and
/// delivered, whether or not its end could be recorded.
pub fn is_told(end: &ManualRunEnd) -> (r: bool)
    ensures
        r == (end@ is Ended),
{
    match end {
        ManualRunEnd::Ended { .. } => true,
        _ => false,
    }
}

/// What is told of a run by hand that ended at the time of `timestamp`.
pub fn manual_event_given(run: &ManualCronRunResult, timestamp: String) -> (r: CronResultEvent)
    ensures
        r@ == (EventView {
            job_id: run@.job_id,
            success: run@.success,
            output: run@.output,
            timestamp: timestamp@,
            manual: Some(
                EvidenceView {
                    occurrence_id: run@.occurrence_id,
                    effect_outcome: run@.effect_outcome,
                    execution_outcome: run@.execution_outcome,
                    delivery_outcome: run@.delivery_outcome,
                },
            ),
        }),
{
    CronResultEvent {
        job_id: run.job_id.clone(),
        success: run.success,
        output: run.output.clone(),
        timestamp,
        manual: Some(
            ManualEvidence {
                occurrence_id: tool::copy_opt(&run.occurrence_id),
                effect_outcome: run.effect_outcome,
                execution_outcome: run.execution_outcome,
                delivery_outcome: run.delivery_outcome,
            },
        ),
    }
}

/// What is told of a run by hand: its result as it was returned, at the time at
/// which the job had run. Nothing where that time cannot be written as a
/// timestamp.
pub fn manual_event(run: &ManualCronRunResult) -> (r: Option<CronResultEvent>)
    ensures
        match clock::written(run@.finished_at) {
            Some(timestamp) => r matches Some(e) && e@ == (EventView {
                job_id: run@.job_id,
                success: run@.success,
                output: run@.output,
                timestamp,
                manual: Some(
                    EvidenceView {
                        occurrence_id: run@.occurrence_id,
                        effect_outcome: run@.effect_outcome,
                        execution_outcome: run@.execution_outcome,
                        delivery_outcome: run@.delivery_outcome,
                    },
                ),
            }),
            None => r is None,
        },
{
    match clock::moment_text(run.finished_at) {
        Some(timestamp) => Some(manual_event_given(run, timestamp)),
        None => None,
    }
}

} // verus!
