//! The loop of the scheduler.

pub use crate::cron::agent_run::{cron_agent_run_policy, cron_agent_session_path};
pub use crate::cron::announce::{
    announce_delivery_decision, is_no_reply_sentinel, AnnounceDecision, CronDeliveryContext,
};
pub use crate::cron::delivery::{
    deliver_and_classify_run_result, deliver_announcement, CronDeliveryOutcome,
};
pub use crate::cron::dispatch::execute_job_now;
pub use crate::cron::manual_run::{
    run_manual_job, run_manual_job_with_request_id, ManualCronRunResult,
};
use crate::cron::job::CronJob;
use crate::cron::startup;
use vstd::prelude::*;
use vstd::string::*;

verus! {

/// The name under which the scheduler's health is reported.
pub const SCHEDULER_COMPONENT: &'static str = "scheduler";

/// What the loop of the scheduler hears of.
pub enum LoopEvent {
    /// The runs that were interrupted have been put on record, or could not be.
    Recovered { failure: Option<String> },
    /// The jobs to make up for are known, or one could not be put aside.
    Prepared { jobs: Result<Vec<CronJob>, startup::StartupError> },
    /// It was time to look for due jobs, and these were found, unless the look
    /// failed.
    Polled { jobs: Result<Vec<CronJob>, String> },
    /// The scheduler is to stop.
    Cancelled,
}

/// What the loop of the scheduler does next.
pub enum LoopStep {
    /// Find out which missed runs to make up for.
    Prepare,
    /// Claim these jobs and run them, and go on.
    Process { jobs: Vec<CronJob> },
    /// Report that the scheduler is in trouble, and go on.
    ReportError { error: String },
    /// End without an error.
    Stop,
    /// End with an error.
    Fail { message: String, cause: String },
}

/// What the scheduler does next. It does not start where interrupted runs could
/// not be put on record, or a missed run could not be put aside: going on could
/// repeat them. Once it has started, a look for due jobs that fails is reported
/// and the next one is made all the same.
pub fn on_event(event: LoopEvent) -> (r: LoopStep)
    ensures
        match event {
            LoopEvent::Recovered { failure: None } => r is Prepare,
            LoopEvent::Recovered { failure: Some(why) } => r matches LoopStep::Fail {
                message,
                cause,
            } && message@ == "scheduler startup recovery failed"@ && cause == why,
            LoopEvent::Prepared { jobs: Ok(v) } => r == (LoopStep::Process { jobs: v }),
            LoopEvent::Prepared { jobs: Err(e) } => r == (LoopStep::Fail {
                message: e.message,
                cause: e.cause,
            }),
            LoopEvent::Polled { jobs: Ok(v) } => r == (LoopStep::Process { jobs: v }),
            LoopEvent::Polled { jobs: Err(e) } => r == (LoopStep::ReportError { error: e }),
            LoopEvent::Cancelled => r is Stop,
        },
{
    match event {
        LoopEvent::Recovered { failure: None } => LoopStep::Prepare,
        LoopEvent::Recovered { failure: Some(cause) } => LoopStep::Fail {
            message: "scheduler startup recovery failed".to_owned(),
            cause,
        },
        LoopEvent::Prepared { jobs: Ok(jobs) } => LoopStep::Process { jobs },
        LoopEvent::Prepared { jobs: Err(e) } => LoopStep::Fail {
            message: e.message,
            cause: e.cause,
        },
        LoopEvent::Polled { jobs: Ok(jobs) } => LoopStep::Process { jobs },
        LoopEvent::Polled { jobs: Err(error) } => LoopStep::ReportError { error },
        LoopEvent::Cancelled => LoopStep::Stop,
    }
}

} // verus!
