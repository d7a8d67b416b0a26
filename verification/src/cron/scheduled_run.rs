//! A scheduled run, from its start to its report. Each step is recorded before
//! the next one is taken.

use crate::cron::delivery;
use crate::cron::store::manual;
use crate::effect::EffectOutcome;
use vstd::prelude::*;
use vstd::string::*;

verus! {

/// Where a scheduled run stands.
pub enum ScheduledRun {
    /// Its start is to be recorded.
    Starting,
    /// The job is to be run.
    Running,
    /// The job was run, which is to be recorded.
    Recording { success: bool, output: String },
    /// The result is to be delivered and added to the history.
    Delivering { success: bool, output: String },
    /// What came of the delivery is to be recorded. `delivered` tells of the run
    /// and its delivery together.
    Closing {
        success: bool,
        output: String,
        delivered: bool,
        delivery: Option<EffectOutcome>,
    },
    /// The lock of the job is to be given back.
    Releasing { delivered: bool, output: String },
    /// The run is over, and this is reported of it.
    Reported { success: bool, output: String },
}

/// What happened to a scheduled run.
pub enum ScheduledEvent {
    /// The step was recorded.
    Recorded,
    /// The step could not be recorded.
    NotRecorded { error: String },
    /// The job was run.
    Executed { success: bool, output: String },
    /// The result was delivered, or that failed.
    Delivered { success: bool, delivery: Option<EffectOutcome> },
    /// The lock was given back, or could not be; the latter is made up for at the
    /// next startup.
    Released,
}

/// What is to be recorded of a run: the state of its execution and of its
/// delivery, and its output where it changes.
pub struct StepRecord {
    pub execution: &'static str,
    pub delivery: &'static str,
    pub with_output: bool,
}

/// The model of a run.
pub enum RunView {
    Starting,
    Running,
    Recording { success: bool, output: Seq<char> },
    Delivering { success: bool, output: Seq<char> },
    Closing {
        success: bool,
        output: Seq<char>,
        delivered: bool,
        delivery: Option<EffectOutcome>,
    },
    Releasing { delivered: bool, output: Seq<char> },
    Reported { success: bool, output: Seq<char> },
}

/// The model of an event.
pub enum EventView {
    Recorded,
    NotRecorded { error: Seq<char> },
    Executed { success: bool, output: Seq<char> },
    Delivered { success: bool, delivery: Option<EffectOutcome> },
    Released,
}

impl View for ScheduledRun {
    type V = RunView;

    open spec fn view(&self) -> RunView {
        match *self {
            ScheduledRun::Starting => RunView::Starting,
            ScheduledRun::Running => RunView::Running,
            ScheduledRun::Recording { success, output } => RunView::Recording {
                success,
                output: output@,
            },
            ScheduledRun::Delivering { success, output } => RunView::Delivering {
                success,
                output: output@,
            },
            ScheduledRun::Closing { success, output, delivered, delivery } => RunView::Closing {
                success,
                output: output@,
                delivered,
                delivery,
            },
            ScheduledRun::Releasing { delivered, output } => RunView::Releasing {
                delivered,
                output: output@,
            },
            ScheduledRun::Reported { success, output } => RunView::Reported {
                success,
                output: output@,
            },
        }
    }
}

impl View for ScheduledEvent {
    type V = EventView;

    open spec fn view(&self) -> EventView {
        match *self {
            ScheduledEvent::Recorded => EventView::Recorded,
            ScheduledEvent::NotRecorded { error } => EventView::NotRecorded { error: error@ },
            ScheduledEvent::Executed { success, output } => EventView::Executed {
                success,
                output: output@,
            },
            ScheduledEvent::Delivered { success, delivery } => EventView::Delivered {
                success,
                delivery,
            },
            ScheduledEvent::Released => EventView::Released,
        }
    }
}

/// Where a run stands after an event; nothing where the event cannot happen to
/// it. A run whose start is not recorded does not take place, and a result whose
/// run is not recorded is not delivered. What is reported is the output of the
/// run itself.
pub open spec fn next_run(run: RunView, event: EventView) -> Option<RunView> {
    match (run, event) {
        (RunView::Starting, EventView::Recorded) => Some(RunView::Running),
        (RunView::Starting, EventView::NotRecorded { error }) => Some(
            RunView::Reported {
                success: false,
                output: "occurrence checkpoint failed before execution: "@ + error,
            },
        ),
        (RunView::Running, EventView::Executed { success, output }) => Some(
            RunView::Recording { success, output },
        ),
        (RunView::Recording { success, output }, EventView::Recorded) => Some(
            RunView::Delivering { success, output },
        ),
        (RunView::Recording { success: _, output }, EventView::NotRecorded { .. }) => Some(
            RunView::Reported { success: false, output },
        ),
        (
            RunView::Delivering { success, output },
            EventView::Delivered { success: delivered, delivery },
        ) => Some(RunView::Closing { success, output, delivered, delivery }),
        (RunView::Closing { output, delivered, .. }, EventView::Recorded) => Some(
            RunView::Releasing { delivered, output },
        ),
        (RunView::Closing { output, .. }, EventView::NotRecorded { .. }) => Some(
            RunView::Reported { success: false, output },
        ),
        (RunView::Releasing { delivered, output }, EventView::Released) => Some(
            RunView::Reported { success: delivered, output },
        ),
        _ => None,
    }
}

/// What is to be recorded of a run where it stands.
pub open spec fn record_of(run: RunView) -> Option<(Seq<char>, Seq<char>, bool)> {
    match run {
        RunView::Starting => Some(("running"@, "not_started"@, false)),
        RunView::Recording { success, .. } => Some(
            (manual::execution_state(success), "submitting"@, true),
        ),
        RunView::Closing { success, delivery, .. } => Some(
            (manual::execution_state(success), delivery::delivery_state(delivery), false),
        ),
        _ => None,
    }
}

impl ScheduledRun {
    /// Where the run stands after an event. An event that cannot happen to it
    /// gives nothing.
    pub fn advance(self, event: ScheduledEvent) -> (r: Option<ScheduledRun>)
        ensures
            match r {
                Some(n) => next_run(self@, event@) == Some(n@),
                None => next_run(self@, event@) is None,
            },
    {
        match (self, event) {
            (ScheduledRun::Starting, ScheduledEvent::Recorded) => Some(ScheduledRun::Running),
            (ScheduledRun::Starting, ScheduledEvent::NotRecorded { error }) => {
                let mut output: String =
                    "occurrence checkpoint failed before execution: ".to_owned();
                output.append(error.as_str());
                Some(ScheduledRun::Reported { success: false, output })
            },
            (ScheduledRun::Running, ScheduledEvent::Executed { success, output }) => Some(
                ScheduledRun::Recording { success, output },
            ),
            (ScheduledRun::Recording { success, output }, ScheduledEvent::Recorded) => Some(
                ScheduledRun::Delivering { success, output },
            ),
            (
                ScheduledRun::Recording { success: _, output },
                ScheduledEvent::NotRecorded { error: _ },
            ) => Some(ScheduledRun::Reported { success: false, output }),
            (
                ScheduledRun::Delivering { success, output },
                ScheduledEvent::Delivered { success: delivered, delivery },
            ) => Some(ScheduledRun::Closing { success, output, delivered, delivery }),
            (
                ScheduledRun::Closing { success: _, output, delivered, delivery: _ },
                ScheduledEvent::Recorded,
            ) => Some(ScheduledRun::Releasing { delivered, output }),
            (
                ScheduledRun::Closing { success: _, output, delivered: _, delivery: _ },
                ScheduledEvent::NotRecorded { error: _ },
            ) => Some(ScheduledRun::Reported { success: false, output }),
            (ScheduledRun::Releasing { delivered, output }, ScheduledEvent::Released) => Some(
                ScheduledRun::Reported { success: delivered, output },
            ),
            _ => None,
        }
    }

    /// What is to be recorded of the run where it stands.
    pub fn to_record(&self) -> (r: Option<StepRecord>)
        ensures
            match r {
                Some(s) => record_of(self@) == Some(
                    (s.execution@, s.delivery@, s.with_output),
                ),
                None => record_of(self@) is None,
            },
    {
        match self {
            ScheduledRun::Starting => Some(
                StepRecord { execution: "running", delivery: "not_started", with_output: false },
            ),
            ScheduledRun::Recording { success, output: _ } => Some(
                StepRecord {
                    execution: manual::execution_state_name(*success),
                    delivery: "submitting",
                    with_output: true,
                },
            ),
            ScheduledRun::Closing { success, output: _, delivered: _, delivery } => Some(
                StepRecord {
                    execution: manual::execution_state_name(*success),
                    delivery: delivery::occurrence_delivery_state(*delivery),
                    with_output: false,
                },
            ),
            _ => None,
        }
    }
}

/// A run takes place only after its start was recorded, and its result is
/// delivered only after the run itself was: a crash in between leaves a record
/// that keeps the job from being run again just to be delivered.
pub proof fn law_each_step_is_recorded_first(run: RunView, event: EventView)
    ensures
        next_run(run, event) matches Some(RunView::Running) ==> run is Starting && event is Recorded,
        next_run(run, event) matches Some(RunView::Delivering { .. }) ==> run is Recording
            && event is Recorded,
        next_run(run, event) matches Some(RunView::Releasing { .. }) ==> run is Closing
            && event is Recorded,
{
}

/// A step that could not be recorded ends the run, and not as a success; a success
/// is reported only of a run whose delivery allows it.
pub proof fn law_unrecorded_runs_are_no_success(run: RunView, event: EventView)
    ensures
        event is NotRecorded && next_run(run, event) is Some ==> next_run(
            run,
            event,
        )->Some_0 is Reported && !next_run(run, event)->Some_0->Reported_success,
        next_run(run, event) matches Some(RunView::Reported { success: true, output }) ==> run
            == (RunView::Releasing { delivered: true, output }),
{
}

} // verus!
