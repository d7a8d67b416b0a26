//! A run by hand, step by step: it is claimed, run, recorded, delivered and
//! closed, in this order. What it came to is told by its end.

use crate::clock::Moment;
use crate::cron::delivery::CronDeliveryOutcome;
use crate::cron::manual_run::ManualRunEnd;
use crate::cron::store::manual::{
    ClaimError, DuplicateManualReceipt, ManualAdmissionError, ManualClaim,
};
use crate::effect::EffectOutcome;
use crate::text;
use vstd::prelude::*;
use vstd::string::*;

verus! {

/// Where a run by hand stands.
pub enum ManualRun {
    /// The job is to be claimed.
    Claiming,
    /// The job is to be run.
    Executing { claim: ManualClaim },
    /// The job was run, which is to be recorded.
    Recording { claim: ManualClaim, success: bool, output: String, at: Moment },
    /// The result is to be delivered.
    Delivering { claim: ManualClaim, success: bool, output: String, at: Moment },
    /// The end is to be recorded.
    Closing { claim: ManualClaim, success: bool, delivered: CronDeliveryOutcome, at: Moment },
    /// The run is over.
    Over { end: ManualRunEnd },
}

/// What happened to a run by hand.
pub enum ManualEvent {
    /// The job was claimed.
    Admitted { claim: ManualClaim },
    /// The same request was admitted before.
    Repeated { receipt: DuplicateManualReceipt, at: Moment },
    /// The job was not claimed; `text` is what is shown of that.
    NotAdmitted { reason: Option<ManualAdmissionError>, text: String, at: Moment },
    /// The job was run.
    Executed { success: bool, output: String, at: Moment },
    /// The execution was recorded.
    Recorded,
    /// The step could not be recorded; `text` is what is shown of that.
    NotRecorded { text: String },
    /// The result was delivered, or that failed.
    Delivered { delivered: CronDeliveryOutcome },
    /// The end was recorded, and the run came to this.
    Closed { effect: EffectOutcome },
}

/// What a failed claim means: an earlier run under the same request, or the reason
/// that it was refused for. The store alone knows of the others.
pub open spec fn refusal_of(error: ClaimError) -> Result<
    DuplicateManualReceipt,
    Option<ManualAdmissionError>,
> {
    match error {
        ClaimError::Duplicate(receipt) => Ok(receipt),
        ClaimError::Refused(reason) => Err(Some(reason)),
        _ => Err(None),
    }
}

/// What a failed claim means.
pub fn refusal(error: ClaimError) -> (r: Result<
    DuplicateManualReceipt,
    Option<ManualAdmissionError>,
>)
    ensures
        r == refusal_of(error),
{
    match error {
        ClaimError::Duplicate(receipt) => Ok(receipt),
        ClaimError::Refused(reason) => Err(Some(reason)),
        ClaimError::NoJob => Err(None),
        ClaimError::Unreadable => Err(None),
        ClaimError::Taken => Err(None),
    }
}

/// Where a run stands after an event; nothing where the event cannot happen to
/// it.
pub open spec fn next_run(run: ManualRun, event: ManualEvent, r: Option<ManualRun>) -> bool {
    match (run, event) {
        (ManualRun::Claiming, ManualEvent::Admitted { claim }) => r == Some(
            ManualRun::Executing { claim },
        ),
        (ManualRun::Claiming, ManualEvent::Repeated { receipt, at }) => r == Some(
            ManualRun::Over { end: ManualRunEnd::Duplicate { receipt, at } },
        ),
        (ManualRun::Claiming, ManualEvent::NotAdmitted { reason, text, at }) => r == Some(
            ManualRun::Over { end: ManualRunEnd::Refused { reason, text, at } },
        ),
        (ManualRun::Executing { claim }, ManualEvent::Executed { success, output, at }) => r
            == Some(ManualRun::Recording { claim, success, output, at }),
        (ManualRun::Recording { claim, success, output, at }, ManualEvent::Recorded) => r == Some(
            ManualRun::Delivering { claim, success, output, at },
        ),
        (
            ManualRun::Recording { claim, success, output, at },
            ManualEvent::NotRecorded { text },
        ) => r == Some(
            ManualRun::Over {
                end: ManualRunEnd::Unrecorded {
                    occurrence_id: claim.occurrence_id,
                    success,
                    output,
                    text,
                    at,
                },
            },
        ),
        (
            ManualRun::Delivering { claim, success, output, at },
            ManualEvent::Delivered { delivered },
        ) => r == Some(ManualRun::Closing { claim, success, delivered, at }),
        (
            ManualRun::Closing { claim, success, delivered, at },
            ManualEvent::Closed { effect },
        ) => r matches Some(ManualRun::Over { end }) && ended_as(
            end,
            claim,
            success,
            delivered,
            Some(effect),
            Seq::empty(),
            at,
        ),
        (
            ManualRun::Closing { claim, success, delivered, at },
            ManualEvent::NotRecorded { text },
        ) => r matches Some(ManualRun::Over { end }) && ended_as(
            end,
            claim,
            success,
            delivered,
            None,
            text@,
            at,
        ),
        _ => r is None,
    }
}

/// Whether `end` is the end of a run that was run and delivered.
pub open spec fn ended_as(
    end: ManualRunEnd,
    claim: ManualClaim,
    success: bool,
    delivered: CronDeliveryOutcome,
    effect: Option<EffectOutcome>,
    told: Seq<char>,
    at: Moment,
) -> bool {
    match end {
        ManualRunEnd::Ended {
            occurrence_id,
            success: s,
            delivered: d,
            effect: e,
            text,
            at: t,
        } => {
            &&& occurrence_id == claim.occurrence_id
            &&& s == success
            &&& d == delivered
            &&& e == effect
            &&& text@ == told
            &&& t == at
        },
        _ => false,
    }
}

/// What is to be recorded of a run where it stands.
pub enum ManualRecord {
    /// Nothing.
    Nothing,
    /// The execution, with as much of its output as is kept.
    Execution { success: bool, output: String },
    /// The end: of the execution, of the delivery, and of both together, with as
    /// much of what is reported as is kept.
    End {
        success: bool,
        delivery: Option<EffectOutcome>,
        status: String,
        output: String,
        at: Moment,
    },
}

impl ManualRun {
    /// Where the run stands after an event. An event that cannot happen to it
    /// gives nothing.
    pub fn advance(self, event: ManualEvent) -> (r: Option<ManualRun>)
        ensures
            next_run(self, event, r),
    {
        match (self, event) {
            (ManualRun::Claiming, ManualEvent::Admitted { claim }) => Some(
                ManualRun::Executing { claim },
            ),
            (ManualRun::Claiming, ManualEvent::Repeated { receipt, at }) => Some(
                ManualRun::Over { end: ManualRunEnd::Duplicate { receipt, at } },
            ),
            (ManualRun::Claiming, ManualEvent::NotAdmitted { reason, text, at }) => Some(
                ManualRun::Over { end: ManualRunEnd::Refused { reason, text, at } },
            ),
            (ManualRun::Executing { claim }, ManualEvent::Executed { success, output, at }) => Some(
                ManualRun::Recording { claim, success, output, at },
            ),
            (ManualRun::Recording { claim, success, output, at }, ManualEvent::Recorded) => Some(
                ManualRun::Delivering { claim, success, output, at },
            ),
            (
                ManualRun::Recording { claim, success, output, at },
                ManualEvent::NotRecorded { text },
            ) => Some(
                ManualRun::Over {
                    end: ManualRunEnd::Unrecorded {
                        occurrence_id: claim.occurrence_id,
                        success,
                        output,
                        text,
                        at,
                    },
                },
            ),
            (
                ManualRun::Delivering { claim, success, output: _, at },
                ManualEvent::Delivered { delivered },
            ) => Some(ManualRun::Closing { claim, success, delivered, at }),
            (
                ManualRun::Closing { claim, success, delivered, at },
                ManualEvent::Closed { effect },
            ) => {
                let text: String = String::new();
                assert(text@ =~= Seq::empty());
                Some(
                    ManualRun::Over {
                        end: ManualRunEnd::Ended {
                            occurrence_id: claim.occurrence_id,
                            success,
                            delivered,
                            effect: Some(effect),
                            text,
                            at,
                        },
                    },
                )
            },
            (
                ManualRun::Closing { claim, success, delivered, at },
                ManualEvent::NotRecorded { text },
            ) => Some(
                ManualRun::Over {
                    end: ManualRunEnd::Ended {
                        occurrence_id: claim.occurrence_id,
                        success,
                        delivered,
                        effect: None,
                        text,
                        at,
                    },
                },
            ),
            _ => None,
        }
    }

    /// What is to be recorded of the run where it stands. At most `limit` bytes of
    /// an output are kept.
    pub fn to_record(&self, limit: usize) -> (r: ManualRecord)
        ensures
            match *self {
                ManualRun::Recording { success, output, .. } => r matches ManualRecord::Execution {
                    success: s,
                    output: kept,
                } && s == success && text::is_bounded(output@, limit as nat, kept@),
                ManualRun::Closing { success, delivered, at, .. } => r matches ManualRecord::End {
                    success: s,
                    delivery,
                    status,
                    output: kept,
                    at: t,
                } && s == success && delivery == delivered.delivery_outcome && status@
                    == delivered.status@ && text::is_bounded(
                    delivered.output@,
                    limit as nat,
                    kept@,
                ) && t == at,
                _ => r is Nothing,
            },
    {
        match self {
            ManualRun::Recording { claim: _, success, output, at: _ } => ManualRecord::Execution {
                success: *success,
                output: text::bounded(output.as_str(), limit),
            },
            ManualRun::Closing { claim: _, success, delivered, at } => ManualRecord::End {
                success: *success,
                delivery: delivered.delivery_outcome,
                status: delivered.status.clone(),
                output: text::bounded(delivered.output.as_str(), limit),
                at: *at,
            },
            _ => ManualRecord::Nothing,
        }
    }
}

/// A job is run by hand only under a claim, and its result is delivered only after
/// the execution was recorded under the same claim: a run that is dropped on the
/// way leaves its claim, and nothing is delivered that the record does not know of.
pub proof fn law_manual_steps_are_recorded_first(
    run: ManualRun,
    event: ManualEvent,
    after: ManualRun,
)
    requires
        next_run(run, event, Some(after)),
    ensures
        after matches ManualRun::Executing { claim } ==> run is Claiming && event
            == (ManualEvent::Admitted { claim }),
        after matches ManualRun::Delivering { claim, success, output, at } ==> event is Recorded
            && run == (ManualRun::Recording { claim, success, output, at }),
        after matches ManualRun::Closing { claim, success, delivered, at } ==> event
            == (ManualEvent::Delivered { delivered }) && run is Delivering
            && run->Delivering_claim == claim && run->Delivering_success == success,
{
}

/// What a run reports of its end is what happened to it: no effect is reported
/// unless the end was recorded, and an execution without a record is never
/// delivered.
pub proof fn law_manual_ends_tell_what_happened(
    run: ManualRun,
    event: ManualEvent,
    end: ManualRunEnd,
)
    requires
        next_run(run, event, Some(ManualRun::Over { end })),
    ensures
        match end {
            ManualRunEnd::Duplicate { .. } => run is Claiming && event is Repeated,
            ManualRunEnd::Refused { .. } => run is Claiming && event is NotAdmitted,
            ManualRunEnd::Unrecorded { .. } => run is Recording && event is NotRecorded,
            ManualRunEnd::Ended { effect, .. } => run is Closing && (effect matches Some(o) ==> event
                == (ManualEvent::Closed { effect: o })) && (effect is None ==> event is NotRecorded),
        },
{
}

} // verus!
