//! How the errors that hold evidence are shown: to people by a message, to
//! developers by counts. Neither shows the evidence itself.

use crate::text;
use crate::turn::error::{Cause, CauseKind, Layer, SopPhase, TurnError};
use crate::turn::sop_settlement;
use crate::turn::sop_settlement::{DriveCounts, SopDriveEvidence};
use crate::turn::tool;
use vstd::prelude::*;
use vstd::string::*;

verus! {

/// What a developer is told of a cause that holds evidence.
pub enum Shape {
    /// A part of an operating procedure did not settle.
    Phase(SopPhase),
    /// The turn did not settle.
    Unsettled,
    /// An output of this many bytes.
    Output { bytes: nat },
    /// Failures beside the one of the call at `primary`.
    Failures { primary: nat, siblings: nat },
    /// Results and errors.
    Results { results: nat, errors: nat },
    /// What a driver of operating procedures had done.
    Drive {
        steps: nat,
        completed_steps: nat,
        persistence_failures: nat,
        audit_failure_causes: nat,
        owned_runs: nat,
        pending_cancellations: nat,
        queued: nat,
    },
}

/// What a developer is told of what a driver had done.
pub open spec fn drive_shape(e: SopDriveEvidence) -> Shape {
    Shape::Drive {
        steps: e.steps@.len(),
        completed_steps: sop_settlement::completed_count(e.steps@),
        persistence_failures: sop_settlement::persistence_count(e.steps@),
        audit_failure_causes: sop_settlement::audit_causes(e.steps@),
        owned_runs: sop_settlement::run_ids(e).to_set().len(),
        pending_cancellations: sop_settlement::open_cancellations(e.queued@),
        queued: e.queued@.len(),
    }
}

/// What a developer is told of a cause; nothing here of one that holds no
/// evidence.
pub open spec fn shape(cause: Cause) -> Option<Shape> {
    match cause {
        Cause::SopPhaseIncomplete(p) => Some(Shape::Phase(p)),
        Cause::TurnSettlementIncomplete => Some(Shape::Unsettled),
        Cause::TurnCompletedAfterInterruption(s) => Some(
            Shape::Output { bytes: text::byte_len(s@) },
        ),
        Cause::RetainedToolFailures(f) => Some(
            Shape::Failures { primary: f.primary_call_index as nat, siblings: f.siblings@.len() },
        ),
        Cause::ResultBudgetExceeded(b) => Some(
            Shape::Results { results: b.results@.len(), errors: b.errors@.len() },
        ),
        Cause::SopDriveInterrupted(e) => Some(drive_shape(e)),
        _ => None,
    }
}

/// The name of a part of an operating procedure.
pub open spec fn phase_name(p: SopPhase) -> Seq<char> {
    match p {
        SopPhase::Assembly => "assembly"@,
        SopPhase::NestedStep => "nested step"@,
        SopPhase::StepCancellation => "step cancellation"@,
        SopPhase::QueuedCancellation => "queued cancellation"@,
        SopPhase::Audit => "audit"@,
    }
}

/// The text that a developer is shown.
pub open spec fn shape_text(shape: Shape) -> Seq<char> {
    match shape {
        Shape::Phase(p) => "SopPhaseIncomplete { phase: \""@ + phase_name(p) + "\" }"@,
        Shape::Unsettled => "TurnSettlementIncomplete"@,
        Shape::Output { bytes } => "TurnCompletedAfterInterruption { output_bytes: "@
            + text::decimal(bytes) + ", .. }"@,
        Shape::Failures { primary, siblings } => "RetainedToolFailures { primary_call_index: "@
            + text::decimal(primary) + ", sibling_count: "@ + text::decimal(siblings) + ", .. }"@,
        Shape::Results { results, errors } => "ResultBudgetExceeded { result_count: "@
            + text::decimal(results) + ", error_count: "@ + text::decimal(errors) + ", .. }"@,
        Shape::Drive {
            steps,
            completed_steps,
            persistence_failures,
            audit_failure_causes,
            owned_runs,
            pending_cancellations,
            queued,
        } => "SopDriveInterrupted { steps: "@ + text::decimal(steps) + ", completed_steps: "@
            + text::decimal(completed_steps) + ", persistence_failures: "@ + text::decimal(
            persistence_failures,
        ) + ", audit_failure_causes: "@ + text::decimal(audit_failure_causes) + ", owned_runs: "@
            + text::decimal(owned_runs) + ", pending_cancellations: "@ + text::decimal(
            pending_cancellations,
        ) + ", queued: "@ + text::decimal(queued) + ", .. }"@,
    }
}

/// The text that a developer is shown of a cause; nothing here of one that holds
/// no evidence.
pub open spec fn description(cause: Cause) -> Option<Seq<char>> {
    match shape(cause) {
        Some(sh) => Some(shape_text(sh)),
        None => None,
    }
}

/// The name of a part of an operating procedure.
pub fn phase_text(p: SopPhase) -> (s: &'static str)
    ensures
        s@ == phase_name(p),
{
    match p {
        SopPhase::Assembly => "assembly",
        SopPhase::NestedStep => "nested step",
        SopPhase::StepCancellation => "step cancellation",
        SopPhase::QueuedCancellation => "queued cancellation",
        SopPhase::Audit => "audit",
    }
}

/// Appends a label and a count.
fn push_count(out: &mut String, label: &str, n: usize)
    ensures
        final(out)@ == old(out)@ + label@ + text::decimal(n as nat),
{
    out.append(label);
    let t: String = text::decimal_of(n as u64);
    out.append(t.as_str());
}

/// The text that a developer is shown of a cause; nothing here of one that holds
/// no evidence.
pub fn described(cause: &Cause) -> (r: Option<String>)
    requires
        cause matches Cause::SopDriveInterrupted(e) ==> sop_settlement::audit_causes(e.steps@)
            <= usize::MAX,
    ensures
        tool::opt(r) == description(*cause),
{
    match cause {
        Cause::SopPhaseIncomplete(p) => {
            let mut s: String = "SopPhaseIncomplete { phase: \"".to_owned();
            s.append(phase_text(*p));
            s.append("\" }");
            Some(s)
        },
        Cause::TurnSettlementIncomplete => Some("TurnSettlementIncomplete".to_owned()),
        Cause::TurnCompletedAfterInterruption(output) => {
            let mut s: String = String::new();
            push_count(
                &mut s,
                "TurnCompletedAfterInterruption { output_bytes: ",
                text::len_bytes(output.as_str()),
            );
            s.append(", .. }");
            assert(s@ =~= shape_text(shape(*cause)->0));
            Some(s)
        },
        Cause::RetainedToolFailures(f) => {
            let mut s: String = String::new();
            push_count(
                &mut s,
                "RetainedToolFailures { primary_call_index: ",
                f.primary_call_index,
            );
            push_count(&mut s, ", sibling_count: ", f.siblings.len());
            s.append(", .. }");
            assert(s@ =~= shape_text(shape(*cause)->0));
            Some(s)
        },
        Cause::ResultBudgetExceeded(b) => {
            let mut s: String = String::new();
            push_count(&mut s, "ResultBudgetExceeded { result_count: ", b.results.len());
            push_count(&mut s, ", error_count: ", b.errors.len());
            s.append(", .. }");
            assert(s@ =~= shape_text(shape(*cause)->0));
            Some(s)
        },
        Cause::SopDriveInterrupted(e) => {
            let c: DriveCounts = e.counts();
            let mut s: String = String::new();
            push_count(&mut s, "SopDriveInterrupted { steps: ", c.steps);
            push_count(&mut s, ", completed_steps: ", c.completed_steps);
            push_count(&mut s, ", persistence_failures: ", c.persistence_failures);
            push_count(&mut s, ", audit_failure_causes: ", c.audit_failure_causes);
            push_count(&mut s, ", owned_runs: ", c.owned_runs);
            push_count(&mut s, ", pending_cancellations: ", c.pending_cancellations);
            push_count(&mut s, ", queued: ", c.queued);
            s.append(", .. }");
            assert(s@ =~= shape_text(shape(*cause)->0));
            Some(s)
        },
        _ => None,
    }
}

/// What a person is told of an error.
pub enum Message<'a> {
    /// The text under this key.
    Key(&'static str),
    /// This text.
    Text(&'a str),
    /// What the cause of this kind says of itself.
    Own(CauseKind),
    /// Nothing: there is no error.
    Nothing,
}

/// The model of a message.
pub enum MessageView {
    Key(Seq<char>),
    Text(Seq<char>),
    Own(CauseKind),
    Nothing,
}

impl<'a> View for Message<'a> {
    type V = MessageView;

    open spec fn view(&self) -> MessageView {
        match *self {
            Message::Key(k) => MessageView::Key(k@),
            Message::Text(s) => MessageView::Text(s@),
            Message::Own(k) => MessageView::Own(k),
            Message::Nothing => MessageView::Nothing,
        }
    }
}

/// Whether a cause only holds evidence and leaves the word to what is below it.
pub open spec fn is_silent(cause: Cause) -> bool {
    cause is TurnCompletedAfterInterruption || cause is SopDriveInterrupted
}

/// What one cause says.
pub open spec fn cause_message(cause: Cause) -> MessageView {
    match cause {
        Cause::SopPhaseIncomplete(_) => MessageView::Key("sop-settlement-incomplete"@),
        Cause::TurnSettlementIncomplete => MessageView::Key("turn-settlement-incomplete"@),
        Cause::ResultBudgetExceeded(_) => MessageView::Key("turn-tool-result-budget-exceeded"@),
        Cause::RetainedToolFailures(f) => MessageView::Text(f.summary@),
        Cause::Other(s) => MessageView::Text(s@),
        _ => MessageView::Own(cause.kind()),
    }
}

/// What a person is told of a chain: the word of the first cause that is not
/// silent.
pub open spec fn message_of(layers: Seq<Layer>) -> MessageView
    decreases layers.len(),
{
    if layers.len() == 0 {
        MessageView::Nothing
    } else if is_silent(layers[0].cause) {
        message_of(layers.drop_first())
    } else {
        cause_message(layers[0].cause)
    }
}

/// What a person is told of an error.
pub fn message<'a>(error: &'a TurnError) -> (m: Message<'a>)
    ensures
        m@ == message_of(error.layers@),
{
    let ghost all = error.layers@;
    assert(all.skip(0) == all);
    for i in 0..error.layers.len()
        invariant
            all == error.layers@,
            message_of(all) == message_of(all.skip(i as int)),
    {
        assert(all.skip(i as int)[0] == all[i as int]);
        assert(all.skip(i as int).drop_first() == all.skip(i + 1));
        match &error.layers[i].cause {
            Cause::SopPhaseIncomplete(_) => {
                return Message::Key("sop-settlement-incomplete");
            },
            Cause::TurnSettlementIncomplete => {
                return Message::Key("turn-settlement-incomplete");
            },
            Cause::ResultBudgetExceeded(_) => {
                return Message::Key("turn-tool-result-budget-exceeded");
            },
            Cause::RetainedToolFailures(f) => {
                return Message::Text(f.summary.as_str());
            },
            Cause::Other(s) => {
                return Message::Text(s.as_str());
            },
            Cause::TurnCompletedAfterInterruption(_) => {},
            Cause::SopDriveInterrupted(_) => {},
            cause => {
                return Message::Own(cause.get_kind());
            },
        }
    }
    Message::Nothing
}

/// Whether two causes hold as much evidence: as many bytes of output, as many
/// failures beside one at the same position, as many results and errors, as many
/// steps, failures, runs and actions.
pub open spec fn as_much(a: Cause, b: Cause) -> bool {
    match (a, b) {
        (
            Cause::TurnCompletedAfterInterruption(x),
            Cause::TurnCompletedAfterInterruption(y),
        ) => text::byte_len(x@) == text::byte_len(y@),
        (Cause::RetainedToolFailures(x), Cause::RetainedToolFailures(y)) => {
            &&& x.primary_call_index == y.primary_call_index
            &&& x.siblings@.len() == y.siblings@.len()
        },
        (Cause::ResultBudgetExceeded(x), Cause::ResultBudgetExceeded(y)) => {
            &&& x.results@.len() == y.results@.len()
            &&& x.errors@.len() == y.errors@.len()
        },
        (Cause::SopDriveInterrupted(x), Cause::SopDriveInterrupted(y)) => {
            &&& x.steps@.len() == y.steps@.len()
            &&& sop_settlement::completed_count(x.steps@) == sop_settlement::completed_count(
                y.steps@,
            )
            &&& sop_settlement::persistence_count(x.steps@) == sop_settlement::persistence_count(
                y.steps@,
            )
            &&& sop_settlement::audit_causes(x.steps@) == sop_settlement::audit_causes(y.steps@)
            &&& sop_settlement::run_ids(x).to_set().len() == sop_settlement::run_ids(
                y,
            ).to_set().len()
            &&& sop_settlement::open_cancellations(x.queued@)
                == sop_settlement::open_cancellations(y.queued@)
            &&& x.queued@.len() == y.queued@.len()
        },
        _ => false,
    }
}

/// Evidence is never shown: whatever outputs, results, errors and actions two
/// causes hold, as long as they hold as much, a developer is shown the same text
/// of both; and an interruption is told of in the words of what interrupted.
pub proof fn law_evidence_is_never_shown(a: Cause, b: Cause, below: Seq<Layer>, context: bool)
    requires
        as_much(a, b),
    ensures
        description(a) is Some,
        description(a) == description(b),
        is_silent(a) ==> message_of(seq![Layer { cause: a, context }] + below) == message_of(below),
{
    let all = seq![Layer { cause: a, context }] + below;
    assert(all.drop_first() =~= below);
}

} // verus!
