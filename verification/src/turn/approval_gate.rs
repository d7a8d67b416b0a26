//! The per-tool-call approval gate: CLI prompt, channel inline approval, or
//! automatic denial, and what is recorded of the decision.

use crate::turn::error;
use crate::turn::error::{Cause, TurnError};
use crate::turn::tool;
use crate::turn::tool::{Elapsed, ToolExecutionOutcome, ToolFailureKind};
use vstd::prelude::*;
use vstd::string::*;

verus! {

/// What the approval policy says of a tool.
#[derive(Clone, Copy, Debug, PartialEq, Eq, Structural)]
pub enum ApprovalRequirement {
    /// The tool runs without approval.
    NotRequired,
    /// The tool has been approved before.
    Approved,
    /// An operator has to be asked.
    Prompt,
}

/// A decision on a call.
#[derive(Clone, Debug)]
pub enum ApprovalResponse {
    Yes,
    Always,
    No,
    /// The call is not run; this text takes the place of its output.
    ReplaceWith(String),
}

/// What an operator answers on a channel.
pub enum ChannelApprovalResponse {
    Approve,
    AlwaysApprove,
    Deny,
    DenyWithEdit { replacement: String },
}

/// An answer with where it came from.
pub struct AttributedApprovalResponse {
    pub response: ChannelApprovalResponse,
    /// The back-channel that decided, where a fan-out bridge answered.
    pub decided_by: Option<String>,
    /// Whether the runtime itself denied because no approver could be reached.
    pub runtime_fail_closed: bool,
}

/// Who is asked.
#[derive(Clone, Copy, Debug, PartialEq, Eq, Structural)]
pub enum Question {
    /// Nobody: no decision is needed.
    Nobody,
    /// The operator on the channel.
    Channel,
    /// Nobody: a decision is needed and there is no channel to ask on.
    Unreachable,
    /// The operator at the terminal.
    Terminal,
}

/// What came back.
pub enum Reply {
    /// Nobody was asked.
    Unasked,
    /// The channel's answer; none where it does not support approval.
    Channel(Result<Option<AttributedApprovalResponse>, TurnError>),
    /// The terminal's answer; the inner error says that it could not be read.
    Terminal(Result<Result<ApprovalResponse, String>, TurnError>),
}

/// What an approval lets happen.
pub enum ApprovalGateOutcome {
    Proceed { approved: bool },
    Deny(ToolExecutionOutcome),
    Replace(ToolExecutionOutcome),
}

/// A decision as it is recorded.
pub struct RecordedDecision {
    pub response: ApprovalResponse,
    /// The channel that the decision is attributed to.
    pub channel: String,
}

/// What an approval does: the decision to record, the status line to show, and
/// what happens to the call.
pub struct GateVerdict {
    pub recorded: Option<RecordedDecision>,
    pub status: Option<String>,
    pub outcome: ApprovalGateOutcome,
}

/// Whom to ask: nobody unless the policy demands a prompt.
pub open spec fn question(
    requirement: Option<ApprovalRequirement>,
    non_interactive: bool,
    has_channel: bool,
) -> Question {
    if requirement == Some(ApprovalRequirement::Prompt) {
        if !non_interactive {
            Question::Terminal
        } else if has_channel {
            Question::Channel
        } else {
            Question::Unreachable
        }
    } else {
        Question::Nobody
    }
}

/// Whom to ask about a tool. `requirement` is the policy's word on it, none where
/// there is no policy.
pub fn whom_to_ask(
    requirement: Option<ApprovalRequirement>,
    non_interactive: bool,
    has_channel: bool,
) -> (q: Question)
    ensures
        q == question(requirement, non_interactive, has_channel),
{
    match requirement {
        Some(ApprovalRequirement::Prompt) => if !non_interactive {
            Question::Terminal
        } else if has_channel {
            Question::Channel
        } else {
            Question::Unreachable
        },
        _ => Question::Nobody,
    }
}

/// The end of a wait for approval: an error of the wait, else the word of the
/// emergency stop, else a cancellation, else the answer. Nothing that ends here
/// with an error has been decided.
pub fn await_approval<T>(
    wait: Result<T, TurnError>,
    estop: Result<(), TurnError>,
    cancelled: bool,
) -> (r: Result<T, TurnError>)
    ensures
        wait is Err ==> r == wait,
        (wait is Ok && estop is Err) ==> (r matches Err(e) && e == estop->Err_0),
        (wait is Ok && estop is Ok && cancelled) ==> (r matches Err(e) && e.layers@ == seq![
            error::Layer { cause: Cause::ToolLoopCancelled, context: false },
        ]),
        (wait is Ok && estop is Ok && !cancelled) ==> r == wait,
{
    let answer: T = match wait {
        Ok(answer) => answer,
        Err(e) => {
            return Err(e);
        },
    };
    if let Err(e) = estop {
        return Err(e);
    }
    if cancelled {
        return Err(TurnError::new(Cause::ToolLoopCancelled));
    }
    Ok(answer)
}

/// The model of a decision.
pub enum DecisionView {
    Yes,
    Always,
    No,
    ReplaceWith(Seq<char>),
}

impl View for ApprovalResponse {
    type V = DecisionView;

    open spec fn view(&self) -> DecisionView {
        match *self {
            ApprovalResponse::Yes => DecisionView::Yes,
            ApprovalResponse::Always => DecisionView::Always,
            ApprovalResponse::No => DecisionView::No,
            ApprovalResponse::ReplaceWith(s) => DecisionView::ReplaceWith(s@),
        }
    }
}

/// A decision, the channel that made it where it named itself, and whether the
/// runtime decided because nobody could be asked.
pub struct Decided {
    pub decision: DecisionView,
    pub decided_by: Option<Seq<char>>,
    pub unanswerable: bool,
}

/// What an answer on a channel means.
pub open spec fn channel_decision(a: AttributedApprovalResponse) -> DecisionView {
    match a.response {
        ChannelApprovalResponse::Approve => DecisionView::Yes,
        ChannelApprovalResponse::AlwaysApprove => DecisionView::Always,
        ChannelApprovalResponse::Deny => DecisionView::No,
        ChannelApprovalResponse::DenyWithEdit { replacement } => DecisionView::ReplaceWith(
            replacement@,
        ),
    }
}

/// What a reply decides; nothing where the wait was cancelled, or where the
/// terminal could not be waited for.
pub open spec fn decided(reply: Reply) -> Option<Decided> {
    match reply {
        Reply::Channel(Ok(Some(a))) => Some(
            Decided {
                decision: channel_decision(a),
                decided_by: tool::opt(a.decided_by),
                unanswerable: a.runtime_fail_closed,
            },
        ),
        Reply::Channel(Err(e)) => if error::is_cancelled(e.layers@) {
            None
        } else {
            Some(Decided { decision: DecisionView::No, decided_by: None, unanswerable: true })
        },
        Reply::Terminal(Ok(Ok(response))) => Some(
            Decided { decision: response@, decided_by: None, unanswerable: false },
        ),
        Reply::Terminal(Err(_)) => None,
        _ => Some(Decided { decision: DecisionView::No, decided_by: None, unanswerable: true }),
    }
}

/// The error that a reply ends the wait with.
pub open spec fn reply_error(reply: Reply) -> Option<TurnError> {
    match reply {
        Reply::Channel(Err(e)) => if error::is_cancelled(e.layers@) {
            Some(e)
        } else {
            None
        },
        Reply::Terminal(Err(e)) => Some(e),
        _ => None,
    }
}

/// What the model is told of a denial.
pub open spec fn denial_text(tool: Seq<char>, unanswerable: bool) -> Seq<char> {
    if unanswerable {
        "Tool call not executed: '"@ + tool
            + "' requires approval and no operator decision was available, so the runtime denied it by policy. This was not a user's decision."@
    } else {
        "Denied by user. The operator was asked to approve '"@ + tool
            + "' and declined, so the call did not run. Tell the user the request was declined. Do not retry this call and do not speculate about why it was declined."@
    }
}

/// The outcome of a denied call.
pub open spec fn denial_outcome(tool: Seq<char>, unanswerable: bool) -> tool::OutcomeView {
    tool::OutcomeView {
        output: denial_text(tool, unanswerable),
        output_data: None,
        success: false,
        error_reason: Some(denial_text(tool, unanswerable)),
        failure_kind: Some(
            if unanswerable {
                ToolFailureKind::PolicyDenied
            } else {
                ToolFailureKind::OperatorDenied
            },
        ),
        duration: Elapsed { secs: 0, nanos: 0 },
        receipt: None,
    }
}

/// The outcome of a call that an operator replaced.
pub open spec fn replacement_outcome(sanitized: Seq<char>) -> tool::OutcomeView {
    tool::OutcomeView {
        output: sanitized,
        output_data: None,
        success: true,
        error_reason: None,
        failure_kind: None,
        duration: Elapsed { secs: 0, nanos: 0 },
        receipt: None,
    }
}

/// The model of what an approval lets happen.
pub enum OutcomeModel {
    Proceed { approved: bool },
    Deny(tool::OutcomeView),
    Replace(tool::OutcomeView),
}

impl View for ApprovalGateOutcome {
    type V = OutcomeModel;

    open spec fn view(&self) -> OutcomeModel {
        match *self {
            ApprovalGateOutcome::Proceed { approved } => OutcomeModel::Proceed { approved },
            ApprovalGateOutcome::Deny(o) => OutcomeModel::Deny(o@),
            ApprovalGateOutcome::Replace(o) => OutcomeModel::Replace(o@),
        }
    }
}

/// The model of the verdict.
pub struct VerdictView {
    pub recorded: Option<(DecisionView, Seq<char>)>,
    pub status: Option<Seq<char>>,
    pub outcome: OutcomeModel,
}

impl View for GateVerdict {
    type V = VerdictView;

    open spec fn view(&self) -> VerdictView {
        VerdictView {
            recorded: match self.recorded {
                Some(d) => Some((d.response@, d.channel@)),
                None => None,
            },
            status: tool::opt(self.status),
            outcome: self.outcome@,
        }
    }
}

/// What follows from a decision.
pub open spec fn verdict_of(
    d: Decided,
    tool: Seq<char>,
    channel: Seq<char>,
    sanitized: Seq<char>,
) -> VerdictView {
    VerdictView {
        recorded: Some(
            (
                d.decision,
                match d.decided_by {
                    Some(c) => c,
                    None => channel,
                },
            ),
        ),
        status: match d.decision {
            DecisionView::No => Some(
                "\u{274c} "@ + tool + ": "@ + denial_text(tool, d.unanswerable) + "\n"@,
            ),
            DecisionView::ReplaceWith(_) => Some(
                "\u{270f} "@ + tool + ": replaced by user\n"@,
            ),
            _ => None,
        },
        outcome: match d.decision {
            DecisionView::No => OutcomeModel::Deny(denial_outcome(tool, d.unanswerable)),
            DecisionView::ReplaceWith(_) => OutcomeModel::Replace(replacement_outcome(sanitized)),
            _ => OutcomeModel::Proceed { approved: true },
        },
    }
}

/// The verdict where no decision is needed.
pub open spec fn undecided_verdict(requirement: Option<ApprovalRequirement>) -> VerdictView {
    VerdictView {
        recorded: None,
        status: None,
        outcome: OutcomeModel::Proceed {
            approved: requirement == Some(ApprovalRequirement::Approved),
        },
    }
}

/// Decides on what the operator replied. `requirement` is the policy's
/// word on the tool, none where there is no policy; `sanitized` is the
/// replacement in sanitized form, where the reply holds one. An error leaves
/// nothing recorded.
pub fn gate_tool_approval(
    requirement: Option<ApprovalRequirement>,
    reply: Reply,
    tool_name: &str,
    channel_name: &str,
    sanitized: String,
) -> (r: Result<GateVerdict, TurnError>)
    ensures
        requirement != Some(ApprovalRequirement::Prompt) ==> (r matches Ok(v) && v@
            == undecided_verdict(requirement)),
        requirement == Some(ApprovalRequirement::Prompt) ==> (match decided(reply) {
            Some(d) => r matches Ok(v) && v@ == verdict_of(
                d,
                tool_name@,
                channel_name@,
                sanitized@,
            ),
            None => r matches Err(e) && Some(e) == reply_error(reply),
        }),
{
    match requirement {
        Some(ApprovalRequirement::Prompt) => {},
        Some(ApprovalRequirement::Approved) => {
            return Ok(
                GateVerdict {
                    recorded: None,
                    status: None,
                    outcome: ApprovalGateOutcome::Proceed { approved: true },
                },
            );
        },
        _ => {
            return Ok(
                GateVerdict {
                    recorded: None,
                    status: None,
                    outcome: ApprovalGateOutcome::Proceed { approved: false },
                },
            );
        },
    }
    let (response, decided_by, unanswerable): (ApprovalResponse, Option<String>, bool) =
        match reply {
        Reply::Unasked => (ApprovalResponse::No, None, true),
        Reply::Channel(Ok(None)) => (ApprovalResponse::No, None, true),
        Reply::Channel(Ok(Some(a))) => {
            let AttributedApprovalResponse { response, decided_by, runtime_fail_closed } = a;
            let response: ApprovalResponse = match response {
                ChannelApprovalResponse::Approve => ApprovalResponse::Yes,
                ChannelApprovalResponse::AlwaysApprove => ApprovalResponse::Always,
                ChannelApprovalResponse::Deny => ApprovalResponse::No,
                ChannelApprovalResponse::DenyWithEdit { replacement } =>
                    ApprovalResponse::ReplaceWith(replacement),
            };
            (response, decided_by, runtime_fail_closed)
        },
        Reply::Channel(Err(e)) => {
            if error::is_tool_loop_cancelled(&e) {
                return Err(e);
            }
            (ApprovalResponse::No, None, true)
        },
        Reply::Terminal(Ok(Ok(response))) => (response, None, false),
        Reply::Terminal(Ok(Err(_))) => (ApprovalResponse::No, None, true),
        Reply::Terminal(Err(e)) => {
            return Err(e);
        },
    };
    let ghost d = Decided {
        decision: response@,
        decided_by: tool::opt(decided_by),
        unanswerable,
    };
    assert(decided(reply) == Some(d));
    let channel: String = match decided_by {
        Some(c) => c,
        None => channel_name.to_owned(),
    };
    let (status, outcome): (Option<String>, ApprovalGateOutcome) = match &response {
        ApprovalResponse::No => {
            let mut denied: String = String::new();
            if unanswerable {
                denied.append("Tool call not executed: '");
                denied.append(tool_name);
                denied.append(
                    "' requires approval and no operator decision was available, so the runtime denied it by policy. This was not a user's decision.",
                );
            } else {
                denied.append("Denied by user. The operator was asked to approve '");
                denied.append(tool_name);
                denied.append(
                    "' and declined, so the call did not run. Tell the user the request was declined. Do not retry this call and do not speculate about why it was declined.",
                );
            }
            assert(denied@ =~= denial_text(tool_name@, unanswerable));
            let mut line: String = "\u{274c} ".to_owned();
            line.append(tool_name);
            line.append(": ");
            line.append(denied.as_str());
            line.append("\n");
            let failure_kind: ToolFailureKind = if unanswerable {
                ToolFailureKind::PolicyDenied
            } else {
                ToolFailureKind::OperatorDenied
            };
            (
                Some(line),
                ApprovalGateOutcome::Deny(
                    ToolExecutionOutcome {
                        output: denied.clone(),
                        output_data: None,
                        success: false,
                        error_reason: Some(denied),
                        failure_kind: Some(failure_kind),
                        duration: Elapsed { secs: 0, nanos: 0 },
                        receipt: None,
                    },
                ),
            )
        },
        ApprovalResponse::ReplaceWith(_) => {
            let mut line: String = "\u{270f} ".to_owned();
            line.append(tool_name);
            line.append(": replaced by user\n");
            (
                Some(line),
                ApprovalGateOutcome::Replace(
                    ToolExecutionOutcome {
                        output: sanitized,
                        output_data: None,
                        success: true,
                        error_reason: None,
                        failure_kind: None,
                        duration: Elapsed { secs: 0, nanos: 0 },
                        receipt: None,
                    },
                ),
            )
        },
        _ => (None, ApprovalGateOutcome::Proceed { approved: true }),
    };
    Ok(GateVerdict { recorded: Some(RecordedDecision { response, channel }), status, outcome })
}

/// A wait that was cancelled decides nothing: it ends with the cancelling
/// error, and no decision is recorded.
pub proof fn law_cancelled_wait_decides_nothing(e: TurnError)
    requires
        error::is_cancelled(e.layers@),
    ensures
        decided(Reply::Channel(Err(e))) is None,
        reply_error(Reply::Channel(Err(e))) == Some(e),
        decided(Reply::Terminal(Err(e))) is None,
        reply_error(Reply::Terminal(Err(e))) == Some(e),
{
}

/// A denial is put down to the operator only where an operator answered: without
/// an answer, and with an answer that the runtime made up, it is the policy's.
pub proof fn law_denials_name_who_denied(
    reply: Reply,
    tool: Seq<char>,
    channel: Seq<char>,
    sanitized: Seq<char>,
)
    requires
        decided(reply) is Some,
    ensures
        verdict_of(decided(reply)->0, tool, channel, sanitized).outcome matches OutcomeModel::Deny(
            o,
        ) ==> (o.failure_kind == Some(ToolFailureKind::OperatorDenied) <==> (
        (reply matches Reply::Channel(Ok(Some(a))) && !a.runtime_fail_closed) || reply is Terminal
            && reply->Terminal_0->Ok_0 is Ok)),
{
}

/// A call that needs a decision proceeds only on an operator's yes.
pub proof fn law_only_a_yes_proceeds(
    reply: Reply,
    tool: Seq<char>,
    channel: Seq<char>,
    sanitized: Seq<char>,
)
    requires
        decided(reply) is Some,
    ensures
        (verdict_of(decided(reply)->0, tool, channel, sanitized).outcome is Proceed) <==> (
        decided(reply)->0.decision is Yes || decided(reply)->0.decision is Always),
        (verdict_of(decided(reply)->0, tool, channel, sanitized).outcome is Proceed)
            ==> verdict_of(decided(reply)->0, tool, channel, sanitized).outcome
            == (OutcomeModel::Proceed { approved: true }),
{
}

} // verus!
