//! What holds of the approval of a tool call, told by the operator's own answer.

use crate::turn::approval_gate::{
    await_approval, gate_tool_approval, whom_to_ask, ApprovalGateOutcome, ApprovalRequirement,
    ApprovalResponse, AttributedApprovalResponse, ChannelApprovalResponse, GateVerdict, Question,
    Reply,
};
use crate::turn::error;
use crate::turn::error::TurnError;
use crate::turn::tool::{ToolExecutionOutcome, ToolFailureKind};
use vstd::prelude::*;
use vstd::string::*;

verus! {

/// Whether an outcome tells the model of a refusal in the given words.
pub open spec fn refuses(o: ToolExecutionOutcome, words: Seq<char>, kind: ToolFailureKind) -> bool {
    &&& !o.success
    &&& o.output@ == words
    &&& o.error_reason matches Some(reason) && reason@ == words
    &&& o.failure_kind == Some(kind)
    &&& o.output_data is None
    &&& o.receipt is None
    &&& o.duration.secs == 0
    &&& o.duration.nanos == 0
}

/// Whether a verdict is the runtime's own refusal of a tool, put on record as a no.
pub open spec fn refused_by_policy(v: GateVerdict, tool: Seq<char>) -> bool {
    let words = "Tool call not executed: '"@ + tool
        + "' requires approval and no operator decision was available, so the runtime denied it by policy. This was not a user's decision."@;
    &&& v.recorded matches Some(d) && d.response is No
    &&& v.outcome matches ApprovalGateOutcome::Deny(o) && refuses(
        o,
        words,
        ToolFailureKind::PolicyDenied,
    )
    &&& v.status matches Some(line) && line@ == "\u{274c} "@ + tool + ": "@ + words + "\n"@
}

/// Whether a verdict is an operator's refusal of a tool, put on record as a no.
pub open spec fn refused_by_operator(v: GateVerdict, tool: Seq<char>) -> bool {
    let words = "Denied by user. The operator was asked to approve '"@ + tool
        + "' and declined, so the call did not run. Tell the user the request was declined. Do not retry this call and do not speculate about why it was declined."@;
    &&& v.recorded matches Some(d) && d.response is No
    &&& v.outcome matches ApprovalGateOutcome::Deny(o) && refuses(
        o,
        words,
        ToolFailureKind::OperatorDenied,
    )
    &&& v.status matches Some(line) && line@ == "\u{274c} "@ + tool + ": "@ + words + "\n"@
}

/// Whether a verdict puts a text in the place of a call's output.
pub open spec fn replaced(v: GateVerdict, tool: Seq<char>, replacement: Seq<char>, shown: Seq<char>) -> bool {
    &&& v.recorded matches Some(d) && (d.response matches ApprovalResponse::ReplaceWith(text)
        && text@ == replacement)
    &&& v.outcome matches ApprovalGateOutcome::Replace(o) && {
        &&& o.success
        &&& o.output@ == shown
        &&& o.error_reason is None
        &&& o.failure_kind is None
        &&& o.output_data is None
        &&& o.receipt is None
        &&& o.duration.secs == 0
        &&& o.duration.nanos == 0
    }
    &&& v.status matches Some(line) && line@ == "\u{270f} "@ + tool + ": replaced by user\n"@
}

/// A tool that needs no decision runs, as an approved one exactly if it was
/// approved before; nothing is recorded or shown, whatever was replied.
pub proof fn law_tools_without_a_prompt_proceed(
    requirement: Option<ApprovalRequirement>,
    reply: Reply,
    tool: &str,
    channel: &str,
    sanitized: String,
    r: Result<GateVerdict, TurnError>,
)
    requires
        requirement is None || requirement == Some(ApprovalRequirement::NotRequired) || requirement
            == Some(ApprovalRequirement::Approved),
        call_ensures(gate_tool_approval, (requirement, reply, tool, channel, sanitized), r),
    ensures
        r matches Ok(v) && v.recorded is None && v.status is None && (
        v.outcome matches ApprovalGateOutcome::Proceed { approved } && (approved <==> requirement
            == Some(ApprovalRequirement::Approved))),
{
}

/// Where a tool needs a decision, the operator's answer on the channel is what
/// happens: an approval lets the call proceed as approved, a refusal denies it, an
/// edit takes the place of its output. The answer is recorded under the channel
/// that gave it. A refusal that the runtime made up is told as the policy's.
pub proof fn law_the_channel_answer_decides(
    a: AttributedApprovalResponse,
    tool: &str,
    channel: &str,
    sanitized: String,
    r: Result<GateVerdict, TurnError>,
)
    requires
        call_ensures(
            gate_tool_approval,
            (
                Some(ApprovalRequirement::Prompt),
                Reply::Channel(Ok(Some(a))),
                tool,
                channel,
                sanitized,
            ),
            r,
        ),
    ensures
        r is Ok,
        r->Ok_0.recorded matches Some(d) && (match a.decided_by {
            Some(by) => d.channel@ == by@,
            None => d.channel@ == channel@,
        }),
        a.response is Approve ==> r->Ok_0.outcome == (ApprovalGateOutcome::Proceed {
            approved: true,
        }) && r->Ok_0.recorded->0.response is Yes && r->Ok_0.status is None,
        a.response is AlwaysApprove ==> r->Ok_0.outcome == (ApprovalGateOutcome::Proceed {
            approved: true,
        }) && r->Ok_0.recorded->0.response is Always && r->Ok_0.status is None,
        a.response is Deny && a.runtime_fail_closed ==> refused_by_policy(r->Ok_0, tool@),
        a.response is Deny && !a.runtime_fail_closed ==> refused_by_operator(r->Ok_0, tool@),
        a.response matches ChannelApprovalResponse::DenyWithEdit { replacement } ==> replaced(
            r->Ok_0,
            tool@,
            replacement@,
            sanitized@,
        ),
{
}

/// Where a tool needs a decision, the operator's answer at the terminal is what
/// happens, and is recorded under the turn's own channel.
pub proof fn law_the_terminal_answer_decides(
    answer: ApprovalResponse,
    tool: &str,
    channel: &str,
    sanitized: String,
    r: Result<GateVerdict, TurnError>,
)
    requires
        call_ensures(
            gate_tool_approval,
            (
                Some(ApprovalRequirement::Prompt),
                Reply::Terminal(Ok(Ok(answer))),
                tool,
                channel,
                sanitized,
            ),
            r,
        ),
    ensures
        r is Ok,
        r->Ok_0.recorded matches Some(d) && d.channel@ == channel@,
        answer is Yes ==> r->Ok_0.outcome == (ApprovalGateOutcome::Proceed { approved: true })
            && r->Ok_0.recorded->0.response is Yes && r->Ok_0.status is None,
        answer is Always ==> r->Ok_0.outcome == (ApprovalGateOutcome::Proceed { approved: true })
            && r->Ok_0.recorded->0.response is Always && r->Ok_0.status is None,
        answer is No ==> refused_by_operator(r->Ok_0, tool@),
        answer matches ApprovalResponse::ReplaceWith(replacement) ==> replaced(
            r->Ok_0,
            tool@,
            replacement@,
            sanitized@,
        ),
{
}

/// Where a tool needs a decision and there is no answer, it is denied by policy:
/// nobody was asked, the channel cannot ask, asking it failed, or the terminal
/// could not be read.
pub proof fn law_no_answer_denies(
    reply: Reply,
    tool: &str,
    channel: &str,
    sanitized: String,
    r: Result<GateVerdict, TurnError>,
)
    requires
        reply is Unasked || reply == Reply::Channel(Ok(None)) || (reply matches Reply::Terminal(
            Ok(answer),
        ) && answer is Err) || (reply matches Reply::Channel(Err(e)) && forall|i: int|
            0 <= i < e.layers@.len() ==> !((#[trigger] e.layers@[i]).cause is ToolLoopCancelled)
                && !(e.layers@[i].cause is EstopInterrupted)),
        call_ensures(
            gate_tool_approval,
            (Some(ApprovalRequirement::Prompt), reply, tool, channel, sanitized),
            r,
        ),
    ensures
        r matches Ok(v) && refused_by_policy(v, tool@) && v.recorded->0.channel@ == channel@,
{
}

/// A wait that was cancelled decides nothing: the call neither proceeds nor is
/// denied, nothing is recorded, and the error is handed on as it is. So is every
/// other error of a wait for the terminal.
pub proof fn law_a_cancelled_wait_ends_with_its_error(
    e: TurnError,
    tool: &str,
    channel: &str,
    sanitized: String,
    i: int,
    on_channel: Result<GateVerdict, TurnError>,
    at_terminal: Result<GateVerdict, TurnError>,
)
    requires
        call_ensures(
            gate_tool_approval,
            (Some(ApprovalRequirement::Prompt), Reply::Channel(Err(e)), tool, channel, sanitized),
            on_channel,
        ),
        call_ensures(
            gate_tool_approval,
            (Some(ApprovalRequirement::Prompt), Reply::Terminal(Err(e)), tool, channel, sanitized),
            at_terminal,
        ),
    ensures
        at_terminal == Err::<GateVerdict, TurnError>(e),
        0 <= i < e.layers@.len() && (e.layers@[i].cause is ToolLoopCancelled
            || e.layers@[i].cause is EstopInterrupted) && (i == 0 || !e.layers@[i].context)
            ==> on_channel == Err::<GateVerdict, TurnError>(e),
{
    if 0 <= i < e.layers@.len() && (i == 0 || !e.layers@[i].context) {
        let k = e.layers@[i].cause.kind();
        if i == 0 {
            assert(error::downcasts(e.layers@, k));
        } else {
            assert(error::in_sources(e.layers@, k));
        }
    }
}

/// What a wait for approval ends with, if anything went wrong: its own error first,
/// then the emergency stop's, then the cancellation of the turn. Only where nothing
/// did is there an answer.
pub proof fn law_an_answer_needs_an_undisturbed_wait<T>(
    wait: Result<T, TurnError>,
    estop: Result<(), TurnError>,
    cancelled: bool,
    r: Result<T, TurnError>,
)
    requires
        call_ensures(await_approval::<T>, (wait, estop, cancelled), r),
    ensures
        r is Ok <==> wait is Ok && estop is Ok && !cancelled,
        r matches Ok(answer) ==> wait == Ok::<T, TurnError>(answer),
        wait matches Err(e) ==> r == Err::<T, TurnError>(e),
        wait is Ok && estop is Err ==> r->Err_0 == estop->Err_0,
        wait is Ok && estop is Ok && cancelled ==> r->Err_0.layers@.len() == 1
            && r->Err_0.layers@[0].cause is ToolLoopCancelled && !r->Err_0.layers@[0].context,
{
}

/// An operator is asked only where the policy demands it: at the terminal where
/// there is one, else on the channel, if there is one.
pub proof fn law_operators_are_asked_on_demand(
    requirement: Option<ApprovalRequirement>,
    non_interactive: bool,
    has_channel: bool,
    q: Question,
)
    requires
        call_ensures(whom_to_ask, (requirement, non_interactive, has_channel), q),
    ensures
        q is Nobody <==> requirement != Some(ApprovalRequirement::Prompt),
        q is Terminal <==> requirement == Some(ApprovalRequirement::Prompt) && !non_interactive,
        q is Channel <==> requirement == Some(ApprovalRequirement::Prompt) && non_interactive
            && has_channel,
        q is Unreachable <==> requirement == Some(ApprovalRequirement::Prompt) && non_interactive
            && !has_channel,
{
}

} // verus!
