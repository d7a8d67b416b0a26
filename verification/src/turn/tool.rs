//! Tool calls and what came of them.

use crate::json;
use crate::text;
use vstd::prelude::*;
use vstd::string::*;

verus! {

/// Why a call that did not succeed failed.
#[derive(Clone, Copy, Debug, PartialEq, Eq, Structural)]
pub enum ToolFailureKind {
    /// The tool ran and failed.
    Ordinary,
    /// The runtime refused the call by policy.
    PolicyDenied,
    /// An operator refused the call.
    OperatorDenied,
}

/// A span of time.
#[derive(Clone, Copy, Debug, PartialEq, Eq, Structural)]
pub struct Elapsed {
    pub secs: u64,
    pub nanos: u32,
}

/// What came of one tool call. `output_data` is JSON text.
pub struct ToolExecutionOutcome {
    pub output: String,
    pub output_data: Option<String>,
    pub success: bool,
    pub error_reason: Option<String>,
    pub failure_kind: Option<ToolFailureKind>,
    pub duration: Elapsed,
    pub receipt: Option<String>,
}

/// A tool call that a model asked for. `arguments` is JSON text.
pub struct ParsedToolCall {
    pub name: String,
    pub arguments: String,
    pub tool_call_id: Option<String>,
}

/// The results of one batch, each at the position of its call.
pub type OrderedResults = Vec<Option<(String, Option<String>, ToolExecutionOutcome)>>;

/// The characters of an optional string.
pub open spec fn opt(s: Option<String>) -> Option<Seq<char>> {
    match s {
        Some(s) => Some(s@),
        None => None,
    }
}

/// A copy of an optional string.
pub(crate) fn copy_opt(s: &Option<String>) -> (r: Option<String>)
    ensures
        opt(r) == opt(*s),
{
    match s {
        Some(s) => Some(s.clone()),
        None => None,
    }
}

/// The model of an outcome.
pub struct OutcomeView {
    pub output: Seq<char>,
    pub output_data: Option<Seq<char>>,
    pub success: bool,
    pub error_reason: Option<Seq<char>>,
    pub failure_kind: Option<ToolFailureKind>,
    pub duration: Elapsed,
    pub receipt: Option<Seq<char>>,
}

impl View for ToolExecutionOutcome {
    type V = OutcomeView;

    open spec fn view(&self) -> OutcomeView {
        OutcomeView {
            output: self.output@,
            output_data: opt(self.output_data),
            success: self.success,
            error_reason: opt(self.error_reason),
            failure_kind: self.failure_kind,
            duration: self.duration,
            receipt: opt(self.receipt),
        }
    }
}

/// The model of one result.
pub struct ResultView {
    pub name: Seq<char>,
    pub id: Option<Seq<char>>,
    pub outcome: OutcomeView,
}

/// The model of a filled slot.
pub open spec fn result_view(r: (String, Option<String>, ToolExecutionOutcome)) -> ResultView {
    ResultView { name: r.0@, id: opt(r.1), outcome: r.2@ }
}

/// The model of a slot.
pub open spec fn slot_view(
    slot: Option<(String, Option<String>, ToolExecutionOutcome)>,
) -> Option<ResultView> {
    match slot {
        Some(r) => Some(result_view(r)),
        None => None,
    }
}

/// The model of a batch.
pub open spec fn batch_view(
    slots: Seq<Option<(String, Option<String>, ToolExecutionOutcome)>>,
) -> Seq<Option<ResultView>> {
    slots.map_values(
        |s: Option<(String, Option<String>, ToolExecutionOutcome)>| slot_view(s),
    )
}

/// An optional string as JSON text.
pub open spec fn opt_json(s: Option<Seq<char>>) -> Seq<char> {
    match s {
        Some(s) => json::string_json(s),
        None => "null"@,
    }
}

/// A truth value as JSON text.
pub open spec fn bool_json(b: bool) -> Seq<char> {
    if b {
        "true"@
    } else {
        "false"@
    }
}

/// The name that a failure kind has in JSON text.
pub open spec fn kind_json(kind: Option<ToolFailureKind>) -> Seq<char> {
    match kind {
        None => "null"@,
        Some(ToolFailureKind::Ordinary) => "\"ordinary\""@,
        Some(ToolFailureKind::PolicyDenied) => "\"policy_denied\""@,
        Some(ToolFailureKind::OperatorDenied) => "\"operator_denied\""@,
    }
}

/// A time span as JSON text.
pub open spec fn elapsed_json(d: Elapsed) -> Seq<char> {
    "{\"secs\":"@ + text::decimal(d.secs as nat) + ",\"nanos\":"@ + text::decimal(d.nanos as nat)
        + "}"@
}

/// An outcome as JSON text.
pub open spec fn outcome_json(o: OutcomeView) -> Seq<char> {
    "{\"output\":"@ + json::string_json(o.output) + ",\"output_data\":"@ + (match o.output_data {
        Some(data) => data,
        None => "null"@,
    }) + ",\"success\":"@ + bool_json(o.success) + ",\"error_reason\":"@ + opt_json(o.error_reason)
        + ",\"failure_kind\":"@ + kind_json(o.failure_kind) + ",\"duration\":"@ + elapsed_json(
        o.duration,
    ) + ",\"receipt\":"@ + opt_json(o.receipt) + "}"@
}

/// A result as JSON text: its name, its call's identifier, and its outcome.
pub open spec fn result_json(r: ResultView) -> Seq<char> {
    "["@ + json::string_json(r.name) + ","@ + opt_json(r.id) + ","@ + outcome_json(r.outcome) + "]"@
}

/// A slot as JSON text.
pub open spec fn slot_json(slot: Option<ResultView>) -> Seq<char> {
    match slot {
        Some(r) => result_json(r),
        None => "null"@,
    }
}

/// The slots as JSON text, each after the first preceded by a comma.
pub open spec fn slots_json(slots: Seq<Option<ResultView>>) -> Seq<char>
    decreases slots.len(),
{
    if slots.len() == 0 {
        Seq::empty()
    } else if slots.len() == 1 {
        slot_json(slots[0])
    } else {
        slots_json(slots.drop_last()) + ","@ + slot_json(slots.last())
    }
}

/// A batch as JSON text.
pub open spec fn batch_json(slots: Seq<Option<ResultView>>) -> Seq<char> {
    "["@ + slots_json(slots) + "]"@
}

/// Appends a truth value as JSON text.
pub(crate) fn push_bool(out: &mut String, b: bool)
    ensures
        final(out)@ == old(out)@ + bool_json(b),
{
    if b {
        out.append("true");
    } else {
        out.append("false");
    }
}

/// Appends an optional string as JSON text.
pub(crate) fn push_opt(out: &mut String, s: &Option<String>)
    ensures
        final(out)@ == old(out)@ + opt_json(opt(*s)),
{
    match s {
        Some(s) => {
            let t: String = json::string_text(s.as_str());
            out.append(t.as_str());
        },
        None => {
            out.append("null");
        },
    }
}

/// The JSON text of an outcome.
pub fn outcome_text(o: &ToolExecutionOutcome) -> (out: String)
    ensures
        out@ == outcome_json(o@),
{
    let mut out: String = String::new();
    out.append("{\"output\":");
    let t: String = json::string_text(o.output.as_str());
    out.append(t.as_str());
    out.append(",\"output_data\":");
    match &o.output_data {
        Some(data) => {
            out.append(data.as_str());
        },
        None => {
            out.append("null");
        },
    }
    out.append(",\"success\":");
    out.append(
        if o.success {
            "true"
        } else {
            "false"
        },
    );
    out.append(",\"error_reason\":");
    push_opt(&mut out, &o.error_reason);
    out.append(",\"failure_kind\":");
    out.append(
        match o.failure_kind {
            None => "null",
            Some(ToolFailureKind::Ordinary) => "\"ordinary\"",
            Some(ToolFailureKind::PolicyDenied) => "\"policy_denied\"",
            Some(ToolFailureKind::OperatorDenied) => "\"operator_denied\"",
        },
    );
    out.append(",\"duration\":");
    out.append("{\"secs\":");
    let t: String = text::decimal_of(o.duration.secs);
    out.append(t.as_str());
    out.append(",\"nanos\":");
    let t: String = text::decimal_of(o.duration.nanos as u64);
    out.append(t.as_str());
    out.append("}");
    out.append(",\"receipt\":");
    push_opt(&mut out, &o.receipt);
    out.append("}");
    assert(out@ =~= outcome_json(o@));
    out
}

/// The JSON text of a result.
pub fn result_text(r: &(String, Option<String>, ToolExecutionOutcome)) -> (out: String)
    ensures
        out@ == result_json(result_view(*r)),
{
    let mut out: String = String::new();
    out.append("[");
    let t: String = json::string_text(r.0.as_str());
    out.append(t.as_str());
    out.append(",");
    push_opt(&mut out, &r.1);
    out.append(",");
    let t: String = outcome_text(&r.2);
    out.append(t.as_str());
    out.append("]");
    assert(out@ =~= result_json(result_view(*r)));
    out
}

/// The JSON text of a batch.
pub fn batch_text(slots: &OrderedResults) -> (out: String)
    ensures
        out@ == batch_json(batch_view(slots@)),
{
    let mut out: String = String::new();
    out.append("[");
    let ghost views = batch_view(slots@);
    for i in 0..slots.len()
        invariant
            views == batch_view(slots@),
            out@ == "["@ + slots_json(views.take(i as int)),
    {
        let ghost before = views.take(i as int);
        let ghost after = views.take(i + 1);
        assert(after.drop_last() == before);
        assert(after.last() == slot_view(slots@[i as int]));
        if i > 0 {
            out.append(",");
        }
        match &slots[i] {
            Some(r) => {
                let t: String = result_text(r);
                out.append(t.as_str());
            },
            None => {
                out.append("null");
            },
        }
        assert(i == 0 ==> slots_json(before) =~= Seq::<char>::empty());
        assert(i == 0 ==> after[0] == after.last());
        assert(out@ =~= "["@ + slots_json(after));
    }
    assert(views.take(slots.len() as int) == views);
    out.append("]");
    out
}

} // verus!
