//! What holds of how executed calls are recorded and put into history, told by the
//! calls and messages themselves.

use crate::json;
use crate::text;
use crate::turn::history_append;
use crate::turn::history_append::{
    append_tool_round_to_history, encoded_message_size, native_tool_result_content, ToolCall,
};
use crate::turn::message;
use crate::turn::message::ChatMessage;
use crate::turn::post_exec;
use crate::turn::post_exec::{record_executed_outcomes, whole_millis, Publication};
use crate::turn::results_collect;
use crate::turn::results_collect::{admit_source_results, ResultBudgetExceeded};
use crate::turn::tool;
use crate::turn::tool::{
    batch_text, outcome_text, result_text, Elapsed, OrderedResults, ParsedToolCall,
    ToolExecutionOutcome, ToolFailureKind,
};
use vstd::prelude::*;
use vstd::string::*;

verus! {

/// An optional string in JSON.
pub open spec fn nullable(s: Option<String>) -> Seq<char> {
    match s {
        Some(s) => json::string_json(s@),
        None => "null"@,
    }
}

/// An outcome is measured with everything that it holds: its output, its data, its
/// success, its error, the kind of its failure, its duration and its receipt.
pub proof fn law_outcomes_are_written_in_full(o: &ToolExecutionOutcome, out: String)
    requires
        call_ensures(outcome_text, (o,), out),
    ensures
        out@ == "{\"output\":"@ + json::string_json(o.output@) + ",\"output_data\":"@ + (
        match o.output_data {
            Some(data) => data@,
            None => "null"@,
        }) + ",\"success\":"@ + (if o.success {
            "true"@
        } else {
            "false"@
        }) + ",\"error_reason\":"@ + nullable(o.error_reason) + ",\"failure_kind\":"@ + (
        match o.failure_kind {
            None => "null"@,
            Some(ToolFailureKind::Ordinary) => "\"ordinary\""@,
            Some(ToolFailureKind::PolicyDenied) => "\"policy_denied\""@,
            Some(ToolFailureKind::OperatorDenied) => "\"operator_denied\""@,
        }) + ",\"duration\":"@ + ("{\"secs\":"@ + text::decimal(o.duration.secs as nat)
            + ",\"nanos\":"@ + text::decimal(o.duration.nanos as nat) + "}"@) + ",\"receipt\":"@
            + nullable(o.receipt) + "}"@,
{
    assert(tool::opt_json(tool::opt(o.error_reason)) == nullable(o.error_reason));
    assert(tool::opt_json(tool::opt(o.receipt)) == nullable(o.receipt));
}

/// A result is measured with its tool's name, the identifier of its call and its
/// outcome.
pub proof fn law_results_are_written_in_full(
    r: &(String, Option<String>, ToolExecutionOutcome),
    outcome: String,
    out: String,
)
    requires
        call_ensures(outcome_text, (&r.2,), outcome),
        call_ensures(result_text, (r,), out),
    ensures
        out@ == "["@ + (json::string_json(r.0@) + (","@ + (nullable(r.1) + (","@ + (outcome@
            + "]"@))))),
{
    assert(out@ =~= "["@ + (json::string_json(r.0@) + (","@ + (nullable(r.1) + (","@ + (outcome@
        + "]"@))))));
}

/// A batch is measured with every slot, an empty one as `null`: one slot more makes
/// it longer by what is written of the slot and a comma.
pub proof fn law_batches_are_written_in_full(
    slots: OrderedResults,
    longer: OrderedResults,
    last: String,
    out: String,
    more: String,
)
    requires
        longer@.len() > 0,
        slots@ == longer@.drop_last(),
        call_ensures(batch_text, (&slots,), out),
        call_ensures(batch_text, (&longer,), more),
        longer@.last() matches Some(r) ==> call_ensures(result_text, (&r,), last),
        longer@.last() is None ==> last@ == "null"@,
    ensures
        slots@.len() == 0 ==> out@ == "[]"@ && more@ == "["@ + last@ + "]"@,
        slots@.len() > 0 ==> more@ == out@.drop_last() + (","@ + last@ + "]"@),
{
    let a = tool::batch_view(slots@);
    let b = tool::batch_view(longer@);
    assert(b.drop_last() =~= a);
    assert(b.last() == tool::slot_view(longer@.last()));
    assert(tool::slot_json(b.last()) == last@);
    reveal_strlit("[");
    reveal_strlit("]");
    reveal_strlit("[]");
    if slots@.len() == 0 {
        assert(b[0] == b.last());
        assert(out@ =~= "[]"@);
        assert(more@ =~= "["@ + last@ + "]"@);
    } else {
        assert(out@.drop_last() =~= "["@ + tool::slots_json(a));
        assert(more@ =~= out@.drop_last() + (","@ + last@ + "]"@));
    }
}

/// The native envelope of a result holds the result and the identifier of its call.
pub proof fn law_native_results_carry_their_identifier(
    id: &Option<String>,
    result: &str,
    out: String,
)
    requires
        call_ensures(native_tool_result_content, (id, result), out),
    ensures
        out@ == "{\"content\":"@ + (json::string_json(result@) + (",\"tool_call_id\":"@ + (nullable(
            *id,
        ) + "}"@))),
{
    assert(out@ =~= "{\"content\":"@ + (json::string_json(result@) + (",\"tool_call_id\":"@ + (
    nullable(*id) + "}"@))));
}

/// A message is measured with its role and its content.
pub proof fn law_messages_are_measured_in_full(m: &ChatMessage, n: usize)
    requires
        call_ensures(encoded_message_size, (m,), n),
    ensures
        n == text::byte_len(
            "{\"role\":"@ + (json::string_json(m.role@) + (",\"content\":"@ + (json::string_json(
                m.content@,
            ) + "}"@))),
        ),
{
    assert(history_append::message_json(m@) =~= "{\"role\":"@ + (json::string_json(m.role@) + (
    ",\"content\":"@ + (json::string_json(m.content@) + "}"@))));
}

/// A round is appended behind what was said before: the assistant's message first,
/// and then the results. With native calls, and without them where native tools are
/// used and every result has its own identifier, each result has a message of its
/// own, in their order, under its own identifier or else that of the call at its
/// place. In all other cases one message of the user tells the results as text.
pub proof fn law_rounds_are_appended(
    history: &mut Vec<ChatMessage>,
    assistant: String,
    calls: &[ToolCall],
    results: &[(Option<String>, String)],
    as_text: &str,
    use_native: bool,
)
    requires
        call_ensures(
            append_tool_round_to_history,
            (history, assistant, calls, results, as_text, use_native),
            (),
        ),
    ensures
        ({
            let n = old(history)@.len() as int;
            let after = final(history)@;
            let native = calls@.len() > 0 || (use_native && results@.len() > 0 && forall|i: int|
                0 <= i < results@.len() ==> (#[trigger] results@[i]).0 is Some);
            &&& forall|i: int|
                0 <= i < n ==> (#[trigger] after[i]).role@ == old(history)@[i].role@
                    && after[i].content@ == old(history)@[i].content@
            &&& after[n].role@ == "assistant"@ && after[n].content@ == assistant@
            &&& native ==> after.len() == n + 1 + results@.len()
            &&& native ==> forall|i: int|
                0 <= i < results@.len() ==> {
                    let m = #[trigger] after[n + 1 + i];
                    let id = if results@[i].0 is Some {
                        json::string_json(results@[i].0->Some_0@)
                    } else if i < calls@.len() {
                        json::string_json(calls@[i].id@)
                    } else {
                        "null"@
                    };
                    &&& m.role@ == "tool"@
                    &&& m.content@ == "{\"content\":"@ + (json::string_json(results@[i].1@) + (
                    ",\"tool_call_id\":"@ + (id + "}"@)))
                }
            &&& !native ==> after.len() == n + 2
            &&& !native ==> after[n + 1].role@ == "user"@ && after[n + 1].content@
                == "[Tool results]\n"@ + as_text@
        }),
{
    let n = old(history)@.len() as int;
    let before = message::conversation(old(history)@);
    let after = message::conversation(final(history)@);
    let ids = history_append::call_ids(calls@);
    let views = history_append::individual_views(results@);
    let tail = history_append::round_messages(ids, views, as_text@, use_native);
    let first = message::MessageView { role: "assistant"@, content: assistant@ };
    assert(after == before + seq![first] + tail);
    assert(ids.len() == calls@.len());
    assert(views.len() == results@.len());
    assert forall|i: int| 0 <= i < results@.len() implies (#[trigger] results@[i]).0 is Some
        <==> views[i].0 is Some by {
        assert(views[i] == history_append::individual_view(results@[i]));
    }
    assert forall|i: int| 0 <= i < views.len() && (#[trigger] views[i]).0 is Some implies results@[i].0
        is Some by {
        assert(views[i] == history_append::individual_view(results@[i]));
    }
    assert forall|i: int| 0 <= i < n implies (#[trigger] final(history)@[i]).role@
        == old(history)@[i].role@ && final(history)@[i].content@ == old(history)@[i].content@ by {
        assert(after[i] == before[i]);
        assert(after[i] == final(history)@[i]@);
    }
    assert(after[n] == first);
    assert(after[n] == final(history)@[n]@);
    let native = calls@.len() > 0 || (use_native && results@.len() > 0 && forall|i: int|
        0 <= i < results@.len() ==> (#[trigger] results@[i]).0 is Some);
    if native {
        assert(tail == history_append::native_messages(views, ids));
        assert forall|i: int| 0 <= i < results@.len() implies {
            let m = #[trigger] final(history)@[n + 1 + i];
            let id = if results@[i].0 is Some {
                json::string_json(results@[i].0->Some_0@)
            } else if i < calls@.len() {
                json::string_json(calls@[i].id@)
            } else {
                "null"@
            };
            &&& m.role@ == "tool"@
            &&& m.content@ == "{\"content\":"@ + (json::string_json(results@[i].1@) + (
            ",\"tool_call_id\":"@ + (id + "}"@)))
        } by {
            assert(after[n + 1 + i] == tail[i]);
            assert(after[n + 1 + i] == final(history)@[n + 1 + i]@);
            assert(views[i] == history_append::individual_view(results@[i]));
            if i < calls@.len() {
                assert(ids[i] == calls@[i].id@);
            }
            let id = tool::opt_json(history_append::resolved_id(views, ids, i));
            assert(tail[i].content =~= "{\"content\":"@ + (json::string_json(results@[i].1@) + (
            ",\"tool_call_id\":"@ + (id + "}"@))));
        }
    } else {
        assert(tail == seq![history_append::prompt_message(as_text@)]);
        assert(after[n + 1] == tail[0]);
        assert(after[n + 1] == final(history)@[n + 1]@);
    }
}

/// A batch is admitted untouched, or moves into the error as it is and leaves
/// nothing behind.
pub proof fn law_batches_are_admitted_or_moved(
    ordered: &mut OrderedResults,
    configured: usize,
    round: usize,
    r: Result<usize, ResultBudgetExceeded>,
)
    requires
        call_ensures(admit_source_results, (ordered, configured, round), r),
    ensures
        r is Ok ==> *final(ordered) == *old(ordered),
        r matches Ok(n) ==> n <= round && (configured == 0 ==> n <= 32768) && (configured > 0 ==> n
            <= configured) && (n == round || n == configured || (configured == 0 && n == 32768)),
        r matches Err(e) ==> e.results == *old(ordered) && e.errors@.len() == 0
            && final(ordered)@.len() == 0,
{
}

/// Each executed call's outcome stands in its slot, under its name and identifier,
/// and every other slot stays as it was; one publication follows for each call, in
/// their order. A batch that does not fit is not published: it moves into the error
/// with all its outcomes.
pub proof fn law_outcomes_stand_in_their_slots(
    indices: &[usize],
    calls: &[ParsedToolCall],
    streamed: &[bool],
    outcomes: Vec<ToolExecutionOutcome>,
    ordered: &mut OrderedResults,
    configured: usize,
    round: usize,
    auxiliary: bool,
    r: Result<Vec<Publication>, ResultBudgetExceeded>,
)
    requires
        indices@.len() <= usize::MAX,
        indices@.len() == calls@.len(),
        indices@.len() == streamed@.len(),
        indices@.len() == outcomes@.len(),
        forall|i: int| 0 <= i < indices@.len() ==> (#[trigger] indices@[i]) < old(ordered)@.len(),
        forall|i: int, j: int|
            0 <= i < j < indices@.len() ==> (#[trigger] indices@[i]) != (#[trigger] indices@[j]),
        call_ensures(
            record_executed_outcomes,
            (indices, calls, streamed, outcomes, ordered, configured, round, auxiliary),
            r,
        ),
    ensures
        ({
            let kept = tool::batch_view(
                if r is Ok {
                    final(ordered)@
                } else {
                    r->Err_0.results@
                },
            );
            &&& kept.len() == old(ordered)@.len()
            &&& forall|k: int|
                0 <= k < indices@.len() ==> ({
                    let slot = kept[(#[trigger] indices@[k]) as int];
                    &&& slot is Some
                    &&& slot->Some_0.name == calls@[k].name@
                    &&& slot->Some_0.id == tool::opt(calls@[k].tool_call_id)
                    &&& slot->Some_0.outcome == outcomes@[k]@
                })
            &&& forall|i: int|
                0 <= i < kept.len() && (forall|k: int|
                    0 <= k < indices@.len() ==> #[trigger] indices@[k] != i) ==> #[trigger] kept[i]
                    == tool::batch_view(old(ordered)@)[i]
        }),
        r matches Ok(list) ==> list@.len() == indices@.len() && forall|k: int|
            0 <= k < indices@.len() ==> {
                let p = #[trigger] list@[k];
                &&& p.call == k
                &&& p.slot == indices@[k]
                &&& p.success == outcomes@[k].success
                &&& p.duration_secs == outcomes@[k].duration.secs
                &&& is_in_millis(outcomes@[k].duration, p.duration_ms)
                &&& p.auxiliary == auxiliary
                &&& p.completion == (auxiliary && streamed@[k])
            },
        r matches Err(e) ==> e.errors@.len() == 0 && final(ordered)@.len() == 0,
{
    let n = indices@.len();
    let start = tool::batch_view(old(ordered)@);
    lemma_filled(start, indices@, calls@, outcomes@, n);
    if r is Ok {
        let slots = post_exec::filled(start, indices@, calls@, outcomes@, n);
        lemma_published(slots, indices@, streamed@, auxiliary, outcomes@, n);
    }
}

/// The slots once the first `n` calls are put in.
proof fn lemma_filled(
    start: Seq<Option<tool::ResultView>>,
    indices: Seq<usize>,
    calls: Seq<ParsedToolCall>,
    outcomes: Seq<ToolExecutionOutcome>,
    n: nat,
)
    requires
        n <= indices.len(),
        forall|i: int| 0 <= i < indices.len() ==> (#[trigger] indices[i]) < start.len(),
        forall|i: int, j: int|
            0 <= i < j < indices.len() ==> (#[trigger] indices[i]) != (#[trigger] indices[j]),
    ensures
        ({
            let kept = post_exec::filled(start, indices, calls, outcomes, n);
            &&& kept.len() == start.len()
            &&& forall|k: int|
                0 <= k < n ==> kept[(#[trigger] indices[k]) as int] == Some(
                    tool::ResultView {
                        name: calls[k].name@,
                        id: tool::opt(calls[k].tool_call_id),
                        outcome: outcomes[k]@,
                    },
                )
            &&& forall|i: int|
                0 <= i < kept.len() && (forall|k: int|
                    0 <= k < n ==> #[trigger] indices[k] != i) ==> #[trigger] kept[i] == start[i]
        }),
    decreases n,
{
    if n > 0 {
        let m = (n - 1) as nat;
        lemma_filled(start, indices, calls, outcomes, m);
        let before = post_exec::filled(start, indices, calls, outcomes, m);
        let kept = post_exec::filled(start, indices, calls, outcomes, n);
        assert forall|i: int|
            0 <= i < kept.len() && (forall|k: int|
                0 <= k < n ==> #[trigger] indices[k] != i) implies #[trigger] kept[i] == start[i] by {
            assert(indices[m as int] != i);
            assert(before[i] == start[i]);
        }
    }
}

/// What is published of the first `n` calls.
proof fn lemma_published(
    slots: Seq<Option<tool::ResultView>>,
    indices: Seq<usize>,
    streamed: Seq<bool>,
    auxiliary: bool,
    outcomes: Seq<ToolExecutionOutcome>,
    n: nat,
)
    requires
        n <= indices.len(),
        indices.len() <= usize::MAX,
        forall|k: int|
            0 <= k < indices.len() ==> slots[(#[trigger] indices[k]) as int] is Some
                && slots[indices[k] as int]->Some_0.outcome == outcomes[k]@,
    ensures
        ({
            let list = post_exec::publications(slots, indices, streamed, auxiliary, n);
            &&& list.len() == n
            &&& forall|k: int|
                0 <= k < n ==> {
                    let p = #[trigger] list[k];
                    &&& p.call == k
                    &&& p.slot == indices[k]
                    &&& p.success == outcomes[k].success
                    &&& p.duration_secs == outcomes[k].duration.secs
                    &&& is_in_millis(outcomes[k].duration, p.duration_ms)
                    &&& p.auxiliary == auxiliary
                    &&& p.completion == (auxiliary && streamed[k])
                }
        }),
    decreases n,
{
    if n > 0 {
        lemma_published(slots, indices, streamed, auxiliary, outcomes, (n - 1) as nat);
        assert(slots[indices[n - 1] as int] is Some);
    }
}

/// Whether `n` is how many whole milliseconds a duration has, or as many as can be
/// told where there are more.
pub open spec fn is_in_millis(d: Elapsed, n: u64) -> bool {
    let nanos = d.secs * 1_000_000_000 + d.nanos;
    &&& n * 1_000_000 <= nanos
    &&& n < u64::MAX ==> nanos < (n + 1) * 1_000_000
}

/// The milliseconds of a duration are whole ones: what is left is less than one,
/// unless there are more than can be told.
pub proof fn law_milliseconds_are_whole(d: Elapsed, n: u64)
    requires
        call_ensures(whole_millis, (d,), n),
    ensures
        is_in_millis(d, n),
{
}

/// Each message is told by its role.
pub proof fn law_messages_have_their_role(
    content: &str,
    system: ChatMessage,
    user: ChatMessage,
    assistant: ChatMessage,
    tool_message: ChatMessage,
)
    requires
        call_ensures(ChatMessage::system, (content,), system),
        call_ensures(ChatMessage::user, (content,), user),
        call_ensures(ChatMessage::assistant, (content,), assistant),
        call_ensures(ChatMessage::tool, (content,), tool_message),
    ensures
        system.role@ == "system"@ && system.content@ == content@,
        user.role@ == "user"@ && user.content@ == content@,
        assistant.role@ == "assistant"@ && assistant.content@ == content@,
        tool_message.role@ == "tool"@ && tool_message.content@ == content@,
{
    assert(system@.role == system.role@ && user@.role == user.role@);
}

} // verus!
