//! What holds of whole rounds: how they are settled, and what becomes of those that
//! do not fit.

use crate::json;
use crate::json::JsonField;
use crate::text;
use crate::turn::error::{Cause, CauseKind, TurnError};
use crate::turn::history_append;
use crate::turn::message::MessageView;
use crate::turn::results_collect;
use crate::turn::results_collect::{
    admit_round, check_output_hash, collect_tool_results, history_results_fit,
    is_pending_delegate_wait, is_pending_wait_given, settle_round, AdmittedRound, CollectedResults,
    RecoveryTrigger, ResultBudgetExceeded, SlotReport,
};
use crate::turn::tool;
use crate::turn::tool::{OrderedResults, ParsedToolCall, ToolExecutionOutcome};
use vstd::prelude::*;
use vstd::string::*;

verus! {

/// Whether a call waits for delegated work is told by its own arguments and its own
/// output: what it does and for how long by the former, what came of it by the
/// latter.
pub proof fn law_waits_are_read_from_the_call(
    name: &str,
    args: &str,
    outcome: &ToolExecutionOutcome,
    action: &JsonField,
    timeout: &JsonField,
    status: &JsonField,
    pending: &JsonField,
    failed: &JsonField,
    missing: &JsonField,
    r: bool,
    s: bool,
)
    requires
        action@ == json::field_of(args@, "action"@),
        timeout@ == json::field_of(args@, "timeout_ms"@),
        status@ == json::field_of(outcome.output@, "status"@),
        pending@ == json::field_of(outcome.output@, "pending"@),
        failed@ == json::field_of(outcome.output@, "failed"@),
        missing@ == json::field_of(outcome.output@, "missing"@),
        call_ensures(
            is_pending_wait_given,
            (name, outcome.success, action, timeout, status, pending, failed, missing),
            r,
        ),
        call_ensures(is_pending_delegate_wait, (name, args, outcome), s),
    ensures
        r == s,
        s == results_collect::pending_wait(name@, args@, outcome.success, outcome.output@),
{
}

/// A round that is collected is the admitted one, settled with what was said of its
/// slots.
pub proof fn law_collected_rounds_are_settled(
    ordered: OrderedResults,
    outputs: &[String],
    calls: &[ParsedToolCall],
    ignored: &[&str],
    reports: Vec<SlotReport>,
    configured: usize,
    round_limit: usize,
    iteration: usize,
    round: AdmittedRound,
    settled: CollectedResults,
    c: CollectedResults,
)
    requires
        call_ensures(
            admit_round,
            (ordered, outputs, configured, round_limit),
            Ok::<AdmittedRound, ResultBudgetExceeded>(round),
        ),
        call_ensures(settle_round, (round, calls, ignored, reports, iteration), settled),
        call_ensures(
            collect_tool_results,
            (ordered, outputs, calls, ignored, reports, configured, round_limit, iteration),
            Ok::<CollectedResults, ResultBudgetExceeded>(c),
        ),
    ensures
        c.tool_results@ == settled.tool_results@,
        settled.tool_results@ == round.tool_results@,
        c.individual_results@.len() == settled.individual_results@.len(),
        c.detection_relevant_output@ == settled.detection_relevant_output@,
        results_collect::opt_trigger(c.recovery_trigger) == results_collect::opt_trigger(
            settled.recovery_trigger,
        ),
        results_collect::strings(c.notes@) == results_collect::strings(settled.notes@),
        results_collect::strings(c.receipts@) == results_collect::strings(settled.receipts@),
{
    assert(c.gathered() == settled.gathered());
    assert(c.gathered().notes == results_collect::strings(c.notes@));
    assert(settled.gathered().notes == results_collect::strings(settled.notes@));
    assert(history_append::individual_views(c.individual_results@).len()
        == c.individual_results@.len());
    assert(history_append::individual_views(round.individual_results@).len()
        == round.individual_results@.len());
}

/// A settled round adds up its slots one after another: with one slot more it is
/// what the last slot adds to what the others come to.
pub proof fn law_settled_rounds_add_up_their_slots(
    a: AdmittedRound,
    b: AdmittedRound,
    calls: &[ParsedToolCall],
    ignored: &[&str],
    few: Vec<SlotReport>,
    more: Vec<SlotReport>,
    iteration: usize,
    x: CollectedResults,
    y: CollectedResults,
)
    requires
        b.ordered@.len() == a.ordered@.len() + 1,
        b.ordered@.drop_last() == a.ordered@,
        more@.len() == few@.len() + 1,
        more@.drop_last() == few@,
        few@.len() == a.ordered@.len(),
        call_ensures(settle_round, (a, calls, ignored, few, iteration), x),
        call_ensures(settle_round, (b, calls, ignored, more, iteration), y),
    ensures
        y.gathered() == results_collect::gather_slot(
            x.gathered(),
            tool::slot_view(b.ordered@.last()),
            if a.ordered@.len() < calls@.len() {
                calls@[a.ordered@.len() as int].arguments@
            } else {
                "null"@
            },
            text::views(ignored@),
            more@.last(),
            iteration,
        ),
        a.ordered@.len() == 0 ==> x.detection_relevant_output@.len() == 0 && x.recovery_trigger is None
            && x.notes@.len() == 0 && x.receipts@.len() == 0,
{
    let n = a.ordered@.len() as int;
    let all = tool::batch_view(b.ordered@);
    let args = results_collect::call_args(calls@);
    let skip = text::views(ignored@);
    assert(tool::batch_view(a.ordered@) =~= all.take(n));
    assert(all[n] == tool::slot_view(b.ordered@[n]));
    lemma_gathered(all, all.take(n), args, skip, more@, few@, iteration, n, n);
    if n < calls@.len() {
        assert(args[n] == calls@[n].arguments@);
    }
    assert(more@[n] == more@.last());
    if n == 0 {
        assert(x.gathered().notes == results_collect::strings(x.notes@));
        assert(x.gathered().receipts == results_collect::strings(x.receipts@));
        assert(results_collect::strings(x.notes@).len() == x.notes@.len());
        assert(results_collect::strings(x.receipts@).len() == x.receipts@.len());
    }
}

proof fn lemma_gathered(
    s: Seq<Option<tool::ResultView>>,
    t: Seq<Option<tool::ResultView>>,
    args: Seq<Seq<char>>,
    skip: Seq<Seq<char>>,
    p: Seq<SlotReport>,
    q: Seq<SlotReport>,
    iteration: usize,
    n: int,
    k: int,
)
    requires
        0 <= k <= n,
        n <= s.len(),
        t == s.take(n),
        p.len() >= n,
        q == p.take(n) || q == p.drop_last(),
        q.len() == n,
    ensures
        results_collect::gathered(s, args, skip, p, iteration, k) == results_collect::gathered(
            t,
            args,
            skip,
            q,
            iteration,
            k,
        ),
    decreases k,
{
    if k > 0 {
        lemma_gathered(s, t, args, skip, p, q, iteration, n, k - 1);
        assert(t[k - 1] == s[k - 1]);
        assert(q[k - 1] == p[k - 1]);
    }
}

/// A rejection holds the error that it is made from and nothing else. As an error it
/// stands alone, or as context in front of what was known before.
pub proof fn law_rejections_hold_what_they_reject(
    error: TurnError,
    made: ResultBudgetExceeded,
    given: ResultBudgetExceeded,
    prior: Option<TurnError>,
    e: TurnError,
)
    requires
        call_ensures(ResultBudgetExceeded::from_error, (error,), made),
        call_ensures(ResultBudgetExceeded::with_prior, (given, prior), e),
    ensures
        made.results@.len() == 0,
        made.errors@.len() == 1 && made.errors@[0] == error,
        e.layers@.len() >= 1 && e.layers@[0].cause == Cause::ResultBudgetExceeded(given),
        prior is None ==> e.layers@.len() == 1 && !e.layers@[0].context,
        prior matches Some(p) ==> e.layers@[0].context && e.layers@.drop_first() == p.layers@,
{
    assert(e.layers@.drop_first().len() == e.layers@.len() - 1);
}

/// Results fit the history exactly if each native message has at most the bytes that
/// one result may take, and both the native messages together and the one textual
/// message have at most those of a round.
pub proof fn law_what_fits_the_history(
    results: &[(Option<String>, String)],
    tool_results: &str,
    limit: usize,
    round: usize,
    r: bool,
)
    requires
        call_ensures(history_results_fit, (results, tool_results, limit, round), r),
    ensures
        ({
            let native = history_append::native_messages(
                history_append::individual_views(results@),
                Seq::empty(),
            );
            r <==> {
                &&& forall|i: int|
                    0 <= i < native.len() ==> text::byte_len(
                        history_append::message_json(#[trigger] native[i]),
                    ) <= limit
                &&& text::byte_len(history_append::messages_json(native)) <= round
                &&& text::byte_len(
                    history_append::messages_json(
                        seq![history_append::prompt_message(tool_results@)],
                    ),
                ) <= round
            }
        }),
{
}

/// Messages are listed in brackets: none as an empty list, one by itself, and each
/// further one behind a comma after all those before it.
pub proof fn law_messages_are_listed(messages: Seq<MessageView>, m: MessageView)
    ensures
        history_append::messages_json(Seq::empty()) == "[]"@,
        history_append::messages_json(seq![m]) == "["@ + (history_append::message_json(m) + "]"@),
        messages.len() > 0 ==> history_append::messages_json(messages.push(m))
            == history_append::messages_json(messages).drop_last() + (","@ + (
        history_append::message_json(m) + "]"@)),
{
    reveal_strlit("[]");
    reveal_strlit("[");
    reveal_strlit("]");
    reveal_strlit(",");
    assert(history_append::messages_json(Seq::empty()) =~= "[]"@);
    assert(history_append::messages_json(seq![m]) =~= "["@ + (history_append::message_json(m)
        + "]"@));
    if messages.len() > 0 {
        assert(messages.push(m).drop_last() =~= messages);
        assert(history_append::messages_json(messages.push(m)) =~= history_append::messages_json(
            messages,
        ).drop_last() + (","@ + (history_append::message_json(m) + "]"@)));
    }
}

/// A round with the output of the one before counts one more, any other starts from
/// one. The third in a row and each further one hands the turn to repair and tells
/// how many there were.
pub proof fn law_repeated_outputs_are_counted(
    hash: u64,
    count: &mut usize,
    last: &mut Option<u64>,
    iteration: usize,
    r: Option<RecoveryTrigger>,
)
    requires
        *old(count) < usize::MAX,
        call_ensures(check_output_hash, (hash, count, last, iteration), r),
    ensures
        *final(last) == Some(hash),
        *old(last) == Some(hash) ==> *final(count) == *old(count) + 1,
        *old(last) != Some(hash) ==> *final(count) == 1,
        *final(count) < 3 ==> r is None,
        *final(count) >= 3 ==> r == Some(
            RecoveryTrigger::IdenticalOutput { count: *final(count), iteration },
        ),
{
}

/// The kind of a cause tells its variant, and a source of an error is a layer that
/// is no context.
pub proof fn law_kinds_and_sources(c: Cause, k: CauseKind, e: &TurnError, r: bool)
    requires
        call_ensures(Cause::get_kind, (&c,), k),
        call_ensures(TurnError::has_source, (e, k), r),
    ensures
        k == (match c {
            Cause::ToolLoopCancelled => CauseKind::ToolLoopCancelled,
            Cause::EstopInterrupted => CauseKind::EstopInterrupted,
            Cause::DeadlineExceeded(_) => CauseKind::DeadlineExceeded,
            Cause::Delivery(_) => CauseKind::Delivery,
            Cause::SopPhaseIncomplete(_) => CauseKind::SopPhaseIncomplete,
            Cause::TurnSettlementIncomplete => CauseKind::TurnSettlementIncomplete,
            Cause::TurnCompletedAfterInterruption(_) => CauseKind::TurnCompletedAfterInterruption,
            Cause::RetainedToolFailures(_) => CauseKind::RetainedToolFailures,
            Cause::ResultBudgetExceeded(_) => CauseKind::ResultBudgetExceeded,
            Cause::SopDriveInterrupted(_) => CauseKind::SopDriveInterrupted,
            Cause::Other(_) => CauseKind::Other,
        }),
        r <==> exists|i: int|
            0 <= i < e.layers@.len() && !(#[trigger] e.layers@[i]).context
                && e.layers@[i].cause.kind() == k,
{
}

} // verus!
