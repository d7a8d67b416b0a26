//! What holds of the collection of a round of tool results, told by the results
//! themselves.

use crate::json;
use crate::json::JsonField;
use crate::text;
use crate::turn::history_append;
use crate::turn::results_collect;
use crate::turn::results_collect::{
    add_slot, admit_round, begin_tally, check_identical_output_abort, close_round,
    collect_tool_results, consult, feeds_detector, is_pending_wait_given, AdmittedRound,
    CollectedResults, Consult, LoopVerdict, RecoveryTrigger, ResultBudgetExceeded, RoundTally,
    SlotReport,
};
use crate::turn::tool;
use crate::turn::tool::{Elapsed, OrderedResults, ParsedToolCall, ToolExecutionOutcome};
use vstd::prelude::*;
use vstd::string::*;

verus! {

/// A result as the model sees it: its output, and its receipt where it has one.
pub open spec fn seen(output: Seq<char>, outcome: ToolExecutionOutcome) -> Seq<char> {
    match outcome.receipt {
        Some(receipt) => output + ("\n\n[receipt: "@ + (receipt@ + "]"@)),
        None => output,
    }
}

/// The block of a result of the tool `name`.
pub open spec fn block(name: Seq<char>, shown: Seq<char>) -> Seq<char> {
    "<tool_result name=\""@ + (name + ("\">\n"@ + (shown + "\n</tool_result>\n"@)))
}

/// The blocks of the filled slots from `i` on.
pub open spec fn blocks_from(
    ordered: Seq<Option<(String, Option<String>, ToolExecutionOutcome)>>,
    outputs: Seq<String>,
    i: int,
) -> Seq<char>
    decreases ordered.len() - i,
{
    if i < 0 || i >= ordered.len() {
        Seq::empty()
    } else {
        match ordered[i] {
            Some((name, id, outcome)) => block(name@, seen(outputs[i]@, outcome)) + blocks_from(
                ordered,
                outputs,
                i + 1,
            ),
            None => blocks_from(ordered, outputs, i + 1),
        }
    }
}

/// The number of filled slots before `n`.
pub open spec fn filled_before(
    ordered: Seq<Option<(String, Option<String>, ToolExecutionOutcome)>>,
    n: int,
) -> int
    decreases n,
{
    if n <= 0 {
        0
    } else if ordered[n - 1] is Some {
        filled_before(ordered, n - 1) + 1
    } else {
        filled_before(ordered, n - 1)
    }
}

/// The texts up to a slot and from it on make up the whole.
proof fn lemma_blocks_split(
    ordered: Seq<Option<(String, Option<String>, ToolExecutionOutcome)>>,
    outputs: Seq<String>,
    n: int,
)
    requires
        0 <= n <= ordered.len(),
        outputs.len() == ordered.len(),
    ensures
        blocks_from(ordered, outputs, 0) == results_collect::shown_blocks(
            tool::batch_view(ordered).take(n),
            results_collect::strings(outputs).take(n),
        ) + blocks_from(ordered, outputs, n),
    decreases n,
{
    let slots = tool::batch_view(ordered).take(n);
    let canon = results_collect::strings(outputs).take(n);
    if n == 0 {
        assert(results_collect::shown_blocks(slots, canon) =~= Seq::<char>::empty());
        assert(blocks_from(ordered, outputs, 0) =~= results_collect::shown_blocks(slots, canon)
            + blocks_from(ordered, outputs, 0));
    } else {
        lemma_blocks_split(ordered, outputs, n - 1);
        assert(slots.drop_last() =~= tool::batch_view(ordered).take(n - 1));
        assert(canon.drop_last() =~= results_collect::strings(outputs).take(n - 1));
        assert(slots.last() == tool::slot_view(ordered[n - 1]));
        assert(canon.last() == outputs[n - 1]@);
        let before = results_collect::shown_blocks(slots.drop_last(), canon.drop_last());
        match ordered[n - 1] {
            Some((name, id, outcome)) => {
                let shown = results_collect::shown_output(canon.last(), tool::opt(outcome.receipt));
                assert(shown =~= seen(outputs[n - 1]@, outcome));
                let b = results_collect::result_block(name@, shown);
                assert(b =~= block(name@, seen(outputs[n - 1]@, outcome)));
                assert(before + (b + blocks_from(ordered, outputs, n)) =~= (before + b)
                    + blocks_from(ordered, outputs, n));
            },
            None => {},
        }
    }
}

/// Each filled slot gives one result, at its place among the filled ones.
proof fn lemma_results(
    ordered: Seq<Option<(String, Option<String>, ToolExecutionOutcome)>>,
    outputs: Seq<String>,
    n: int,
)
    requires
        0 <= n <= ordered.len(),
        outputs.len() == ordered.len(),
    ensures
        ({
            let shown = results_collect::shown_results(
                tool::batch_view(ordered).take(n),
                results_collect::strings(outputs).take(n),
            );
            &&& shown.len() == filled_before(ordered, n)
            &&& forall|i: int|
                0 <= i < n && (#[trigger] ordered[i]) is Some ==> 0 <= filled_before(ordered, i)
                    < shown.len() && shown[filled_before(ordered, i)] == (
                    tool::opt(ordered[i]->Some_0.1),
                    seen(outputs[i]@, ordered[i]->Some_0.2),
                )
        }),
    decreases n,
{
    let slots = tool::batch_view(ordered).take(n);
    let canon = results_collect::strings(outputs).take(n);
    if n > 0 {
        lemma_results(ordered, outputs, n - 1);
        assert(slots.drop_last() =~= tool::batch_view(ordered).take(n - 1));
        assert(canon.drop_last() =~= results_collect::strings(outputs).take(n - 1));
        assert(slots.last() == tool::slot_view(ordered[n - 1]));
        assert(canon.last() == outputs[n - 1]@);
        if let Some((name, id, outcome)) = ordered[n - 1] {
            assert(results_collect::shown_output(canon.last(), tool::opt(outcome.receipt)) =~= seen(
                outputs[n - 1]@,
                outcome,
            ));
        }
    }
}

/// A round that is forwarded reports every filled slot, whether its call succeeded
/// or failed: the text holds one block for each, in their order and nothing else,
/// and the native results hold one entry for each, with its identifier and what the
/// model sees of it. The results themselves are handed on untouched.
pub proof fn law_every_filled_slot_is_reported(
    ordered: OrderedResults,
    outputs: &[String],
    configured: usize,
    round: usize,
    r: Result<AdmittedRound, ResultBudgetExceeded>,
)
    requires
        outputs@.len() == ordered@.len(),
        call_ensures(admit_round, (ordered, outputs, configured, round), r),
    ensures
        r matches Ok(a) ==> {
            &&& a.ordered == ordered
            &&& a.tool_results@ == blocks_from(ordered@, outputs@, 0)
            &&& a.individual_results@.len() == filled_before(ordered@, ordered@.len() as int)
            &&& forall|i: int|
                0 <= i < ordered@.len() && (#[trigger] ordered@[i]) is Some ==> {
                    let k = filled_before(ordered@, i);
                    &&& 0 <= k < a.individual_results@.len()
                    &&& tool::opt(a.individual_results@[k].0) == tool::opt(ordered@[i]->Some_0.1)
                    &&& a.individual_results@[k].1@ == seen(outputs@[i]@, ordered@[i]->Some_0.2)
                }
        },
        r matches Err(e) ==> e.results == ordered && e.errors@.len() == 0,
{
    if let Ok(a) = r {
        let n = ordered@.len() as int;
        let slots = tool::batch_view(ordered@);
        let canon = results_collect::strings(outputs@);
        assert(slots.take(n) =~= slots);
        assert(canon.take(n) =~= canon);
        lemma_blocks_split(ordered@, outputs@, n);
        assert(a.tool_results@ =~= blocks_from(ordered@, outputs@, 0));
        lemma_results(ordered@, outputs@, n);
        let views = history_append::individual_views(a.individual_results@);
        assert forall|i: int| 0 <= i < n && (#[trigger] ordered@[i]) is Some implies {
            let k = filled_before(ordered@, i);
            &&& 0 <= k < a.individual_results@.len()
            &&& tool::opt(a.individual_results@[k].0) == tool::opt(ordered@[i]->Some_0.1)
            &&& a.individual_results@[k].1@ == seen(outputs@[i]@, ordered@[i]->Some_0.2)
        } by {
            let k = filled_before(ordered@, i);
            assert(views[k] == history_append::individual_view(a.individual_results@[k]));
        }
    }
}

/// Every filled slot of a forwarded round is found in the text, with a text in
/// front of it and one behind it.
pub proof fn law_every_block_is_found(
    ordered: OrderedResults,
    outputs: &[String],
    configured: usize,
    round: usize,
    r: Result<AdmittedRound, ResultBudgetExceeded>,
    i: int,
)
    requires
        outputs@.len() == ordered@.len(),
        call_ensures(admit_round, (ordered, outputs, configured, round), r),
        r is Ok,
        0 <= i < ordered@.len(),
        ordered@[i] is Some,
    ensures
        exists|before: Seq<char>, after: Seq<char>|
            r->Ok_0.tool_results@ == #[trigger] (before + block(
                ordered@[i]->Some_0.0@,
                seen(outputs@[i]@, ordered@[i]->Some_0.2),
            ) + after),
{
    law_every_filled_slot_is_reported(ordered, outputs, configured, round, r);
    lemma_blocks_split(ordered@, outputs@, i);
    let before = results_collect::shown_blocks(
        tool::batch_view(ordered@).take(i),
        results_collect::strings(outputs@).take(i),
    );
    let b = block(ordered@[i]->Some_0.0@, seen(outputs@[i]@, ordered@[i]->Some_0.2));
    let after = blocks_from(ordered@, outputs@, i + 1);
    assert(r->Ok_0.tool_results@ =~= before + b + after);
}

/// The round is told of in the same way by those who collect it: what is admitted
/// is collected, and what is not admitted moves into the error as it is.
pub proof fn law_collection_reports_what_is_admitted(
    ordered: OrderedResults,
    outputs: &[String],
    calls: &[ParsedToolCall],
    ignored: &[&str],
    reports: Vec<SlotReport>,
    configured: usize,
    round: usize,
    iteration: usize,
    admitted: Result<AdmittedRound, ResultBudgetExceeded>,
    collected: Result<CollectedResults, ResultBudgetExceeded>,
)
    requires
        outputs@.len() == ordered@.len(),
        call_ensures(admit_round, (ordered, outputs, configured, round), admitted),
        call_ensures(
            collect_tool_results,
            (ordered, outputs, calls, ignored, reports, configured, round, iteration),
            collected,
        ),
    ensures
        collected is Ok <==> admitted is Ok,
        collected matches Ok(c) ==> c.tool_results@ == blocks_from(ordered@, outputs@, 0)
            && c.individual_results@.len() == filled_before(ordered@, ordered@.len() as int),
        collected matches Err(e) ==> e.results == ordered && e.errors@.len() == 0,
{
    law_every_filled_slot_is_reported(ordered, outputs, configured, round, admitted);
    if let Ok(c) = collected {
        assert(history_append::individual_views(c.individual_results@).len()
            == history_append::individual_views(admitted->Ok_0.individual_results@).len());
    }
}

/// A round is forwarded exactly if everything that is written of it fits: the whole
/// batch, every message natively and as text, and the history that they make. A
/// result may take as many bytes as configured, 32768 where nothing is, and never
/// more than the round.
pub proof fn law_rounds_are_forwarded_if_they_fit(
    ordered: OrderedResults,
    outputs: &[String],
    configured: usize,
    round: usize,
    r: Result<AdmittedRound, ResultBudgetExceeded>,
    limit: usize,
)
    requires
        outputs@.len() == ordered@.len(),
        call_ensures(admit_round, (ordered, outputs, configured, round), r),
        configured == 0 && round >= 32768 ==> limit == 32768,
        configured == 0 && round < 32768 ==> limit == round,
        0 < configured <= round ==> limit == configured,
        configured > round ==> limit == round,
    ensures
        r is Ok <==> {
            let results = results_collect::shown_results(
                tool::batch_view(ordered@),
                results_collect::strings(outputs@),
            );
            let native = history_append::native_messages(results, Seq::empty());
            &&& text::byte_len(tool::batch_json(tool::batch_view(ordered@))) <= round
            &&& forall|i: int|
                0 <= i < ordered@.len() && (#[trigger] ordered@[i]) is Some ==> {
                    &&& text::byte_len(tool::result_json(tool::result_view(ordered@[i]->Some_0)))
                        <= limit
                    &&& text::byte_len(
                        user_message(
                            block(ordered@[i]->Some_0.0@, seen(outputs@[i]@, ordered@[i]->Some_0.2)),
                        ),
                    ) <= limit
                }
            &&& forall|i: int|
                0 <= i < native.len() ==> text::byte_len(
                    history_append::message_json(#[trigger] native[i]),
                ) <= limit
            &&& text::byte_len(history_append::messages_json(native)) <= round
            &&& 2 + text::byte_len(user_message(blocks_from(ordered@, outputs@, 0))) <= round
        },
{
    let slots = tool::batch_view(ordered@);
    let canon = results_collect::strings(outputs@);
    let n = ordered@.len() as int;
    assert(slots.take(n) =~= slots);
    assert(canon.take(n) =~= canon);
    lemma_blocks_split(ordered@, outputs@, n);
    assert(results_collect::shown_blocks(slots, canon) =~= blocks_from(ordered@, outputs@, 0));
    assert forall|i: int| 0 <= i < n && (#[trigger] ordered@[i]) is Some implies slots[i] == Some(
        tool::result_view(ordered@[i]->Some_0),
    ) && results_collect::result_block(
        ordered@[i]->Some_0.0@,
        results_collect::shown_output(canon[i], tool::opt(ordered@[i]->Some_0.2.receipt)),
    ) == block(ordered@[i]->Some_0.0@, seen(outputs@[i]@, ordered@[i]->Some_0.2)) by {
        let shown = results_collect::shown_output(canon[i], tool::opt(ordered@[i]->Some_0.2.receipt));
        assert(shown =~= seen(outputs@[i]@, ordered@[i]->Some_0.2));
        assert(results_collect::result_block(ordered@[i]->Some_0.0@, shown) =~= block(
            ordered@[i]->Some_0.0@,
            shown,
        ));
    }
    assert forall|i: int| 0 <= i < slots.len() && (#[trigger] slots[i]) is Some implies ordered@[i]
        is Some by {}
    lemma_user_message(blocks_from(ordered@, outputs@, 0));
    assert forall|i: int| 0 <= i < n && (#[trigger] ordered@[i]) is Some implies user_message(
        block(ordered@[i]->Some_0.0@, seen(outputs@[i]@, ordered@[i]->Some_0.2)),
    ) == history_append::message_json(
        history_append::prompt_message(
            block(ordered@[i]->Some_0.0@, seen(outputs@[i]@, ordered@[i]->Some_0.2)),
        ),
    ) by {
        lemma_user_message(block(ordered@[i]->Some_0.0@, seen(outputs@[i]@, ordered@[i]->Some_0.2)));
    }
}

/// The message that reports results as text, in JSON.
pub open spec fn user_message(results: Seq<char>) -> Seq<char> {
    "{\"role\":\"user\",\"content\":"@ + (json::string_json("[Tool results]\n"@ + results) + "}"@)
}

/// What the message that reports results as text looks like, and how long a history
/// of it is.
proof fn lemma_user_message(results: Seq<char>)
    ensures
        history_append::message_json(history_append::prompt_message(results)) == user_message(
            results,
        ),
        text::byte_len(
            history_append::messages_json(seq![history_append::prompt_message(results)]),
        ) == 2 + text::byte_len(user_message(results)),
{
    let m = history_append::prompt_message(results);
    reveal_strlit("user");
    reveal_strlit("{\"role\":");
    reveal_strlit(",\"content\":");
    reveal_strlit("{\"role\":\"user\",\"content\":");
    reveal_with_fuel(json::escaped, 5);
    let u = "user"@;
    assert(u.drop_last().drop_last().drop_last().drop_last() =~= Seq::empty());
    assert(json::escaped(u) =~= u);
    assert(json::string_json(u) =~= seq!['"', 'u', 's', 'e', 'r', '"']);
    assert("{\"role\":"@ + json::string_json(u) + ",\"content\":"@
        =~= "{\"role\":\"user\",\"content\":"@);
    assert(history_append::message_json(m) =~= user_message(results));
    assert(seq![m].len() == 1 && seq![m][0] == m);
    reveal_strlit("[");
    reveal_strlit("]");
    text::lemma_byte_len_ascii("["@);
    text::lemma_byte_len_ascii("]"@);
    let j = history_append::joined_messages(seq![m]);
    text::lemma_byte_len_concat("["@, j);
    text::lemma_byte_len_concat("["@ + j, "]"@);
}

/// The loop detector looks at a result exactly if its call succeeded, its tool is
/// not ignored, and it is no wait for delegated work.
pub proof fn law_the_detector_looks_at_successes(
    result: &(String, Option<String>, ToolExecutionOutcome),
    args: &str,
    ignored: &[&str],
    r: bool,
)
    requires
        call_ensures(feeds_detector, (result, args, ignored), r),
    ensures
        r <==> {
            &&& result.2.success
            &&& forall|i: int| 0 <= i < ignored@.len() ==> (#[trigger] ignored@[i])@ != result.0@
            &&& !results_collect::pending_wait(result.0@, args@, true, result.2.output@)
        },
{
    let names = text::views(ignored@);
    if names.contains(result.0@) {
        let i = choose|i: int| 0 <= i < names.len() && names[i] == result.0@;
        assert(ignored@[i]@ == result.0@);
    }
    assert forall|i: int| 0 <= i < ignored@.len() && (#[trigger] ignored@[i])@
        == result.0@ implies names.contains(result.0@) by {
        assert(names[i] == result.0@);
    }
}

/// A wait for delegated work is a successful call that waits for sessions, ran out
/// of its time with some still pending, and tells of none that failed or went
/// missing. A time of zero is no wait.
pub proof fn law_waits_for_delegates_are_told_apart(
    tool_name: &str,
    success: bool,
    action: &JsonField,
    timeout: &JsonField,
    status: &JsonField,
    pending: &JsonField,
    failed: &JsonField,
    missing: &JsonField,
    r: bool,
)
    requires
        call_ensures(
            is_pending_wait_given,
            (tool_name, success, action, timeout, status, pending, failed, missing),
            r,
        ),
    ensures
        r ==> tool_name@ == "delegate"@ && success,
        r ==> (action matches JsonField::Text(s) && s@ == "await_sessions"@),
        r ==> (status matches JsonField::Text(s) && s@ == "timeout"@),
        r ==> (timeout is Absent || (timeout matches JsonField::Unsigned(n) && *n != 0)),
        r ==> (pending matches JsonField::Items(n) && *n != 0),
        r ==> failed == JsonField::Items(0) && missing == JsonField::Items(0),
        tool_name@ == "delegate"@ && success && (action matches JsonField::Text(s) && s@
            == "await_sessions"@) && (status matches JsonField::Text(s) && s@ == "timeout"@) && (
        timeout is Absent || (timeout matches JsonField::Unsigned(n) && *n != 0)) && (
        pending matches JsonField::Items(n) && *n != 0) && failed == JsonField::Items(0) && missing
            == JsonField::Items(0) ==> r,
{
}

/// The recovery tracker is asked about every filled slot until a trigger is known,
/// the loop detector about those that count for it, and nobody about an empty slot.
pub proof fn law_who_is_asked(
    round: &AdmittedRound,
    tally: &RoundTally,
    calls: &[ParsedToolCall],
    ignored: &[&str],
    i: usize,
    args: &str,
    c: Consult,
    fed: bool,
)
    requires
        i < round.ordered@.len(),
        i < calls@.len() ==> args@ == calls@[i as int].arguments@,
        i >= calls@.len() ==> args@ == "null"@,
        call_ensures(consult, (round, tally, calls, ignored, i), c),
        round.ordered@[i as int] matches Some(r) && call_ensures(
            feeds_detector,
            (&r, args, ignored),
            fed,
        ),
    ensures
        c.tracker <==> tally.trigger is None,
        c.detector <==> fed,
{
}

/// Nobody is asked about an empty slot, and it adds nothing.
pub proof fn law_empty_slots_add_nothing(
    round: &AdmittedRound,
    before: &RoundTally,
    calls: &[ParsedToolCall],
    ignored: &[&str],
    i: usize,
    c: Consult,
    tally: &mut RoundTally,
    report: SlotReport,
    iteration: usize,
)
    requires
        i < round.ordered@.len(),
        round.ordered@[i as int] is None,
        call_ensures(consult, (round, before, calls, ignored, i), c),
        call_ensures(add_slot, (tally, round, calls, ignored, i, report, iteration), ()),
    ensures
        !c.tracker && !c.detector,
        final(tally).detection@ == old(tally).detection@,
        results_collect::opt_trigger(final(tally).trigger) == results_collect::opt_trigger(
            old(tally).trigger,
        ),
        results_collect::strings(final(tally).notes@) == results_collect::strings(
            old(tally).notes@,
        ),
        results_collect::strings(final(tally).receipts@) == results_collect::strings(
            old(tally).receipts@,
        ),
{
    assert(final(tally)@ == old(tally)@);
}

/// What a filled slot adds. A result that the loop detector looks at adds its
/// output to what the identical-output stop compares, and the detector's warning or
/// block as a note; its break hands the turn to repair unless something else has
/// done so. What the recovery tracker finds comes before the detector's word, and
/// what was found before comes first. A receipt is kept behind its tool's name.
pub proof fn law_what_a_slot_adds(
    tally: &mut RoundTally,
    round: &AdmittedRound,
    calls: &[ParsedToolCall],
    ignored: &[&str],
    i: usize,
    args: &str,
    report: SlotReport,
    iteration: usize,
    fed: bool,
)
    requires
        i < round.ordered@.len(),
        i < calls@.len() ==> args@ == calls@[i as int].arguments@,
        i >= calls@.len() ==> args@ == "null"@,
        round.ordered@[i as int] matches Some(r) && call_ensures(
            feeds_detector,
            (&r, args, ignored),
            fed,
        ),
        call_ensures(add_slot, (tally, round, calls, ignored, i, report, iteration), ()),
    ensures
        ({
            let (name, id, outcome) = round.ordered@[i as int]->0;
            let notes = results_collect::strings(old(tally).notes@);
            let after = results_collect::strings(final(tally).notes@);
            let lines = results_collect::strings(old(tally).receipts@);
            let more = results_collect::strings(final(tally).receipts@);
            &&& fed ==> final(tally).detection@ == old(tally).detection@ + outcome.output@
            &&& !fed ==> final(tally).detection@ == old(tally).detection@ && after == notes
            &&& fed && report.verdict is Clear ==> after == notes
            &&& fed && report.verdict is Break ==> after == notes
            &&& fed ==> (report.verdict matches LoopVerdict::Warning(m) ==> after == notes.push(
                "[Loop Detection] "@ + m@,
            ))
            &&& fed ==> (report.verdict matches LoopVerdict::Block(m) ==> after == notes.push(
                "[Loop Detection \u{2014} BLOCKED] "@ + m@,
            ))
            &&& outcome.receipt is None ==> more == lines
            &&& outcome.receipt matches Some(receipt) ==> more == lines.push(
                name@ + ": "@ + receipt@,
            )
            &&& old(tally).trigger is Some ==> results_collect::opt_trigger(final(tally).trigger)
                == results_collect::opt_trigger(old(tally).trigger)
            &&& old(tally).trigger is None && report.observed is Some
                ==> results_collect::opt_trigger(final(tally).trigger)
                == results_collect::opt_trigger(report.observed)
            &&& old(tally).trigger is None && report.observed is None ==> (match report.verdict {
                LoopVerdict::Break(m) => if fed {
                    final(tally).trigger matches Some(RecoveryTrigger::CircuitBreaker {
                        tool: t,
                        message: text,
                        iteration: at,
                    }) && t@ == name@ && text@ == m@ && at == iteration
                } else {
                    final(tally).trigger is None
                },
                _ => final(tally).trigger is None,
            })
        }),
{
    let notes = results_collect::strings(old(tally).notes@);
    let lines = results_collect::strings(old(tally).receipts@);
    match report.verdict {
        LoopVerdict::Warning(m) => {
            assert(notes + seq!["[Loop Detection] "@ + m@] =~= notes.push("[Loop Detection] "@ + m@));
        },
        LoopVerdict::Block(m) => {
            assert(notes + seq!["[Loop Detection \u{2014} BLOCKED] "@ + m@] =~= notes.push(
                "[Loop Detection \u{2014} BLOCKED] "@ + m@,
            ));
        },
        _ => {
            assert(notes + Seq::<Seq<char>>::empty() =~= notes);
        },
    }
    let g = final(tally)@;
    assert(g.notes == results_collect::strings(final(tally).notes@));
    assert(g.receipts == results_collect::strings(final(tally).receipts@));
}

/// A round begins with nothing, and what its slots add up to is what is collected.
pub proof fn law_a_tally_is_handed_on(
    begun: RoundTally,
    round: AdmittedRound,
    tally: RoundTally,
    c: CollectedResults,
)
    requires
        call_ensures(begin_tally, (), begun),
        call_ensures(close_round, (round, tally), c),
    ensures
        begun.detection@.len() == 0 && begun.trigger is None && begun.notes@.len() == 0
            && begun.receipts@.len() == 0,
        c.individual_results == round.individual_results,
        c.tool_results == round.tool_results,
        c.detection_relevant_output@ == tally.detection@,
        results_collect::opt_trigger(c.recovery_trigger) == results_collect::opt_trigger(
            tally.trigger,
        ),
        results_collect::strings(c.notes@) == results_collect::strings(tally.notes@),
        results_collect::strings(c.receipts@) == results_collect::strings(tally.receipts@),
{
    assert(results_collect::strings(begun.notes@).len() == begun.notes@.len());
    assert(results_collect::strings(begun.receipts@).len() == begun.receipts@.len());
    assert(c.gathered() == tally@);
    assert(tally@.notes == results_collect::strings(tally.notes@));
    assert(c.gathered().notes == results_collect::strings(c.notes@));
}

/// The slots of a round are added up one after another, from the first to the last.
pub proof fn law_slots_are_added_in_order(
    slots: Seq<Option<tool::ResultView>>,
    args: Seq<Seq<char>>,
    ignored: Seq<Seq<char>>,
    reports: Seq<SlotReport>,
    iteration: usize,
    n: int,
)
    requires
        0 <= n < slots.len(),
    ensures
        results_collect::gathered(slots, args, ignored, reports, iteration, 0).detection.len() == 0,
        results_collect::gathered(slots, args, ignored, reports, iteration, 0).trigger is None,
        results_collect::gathered(slots, args, ignored, reports, iteration, 0).notes.len() == 0,
        results_collect::gathered(slots, args, ignored, reports, iteration, 0).receipts.len() == 0,
        results_collect::gathered(slots, args, ignored, reports, iteration, n + 1)
            == results_collect::gather_slot(
            results_collect::gathered(slots, args, ignored, reports, iteration, n),
            slots[n],
            if n < args.len() {
                args[n]
            } else {
                "null"@
            },
            ignored,
            reports[n],
            iteration,
        ),
{
}

/// The stop on identical output says nothing until the loop has run for the
/// configured time, and nothing of a round without output that counts. Else it
/// counts the round: one more where the output is that of the round before, and
/// from one otherwise; from the third on it hands the turn to repair, and tells how
/// many there were.
pub proof fn law_identical_outputs_are_counted(
    output: &str,
    elapsed: Elapsed,
    min_secs: Option<u64>,
    count: &mut usize,
    last: &mut Option<u64>,
    iteration: usize,
    r: Option<RecoveryTrigger>,
)
    requires
        *old(count) < usize::MAX,
        call_ensures(
            check_identical_output_abort,
            (output, elapsed, min_secs, count, last, iteration),
            r,
        ),
    ensures
        min_secs is None || elapsed.secs < min_secs->0 || output@.len() == 0 ==> r is None
            && *final(count) == *old(count) && *final(last) == *old(last),
        min_secs is Some && elapsed.secs >= min_secs->0 && output@.len() > 0 ==> {
            &&& *final(last) == Some(results_collect::default_hash(output@))
            &&& *old(last) == *final(last) ==> *final(count) == *old(count) + 1
            &&& *old(last) != *final(last) ==> *final(count) == 1
            &&& *final(count) < 3 ==> r is None
            &&& *final(count) >= 3 ==> r == Some(
                RecoveryTrigger::IdenticalOutput { count: *final(count), iteration },
            )
        },
{
}

} // verus!
