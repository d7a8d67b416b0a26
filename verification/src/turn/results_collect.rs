//! Results of a tool round: admission within the byte budgets, the text that
//! history and the model see, loop detection, and the time-gated stop on
//! identical output.

use crate::json;
use crate::json::JsonField;
use crate::text;
use crate::turn::error::{Cause, TurnError};
use crate::turn::history_append;
use crate::turn::message;
use crate::turn::message::ChatMessage;
use crate::turn::tool;
use crate::turn::tool::{Elapsed, OrderedResults, ParsedToolCall, ToolExecutionOutcome};
use std::hash::{Hash, Hasher};
use vstd::prelude::*;
use vstd::string::*;

verus! {

/// Results that could not be forwarded within the budget, and errors that could
/// not be brought into it. A size failure is no sign that a tool did not run:
/// the original outcomes and receipts stay here.
pub struct ResultBudgetExceeded {
    pub results: OrderedResults,
    pub errors: Vec<TurnError>,
}

impl ResultBudgetExceeded {
    /// A rejection that holds one error and no results.
    pub fn from_error(error: TurnError) -> (r: ResultBudgetExceeded)
        ensures
            r.results@.len() == 0,
            r.errors@ == seq![error],
    {
        let mut errors: Vec<TurnError> = Vec::new();
        errors.push(error);
        assert(errors@ =~= seq![error]);
        ResultBudgetExceeded { results: Vec::new(), errors }
    }

    /// The rejection as an error, in front of a cause that was known before.
    pub fn with_prior(self, prior: Option<TurnError>) -> (e: TurnError)
        ensures
            e.layers@.len() > 0,
            e.layers@[0].cause == Cause::ResultBudgetExceeded(self),
            e.layers@[0].context == prior is Some,
            e.layers@.drop_first() == (match prior {
                Some(p) => p.layers@,
                None => Seq::empty(),
            }),
    {
        match prior {
            Some(prior) => {
                let ghost below = prior.layers@;
                let e: TurnError = prior.context(Cause::ResultBudgetExceeded(self));
                assert(e.layers@.drop_first() =~= below);
                e
            },
            None => {
                let e: TurnError = TurnError::new(Cause::ResultBudgetExceeded(self));
                assert(e.layers@.drop_first() =~= Seq::empty());
                e
            },
        }
    }
}

/// The number of bytes that one result may take: the configured number, 32768
/// where none is configured, and never more than the round.
pub open spec fn result_limit(configured: usize, round: usize) -> usize {
    let wanted = if configured == 0 {
        32768
    } else {
        configured
    };
    if wanted <= round {
        wanted
    } else {
        round
    }
}

/// Whether the batch fits the round and each result its own limit.
pub open spec fn source_fits(
    slots: Seq<Option<tool::ResultView>>,
    limit: usize,
    round: usize,
) -> bool {
    &&& text::byte_len(tool::batch_json(slots)) <= round
    &&& forall|i: int|
        0 <= i < slots.len() ==> ((#[trigger] slots[i]) matches Some(r) ==> text::byte_len(
            tool::result_json(r),
        ) <= limit)
}

/// Admits a batch before anyone copies its payloads. A batch that does not fit
/// moves into the error as it is.
pub fn admit_source_results(
    ordered_results: &mut OrderedResults,
    configured_limit: usize,
    round_limit: usize,
) -> (r: Result<usize, ResultBudgetExceeded>)
    ensures
        r is Ok <==> source_fits(
            tool::batch_view(old(ordered_results)@),
            result_limit(configured_limit, round_limit),
            round_limit,
        ),
        match r {
            Ok(limit) => limit == result_limit(configured_limit, round_limit)
                && *final(ordered_results) == *old(ordered_results),
            Err(e) => e.results == *old(ordered_results) && e.errors@.len() == 0
                && final(ordered_results)@.len() == 0,
        },
{
    let wanted: usize = if configured_limit == 0 {
        32768
    } else {
        configured_limit
    };
    let limit: usize = if wanted <= round_limit {
        wanted
    } else {
        round_limit
    };
    let ghost views = tool::batch_view(ordered_results@);
    let whole: String = tool::batch_text(ordered_results);
    let mut fits: bool = text::len_bytes(whole.as_str()) <= round_limit;
    let mut i: usize = 0;
    while fits && i < ordered_results.len()
        invariant
            i <= ordered_results@.len(),
            *ordered_results == *old(ordered_results),
            views == tool::batch_view(ordered_results@),
            fits ==> text::byte_len(tool::batch_json(views)) <= round_limit,
            fits ==> forall|j: int|
                0 <= j < i ==> ((#[trigger] views[j]) matches Some(r) ==> text::byte_len(
                    tool::result_json(r),
                ) <= limit),
            !fits ==> !source_fits(views, limit, round_limit),
        decreases ordered_results@.len() - i,
    {
        assert(views[i as int] == tool::slot_view(ordered_results@[i as int]));
        if let Some(r) = &ordered_results[i] {
            let t: String = tool::result_text(r);
            if text::len_bytes(t.as_str()) > limit {
                fits = false;
            }
        }
        i += 1;
    }
    if fits {
        Ok(limit)
    } else {
        let mut results: OrderedResults = Vec::new();
        core::mem::swap(&mut results, ordered_results);
        Err(ResultBudgetExceeded { results, errors: Vec::new() })
    }
}

/// Whether both forms that history can take fit: each native message its limit,
/// all of them the round, and the single text message the round.
pub open spec fn history_fits(
    results: Seq<(Option<Seq<char>>, Seq<char>)>,
    tool_results: Seq<char>,
    limit: usize,
    round: usize,
) -> bool {
    let native = history_append::native_messages(results, Seq::empty());
    &&& forall|i: int|
        0 <= i < native.len() ==> text::byte_len(
            history_append::message_json(#[trigger] native[i]),
        ) <= limit
    &&& text::byte_len(history_append::messages_json(native)) <= round
    &&& text::byte_len(
        history_append::messages_json(seq![history_append::prompt_message(tool_results)]),
    ) <= round
}

/// Whether the results fit history in both of its forms.
pub fn history_results_fit(
    individual_results: &[(Option<String>, String)],
    tool_results: &str,
    per_result_limit: usize,
    round_limit: usize,
) -> (r: bool)
    requires
        round_limit >= 2,
    ensures
        r == history_fits(
            history_append::individual_views(individual_results@),
            tool_results@,
            per_result_limit,
            round_limit,
        ),
{
    let ghost results = history_append::individual_views(individual_results@);
    let ghost native = history_append::native_messages(results, Seq::empty());
    let mut native_size: usize = 2;
    proof {
        lemma_array_bytes(native.take(0));
        assert(native.take(0) =~= Seq::empty());
        assert(history_append::joined_messages(native.take(0)) =~= Seq::<char>::empty());
    }
    for i in 0..individual_results.len()
        invariant
            results == history_append::individual_views(individual_results@),
            native == history_append::native_messages(results, Seq::empty()),
            native_size == text::byte_len(history_append::messages_json(native.take(i as int))),
            native_size <= round_limit,
            forall|j: int|
                0 <= j < i ==> text::byte_len(history_append::message_json(#[trigger] native[j]))
                    <= per_result_limit,
    {
        assert(results[i as int] == history_append::individual_view(
            individual_results@[i as int],
        ));
        let content: String = history_append::native_tool_result_content(
            &individual_results[i].0,
            individual_results[i].1.as_str(),
        );
        let m: ChatMessage = ChatMessage { role: "tool".to_owned(), content };
        assert(m@ == native[i as int]);
        let size: usize = history_append::encoded_message_size(&m);
        if size > per_result_limit {
            return false;
        }
        proof {
            lemma_array_grows(native, i as int);
            lemma_array_monotone(native, i + 1);
        }
        let comma: usize = if i > 0 {
            1
        } else {
            0
        };
        let room: usize = round_limit - native_size;
        if comma > room || size > room - comma {
            return false;
        }
        native_size = native_size + comma + size;
    }
    assert(native.take(individual_results@.len() as int) =~= native);
    let mut prompt: String = "[Tool results]\n".to_owned();
    prompt.append(tool_results);
    let m: ChatMessage = ChatMessage { role: "user".to_owned(), content: prompt };
    proof {
        lemma_single_bytes(m@);
        assert(m@ == history_append::prompt_message(tool_results@));
    }
    history_append::encoded_message_size(&m) <= round_limit - 2
}

proof fn lemma_array_bytes(messages: Seq<message::MessageView>)
    ensures
        text::byte_len(history_append::messages_json(messages)) == 2 + text::byte_len(
            history_append::joined_messages(messages),
        ),
{
    reveal_strlit("[");
    reveal_strlit("]");
    let j = history_append::joined_messages(messages);
    text::lemma_byte_len_ascii("["@);
    text::lemma_byte_len_ascii("]"@);
    text::lemma_byte_len_concat("["@, j);
    text::lemma_byte_len_concat("["@ + j, "]"@);
}

proof fn lemma_single_bytes(m: message::MessageView)
    ensures
        text::byte_len(history_append::messages_json(seq![m])) == 2 + text::byte_len(
            history_append::message_json(m),
        ),
{
    lemma_array_bytes(seq![m]);
    assert(seq![m][0] == m);
}

proof fn lemma_array_grows(messages: Seq<message::MessageView>, i: int)
    requires
        0 <= i < messages.len(),
    ensures
        text::byte_len(history_append::messages_json(messages.take(i + 1))) == text::byte_len(
            history_append::messages_json(messages.take(i)),
        ) + text::byte_len(history_append::message_json(messages[i])) + (if i > 0 {
            1int
        } else {
            0int
        }),
{
    let before = messages.take(i);
    let after = messages.take(i + 1);
    lemma_array_bytes(before);
    lemma_array_bytes(after);
    assert(after.drop_last() == before);
    assert(after.last() == messages[i]);
    let j = history_append::joined_messages(before);
    if i > 0 {
        reveal_strlit(",");
        text::lemma_byte_len_ascii(","@);
        text::lemma_byte_len_concat(j, ","@);
        text::lemma_byte_len_concat(j + ","@, history_append::message_json(messages[i]));
    } else {
        assert(after[0] == messages[0]);
        assert(j =~= Seq::<char>::empty());
        text::lemma_byte_len_ascii(j);
    }
}

proof fn lemma_array_monotone(messages: Seq<message::MessageView>, n: int)
    requires
        0 <= n <= messages.len(),
    ensures
        text::byte_len(history_append::messages_json(messages.take(n))) <= text::byte_len(
            history_append::messages_json(messages),
        ),
    decreases messages.len() - n,
{
    if n < messages.len() {
        lemma_array_grows(messages, n);
        lemma_array_monotone(messages, n + 1);
    } else {
        assert(messages.take(n) == messages);
    }
}

/// What the model sees of a result: its output in canonical form, and the
/// receipt.
pub open spec fn shown_output(canonical: Seq<char>, receipt: Option<Seq<char>>) -> Seq<char> {
    match receipt {
        Some(r) => canonical + "\n\n[receipt: "@ + r + "]"@,
        None => canonical,
    }
}

/// The block that reports a result as text.
pub open spec fn result_block(name: Seq<char>, shown: Seq<char>) -> Seq<char> {
    "<tool_result name=\""@ + name + "\">\n"@ + shown + "\n</tool_result>\n"@
}

/// The results of the filled slots, in the form in which history takes them.
/// `canonical` holds the canonical output of each slot.
pub open spec fn shown_results(
    slots: Seq<Option<tool::ResultView>>,
    canonical: Seq<Seq<char>>,
) -> Seq<(Option<Seq<char>>, Seq<char>)>
    decreases slots.len(),
{
    if slots.len() == 0 {
        Seq::empty()
    } else {
        let before = shown_results(slots.drop_last(), canonical.drop_last());
        match slots.last() {
            Some(r) => before.push(
                (r.id, shown_output(canonical.last(), r.outcome.receipt)),
            ),
            None => before,
        }
    }
}

/// The blocks of the filled slots, one behind the other.
pub open spec fn shown_blocks(
    slots: Seq<Option<tool::ResultView>>,
    canonical: Seq<Seq<char>>,
) -> Seq<char>
    decreases slots.len(),
{
    if slots.len() == 0 {
        Seq::empty()
    } else {
        let before = shown_blocks(slots.drop_last(), canonical.drop_last());
        match slots.last() {
            Some(r) => before + result_block(
                r.name,
                shown_output(canonical.last(), r.outcome.receipt),
            ),
            None => before,
        }
    }
}

/// Whether each result, reported as text on its own, fits its limit.
pub open spec fn blocks_fit(
    slots: Seq<Option<tool::ResultView>>,
    canonical: Seq<Seq<char>>,
    limit: usize,
) -> bool {
    forall|i: int|
        0 <= i < slots.len() ==> ((#[trigger] slots[i]) matches Some(r) ==> text::byte_len(
            history_append::message_json(
                history_append::prompt_message(
                    result_block(r.name, shown_output(canonical[i], r.outcome.receipt)),
                ),
            ),
        ) <= limit)
}

/// Whether a round can be forwarded: its source, each result as text, and both
/// forms of history.
pub open spec fn round_fits(
    slots: Seq<Option<tool::ResultView>>,
    canonical: Seq<Seq<char>>,
    limit: usize,
    round: usize,
) -> bool {
    &&& source_fits(slots, limit, round)
    &&& blocks_fit(slots, canonical, limit)
    &&& history_fits(
        shown_results(slots, canonical),
        shown_blocks(slots, canonical),
        limit,
        round,
    )
}

/// The characters of a list of strings.
pub open spec fn strings(list: Seq<String>) -> Seq<Seq<char>> {
    list.map_values(|s: String| s@)
}

/// A round that can be forwarded.
pub struct AdmittedRound {
    pub ordered: OrderedResults,
    pub individual_results: Vec<(Option<String>, String)>,
    pub tool_results: String,
}

/// Brings a round into the form that is forwarded. A round that does not fit
/// moves into the error as it is. `canonical` holds the output of each slot
/// with its media markers in canonical form; what it holds for an empty slot
/// does not matter.
pub fn admit_round(
    ordered_results: OrderedResults,
    canonical: &[String],
    configured_limit: usize,
    round_limit: usize,
) -> (r: Result<AdmittedRound, ResultBudgetExceeded>)
    requires
        canonical@.len() == ordered_results@.len(),
        round_limit >= 2,
    ensures
        r is Ok <==> round_fits(
            tool::batch_view(ordered_results@),
            strings(canonical@),
            result_limit(configured_limit, round_limit),
            round_limit,
        ),
        match r {
            Ok(a) => a.ordered == ordered_results && history_append::individual_views(
                a.individual_results@,
            ) == shown_results(tool::batch_view(ordered_results@), strings(canonical@))
                && a.tool_results@ == shown_blocks(
                tool::batch_view(ordered_results@),
                strings(canonical@),
            ),
            Err(e) => e.results == ordered_results && e.errors@.len() == 0,
        },
{
    let mut ordered: OrderedResults = ordered_results;
    let ghost slots = tool::batch_view(ordered@);
    let ghost canon = strings(canonical@);
    let limit: usize = match admit_source_results(&mut ordered, configured_limit, round_limit) {
        Ok(limit) => limit,
        Err(e) => {
            return Err(e);
        },
    };
    let mut individual_results: Vec<(Option<String>, String)> = Vec::new();
    let mut tool_results: String = String::new();
    for i in 0..ordered.len()
        invariant
            canonical@.len() == ordered@.len(),
            ordered == ordered_results,
            slots == tool::batch_view(ordered@),
            canon == strings(canonical@),
            limit == result_limit(configured_limit, round_limit),
            history_append::individual_views(individual_results@) == shown_results(
                slots.take(i as int),
                canon.take(i as int),
            ),
            tool_results@ == shown_blocks(slots.take(i as int), canon.take(i as int)),
            forall|j: int|
                0 <= j < i ==> ((#[trigger] slots[j]) matches Some(r) ==> text::byte_len(
                    history_append::message_json(
                        history_append::prompt_message(
                            result_block(r.name, shown_output(canon[j], r.outcome.receipt)),
                        ),
                    ),
                ) <= limit),
    {
        proof {
            assert(slots.take(i + 1).drop_last() == slots.take(i as int));
            assert(canon.take(i + 1).drop_last() == canon.take(i as int));
            assert(slots[i as int] == tool::slot_view(ordered@[i as int]));
            assert(canon[i as int] == canonical@[i as int]@);
        }
        if let Some(r) = &ordered[i] {
            let mut shown: String = canonical[i].clone();
            if let Some(receipt) = &r.2.receipt {
                shown.append("\n\n[receipt: ");
                shown.append(receipt.as_str());
                shown.append("]");
            }
            assert(shown@ == shown_output(canon[i as int], tool::opt(r.2.receipt)));
            let mut block: String = "<tool_result name=\"".to_owned();
            block.append(r.0.as_str());
            block.append("\">\n");
            block.append(shown.as_str());
            block.append("\n</tool_result>\n");
            let mut prompt: String = "[Tool results]\n".to_owned();
            prompt.append(block.as_str());
            let m: ChatMessage = ChatMessage { role: "user".to_owned(), content: prompt };
            assert(m@ == history_append::prompt_message(block@));
            if history_append::encoded_message_size(&m) > limit {
                assert(!blocks_fit(slots, canon, limit)) by {
                    assert(slots[i as int] is Some);
                }
                return Err(ResultBudgetExceeded { results: ordered, errors: Vec::new() });
            }
            let ghost before = individual_results@;
            let id: Option<String> = r.1.clone();
            individual_results.push((id, shown));
            assert(history_append::individual_views(individual_results@)
                =~= history_append::individual_views(before).push((tool::opt(r.1), shown@)));
            tool_results.append(block.as_str());
        }
    }
    proof {
        assert(slots.take(ordered@.len() as int) == slots);
        assert(canon.take(ordered@.len() as int) == canon);
    }
    if !history_results_fit(
        individual_results.as_slice(),
        tool_results.as_str(),
        limit,
        round_limit,
    ) {
        return Err(ResultBudgetExceeded { results: ordered, errors: Vec::new() });
    }
    Ok(AdmittedRound { ordered, individual_results, tool_results })
}

/// Why a turn is handed to repair.
pub enum RecoveryTrigger {
    /// The recovery tracker's own finding.
    Observed(String),
    /// The loop detector broke the loop.
    CircuitBreaker { tool: String, message: String, iteration: usize },
    /// This many rounds in a row had the same output.
    IdenticalOutput { count: usize, iteration: usize },
}

/// The model of a trigger.
pub enum TriggerView {
    Observed(Seq<char>),
    CircuitBreaker { tool: Seq<char>, message: Seq<char>, iteration: usize },
    IdenticalOutput { count: usize, iteration: usize },
}

impl View for RecoveryTrigger {
    type V = TriggerView;

    open spec fn view(&self) -> TriggerView {
        match *self {
            RecoveryTrigger::Observed(s) => TriggerView::Observed(s@),
            RecoveryTrigger::CircuitBreaker { tool, message, iteration } =>
                TriggerView::CircuitBreaker { tool: tool@, message: message@, iteration },
            RecoveryTrigger::IdenticalOutput { count, iteration } =>
                TriggerView::IdenticalOutput { count, iteration },
        }
    }
}

/// The model of an optional trigger.
pub open spec fn opt_trigger(t: Option<RecoveryTrigger>) -> Option<TriggerView> {
    match t {
        Some(t) => Some(t@),
        None => None,
    }
}

/// What the loop detector says of a result.
pub enum LoopVerdict {
    Clear,
    Warning(String),
    Block(String),
    Break(String),
}

/// What the recovery tracker and the loop detector said of one slot. What one of
/// them was not asked is not used.
pub struct SlotReport {
    pub observed: Option<RecoveryTrigger>,
    pub verdict: LoopVerdict,
}

/// Whether a result is a wait for delegated work that is still going on, given
/// what the call's arguments and the output hold.
pub open spec fn pending_wait_given(
    tool: Seq<char>,
    success: bool,
    action: json::JsonFieldView,
    timeout: json::JsonFieldView,
    status: json::JsonFieldView,
    pending: json::JsonFieldView,
    failed: json::JsonFieldView,
    missing: json::JsonFieldView,
) -> bool {
    &&& tool == "delegate"@
    &&& success
    &&& action == json::JsonFieldView::Text("await_sessions"@)
    &&& (timeout is Absent || (timeout matches json::JsonFieldView::Unsigned(n) && n > 0))
    &&& status == json::JsonFieldView::Text("timeout"@)
    &&& (pending matches json::JsonFieldView::Items(n) && n > 0)
    &&& failed == json::JsonFieldView::Items(0)
    &&& missing == json::JsonFieldView::Items(0)
}

/// Whether a result is a wait for delegated work that is still going on.
pub open spec fn pending_wait(
    tool: Seq<char>,
    args: Seq<char>,
    success: bool,
    output: Seq<char>,
) -> bool {
    pending_wait_given(
        tool,
        success,
        json::field_of(args, "action"@),
        json::field_of(args, "timeout_ms"@),
        json::field_of(output, "status"@),
        json::field_of(output, "pending"@),
        json::field_of(output, "failed"@),
        json::field_of(output, "missing"@),
    )
}

/// Whether a field is the given text.
fn field_is(field: &JsonField, word: &str) -> (r: bool)
    ensures
        r == (field@ == json::JsonFieldView::Text(word@)),
{
    match field {
        JsonField::Text(s) => text::str_eq(s.as_str(), word),
        _ => false,
    }
}

/// Whether a field is an array with no items.
fn field_is_empty(field: &JsonField) -> (r: bool)
    ensures
        r == (field@ == json::JsonFieldView::Items(0)),
{
    match field {
        JsonField::Items(n) => *n == 0,
        _ => false,
    }
}

/// Whether a result is a wait for delegated work that is still going on, given
/// what the call's arguments and the output hold.
pub fn is_pending_wait_given(
    tool: &str,
    success: bool,
    action: &JsonField,
    timeout: &JsonField,
    status: &JsonField,
    pending: &JsonField,
    failed: &JsonField,
    missing: &JsonField,
) -> (r: bool)
    ensures
        r == pending_wait_given(
            tool@,
            success,
            action@,
            timeout@,
            status@,
            pending@,
            failed@,
            missing@,
        ),
{
    let blocking: bool = match timeout {
        JsonField::Absent => true,
        JsonField::Unsigned(n) => *n > 0,
        _ => false,
    };
    let waiting: bool = match pending {
        JsonField::Items(n) => *n > 0,
        _ => false,
    };
    text::str_eq(tool, "delegate") && success && field_is(action, "await_sessions") && blocking
        && field_is(status, "timeout") && waiting && field_is_empty(failed) && field_is_empty(
        missing,
    )
}

/// Whether a result is a successful, blocking look at delegated work that is
/// known and still going on. Only such a look is kept from loop detection.
pub fn is_pending_delegate_wait(
    tool: &str,
    args: &str,
    outcome: &ToolExecutionOutcome,
) -> (r: bool)
    ensures
        r == pending_wait(tool@, args@, outcome.success, outcome.output@),
{
    let output: &str = outcome.output.as_str();
    is_pending_wait_given(
        tool,
        outcome.success,
        &json::field(args, "action"),
        &json::field(args, "timeout_ms"),
        &json::field(output, "status"),
        &json::field(output, "pending"),
        &json::field(output, "failed"),
        &json::field(output, "missing"),
    )
}

/// The arguments of the call at `i`, or JSON's `null`.
pub open spec fn args_at(args: Seq<Seq<char>>, i: int) -> Seq<char> {
    if i < args.len() {
        args[i]
    } else {
        "null"@
    }
}

/// The arguments of tool calls.
pub open spec fn call_args(calls: Seq<ParsedToolCall>) -> Seq<Seq<char>> {
    calls.map_values(|c: ParsedToolCall| c.arguments@)
}

/// Whether the loop detector is asked about a result: a success of a tool that
/// is not ignored, and no wait for delegated work.
pub open spec fn detectable(
    r: tool::ResultView,
    args: Seq<char>,
    ignored: Seq<Seq<char>>,
) -> bool {
    &&& !ignored.contains(r.name)
    &&& !pending_wait(r.name, args, r.outcome.success, r.outcome.output)
    &&& r.outcome.success
}

/// Whether the loop detector is asked about a result.
pub fn feeds_detector(
    result: &(String, Option<String>, ToolExecutionOutcome),
    args: &str,
    ignored: &[&str],
) -> (r: bool)
    ensures
        r == detectable(tool::result_view(*result), args@, text::views(ignored@)),
{
    let name: Vec<char> = text::chars_of(result.0.as_str());
    !text::is_one_of(name.as_slice(), ignored) && !is_pending_delegate_wait(
        result.0.as_str(),
        args,
        &result.2,
    ) && result.2.success
}

/// What the slots of a round add up to.
pub struct Gathered {
    pub detection: Seq<char>,
    pub trigger: Option<TriggerView>,
    pub notes: Seq<Seq<char>>,
    pub receipts: Seq<Seq<char>>,
}

/// The note that a verdict leaves in the conversation.
pub open spec fn verdict_note(verdict: LoopVerdict) -> Seq<Seq<char>> {
    match verdict {
        LoopVerdict::Warning(m) => seq!["[Loop Detection] "@ + m@],
        LoopVerdict::Block(m) => seq!["[Loop Detection \u{2014} BLOCKED] "@ + m@],
        _ => Seq::empty(),
    }
}

/// `before` with one more slot.
pub open spec fn gather_slot(
    before: Gathered,
    slot: Option<tool::ResultView>,
    args: Seq<char>,
    ignored: Seq<Seq<char>>,
    report: SlotReport,
    iteration: usize,
) -> Gathered {
    match slot {
        None => before,
        Some(r) => {
            let fed = detectable(r, args, ignored);
            let seen = if before.trigger is None {
                opt_trigger(report.observed)
            } else {
                before.trigger
            };
            Gathered {
                detection: if fed {
                    before.detection + r.outcome.output
                } else {
                    before.detection
                },
                trigger: if seen is None && fed && report.verdict is Break {
                    Some(
                        TriggerView::CircuitBreaker {
                            tool: r.name,
                            message: report.verdict->Break_0@,
                            iteration,
                        },
                    )
                } else {
                    seen
                },
                notes: if fed {
                    before.notes + verdict_note(report.verdict)
                } else {
                    before.notes
                },
                receipts: match r.outcome.receipt {
                    Some(receipt) => before.receipts.push(r.name + ": "@ + receipt),
                    None => before.receipts,
                },
            }
        },
    }
}

/// What the first `n` slots add up to.
pub open spec fn gathered(
    slots: Seq<Option<tool::ResultView>>,
    args: Seq<Seq<char>>,
    ignored: Seq<Seq<char>>,
    reports: Seq<SlotReport>,
    iteration: usize,
    n: int,
) -> Gathered
    decreases n,
{
    if n <= 0 {
        nothing_gathered()
    } else {
        gather_slot(
            gathered(slots, args, ignored, reports, iteration, n - 1),
            slots[n - 1],
            args_at(args, n - 1),
            ignored,
            reports[n - 1],
            iteration,
        )
    }
}

/// Who is asked about a slot.
#[derive(Clone, Copy, Debug, PartialEq, Eq, Structural)]
pub struct Consult {
    /// Whether the recovery tracker observes the result.
    pub tracker: bool,
    /// Whether the loop detector records the call and its output.
    pub detector: bool,
}

/// Who is asked about a slot, given what the slots before it add up to: the
/// recovery tracker about every result as long as no trigger is known, the loop
/// detector about those that count for it. Nobody is asked about an empty slot.
pub open spec fn consulted(
    before: Gathered,
    slot: Option<tool::ResultView>,
    args: Seq<char>,
    ignored: Seq<Seq<char>>,
) -> Consult {
    match slot {
        Some(r) => Consult {
            tracker: before.trigger is None,
            detector: detectable(r, args, ignored),
        },
        None => Consult { tracker: false, detector: false },
    }
}

/// What was not asked does not matter: two reports that agree on what was asked
/// lead to the same sum.
pub proof fn law_only_what_was_asked_counts(
    before: Gathered,
    slot: Option<tool::ResultView>,
    args: Seq<char>,
    ignored: Seq<Seq<char>>,
    a: SlotReport,
    b: SlotReport,
    iteration: usize,
)
    requires
        consulted(before, slot, args, ignored).tracker ==> opt_trigger(a.observed) == opt_trigger(
            b.observed,
        ),
        consulted(before, slot, args, ignored).detector ==> a.verdict == b.verdict,
    ensures
        gather_slot(before, slot, args, ignored, a, iteration) == gather_slot(
            before,
            slot,
            args,
            ignored,
            b,
            iteration,
        ),
{
}

/// What the slots of a round add up to so far.
pub struct RoundTally {
    pub detection: String,
    pub trigger: Option<RecoveryTrigger>,
    pub notes: Vec<String>,
    pub receipts: Vec<String>,
}

impl View for RoundTally {
    type V = Gathered;

    open spec fn view(&self) -> Gathered {
        Gathered {
            detection: self.detection@,
            trigger: opt_trigger(self.trigger),
            notes: strings(self.notes@),
            receipts: strings(self.receipts@),
        }
    }
}

/// What no slot adds up to.
pub open spec fn nothing_gathered() -> Gathered {
    Gathered {
        detection: Seq::empty(),
        trigger: None,
        notes: Seq::empty(),
        receipts: Seq::empty(),
    }
}

/// A tally before the first slot.
pub fn begin_tally() -> (t: RoundTally)
    ensures
        t@ == nothing_gathered(),
{
    let t = RoundTally {
        detection: String::new(),
        trigger: None,
        notes: Vec::new(),
        receipts: Vec::new(),
    };
    assert(strings(t.notes@) =~= Seq::empty());
    assert(strings(t.receipts@) =~= Seq::empty());
    t
}

/// The arguments of the call at `i`, or JSON's `null`.
fn arguments_at(tool_calls: &[ParsedToolCall], i: usize) -> (s: &str)
    ensures
        s@ == args_at(call_args(tool_calls@), i as int),
{
    if i < tool_calls.len() {
        tool_calls[i].arguments.as_str()
    } else {
        "null"
    }
}

/// Who is asked about the slot at `i` of an admitted round.
pub fn consult(
    round: &AdmittedRound,
    tally: &RoundTally,
    tool_calls: &[ParsedToolCall],
    ignored: &[&str],
    i: usize,
) -> (c: Consult)
    requires
        i < round.ordered@.len(),
    ensures
        c == consulted(
            tally@,
            tool::slot_view(round.ordered@[i as int]),
            args_at(call_args(tool_calls@), i as int),
            text::views(ignored@),
        ),
{
    match &round.ordered[i] {
        Some(r) => Consult {
            tracker: tally.trigger.is_none(),
            detector: feeds_detector(r, arguments_at(tool_calls, i), ignored),
        },
        None => Consult { tracker: false, detector: false },
    }
}

/// Adds the slot at `i` of an admitted round to a tally, with what was said of it.
pub fn add_slot(
    tally: &mut RoundTally,
    round: &AdmittedRound,
    tool_calls: &[ParsedToolCall],
    ignored: &[&str],
    i: usize,
    report: SlotReport,
    iteration: usize,
)
    requires
        i < round.ordered@.len(),
    ensures
        final(tally)@ == gather_slot(
            old(tally)@,
            tool::slot_view(round.ordered@[i as int]),
            args_at(call_args(tool_calls@), i as int),
            text::views(ignored@),
            report,
            iteration,
        ),
{
    let ghost before = tally@;
    let asked: Consult = consult(round, tally, tool_calls, ignored, i);
    if let Some(r) = &round.ordered[i] {
        let SlotReport { observed, verdict } = report;
        if asked.tracker {
            tally.trigger = observed;
        }
        if asked.detector {
            tally.detection.append(r.2.output.as_str());
            match verdict {
                LoopVerdict::Clear => {},
                LoopVerdict::Warning(m) => {
                    let mut note: String = "[Loop Detection] ".to_owned();
                    note.append(m.as_str());
                    tally.notes.push(note);
                },
                LoopVerdict::Block(m) => {
                    let mut note: String = "[Loop Detection \u{2014} BLOCKED] ".to_owned();
                    note.append(m.as_str());
                    tally.notes.push(note);
                },
                LoopVerdict::Break(m) => {
                    if tally.trigger.is_none() {
                        tally.trigger =
                        Some(
                            RecoveryTrigger::CircuitBreaker {
                                tool: r.0.clone(),
                                message: m,
                                iteration,
                            },
                        );
                    }
                },
            }
        }
        if let Some(receipt) = &r.2.receipt {
            let mut line: String = r.0.clone();
            line.append(": ");
            line.append(receipt.as_str());
            tally.receipts.push(line);
        }
    }
    proof {
        let after = gather_slot(
            before,
            tool::slot_view(round.ordered@[i as int]),
            args_at(call_args(tool_calls@), i as int),
            text::views(ignored@),
            report,
            iteration,
        );
        assert(strings(tally.notes@) =~= after.notes);
        assert(strings(tally.receipts@) =~= after.receipts);
    }
}

/// The results of an admitted round whose slots were all added up.
pub fn close_round(round: AdmittedRound, tally: RoundTally) -> (c: CollectedResults)
    ensures
        c.individual_results == round.individual_results,
        c.tool_results == round.tool_results,
        c.gathered() == tally@,
{
    CollectedResults {
        individual_results: round.individual_results,
        tool_results: round.tool_results,
        detection_relevant_output: tally.detection,
        recovery_trigger: tally.trigger,
        notes: tally.notes,
        receipts: tally.receipts,
    }
}

/// One round's collected tool results.
pub struct CollectedResults {
    /// Each call's identifier and output, for native history.
    pub individual_results: Vec<(Option<String>, String)>,
    /// The blocks for textual history.
    pub tool_results: String,
    /// The outputs that the identical-output stop looks at.
    pub detection_relevant_output: String,
    /// Why the turn is handed to repair.
    pub recovery_trigger: Option<RecoveryTrigger>,
    /// What the loop detector adds to the conversation, in order.
    pub notes: Vec<String>,
    /// The receipts of the round, each behind its tool's name.
    pub receipts: Vec<String>,
}

impl CollectedResults {
    /// What the slots of the round add up to.
    pub open spec fn gathered(self) -> Gathered {
        Gathered {
            detection: self.detection_relevant_output@,
            trigger: opt_trigger(self.recovery_trigger),
            notes: strings(self.notes@),
            receipts: strings(self.receipts@),
        }
    }
}

/// Settles an admitted round with what the recovery tracker and the loop
/// detector said of its slots.
pub fn settle_round(
    round: AdmittedRound,
    tool_calls: &[ParsedToolCall],
    ignored: &[&str],
    reports: Vec<SlotReport>,
    iteration: usize,
) -> (c: CollectedResults)
    requires
        reports@.len() == round.ordered@.len(),
    ensures
        c.individual_results == round.individual_results,
        c.tool_results == round.tool_results,
        c.gathered() == gathered(
            tool::batch_view(round.ordered@),
            call_args(tool_calls@),
            text::views(ignored@),
            reports@,
            iteration,
            round.ordered@.len() as int,
        ),
{
    let ghost slots = tool::batch_view(round.ordered@);
    let ghost args = call_args(tool_calls@);
    let ghost skip = text::views(ignored@);
    let ghost all = reports@;
    let mut tally: RoundTally = begin_tally();
    let mut rest: Vec<SlotReport> = reports;
    assert(all.skip(0) == all);
    for i in 0..round.ordered.len()
        invariant
            slots == tool::batch_view(round.ordered@),
            args == call_args(tool_calls@),
            skip == text::views(ignored@),
            all.len() == round.ordered@.len(),
            rest@ == all.skip(i as int),
            tally@ == gathered(slots, args, skip, all, iteration, i as int),
    {
        let report: SlotReport = rest.remove(0);
        assert(report == all[i as int]);
        assert(rest@ =~= all.skip(i + 1));
        assert(slots[i as int] == tool::slot_view(round.ordered@[i as int]));
        add_slot(&mut tally, &round, tool_calls, ignored, i, report, iteration);
    }
    close_round(round, tally)
}

/// Collects a round: admits it, and settles it with what the recovery tracker
/// and the loop detector said of its slots. A round that is not admitted leaves
/// nothing but the error that holds it.
pub fn collect_tool_results(
    ordered_results: OrderedResults,
    canonical: &[String],
    tool_calls: &[ParsedToolCall],
    ignored: &[&str],
    reports: Vec<SlotReport>,
    configured_limit: usize,
    round_limit: usize,
    iteration: usize,
) -> (r: Result<CollectedResults, ResultBudgetExceeded>)
    requires
        canonical@.len() == ordered_results@.len(),
        reports@.len() == ordered_results@.len(),
        round_limit >= 2,
    ensures
        r is Ok <==> round_fits(
            tool::batch_view(ordered_results@),
            strings(canonical@),
            result_limit(configured_limit, round_limit),
            round_limit,
        ),
        match r {
            Ok(c) => {
                &&& history_append::individual_views(c.individual_results@) == shown_results(
                    tool::batch_view(ordered_results@),
                    strings(canonical@),
                )
                &&& c.tool_results@ == shown_blocks(
                    tool::batch_view(ordered_results@),
                    strings(canonical@),
                )
                &&& c.gathered() == gathered(
                    tool::batch_view(ordered_results@),
                    call_args(tool_calls@),
                    text::views(ignored@),
                    reports@,
                    iteration,
                    ordered_results@.len() as int,
                )
            },
            Err(e) => e.results == ordered_results && e.errors@.len() == 0,
        },
{
    match admit_round(ordered_results, canonical, configured_limit, round_limit) {
        Ok(round) => Ok(settle_round(round, tool_calls, ignored, reports, iteration)),
        Err(e) => Err(e),
    }
}

/// Whatever history form a collected round is appended in, the messages that
/// report it take no more bytes than a round may. Where native calls lend their
/// identifiers to results, every result must have one of its own for this.
pub proof fn law_history_stays_in_budget(
    ids: Seq<Seq<char>>,
    results: Seq<(Option<Seq<char>>, Seq<char>)>,
    tool_results: Seq<char>,
    limit: usize,
    round: usize,
    use_native_tools: bool,
)
    requires
        history_fits(results, tool_results, limit, round),
        ids.len() == 0 || forall|i: int|
            0 <= i < results.len() ==> (#[trigger] results[i]).0 is Some,
    ensures
        text::byte_len(
            history_append::messages_json(
                history_append::round_messages(ids, results, tool_results, use_native_tools),
            ),
        ) <= round,
{
    if ids.len() == 0 {
        assert(ids =~= Seq::empty());
    } else {
        assert(history_append::native_messages(results, ids) =~= history_append::native_messages(
            results,
            Seq::empty(),
        ));
    }
}

/// A failed result neither feeds the identical-output stop nor breaks the loop:
/// where all results failed, only the recovery tracker can hand the turn to
/// repair.
pub proof fn law_failures_do_not_break_the_loop(
    slots: Seq<Option<tool::ResultView>>,
    args: Seq<Seq<char>>,
    ignored: Seq<Seq<char>>,
    reports: Seq<SlotReport>,
    iteration: usize,
    n: int,
)
    requires
        0 <= n <= slots.len(),
        n <= reports.len(),
        forall|i: int| 0 <= i < n ==> ((#[trigger] slots[i]) matches Some(r) ==> !r.outcome.success),
        forall|i: int| 0 <= i < n ==> (#[trigger] reports[i]).observed is None,
    ensures
        gathered(slots, args, ignored, reports, iteration, n).trigger is None,
        gathered(slots, args, ignored, reports, iteration, n).detection == Seq::<char>::empty(),
        gathered(slots, args, ignored, reports, iteration, n).notes == Seq::<Seq<char>>::empty(),
    decreases n,
{
    if n > 0 {
        law_failures_do_not_break_the_loop(slots, args, ignored, reports, iteration, n - 1);
        assert(reports[n - 1].observed is None);
    }
}

/// The state of the identical-output stop after a round whose output has the given
/// hash: how many rounds in a row, this one among them, had that output, and its
/// hash.
pub open spec fn repeated(count: int, last: Option<u64>, hash: u64) -> (int, Option<u64>) {
    if last == Some(hash) {
        (count + 1, last)
    } else {
        (1, Some(hash))
    }
}

/// What the identical-output stop says once this many rounds in a row had the same
/// output.
pub open spec fn repetition_trigger(count: int, iteration: usize) -> Option<TriggerView> {
    if count >= 3 {
        Some(TriggerView::IdenticalOutput { count: count as usize, iteration })
    } else {
        None
    }
}

/// Whether the stop is on: it is configured, and the loop has run that long.
pub open spec fn stop_is_on(min_secs: Option<u64>, elapsed: Elapsed) -> bool {
    min_secs matches Some(m) && elapsed.secs >= m
}

/// One look of the identical-output stop at a round whose output has the given
/// hash.
pub fn check_output_hash(
    current_hash: u64,
    consecutive_identical_outputs: &mut usize,
    last_tool_output_hash: &mut Option<u64>,
    iteration: usize,
) -> (r: Option<RecoveryTrigger>)
    requires
        *old(consecutive_identical_outputs) < usize::MAX,
    ensures
        (*final(consecutive_identical_outputs) as int, *final(last_tool_output_hash)) == repeated(
            *old(consecutive_identical_outputs) as int,
            *old(last_tool_output_hash),
            current_hash,
        ),
        opt_trigger(r) == repetition_trigger(
            *final(consecutive_identical_outputs) as int,
            iteration,
        ),
{
    let same: bool = match *last_tool_output_hash {
        Some(h) => h == current_hash,
        None => false,
    };
    if same {
        *consecutive_identical_outputs = *consecutive_identical_outputs + 1;
    } else {
        *consecutive_identical_outputs = 1;
        *last_tool_output_hash = Some(current_hash);
    }
    if *consecutive_identical_outputs >= 3 {
        Some(
            RecoveryTrigger::IdenticalOutput { count: *consecutive_identical_outputs, iteration },
        )
    } else {
        None
    }
}

/// The hash that `std`'s `DefaultHasher` gives a string.
pub uninterp spec fn default_hash(s: Seq<char>) -> u64;

/// `std`'s `DefaultHasher`, made by `new`, fed with a string by `Hash`: every
/// hasher that is made so is the same, so the hash depends on the string alone.
/// Which number it is, `std` leaves open, and so does the name.
#[verifier::external_body]
fn output_hash(s: &str) -> (h: u64)
    ensures
        h == default_hash(s@),
{
    let mut hasher = std::collections::hash_map::DefaultHasher::new();
    s.hash(&mut hasher);
    hasher.finish()
}

/// Time-gated stop on identical output: once the loop has run for the configured
/// time, the third round in a row with the same output hands the turn to repair. A
/// round without output that counts is passed over.
pub fn check_identical_output_abort(
    detection_relevant_output: &str,
    elapsed: Elapsed,
    min_elapsed_secs: Option<u64>,
    consecutive_identical_outputs: &mut usize,
    last_tool_output_hash: &mut Option<u64>,
    iteration: usize,
) -> (r: Option<RecoveryTrigger>)
    requires
        *old(consecutive_identical_outputs) < usize::MAX,
    ensures
        if stop_is_on(min_elapsed_secs, elapsed) && detection_relevant_output@.len() > 0 {
            &&& (*final(consecutive_identical_outputs) as int, *final(last_tool_output_hash))
                == repeated(
                *old(consecutive_identical_outputs) as int,
                *old(last_tool_output_hash),
                default_hash(detection_relevant_output@),
            )
            &&& opt_trigger(r) == repetition_trigger(
                *final(consecutive_identical_outputs) as int,
                iteration,
            )
        } else {
            &&& r is None
            &&& *final(consecutive_identical_outputs) == *old(consecutive_identical_outputs)
            &&& *final(last_tool_output_hash) == *old(last_tool_output_hash)
        },
{
    let active: bool = match min_elapsed_secs {
        Some(m) => elapsed.secs >= m,
        None => false,
    };
    if !active || detection_relevant_output.is_empty() {
        return None;
    }
    let hash: u64 = output_hash(detection_relevant_output);
    check_output_hash(hash, consecutive_identical_outputs, last_tool_output_hash, iteration)
}

/// The state of the identical-output stop after `n` rounds with the same hash.
pub open spec fn after_rounds(count: int, last: Option<u64>, hash: u64, n: nat) -> (
    int,
    Option<u64>,
)
    decreases n,
{
    if n == 0 {
        (count, last)
    } else {
        let before = after_rounds(count, last, hash, (n - 1) as nat);
        repeated(before.0, before.1, hash)
    }
}

/// A loop that gives the same output over and over is stopped: wherever the stop
/// stood before, the third round in a row with the same output hands the turn to
/// repair, and so does every further one.
pub proof fn law_identical_output_is_stopped(
    count: usize,
    last: Option<u64>,
    output: Seq<char>,
    n: nat,
    iteration: usize,
)
    requires
        n >= 3,
    ensures
        repetition_trigger(
            after_rounds(count as int, last, default_hash(output), n).0,
            iteration,
        ) is Some,
{
    lemma_rounds_count(count as int, last, default_hash(output), n);
}

proof fn lemma_rounds_count(count: int, last: Option<u64>, hash: u64, n: nat)
    requires
        count >= 0,
        n > 0,
    ensures
        after_rounds(count, last, hash, n).0 >= n,
        after_rounds(count, last, hash, n).1 == Some(hash),
    decreases n,
{
    if n > 1 {
        lemma_rounds_count(count, last, hash, (n - 1) as nat);
    } else {
        reveal_with_fuel(after_rounds, 2);
    }
}

/// An output that is not the one before it, the first one among them, starts the
/// count anew: neither right after it nor in the next round with the same output
/// does the stop say anything.
pub proof fn law_other_output_starts_anew(
    count: usize,
    last: Option<u64>,
    output: Seq<char>,
    iteration: usize,
)
    requires
        last != Some(default_hash(output)),
    ensures
        repeated(count as int, last, default_hash(output)) == (1int, Some(default_hash(output))),
        forall|n: nat|
            0 < n < 3 ==> repetition_trigger(
                (#[trigger] after_rounds(count as int, last, default_hash(output), n)).0,
                iteration,
            ) is None,
{
    reveal_with_fuel(after_rounds, 3);
}

} // verus!
