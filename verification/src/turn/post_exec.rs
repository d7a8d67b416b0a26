//! Post-execution recording: filling the executed calls' slots, admitting the
//! batch, and deciding what is published of each call.

use crate::turn::results_collect;
use crate::turn::results_collect::ResultBudgetExceeded;
use crate::turn::tool;
use crate::turn::tool::{Elapsed, OrderedResults, ParsedToolCall, ToolExecutionOutcome};
use vstd::prelude::*;
use vstd::string::*;

verus! {

/// The number of calls that have an index, a call and an outcome.
pub open spec fn recorded_len(indices: nat, calls: nat, outcomes: nat) -> nat {
    let a = if indices <= calls {
        indices
    } else {
        calls
    };
    if a <= outcomes {
        a
    } else {
        outcomes
    }
}

/// The slots after the first `n` executed calls have been put in.
pub open spec fn filled(
    slots: Seq<Option<tool::ResultView>>,
    indices: Seq<usize>,
    calls: Seq<ParsedToolCall>,
    outcomes: Seq<ToolExecutionOutcome>,
    n: nat,
) -> Seq<Option<tool::ResultView>>
    decreases n,
{
    if n == 0 {
        slots
    } else {
        let k = (n - 1) as nat;
        filled(slots, indices, calls, outcomes, k).update(
            indices[k as int] as int,
            Some(
                tool::ResultView {
                    name: calls[k as int].name@,
                    id: tool::opt(calls[k as int].tool_call_id),
                    outcome: outcomes[k as int]@,
                },
            ),
        )
    }
}

/// A duration in whole milliseconds, at most `u64::MAX`.
pub open spec fn millis(d: Elapsed) -> u64 {
    let exact = d.secs * 1000 + d.nanos / 1_000_000;
    if exact <= u64::MAX {
        exact as u64
    } else {
        u64::MAX
    }
}

/// A duration in whole milliseconds, at most `u64::MAX`.
pub fn whole_millis(d: Elapsed) -> (n: u64)
    ensures
        n == millis(d),
{
    let exact: u128 = d.secs as u128 * 1000 + (d.nanos / 1_000_000) as u128;
    if exact <= u64::MAX as u128 {
        exact as u64
    } else {
        u64::MAX
    }
}

/// What is published of one executed call. The log line and the capture of an
/// operating procedure's step always are.
#[derive(Clone, Copy, Debug, PartialEq, Eq, Structural)]
pub struct Publication {
    /// The position among the executed calls.
    pub call: usize,
    /// The position in the batch.
    pub slot: usize,
    pub success: bool,
    pub duration_ms: u64,
    pub duration_secs: u64,
    /// Whether hooks and progress follow.
    pub auxiliary: bool,
    /// Whether the draft is told that the call is complete.
    pub completion: bool,
}

/// What is published of the first `n` executed calls: those with a filled slot.
pub open spec fn publications(
    slots: Seq<Option<tool::ResultView>>,
    indices: Seq<usize>,
    streamed: Seq<bool>,
    publish_auxiliary: bool,
    n: nat,
) -> Seq<Publication>
    decreases n,
{
    if n == 0 {
        Seq::empty()
    } else {
        let k = (n - 1) as nat;
        let before = publications(slots, indices, streamed, publish_auxiliary, k);
        match slots[indices[k as int] as int] {
            None => before,
            Some(r) => before.push(
                Publication {
                    call: k as usize,
                    slot: indices[k as int],
                    success: r.outcome.success,
                    duration_ms: millis(r.outcome.duration),
                    duration_secs: r.outcome.duration.secs,
                    auxiliary: publish_auxiliary,
                    completion: publish_auxiliary && streamed[k as int],
                },
            ),
        }
    }
}

/// Records the outcomes of the executed calls in their slots, admits the batch,
/// and says what is published. Every slot is filled before the batch is checked;
/// a batch that does not fit moves into the error, and nothing is published.
/// `streamed` says of each call whether its draft is shown. A batch that ends
/// the turn publishes nothing auxiliary.
pub fn record_executed_outcomes(
    executable_indices: &[usize],
    executable_calls: &[ParsedToolCall],
    streamed: &[bool],
    executed_outcomes: Vec<ToolExecutionOutcome>,
    ordered_results: &mut OrderedResults,
    configured_limit: usize,
    round_limit: usize,
    publish_auxiliary: bool,
) -> (r: Result<Vec<Publication>, ResultBudgetExceeded>)
    requires
        forall|i: int|
            0 <= i < executable_indices@.len() ==> (#[trigger] executable_indices@[i])
                < old(ordered_results)@.len(),
    ensures
        ({
            let slots = filled(
                tool::batch_view(old(ordered_results)@),
                executable_indices@,
                executable_calls@,
                executed_outcomes@,
                recorded_len(
                    executable_indices@.len(),
                    executable_calls@.len(),
                    executed_outcomes@.len(),
                ),
            );
            let limit = results_collect::result_limit(configured_limit, round_limit);
            &&& r is Ok <==> results_collect::source_fits(slots, limit, round_limit)
            &&& match r {
                Ok(list) => {
                    &&& tool::batch_view(final(ordered_results)@) == slots
                    &&& list@ == publications(
                        slots,
                        executable_indices@,
                        streamed@,
                        publish_auxiliary,
                        recorded_len(
                            executable_indices@.len(),
                            executable_calls@.len(),
                            streamed@.len(),
                        ),
                    )
                },
                Err(e) => {
                    &&& tool::batch_view(e.results@) == slots
                    &&& e.errors@.len() == 0
                    &&& final(ordered_results)@.len() == 0
                },
            }
        }),
{
    let ghost start = tool::batch_view(ordered_results@);
    let ghost outcomes = executed_outcomes@;
    let ghost total = recorded_len(
        executable_indices@.len(),
        executable_calls@.len(),
        outcomes.len(),
    );
    let mut rest: Vec<ToolExecutionOutcome> = executed_outcomes;
    let mut i: usize = 0;
    assert(outcomes.skip(0) == outcomes);
    while i < executable_indices.len() && i < executable_calls.len() && rest.len() > 0
        invariant
            i <= total,
            total == recorded_len(
                executable_indices@.len(),
                executable_calls@.len(),
                outcomes.len(),
            ),
            rest@ == outcomes.skip(i as int),
            ordered_results@.len() == start.len(),
            forall|k: int|
                0 <= k < executable_indices@.len() ==> (#[trigger] executable_indices@[k])
                    < ordered_results@.len(),
            tool::batch_view(ordered_results@) == filled(
                start,
                executable_indices@,
                executable_calls@,
                outcomes,
                i as nat,
            ),
        decreases executable_indices@.len() - i,
    {
        let outcome: ToolExecutionOutcome = rest.remove(0);
        assert(outcome == outcomes[i as int]);
        assert(rest@ =~= outcomes.skip(i + 1));
        let name: String = executable_calls[i].name.clone();
        let id: Option<String> = executable_calls[i].tool_call_id.clone();
        let ghost before = ordered_results@;
        assert(executable_indices@[i as int] < ordered_results@.len());
        ordered_results.set(executable_indices[i], Some((name, id, outcome)));
        assert(tool::batch_view(ordered_results@) =~= tool::batch_view(before).update(
            executable_indices@[i as int] as int,
            Some(
                tool::ResultView {
                    name: executable_calls@[i as int].name@,
                    id: tool::opt(executable_calls@[i as int].tool_call_id),
                    outcome: outcomes[i as int]@,
                },
            ),
        ));
        i += 1;
    }
    let ghost slots = tool::batch_view(ordered_results@);
    match results_collect::admit_source_results(ordered_results, configured_limit, round_limit) {
        Err(e) => {
            return Err(e);
        },
        Ok(_) => {},
    }
    let mut list: Vec<Publication> = Vec::new();
    let mut k: usize = 0;
    while k < executable_indices.len() && k < executable_calls.len() && k < streamed.len()
        invariant
            k <= recorded_len(
                executable_indices@.len(),
                executable_calls@.len(),
                streamed@.len(),
            ),
            slots == tool::batch_view(ordered_results@),
            forall|j: int|
                0 <= j < executable_indices@.len() ==> (#[trigger] executable_indices@[j])
                    < ordered_results@.len(),
            list@ == publications(
                slots,
                executable_indices@,
                streamed@,
                publish_auxiliary,
                k as nat,
            ),
        decreases executable_indices@.len() - k,
    {
        let slot: usize = executable_indices[k];
        assert(executable_indices@[k as int] < ordered_results@.len());
        assert(slots[slot as int] == tool::slot_view(ordered_results@[slot as int]));
        if let Some(r) = &ordered_results[slot] {
            list.push(
                Publication {
                    call: k,
                    slot,
                    success: r.2.success,
                    duration_ms: whole_millis(r.2.duration),
                    duration_secs: r.2.duration.secs,
                    auxiliary: publish_auxiliary,
                    completion: publish_auxiliary && streamed[k],
                },
            );
        }
        k += 1;
    }
    Ok(list)
}

/// A batch that ends the turn publishes nothing auxiliary.
pub proof fn law_terminal_batch_publishes_no_auxiliary(
    slots: Seq<Option<tool::ResultView>>,
    indices: Seq<usize>,
    streamed: Seq<bool>,
    n: nat,
)
    ensures
        forall|i: int|
            0 <= i < publications(slots, indices, streamed, false, n).len() ==> !(
            #[trigger] publications(slots, indices, streamed, false, n)[i]).auxiliary
                && !publications(slots, indices, streamed, false, n)[i].completion,
    decreases n,
{
    if n > 0 {
        let k = (n - 1) as nat;
        law_terminal_batch_publishes_no_auxiliary(slots, indices, streamed, k);
        let before = publications(slots, indices, streamed, false, k);
        let after = publications(slots, indices, streamed, false, n);
        assert forall|i: int| 0 <= i < after.len() implies !(#[trigger] after[i]).auxiliary
            && !after[i].completion by {
            if i < before.len() {
                assert(after[i] == before[i]);
            }
        }
    }
}

} // verus!
