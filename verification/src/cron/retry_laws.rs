//! What holds of the attempts at a job.

use crate::cron::job;
use crate::cron::job::{CronJob, JobType};
use crate::cron::retry;
use crate::cron::retry::{after_attempt, begin_attempts, is_read_only, RetryState, RetryStep};
use vstd::prelude::*;
use vstd::string::*;

verus! {

/// A failed attempt is followed by another one exactly if fewer attempts than
/// there are retries came before it and its output is no refusal by the security
/// policy; a success is followed by none. The next attempt is counted, and waits
/// twice as long, up to 30 seconds.
pub proof fn law_failures_are_tried_again_while_retries_last(
    s: RetryState,
    success: bool,
    output: &str,
    subsec_millis: u32,
    r: RetryStep,
)
    requires
        s.attempt < s.retries ==> s.backoff_ms <= u64::MAX - 250,
        call_ensures(after_attempt, (s, success, output, subsec_millis), r),
    ensures
        r is Again <==> !success && !"blocked by security policy:"@.is_prefix_of(output@)
            && s.attempt < s.retries,
        r matches RetryStep::Done { success: told } ==> told == success,
        r matches RetryStep::Again { sleep_ms, next } ==> {
            &&& next.attempt == s.attempt + 1
            &&& next.retries == s.retries
            &&& sleep_ms - s.backoff_ms == subsec_millis % 250
            &&& s.backoff_ms <= 15_000 ==> next.backoff_ms == s.backoff_ms + s.backoff_ms
            &&& s.backoff_ms > 15_000 ==> next.backoff_ms == 30_000
        },
{
}

/// No attempt comes before the first. Only a job that leaves no trace has retries,
/// and no wait is shorter than 200 milliseconds.
pub proof fn law_only_harmless_jobs_have_retries(
    read_only: bool,
    retries: u32,
    backoff_ms: u64,
    s: RetryState,
)
    requires
        call_ensures(begin_attempts, (read_only, retries, backoff_ms), s),
    ensures
        s.attempt == 0,
        read_only ==> s.retries == retries,
        !read_only ==> s.retries == 0,
        backoff_ms >= 200 ==> s.backoff_ms == backoff_ms,
        backoff_ms < 200 ==> s.backoff_ms == 200,
{
}

/// Whether `steps` follow one another from `first`: each attempt failed, none was
/// refused by the security policy, and each one that follows starts where the one
/// before it left off.
pub open spec fn keeps_failing(
    first: RetryState,
    states: Seq<RetryState>,
    steps: Seq<RetryStep>,
    outputs: Seq<&str>,
    chances: Seq<u32>,
) -> bool {
    &&& states.len() == steps.len()
    &&& outputs.len() == steps.len()
    &&& chances.len() == steps.len()
    &&& steps.len() > 0
    &&& states[0] == first
    &&& forall|k: int|
        0 <= k < steps.len() ==> #[trigger] call_ensures(
            after_attempt,
            (states[k], false, outputs[k], chances[k]),
            steps[k],
        ) && !"blocked by security policy:"@.is_prefix_of(outputs[k]@)
    &&& forall|k: int|
        0 <= k < steps.len() - 1 ==> ((#[trigger] steps[k]) matches RetryStep::Again { sleep_ms, next }
            && next == states[k + 1])
}

/// A job that leaves no trace and keeps failing is tried exactly once more than it
/// has retries: each of that many failures is followed by another attempt, and the
/// one after them is the last.
pub proof fn law_a_failing_job_is_tried_once_more_than_it_has_retries(
    retries: u32,
    backoff_ms: u64,
    first: RetryState,
    states: Seq<RetryState>,
    steps: Seq<RetryStep>,
    outputs: Seq<&str>,
    chances: Seq<u32>,
)
    requires
        call_ensures(begin_attempts, (true, retries, backoff_ms), first),
        keeps_failing(first, states, steps, outputs, chances),
    ensures
        steps.len() <= retries + 1,
        steps.last() is Done <==> steps.len() == retries + 1,
        steps.last() matches RetryStep::Done { success } ==> !success,
{
    lemma_attempts_count(first, states, steps, outputs, chances, steps.len() - 1);
    let n = steps.len() - 1;
    assert(call_ensures(after_attempt, (states[n], false, outputs[n], chances[n]), steps[n]));
    if n > 0 {
        assert(call_ensures(
            after_attempt,
            (states[n - 1], false, outputs[n - 1], chances[n - 1]),
            steps[n - 1],
        ));
        lemma_attempts_count(first, states, steps, outputs, chances, n - 1);
    }
}

proof fn lemma_attempts_count(
    first: RetryState,
    states: Seq<RetryState>,
    steps: Seq<RetryStep>,
    outputs: Seq<&str>,
    chances: Seq<u32>,
    k: int,
)
    requires
        first.attempt == 0,
        keeps_failing(first, states, steps, outputs, chances),
        0 <= k < steps.len(),
    ensures
        states[k].attempt == k,
        states[k].retries == first.retries,
    decreases k,
{
    if k > 0 {
        lemma_attempts_count(first, states, steps, outputs, chances, k - 1);
        assert(call_ensures(
            after_attempt,
            (states[k - 1], false, outputs[k - 1], chances[k - 1]),
            steps[k - 1],
        ));
        assert(steps[k - 1] is Again);
    }
}

/// A job leaves no trace exactly if it is an agent job with a closed list of tools
/// and each of them is said to leave none.
pub proof fn law_who_leaves_no_trace<F: Fn(&str) -> bool>(
    j: &CronJob,
    is_stateless: F,
    stateless: spec_fn(Seq<char>) -> bool,
    r: bool,
)
    requires
        call_ensures(is_read_only, (j, is_stateless), r),
        forall|s: &str, answer: bool| #[trigger]
            call_ensures(is_stateless, (s,), answer) ==> answer == stateless(s@),
    ensures
        r <==> j.job_type is Agent && j.allowed_tools is Some && forall|i: int|
            0 <= i < j.allowed_tools->Some_0@.len() ==> stateless(
                (#[trigger] j.allowed_tools->Some_0@[i])@,
            ),
{
    if j.job_type is Agent && j.allowed_tools is Some {
        let tools = j.allowed_tools->Some_0@;
        let names = j@.allowed_tools->Some_0;
        assert(names == job::names(tools));
        assert(names.len() == tools.len());
        assert forall|i: int| 0 <= i < tools.len() implies #[trigger] tools[i]@ == names[i] by {}
        if r {
            assert forall|i: int| 0 <= i < tools.len() implies stateless(
                (#[trigger] tools[i])@,
            ) by {
                assert(tools[i]@ == names[i]);
                assert(retry::answered(is_stateless, names[i], true));
            }
        } else {
            let i = choose|i: int|
                0 <= i < names.len() && retry::answered(is_stateless, #[trigger] names[i], false);
            assert(tools[i]@ == names[i]);
            assert(!stateless(tools[i]@));
        }
    }
}

} // verus!
