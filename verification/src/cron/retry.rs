//! Whether a failed job is tried again, and when.

use crate::cron::job;
use crate::cron::job::{CronJob, JobType};
use crate::text;
use vstd::prelude::*;
use vstd::string::*;

verus! {

/// The shortest wait before a job is tried again, in milliseconds.
pub const MIN_BACKOFF_MS: u64 = 200;

/// The longest wait that waits grow to, in milliseconds.
pub const MAX_BACKOFF_MS: u64 = 30_000;

/// The waits before two attempts differ by less than this many milliseconds for
/// chance.
pub const JITTER_MS: u32 = 250;

/// Where a job stands between two attempts.
#[derive(Clone, Copy, Debug, PartialEq, Eq, Structural)]
pub struct RetryState {
    /// The attempts that came before the present one.
    pub attempt: u32,
    /// The attempts that may follow the first.
    pub retries: u32,
    /// The wait before the next attempt, without what chance adds.
    pub backoff_ms: u64,
}

/// What follows an attempt.
#[derive(Clone, Copy, Debug, PartialEq, Eq, Structural)]
pub enum RetryStep {
    /// The job is over.
    Done { success: bool },
    /// The job waits and is tried again.
    Again { sleep_ms: u64, next: RetryState },
}

/// Whether a job can be tried again without harm: an agent job that may use tools
/// of a closed list only, all of which read without leaving a trace. A job without
/// such a list may use any tool. `is_stateless` says which tools are of that
/// kind.
pub fn is_read_only<F: Fn(&str) -> bool>(j: &CronJob, is_stateless: F) -> (r: bool)
    requires
        forall|s: &str| #[trigger] call_requires(is_stateless, (s,)),
    ensures
        j@.job_type != JobType::Agent || j@.allowed_tools is None ==> !r,
        r ==> all_stateless(is_stateless, j@.allowed_tools->Some_0),
        !r && j@.job_type == JobType::Agent && j@.allowed_tools is Some ==> exists|i: int|
            0 <= i < j@.allowed_tools->Some_0.len() && answered(
                is_stateless,
                #[trigger] j@.allowed_tools->Some_0[i],
                false,
            ),
{
    if j.job_type != JobType::Agent {
        return false;
    }
    match &j.allowed_tools {
        None => false,
        Some(tools) => {
            for i in 0..tools.len()
                invariant
                    j@.allowed_tools == Some(job::names(tools@)),
                    forall|s: &str| #[trigger] call_requires(is_stateless, (s,)),
                    forall|j: int|
                        0 <= j < i ==> answered(
                            is_stateless,
                            #[trigger] job::names(tools@)[j],
                            true,
                        ),
            {
                let tool: &str = tools[i].as_str();
                let reply: bool = is_stateless(tool);
                assert(job::names(tools@)[i as int] == tool@);
                assert(answered(is_stateless, tool@, reply)) by {
                    assert(call_ensures(is_stateless, (tool,), reply));
                }
                if !reply {
                    assert(answered(is_stateless, j@.allowed_tools->Some_0[i as int], false));
                    return false;
                }
            }
            true
        },
    }
}

/// Whether a predicate gave an answer on a text.
pub open spec fn answered<F: Fn(&str) -> bool>(f: F, tool: Seq<char>, answer: bool) -> bool {
    exists|s: &str| s@ == tool && #[trigger] call_ensures(f, (s,), answer)
}

/// Whether a predicate gave its consent on every one of a list of tools.
pub open spec fn all_stateless<F: Fn(&str) -> bool>(f: F, tools: Seq<Seq<char>>) -> bool {
    forall|i: int| 0 <= i < tools.len() ==> answered(f, #[trigger] tools[i], true)
}

/// Where a job stands before its first attempt. A job that may leave traces is
/// tried once.
pub open spec fn first_state(read_only: bool, retries: u32, backoff_ms: u64) -> RetryState {
    RetryState {
        attempt: 0,
        retries: if read_only {
            retries
        } else {
            0
        },
        backoff_ms: if backoff_ms < MIN_BACKOFF_MS {
            MIN_BACKOFF_MS
        } else {
            backoff_ms
        },
    }
}

/// Where a job stands before its first attempt.
pub fn begin_attempts(read_only: bool, retries: u32, backoff_ms: u64) -> (s: RetryState)
    ensures
        s == first_state(read_only, retries, backoff_ms),
{
    RetryState {
        attempt: 0,
        retries: if read_only {
            retries
        } else {
            0
        },
        backoff_ms: if backoff_ms < MIN_BACKOFF_MS {
            MIN_BACKOFF_MS
        } else {
            backoff_ms
        },
    }
}

/// Whether an output says that the job was kept from running. That does not
/// change from one attempt to the next.
pub open spec fn is_blocked(output: Seq<char>) -> bool {
    "blocked by security policy:"@.is_prefix_of(output)
}

/// Twice the wait, up to the longest.
pub open spec fn doubled(backoff_ms: u64) -> u64 {
    if backoff_ms * 2 > MAX_BACKOFF_MS {
        MAX_BACKOFF_MS
    } else {
        (backoff_ms * 2) as u64
    }
}

/// What follows an attempt with this result; `chance` is a number that nothing
/// else depends on.
pub open spec fn step_after(
    s: RetryState,
    success: bool,
    output: Seq<char>,
    chance: u32,
) -> RetryStep {
    if success {
        RetryStep::Done { success: true }
    } else if is_blocked(output) || s.attempt >= s.retries {
        RetryStep::Done { success: false }
    } else {
        RetryStep::Again {
            sleep_ms: (s.backoff_ms + chance % JITTER_MS) as u64,
            next: RetryState {
                attempt: (s.attempt + 1) as u32,
                retries: s.retries,
                backoff_ms: doubled(s.backoff_ms),
            },
        }
    }
}

/// What follows an attempt with this result. `subsec_millis` is the part of the
/// present second that has passed.
pub fn after_attempt(s: RetryState, success: bool, output: &str, subsec_millis: u32) -> (r:
    RetryStep)
    requires
        s.attempt < s.retries ==> s.backoff_ms <= u64::MAX - JITTER_MS,
    ensures
        r == step_after(s, success, output@, subsec_millis),
{
    if success {
        return RetryStep::Done { success: true };
    }
    let all: Vec<char> = text::chars_of(output);
    if text::starts_with(all.as_slice(), "blocked by security policy:") || s.attempt >= s.retries {
        return RetryStep::Done { success: false };
    }
    let backoff_ms: u64 = if s.backoff_ms > MAX_BACKOFF_MS / 2 {
        MAX_BACKOFF_MS
    } else {
        s.backoff_ms * 2
    };
    RetryStep::Again {
        sleep_ms: s.backoff_ms + (subsec_millis % JITTER_MS) as u64,
        next: RetryState { attempt: s.attempt + 1, retries: s.retries, backoff_ms },
    }
}

/// A job that may leave traces is tried exactly once, whatever comes of it.
pub proof fn law_jobs_with_effects_run_once(
    retries: u32,
    backoff_ms: u64,
    success: bool,
    output: Seq<char>,
    chance: u32,
)
    ensures
        step_after(first_state(false, retries, backoff_ms), success, output, chance)
            == (RetryStep::Done { success }),
{
}

/// A job is tried at most once more than it has retries: each further attempt
/// counts, none follows a success or a refusal by the security policy, and the
/// wait before the one after it stays within bounds.
pub proof fn law_attempts_are_bounded(
    s: RetryState,
    success: bool,
    output: Seq<char>,
    chance: u32,
)
    requires
        MIN_BACKOFF_MS <= s.backoff_ms <= u64::MAX - JITTER_MS,
    ensures
        step_after(s, success, output, chance) matches RetryStep::Again { sleep_ms, next } ==> {
            &&& !success
            &&& !is_blocked(output)
            &&& next.attempt == s.attempt + 1
            &&& next.attempt <= next.retries
            &&& next.retries == s.retries
            &&& MIN_BACKOFF_MS <= next.backoff_ms <= MAX_BACKOFF_MS
            &&& s.backoff_ms <= sleep_ms < s.backoff_ms + JITTER_MS
        },
{
}

} // verus!
