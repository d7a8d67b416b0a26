//! Which jobs are run, for whom, and what becomes of the job afterwards.

use crate::clock;
use crate::clock::Moment;
use crate::cron::job;
use crate::cron::job::{CronJob, JobType, JobView, Schedule, ScheduleView};
use crate::cron::startup;
use crate::text;
use crate::turn::tool;
use vstd::prelude::*;
use vstd::string::*;

verus! {

/// Who runs a job, or what is reported in place of a run. `live` says whether the
/// configuration still declares the job; `shown_id` is the job's identifier as it
/// is shown. A declared job that is no longer declared is run by nobody.
pub open spec fn runner_of(
    j: JobView,
    live: bool,
    agents: Seq<String>,
    listed: Option<Seq<char>>,
    shown_id: Seq<char>,
) -> Result<Seq<char>, Seq<char>> {
    if j.source == "declarative"@ && !live {
        Err(
            "cron job "@ + shown_id
                + " is an orphaned declarative entry (source = \"declarative\" but absent from live config); cannot execute"@,
        )
    } else {
        match startup::owner_of(agents, j.agent_alias, listed) {
            Some(owner) => Ok(owner),
            None => Err(
                "cron job "@ + shown_id
                    + " has no owning agent; add the alias to an [agents.<x>].cron_jobs list"@,
            ),
        }
    }
}

/// Who runs a job, or what is reported in place of a run, for the form in which
/// its identifier is shown.
pub fn runner_given(
    job: &CronJob,
    live: bool,
    agents: &Vec<String>,
    listed: Option<String>,
    shown_id: &str,
) -> (r: Result<String, String>)
    ensures
        match r {
            Ok(owner) => runner_of(job@, live, agents@, tool::opt(listed), shown_id@) == Ok::<
                _,
                Seq<char>,
            >(owner@),
            Err(text) => runner_of(job@, live, agents@, tool::opt(listed), shown_id@) == Err::<
                Seq<char>,
                _,
            >(text@),
        },
{
    if job::is_declarative(job) && !live {
        let mut text: String = "cron job ".to_owned();
        text.append(shown_id);
        text.append(
            " is an orphaned declarative entry (source = \"declarative\" but absent from live config); cannot execute",
        );
        return Err(text);
    }
    match startup::resolve_owning_agent(agents, job, listed) {
        Some(owner) => Ok(owner),
        None => {
            let mut text: String = "cron job ".to_owned();
            text.append(shown_id);
            text.append(" has no owning agent; add the alias to an [agents.<x>].cron_jobs list");
            Err(text)
        },
    }
}

/// Who runs a job at once, or what is reported in place of a run.
pub fn execute_job_now(job: &CronJob, live: bool, agents: &Vec<String>, listed: Option<String>) -> (r:
    Result<String, String>)
    ensures
        match r {
            Ok(owner) => runner_of(
                job@,
                live,
                agents@,
                tool::opt(listed),
                text::debug_of(job@.id),
            ) == Ok::<_, Seq<char>>(owner@),
            Err(text) => runner_of(
                job@,
                live,
                agents@,
                tool::opt(listed),
                text::debug_of(job@.id),
            ) == Err::<Seq<char>, _>(text@),
        },
{
    let shown_id: String = text::debug_text(job.id.as_str());
    runner_given(job, live, agents, listed, shown_id.as_str())
}

/// What is reported of a job whose owner has no usable risk profile.
pub fn risk_profile_failure(agent_alias: &str, error: &str) -> (s: String)
    ensures
        s@ == "agent "@ + agent_alias@ + " risk profile: "@ + error@,
{
    let mut s: String = "agent ".to_owned();
    s.append(agent_alias);
    s.append(" risk profile: ");
    s.append(error);
    s
}

/// The jobs that were claimed, for the replies to their claims.
pub open spec fn claimed_jobs(jobs: Seq<JobView>, replies: Seq<Result<bool, String>>) -> Seq<
    JobView,
>
    decreases jobs.len(),
{
    if jobs.len() == 0 || replies.len() != jobs.len() {
        Seq::empty()
    } else {
        let init = claimed_jobs(jobs.drop_last(), replies.drop_last());
        if replies.last() == Ok::<bool, String>(true) {
            init.push(jobs.last())
        } else {
            init
        }
    }
}

/// The due jobs that could be claimed, in their order, for the replies to the
/// claims of each. A job that is under way, or whose claim failed, is left out.
pub fn claimed_of(jobs: Vec<CronJob>, replies: Vec<Result<bool, String>>) -> (r: Vec<CronJob>)
    requires
        replies@.len() == jobs@.len(),
    ensures
        startup::job_views(r@) == claimed_jobs(startup::job_views(jobs@), replies@),
{
    let ghost all = startup::job_views(jobs@);
    let mut rest: Vec<CronJob> = jobs;
    let mut r: Vec<CronJob> = Vec::new();
    proof {
        assert(all.take(0) =~= Seq::empty());
        assert(startup::job_views(r@) =~= Seq::empty());
        assert(startup::job_views(rest@) =~= all.skip(0));
    }
    for n in 0..replies.len()
        invariant
            all == startup::job_views(jobs@),
            replies@.len() == all.len(),
            startup::job_views(rest@) == all.skip(n as int),
            startup::job_views(r@) == claimed_jobs(all.take(n as int), replies@.take(n as int)),
    {
        let ghost left = rest@;
        assert(startup::job_views(left).len() == all.len() - n);
        let job: CronJob = rest.remove(0);
        assert(startup::job_views(left)[0] == job@);
        assert(startup::job_views(rest@) =~= startup::job_views(left).drop_first());
        assert(all.skip(n as int).drop_first() =~= all.skip(n + 1));
        let ghost had = r@;
        proof {
            assert(all.take(n + 1).drop_last() =~= all.take(n as int));
            assert(replies@.take(n + 1).drop_last() =~= replies@.take(n as int));
        }
        let won: bool = match &replies[n] {
            Ok(b) => *b,
            Err(_) => false,
        };
        assert(won == (replies@[n as int] == Ok::<bool, String>(true)));
        if won {
            r.push(job);
            assert(startup::job_views(r@) =~= startup::job_views(had).push(job@));
        }
    }
    assert(all.take(replies@.len() as int) =~= all);
    assert(replies@.take(replies@.len() as int) =~= replies@);
    r
}

/// How many jobs run at a time.
pub fn concurrency(configured: usize) -> (n: usize)
    ensures
        n == (if configured == 0 {
            1
        } else {
            configured
        }),
{
    if configured == 0 {
        1
    } else {
        configured
    }
}

/// What is done with a claimed job.
pub enum Dispatch {
    /// Its claim is given back.
    Release,
    /// It is run for this agent.
    Run(String),
}

/// What is done with a claimed job: it is run for its owner, unless it has none,
/// or its owner has no usable security policy.
pub fn dispatch(job: &CronJob, agents: &Vec<String>, listed: Option<String>, has_policy: bool) -> (r:
    Dispatch)
    ensures
        match startup::owner_of(agents@, job@.agent_alias, tool::opt(listed)) {
            Some(owner) => if has_policy {
                r matches Dispatch::Run(a) && a@ == owner
            } else {
                r is Release
            },
            None => r is Release,
        },
{
    match startup::resolve_owning_agent(agents, job, listed) {
        Some(owner) => {
            if has_policy {
                Dispatch::Run(owner)
            } else {
                Dispatch::Release
            }
        },
        None => Dispatch::Release,
    }
}

/// What becomes of a job after a scheduled run.
#[derive(Clone, Copy, Debug, PartialEq, Eq, Structural)]
pub enum RunCompletionAction {
    Delete,
    Disable,
    Reschedule,
}

/// Whether a job is deleted once it has succeeded: a job at one point in time that
/// asks for it.
pub open spec fn deletes_itself(j: JobView) -> bool {
    j.delete_after_run && j.schedule is At
}

/// Whether a job is deleted once it has succeeded.
pub fn is_one_shot_auto_delete(job: &CronJob) -> (r: bool)
    ensures
        r == deletes_itself(job@),
{
    job.delete_after_run && (match &job.schedule {
        Schedule::At { .. } => true,
        _ => false,
    })
}

/// What becomes of a job after a scheduled run. A job at one point in time never
/// runs again.
pub open spec fn action_after(j: JobView, success: bool) -> RunCompletionAction {
    if deletes_itself(j) && success {
        RunCompletionAction::Delete
    } else if j.schedule is At {
        RunCompletionAction::Disable
    } else {
        RunCompletionAction::Reschedule
    }
}

/// What becomes of a job after a scheduled run.
pub fn completion_action(job: &CronJob, success: bool) -> (r: RunCompletionAction)
    ensures
        r == action_after(job@, success),
{
    if is_one_shot_auto_delete(job) && success {
        return RunCompletionAction::Delete;
    }
    match &job.schedule {
        Schedule::At { .. } => RunCompletionAction::Disable,
        _ => RunCompletionAction::Reschedule,
    }
}

/// What becomes of a job where the run could not be added to its history: the
/// same, but a job that would be deleted is disabled.
pub open spec fn action_without_history(action: RunCompletionAction) -> RunCompletionAction {
    if action == RunCompletionAction::Delete {
        RunCompletionAction::Disable
    } else {
        action
    }
}

/// What becomes of a job where the run could not be added to its history.
pub fn fallback_action(action: RunCompletionAction) -> (r: RunCompletionAction)
    ensures
        r == action_without_history(action),
{
    match action {
        RunCompletionAction::Delete => RunCompletionAction::Disable,
        RunCompletionAction::Disable => RunCompletionAction::Disable,
        RunCompletionAction::Reschedule => RunCompletionAction::Reschedule,
    }
}

/// A job at one point in time is not scheduled again, whether or not its run
/// could be added to its history; a job is deleted only after a success.
pub proof fn law_one_shot_jobs_never_run_again(j: JobView, success: bool)
    ensures
        j.schedule is At ==> action_after(j, success) != RunCompletionAction::Reschedule
            && action_without_history(action_after(j, success)) != RunCompletionAction::Reschedule,
        !(j.schedule is At) ==> action_after(j, success) == RunCompletionAction::Reschedule,
        action_after(j, success) == RunCompletionAction::Delete ==> success && j.delete_after_run,
        action_without_history(action_after(j, success)) != RunCompletionAction::Delete,
{
}

/// Whether runs of a job lie less than five minutes apart, given the next two of
/// them where there are two.
pub open spec fn high_frequency(j: JobView, runs: Option<(Moment, Moment)>) -> bool {
    j.job_type == JobType::Agent && match j.schedule {
        ScheduleView::Every { every_ms } => every_ms < 300_000,
        ScheduleView::Cron { .. } => runs matches Some((a, b)) && clock::minutes_between(a, b) < 5,
        ScheduleView::At { .. } => false,
    }
}

/// Whether runs of a job lie less than five minutes apart, given the next two of
/// them where there are two.
pub fn is_high_frequency_given(job: &CronJob, runs: Option<(Moment, Moment)>) -> (r: bool)
    ensures
        r == high_frequency(job@, runs),
{
    if job.job_type != JobType::Agent {
        return false;
    }
    match &job.schedule {
        Schedule::Every { every_ms } => *every_ms < 300_000,
        Schedule::Cron { .. } => match runs {
            Some((a, b)) => clock::closer_than_minutes(a, b, 5),
            None => false,
        },
        Schedule::At { .. } => false,
    }
}

/// Whether runs of an agent job lie less than five minutes apart. `next` says when
/// a schedule comes up next after a moment; only a job that runs at calendar
/// times is asked of it.
pub fn is_high_frequency_agent_job<F: Fn(&Schedule, Moment) -> Option<Moment>>(
    job: &CronJob,
    now: Moment,
    next: F,
) -> (r: bool)
    requires
        forall|s: &Schedule, m: Moment| #[trigger] call_requires(next, (s, m)),
    ensures
        job@.job_type != JobType::Agent || !(job@.schedule is Cron) ==> r == high_frequency(
            job@,
            None,
        ),
        job@.job_type == JobType::Agent && job@.schedule is Cron ==> exists|
            runs: Option<(Moment, Moment)>,
        | #[trigger]
            next_two(next, &job.schedule, now, runs) && r == high_frequency(job@, runs),
{
    let calendar: bool = match &job.schedule {
        Schedule::Cron { .. } => true,
        _ => false,
    };
    if job.job_type != JobType::Agent || !calendar {
        return is_high_frequency_given(job, None);
    }
    let runs: Option<(Moment, Moment)> = match next(&job.schedule, now) {
        Some(a) => match next(&job.schedule, a) {
            Some(b) => Some((a, b)),
            None => None,
        },
        None => None,
    };
    assert(next_two(next, &job.schedule, now, runs));
    is_high_frequency_given(job, runs)
}

/// Whether these are the next two times at which a schedule comes up.
pub open spec fn next_two<F: Fn(&Schedule, Moment) -> Option<Moment>>(
    next: F,
    schedule: &Schedule,
    now: Moment,
    runs: Option<(Moment, Moment)>,
) -> bool {
    match runs {
        Some((a, b)) => call_ensures(next, (schedule, now), Some(a)) && call_ensures(
            next,
            (schedule, a),
            Some(b),
        ),
        None => call_ensures(next, (schedule, now), None) || exists|a: Moment|
            call_ensures(next, (schedule, now), Some(a)) && #[trigger] call_ensures(
                next,
                (schedule, a),
                None,
            ),
    }
}

/// What is logged of an agent job whose runs lie less than five minutes apart.
pub fn high_frequency_warning(job: &CronJob) -> (s: String)
    ensures
        s@ == "Cron agent job '"@ + job@.id
            + "' is scheduled more frequently than every 5 minutes"@,
{
    let mut s: String = "Cron agent job '".to_owned();
    s.append(job.id.as_str());
    s.append("' is scheduled more frequently than every 5 minutes");
    s
}

} // verus!
