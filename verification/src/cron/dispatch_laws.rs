//! What holds of the decisions about jobs: who owns them, which are run, and what
//! becomes of them.

use crate::clock;
use crate::clock::Moment;
use crate::cron::dispatch;
use crate::cron::dispatch::{
    claimed_of, completion_action, concurrency, dispatch, execute_job_now, fallback_action,
    high_frequency_warning, is_high_frequency_agent_job, is_high_frequency_given,
    is_one_shot_auto_delete, risk_profile_failure, runner_given, Dispatch, RunCompletionAction,
};
use crate::cron::job;
use crate::cron::job::{
    is_declarative, list_has, opt_is, same_delivery, same_job, same_names, same_opt, same_schedule,
    CronJob, CronMissedRunPolicy, CronShellOutputFormat, DeliveryConfig, JobType, Schedule,
};
use crate::cron::startup;
use crate::cron::startup::{
    find_declaration, missed_run_policy, poll_seconds, resolve_owning_agent, startup_step,
    with_backup_job, CronJobDecl, SchedulerConfig, StartupStep,
};
use crate::text;
use crate::turn::tool;
use vstd::prelude::*;
use vstd::string::*;

verus! {

/// Whether an agent is one of those that there are.
pub open spec fn is_known(agents: Seq<String>, alias: Seq<char>) -> bool {
    exists|i: int| 0 <= i < agents.len() && (#[trigger] agents[i])@ == alias
}

/// An agent is known exactly if the list of agents has its alias.
pub proof fn lemma_known(agents: Seq<String>, alias: Seq<char>)
    ensures
        is_known(agents, alias) <==> startup::has_agent(agents, alias),
{
    let names = job::names(agents);
    assert forall|i: int| 0 <= i < agents.len() implies #[trigger] agents[i]@ == names[i] by {}
    if is_known(agents, alias) {
        let i = choose|i: int| 0 <= i < agents.len() && (#[trigger] agents[i])@ == alias;
        assert(names[i] == alias);
    }
    if names.contains(alias) {
        let i = choose|i: int| 0 <= i < names.len() && names[i] == alias;
        assert(agents[i]@ == alias);
    }
}

/// A job belongs to the agent that it names, if there is such an agent; otherwise
/// to the one that lists it, if any does.
pub proof fn law_who_owns_a_job(
    agents: &Vec<String>,
    job: &CronJob,
    listed: Option<String>,
    r: Option<String>,
)
    requires
        call_ensures(resolve_owning_agent, (agents, job, listed), r),
    ensures
        ({
            let named = job.agent_alias@.len() > 0 && is_known(agents@, job.agent_alias@);
            &&& named ==> (r matches Some(owner) && owner@ == job.agent_alias@)
            &&& !named ==> (r is Some <==> listed is Some)
            &&& !named && listed is Some ==> r->Some_0@ == listed->Some_0@
        }),
{
    lemma_known(agents@, job.agent_alias@);
    assert(tool::opt(r) is Some <==> r is Some);
}

/// A job is run for its owner, and by nobody if it has none. One that says it is
/// declared but no longer is runs for nobody, whoever owns it.
pub proof fn law_who_runs_a_job(
    job: &CronJob,
    live: bool,
    agents: &Vec<String>,
    listed: Option<String>,
    shown_id: &str,
    owner: Option<String>,
    r: Result<String, String>,
)
    requires
        call_ensures(resolve_owning_agent, (agents, job, listed), owner),
        call_ensures(runner_given, (job, live, agents, listed, shown_id), r),
    ensures
        ({
            let orphaned = job.source@ == "declarative"@ && !live;
            &&& r is Ok <==> !orphaned && owner is Some
            &&& r matches Ok(a) ==> a@ == owner->Some_0@
            &&& orphaned ==> (r matches Err(text) && text@ == "cron job "@ + shown_id@
                + " is an orphaned declarative entry (source = \"declarative\" but absent from live config); cannot execute"@)
            &&& !orphaned && owner is None ==> (r matches Err(text) && text@ == "cron job "@
                + shown_id@
                + " has no owning agent; add the alias to an [agents.<x>].cron_jobs list"@)
        }),
{
    assert(tool::opt(owner) is Some <==> owner is Some);
}

/// A job that is run at once is run for the same agent, and its identifier is shown
/// in its quoted form.
pub proof fn law_jobs_run_at_once(
    job: &CronJob,
    live: bool,
    agents: &Vec<String>,
    listed: Option<String>,
    shown_id: &str,
    r: Result<String, String>,
    s: Result<String, String>,
)
    requires
        shown_id@ == text::debug_of(job.id@),
        call_ensures(execute_job_now, (job, live, agents, listed), r),
        call_ensures(runner_given, (job, live, agents, listed, shown_id), s),
    ensures
        r is Ok <==> s is Ok,
        r is Ok ==> r->Ok_0@ == s->Ok_0@,
        r is Err ==> r->Err_0@ == s->Err_0@,
{
}

/// A claimed job is run for its owner exactly if it has one and there is a policy
/// for it; otherwise its claim is given back.
pub proof fn law_claims_are_used_or_given_back(
    job: &CronJob,
    agents: &Vec<String>,
    listed: Option<String>,
    has_policy: bool,
    owner: Option<String>,
    r: Dispatch,
)
    requires
        call_ensures(resolve_owning_agent, (agents, job, listed), owner),
        call_ensures(dispatch, (job, agents, listed, has_policy), r),
    ensures
        r is Run <==> owner is Some && has_policy,
        r matches Dispatch::Run(a) ==> a@ == owner->Some_0@,
{
    assert(tool::opt(owner) is Some <==> owner is Some);
}

/// What is shown of a risk profile that cannot be used, and of a job that runs too
/// often.
pub proof fn law_warnings_name_the_job(
    alias: &str,
    error: &str,
    s: String,
    job: &CronJob,
    w: String,
)
    requires
        call_ensures(risk_profile_failure, (alias, error), s),
        call_ensures(high_frequency_warning, (job,), w),
    ensures
        s@ == "agent "@ + alias@ + " risk profile: "@ + error@,
        w@ == "Cron agent job '"@ + job.id@
            + "' is scheduled more frequently than every 5 minutes"@,
{
}

/// Whether a claim was won.
pub open spec fn is_won(reply: Result<bool, String>) -> bool {
    match reply {
        Ok(b) => b,
        Err(_) => false,
    }
}

/// How many of the first `n` claims were won.
pub open spec fn won(replies: Seq<Result<bool, String>>, n: int) -> int
    decreases n,
{
    if n <= 0 {
        0
    } else if is_won(replies[n - 1]) {
        won(replies, n - 1) + 1
    } else {
        won(replies, n - 1)
    }
}

/// Of the due jobs those are run whose claims were won, each once and in their
/// order; a claim that was lost or failed leaves its job out.
pub proof fn law_jobs_with_won_claims_are_run(
    jobs: Vec<CronJob>,
    replies: Vec<Result<bool, String>>,
    r: Vec<CronJob>,
    k: int,
)
    requires
        replies@.len() == jobs@.len(),
        call_ensures(claimed_of, (jobs, replies), r),
        0 <= k < jobs@.len(),
    ensures
        r@.len() == won(replies@, jobs@.len() as int),
        is_won(replies@[k]) ==> 0 <= won(replies@, k) < r@.len(),
        is_won(replies@[k]) ==> r@[won(replies@, k)]@ == jobs@[k]@,
{
    let views = startup::job_views(jobs@);
    assert(views.len() == jobs@.len());
    assert(startup::job_views(r@).len() == r@.len());
    lemma_won(views, replies@, k);
    assert(views[k] == jobs@[k]@);
    if is_won(replies@[k]) {
        assert(startup::job_views(r@)[won(replies@, k)] == r@[won(replies@, k)]@);
    }
}

proof fn lemma_won_init(replies: Seq<Result<bool, String>>, n: int)
    requires
        n < replies.len(),
    ensures
        won(replies, n) == won(replies.drop_last(), n),
        won(replies, n) >= 0,
    decreases n,
{
    if n > 0 {
        lemma_won_init(replies, n - 1);
        assert(replies.drop_last()[n - 1] == replies[n - 1]);
    }
}

proof fn lemma_won(jobs: Seq<job::JobView>, replies: Seq<Result<bool, String>>, k: int)
    requires
        jobs.len() == replies.len(),
    ensures
        dispatch::claimed_jobs(jobs, replies).len() == won(replies, jobs.len() as int),
        0 <= k < jobs.len() && is_won(replies[k]) ==> 0 <= won(replies, k)
            < dispatch::claimed_jobs(jobs, replies).len() && dispatch::claimed_jobs(
            jobs,
            replies,
        )[won(replies, k)] == jobs[k],
    decreases jobs.len(),
{
    if jobs.len() > 0 {
        let n = jobs.len() - 1;
        let init = jobs.drop_last();
        let before = replies.drop_last();
        lemma_won(init, before, k);
        lemma_won_init(replies, n);
        assert(is_won(replies.last()) == (replies.last() == Ok::<bool, String>(true)));
        let got = dispatch::claimed_jobs(init, before);
        if 0 <= k < n && is_won(replies[k]) {
            lemma_won_init(replies, k);
            assert(before[k] == replies[k]);
            assert(got[won(before, k)] == init[k]);
        }
    }
}

/// At least one job runs at a time, and no more than are configured.
pub proof fn law_concurrency(configured: usize, n: usize)
    requires
        call_ensures(concurrency, (configured,), n),
    ensures
        n >= 1,
        configured >= 1 ==> n == configured,
        configured == 0 ==> n == 1,
{
}

/// A job at one point in time does not run again: it is deleted if it asks for that
/// and succeeded, and disabled otherwise. Any other job is scheduled again. Without
/// a place in the history nothing is deleted.
pub proof fn law_what_becomes_of_a_job(
    job: &CronJob,
    success: bool,
    one_shot: bool,
    r: RunCompletionAction,
    s: RunCompletionAction,
)
    requires
        call_ensures(is_one_shot_auto_delete, (job,), one_shot),
        call_ensures(completion_action, (job, success), r),
        call_ensures(fallback_action, (r,), s),
    ensures
        one_shot <==> job.schedule is At && job.delete_after_run,
        r is Reschedule <==> !(job.schedule is At),
        r is Delete <==> job.schedule is At && job.delete_after_run && success,
        s is Reschedule <==> r is Reschedule,
        s is Disable <==> !(r is Reschedule),
{
}

/// An agent job runs too often exactly if its runs are less than five minutes
/// apart: those of an interval by its length, those of a calendar by the next two.
/// No other job does.
pub proof fn law_who_runs_too_often(job: &CronJob, runs: Option<(Moment, Moment)>, r: bool)
    requires
        call_ensures(is_high_frequency_given, (job, runs), r),
    ensures
        !(job.job_type is Agent) ==> !r,
        job.schedule is At ==> !r,
        job.job_type is Agent ==> {
            &&& job.schedule matches Schedule::Every { every_ms } ==> (r <==> every_ms < 300_000)
            &&& job.schedule is Cron && runs is None ==> !r
            &&& job.schedule is Cron ==> (runs matches Some((a, b)) ==> (r <==> (b.secs - a.secs)
                * 1_000_000_000 + (b.nanos - a.nanos) < 300_000_000_000))
        },
{
}

/// The runs of a calendar are asked for one after the other: the next one, and the
/// one after that.
pub proof fn law_calendars_are_asked_twice<F: Fn(&Schedule, Moment) -> Option<Moment>>(
    job: &CronJob,
    now: Moment,
    next: F,
    at: spec_fn(Moment) -> Option<Moment>,
    r: bool,
    s: bool,
    runs: Option<(Moment, Moment)>,
)
    requires
        call_ensures(is_high_frequency_agent_job::<F>, (job, now, next), r),
        forall|m: Moment, answer: Option<Moment>| #[trigger]
            call_ensures(next, (&job.schedule, m), answer) ==> answer == at(m),
        runs == (match at(now) {
            Some(a) => match at(a) {
                Some(b) => Some((a, b)),
                None => None,
            },
            None => None,
        }),
        call_ensures(is_high_frequency_given, (job, runs), s),
    ensures
        r == s,
{
    if job.job_type is Agent && job.schedule is Cron {
        let found = choose|found: Option<(Moment, Moment)>| #[trigger]
            dispatch::next_two(next, &job.schedule, now, found) && r == dispatch::high_frequency(
                job@,
                found,
            );
        assert(found == runs);
    }
}

/// Due jobs are looked for every five seconds at most.
pub proof fn law_poll_interval(configured: u64, r: u64)
    requires
        call_ensures(poll_seconds, (configured,), r),
    ensures
        configured >= 5 ==> r == configured,
        configured < 5 ==> r == 5,
{
}

/// A declaration is found by its identifier: the last one that has it.
pub proof fn law_declarations_are_found(
    cron: &Vec<(String, CronJobDecl)>,
    id: &str,
    r: Option<usize>,
)
    requires
        call_ensures(find_declaration, (cron, id), r),
    ensures
        r is None <==> forall|i: int| 0 <= i < cron@.len() ==> (#[trigger] cron@[i]).0@ != id@,
        r matches Some(k) ==> k < cron@.len() && cron@[k as int].0@ == id@ && forall|i: int|
            k < i < cron@.len() ==> (#[trigger] cron@[i]).0@ != id@,
{
    lemma_declared(cron@, id@);
}

/// The last declaration under an identifier is the one that counts.
pub proof fn lemma_declared(cron: Seq<(String, CronJobDecl)>, id: Seq<char>)
    ensures
        match startup::declared(cron, id) {
            Some(k) => 0 <= k < cron.len() && cron[k].0@ == id && forall|i: int|
                k < i < cron.len() ==> (#[trigger] cron[i]).0@ != id,
            None => forall|i: int| 0 <= i < cron.len() ==> (#[trigger] cron[i]).0@ != id,
        },
    decreases cron.len(),
{
    if cron.len() > 0 && cron.last().0@ != id {
        let init = cron.drop_last();
        lemma_declared(init, id);
        assert forall|i: int| 0 <= i < init.len() implies #[trigger] cron[i] == init[i] by {}
    }
}

/// The declarations are as they were, except that backups with a schedule have a
/// job: one shell job that makes them, in the place of the declaration under its
/// identifier or at the end.
pub proof fn law_backups_have_a_job(
    cron: Vec<(String, CronJobDecl)>,
    expr: Option<String>,
    tz: Option<String>,
    r: Vec<(String, CronJobDecl)>,
)
    requires
        call_ensures(with_backup_job, (cron, expr, tz), r),
    ensures
        expr is None ==> r@ == cron@,
        expr matches Some(e) ==> exists|i: int|
            0 <= i < r@.len() && (#[trigger] r@[i]).0@ == "__builtin_backup"@ && {
                let d = r@[i].1;
                &&& d.name matches Some(n) && n@ == "Scheduled backup"@
                &&& d.job_type@ == "shell"@
                &&& d.schedule matches Schedule::Cron { expr: x, tz: z } && x@ == e@ && tool::opt(z)
                    == tool::opt(tz)
                &&& d.command matches Some(c) && c@ == "backup create"@
                &&& d.enabled
                &&& d.prompt is None && d.model is None && d.allowed_tools is None
                &&& d.uses_memory && d.timeout_secs is None && d.missed_run_policy is None
                &&& d.completion_check is None && d.session_target is None && d.delivery is None
                &&& d.shell_output_format is Wrapped
                &&& forall|j: int| 0 <= j < cron@.len() && j != i ==> #[trigger] r@[j] == cron@[j]
                &&& i < cron@.len() ==> r@.len() == cron@.len() && cron@[i].0@
                    == "__builtin_backup"@
                &&& i >= cron@.len() ==> i == cron@.len() && r@.len() == cron@.len() + 1 && forall|
                    j: int,
                |
                    0 <= j < cron@.len() ==> (#[trigger] cron@[j]).0@ != "__builtin_backup"@
            },
{
    lemma_declared(cron@, "__builtin_backup"@);
    if let Some(e) = expr {
        let k = match startup::declared(cron@, "__builtin_backup"@) {
            Some(i) => i,
            None => cron@.len() as int,
        };
        assert(r@[k].0@ == "__builtin_backup"@);
        assert(startup::is_backup(r@[k].1, e@, tool::opt(tz)));
    }
}

/// What becomes of a missed run is set for a declared job by its declaration alone
/// and for any other by the job alone. Where nothing is set, the run is made up for
/// or skipped as the scheduler is told.
pub proof fn law_what_becomes_of_a_missed_run(
    config: &SchedulerConfig,
    job: &CronJob,
    id: &str,
    at: Option<usize>,
    r: CronMissedRunPolicy,
)
    requires
        id@ == job.id@,
        call_ensures(find_declaration, (&config.cron, id), at),
        call_ensures(missed_run_policy, (config, job), r),
    ensures
        ({
            let declared = job.source@ == "declarative"@;
            let set = if !declared {
                job.missed_run_policy
            } else if at is Some {
                config.cron@[at->Some_0 as int].1.missed_run_policy
            } else {
                None
            };
            &&& set matches Some(p) ==> r == p
            &&& set is None && config.catch_up_on_startup ==> r is CatchUpOnce
            &&& set is None && !config.catch_up_on_startup ==> r is Skip
        }),
{
}

/// A missed run that could not be put aside ends the startup, and what is shown
/// names the job and what was tried.
pub proof fn law_a_failed_step_ends_the_startup(
    config: &SchedulerConfig,
    overdue: &Vec<CronJob>,
    at: usize,
    reply: Option<Result<(), String>>,
    policy: CronMissedRunPolicy,
    r: StartupStep,
)
    requires
        at < overdue@.len(),
        call_ensures(missed_run_policy, (config, &overdue@[at as int]), policy),
        call_ensures(startup_step, (config, overdue, at, reply), r),
    ensures
        r is Failed <==> (reply matches Some(w) && w is Err),
        r matches StartupStep::Failed(e) ==> {
            &&& reply matches Some(Err(cause)) && e.cause == cause
            &&& policy is Skip ==> e.message@ == "startup skip failed for cron job "@
                + overdue@[at as int].id@
            &&& !(policy is Skip) ==> e.message@ == "startup quarantine failed for cron job "@
                + overdue@[at as int].id@
        },
{
}

/// The next missed run that is put aside is the first one, from where the startup
/// stands, that is not made up for. Where there is none the others are run: all
/// that are made up for, in their order.
pub proof fn law_startup_goes_through_all_missed_runs(
    config: &SchedulerConfig,
    overdue: &Vec<CronJob>,
    at: usize,
    reply: Option<Result<(), String>>,
    r: StartupStep,
    policies: Seq<CronMissedRunPolicy>,
)
    requires
        reply is Some ==> at < overdue@.len(),
        at <= overdue@.len(),
        reply is None || reply->Some_0 is Ok,
        call_ensures(startup_step, (config, overdue, at, reply), r),
        policies.len() == overdue@.len(),
        forall|i: int|
            0 <= i < overdue@.len() ==> call_ensures(
                missed_run_policy,
                (config, &#[trigger] overdue@[i]),
                policies[i],
            ),
    ensures
        ({
            let from = if reply is Some {
                at + 1
            } else {
                at as int
            };
            &&& r matches StartupStep::PutAside { at: k, policy } ==> from <= k < overdue@.len()
                && policy == policies[k as int] && !(policy is CatchUpOnce) && forall|i: int|
                from <= i < k ==> (#[trigger] policies[i]) is CatchUpOnce
            &&& r is Ready <==> forall|i: int|
                from <= i < overdue@.len() ==> (#[trigger] policies[i]) is CatchUpOnce
            &&& r matches StartupStep::Ready(ready) ==> ready@.map_values(|j: CronJob| j@)
                == kept(overdue@, policies, overdue@.len() as int)
            &&& r is PutAside || r is Ready
        }),
{
    let views = startup::job_views(overdue@);
    assert(views.len() == overdue@.len());
    assert forall|i: int| 0 <= i < views.len() implies startup::policy_of(
        *config,
        #[trigger] views[i],
    ) == policies[i] by {
        assert(views[i] == overdue@[i]@);
        assert(call_ensures(missed_run_policy, (config, &overdue@[i]), policies[i]));
    }
    let from = if reply is Some {
        at + 1
    } else {
        at as int
    };
    startup::law_startup_passes_over_caught_up_jobs_only(*config, views, from);
    if startup::next_aside(*config, views, from) is None {
        assert forall|i: int| from <= i < overdue@.len() implies (
        #[trigger] policies[i]) is CatchUpOnce by {
            assert(startup::policy_of(*config, views[i]) == policies[i]);
        }
    } else {
        let k = startup::next_aside(*config, views, from)->Some_0;
        assert(startup::policy_of(*config, views[k]) == policies[k]);
        assert forall|i: int| from <= i < k implies (#[trigger] policies[i]) is CatchUpOnce by {
            assert(startup::policy_of(*config, views[i]) == policies[i]);
        }
    }
    lemma_kept(*config, overdue@, policies, overdue@.len() as int);
    assert(overdue@.take(overdue@.len() as int) =~= overdue@);
    if let StartupStep::Ready(ready) = r {
        assert(ready@.map_values(|j: CronJob| j@) =~= startup::job_views(ready@));
    }
}

/// The first `n` jobs whose missed run is made up for.
pub open spec fn kept(
    jobs: Seq<CronJob>,
    policies: Seq<CronMissedRunPolicy>,
    n: int,
) -> Seq<job::JobView>
    decreases n,
{
    if n <= 0 {
        Seq::empty()
    } else if policies[n - 1] is CatchUpOnce {
        kept(jobs, policies, n - 1).push(jobs[n - 1]@)
    } else {
        kept(jobs, policies, n - 1)
    }
}

proof fn lemma_kept(
    config: SchedulerConfig,
    jobs: Seq<CronJob>,
    policies: Seq<CronMissedRunPolicy>,
    n: int,
)
    requires
        0 <= n <= jobs.len(),
        forall|i: int|
            0 <= i < jobs.len() ==> startup::policy_of(
                config,
                #[trigger] startup::job_views(jobs)[i],
            ) == policies[i],
    ensures
        startup::to_catch_up(config, startup::job_views(jobs.take(n))) == kept(jobs, policies, n),
    decreases n,
{
    reveal(Seq::filter);
    let views = startup::job_views(jobs.take(n));
    if n > 0 {
        lemma_kept(config, jobs, policies, n - 1);
        assert(views.drop_last() =~= startup::job_views(jobs.take(n - 1)));
        assert(views.last() == jobs[n - 1]@);
        assert(startup::job_views(jobs)[n - 1] == jobs[n - 1]@);
    } else {
        assert(views =~= Seq::empty());
    }
}

/// Whether two optional texts read the same.
pub open spec fn reads_same(a: Option<String>, b: Option<String>) -> bool {
    match (a, b) {
        (Some(x), Some(y)) => x@ == y@,
        (None, None) => true,
        _ => false,
    }
}

/// Whether two lists read the same.
pub open spec fn lists_same(a: Seq<String>, b: Seq<String>) -> bool {
    a.len() == b.len() && forall|i: int| 0 <= i < a.len() ==> (#[trigger] a[i])@ == b[i]@
}

/// Lists with one model read the same.
pub proof fn lemma_lists(a: Seq<String>, b: Seq<String>)
    ensures
        job::names(a) == job::names(b) <==> lists_same(a, b),
{
    assert(job::names(a).len() == a.len());
    assert(job::names(b).len() == b.len());
    if job::names(a) == job::names(b) {
        assert forall|i: int| 0 <= i < a.len() implies (#[trigger] a[i])@ == b[i]@ by {
            assert(job::names(a)[i] == a[i]@);
            assert(job::names(b)[i] == b[i]@);
        }
    }
    if lists_same(a, b) {
        assert(job::names(a) =~= job::names(b));
    }
}

/// Lists are the same exactly if they hold the same texts in the same order, and
/// hold a text exactly if it stands somewhere in them.
pub proof fn law_lists_of_names(
    a: &Vec<String>,
    b: &Vec<String>,
    word: &str,
    same: bool,
    has: bool,
    x: &Option<String>,
    y: &Option<String>,
    both: bool,
    is: bool,
)
    requires
        call_ensures(same_names, (a, b), same),
        call_ensures(list_has, (a, word), has),
        call_ensures(same_opt, (x, y), both),
        call_ensures(opt_is, (x, word), is),
    ensures
        same <==> lists_same(a@, b@),
        has <==> is_known(a@, word@),
        both <==> reads_same(*x, *y),
        is <==> (*x matches Some(s) && s@ == word@),
{
    lemma_lists(a@, b@);
    lemma_known(a@, word@);
}

/// Whether two schedules read the same.
pub open spec fn schedules_same(a: Schedule, b: Schedule) -> bool {
    match (a, b) {
        (Schedule::Cron { expr, tz }, Schedule::Cron { expr: e, tz: z }) => expr@ == e@
            && reads_same(tz, z),
        (Schedule::Every { every_ms }, Schedule::Every { every_ms: m }) => every_ms == m,
        (Schedule::At { at }, Schedule::At { at: m }) => at == m,
        _ => false,
    }
}

/// Whether two delivery configurations read the same.
pub open spec fn deliveries_same(a: DeliveryConfig, b: DeliveryConfig) -> bool {
    &&& a.mode@ == b.mode@
    &&& reads_same(a.channel, b.channel)
    &&& reads_same(a.to, b.to)
    &&& reads_same(a.thread_id, b.thread_id)
    &&& reads_same(a.reply_to, b.reply_to)
    &&& a.best_effort == b.best_effort
}

/// Two jobs are the same exactly if they agree in every field.
pub proof fn law_same_jobs_agree_in_every_field(
    a: &CronJob,
    b: &CronJob,
    r: bool,
    schedule: bool,
    delivery: bool,
    declared: bool,
)
    requires
        call_ensures(same_job, (a, b), r),
        call_ensures(same_schedule, (&a.schedule, &b.schedule), schedule),
        call_ensures(same_delivery, (&a.delivery, &b.delivery), delivery),
        call_ensures(is_declarative, (a,), declared),
    ensures
        declared <==> a.source@ == "declarative"@,
        schedule <==> schedules_same(a.schedule, b.schedule),
        delivery <==> deliveries_same(a.delivery, b.delivery),
        r <==> {
            &&& a.id@ == b.id@
            &&& a.expression@ == b.expression@
            &&& schedules_same(a.schedule, b.schedule)
            &&& a.command@ == b.command@
            &&& reads_same(a.prompt, b.prompt)
            &&& reads_same(a.name, b.name)
            &&& a.job_type == b.job_type
            &&& a.session_target == b.session_target
            &&& reads_same(a.model, b.model)
            &&& a.agent_alias@ == b.agent_alias@
            &&& a.enabled == b.enabled
            &&& deliveries_same(a.delivery, b.delivery)
            &&& a.delete_after_run == b.delete_after_run
            &&& match (a.allowed_tools, b.allowed_tools) {
                (Some(x), Some(y)) => lists_same(x@, y@),
                (None, None) => true,
                _ => false,
            }
            &&& a.uses_memory == b.uses_memory
            &&& a.source@ == b.source@
            &&& a.shell_output_format == b.shell_output_format
            &&& a.missed_run_policy == b.missed_run_policy
            &&& a.created_at == b.created_at
            &&& a.next_run == b.next_run
            &&& a.last_run == b.last_run
            &&& reads_same(a.last_status, b.last_status)
            &&& reads_same(a.last_output, b.last_output)
        },
{
    if let (Some(x), Some(y)) = (a.allowed_tools, b.allowed_tools) {
        lemma_lists(x@, y@);
    }
}

} // verus!
