//! What the scheduler does when it starts: the jobs that the configuration
//! declares, who owns a job, and what becomes of runs that were missed.

use crate::cron::job;
use crate::cron::job::{
    CronJob, CronMissedRunPolicy, CronShellOutputFormat, DeliveryConfig, JobView, Schedule,
    SessionTarget,
};
use crate::text;
use crate::turn::tool;
use vstd::prelude::*;
use vstd::string::*;

verus! {

/// The shortest time between two looks for due jobs, in seconds.
pub const MIN_POLL_SECONDS: u64 = 5;

/// The identifier of the job that makes scheduled backups.
pub const BACKUP_JOB: &'static str = "__builtin_backup";

/// A job as the configuration declares it.
#[derive(Clone, Debug)]
pub struct CronJobDecl {
    pub name: Option<String>,
    pub job_type: String,
    pub schedule: Schedule,
    pub command: Option<String>,
    pub prompt: Option<String>,
    pub enabled: bool,
    pub model: Option<String>,
    pub allowed_tools: Option<Vec<String>>,
    pub uses_memory: bool,
    pub timeout_secs: Option<u64>,
    pub missed_run_policy: Option<CronMissedRunPolicy>,
    pub completion_check: Option<String>,
    pub session_target: Option<SessionTarget>,
    pub delivery: Option<DeliveryConfig>,
    pub shell_output_format: CronShellOutputFormat,
}

/// The part of the configuration that the scheduler decides with.
#[derive(Clone, Debug)]
pub struct SchedulerConfig {
    /// The agents that there are.
    pub agents: Vec<String>,
    /// The declared jobs under their identifiers, none of them twice.
    pub cron: Vec<(String, CronJobDecl)>,
    /// Whether missed runs are made up for, where a job says nothing else.
    pub catch_up_on_startup: bool,
}

/// How long the scheduler waits between two looks for due jobs, in seconds.
pub fn poll_seconds(configured: u64) -> (r: u64)
    ensures
        r == (if configured < MIN_POLL_SECONDS {
            MIN_POLL_SECONDS
        } else {
            configured
        }),
{
    if configured < MIN_POLL_SECONDS {
        MIN_POLL_SECONDS
    } else {
        configured
    }
}

/// The declaration of the job that makes scheduled backups.
pub open spec fn is_backup(decl: CronJobDecl, expr: Seq<char>, tz: Option<Seq<char>>) -> bool {
    &&& tool::opt(decl.name) == Some("Scheduled backup"@)
    &&& decl.job_type@ == "shell"@
    &&& decl.schedule@ == (job::ScheduleView::Cron { expr, tz })
    &&& tool::opt(decl.command) == Some("backup create"@)
    &&& decl.prompt is None
    &&& decl.enabled
    &&& decl.model is None
    &&& decl.allowed_tools is None
    &&& decl.uses_memory
    &&& decl.timeout_secs is None
    &&& decl.missed_run_policy is None
    &&& decl.completion_check is None
    &&& decl.session_target is None
    &&& decl.delivery is None
    &&& decl.shell_output_format == CronShellOutputFormat::Wrapped
}

/// The position of the declaration under an identifier.
pub open spec fn declared(cron: Seq<(String, CronJobDecl)>, id: Seq<char>) -> Option<int>
    decreases cron.len(),
{
    if cron.len() == 0 {
        None
    } else if cron.last().0@ == id {
        Some(cron.len() - 1)
    } else {
        declared(cron.drop_last(), id)
    }
}

/// The position of the declaration under an identifier.
pub fn find_declaration(cron: &Vec<(String, CronJobDecl)>, id: &str) -> (r: Option<usize>)
    ensures
        match r {
            Some(i) => declared(cron@, id@) == Some(i as int) && i < cron@.len() && cron@[i as int].0@
                == id@,
            None => declared(cron@, id@) is None,
        },
{
    let mut i: usize = cron.len();
    assert(cron@.take(cron@.len() as int) == cron@);
    while i > 0
        invariant
            i <= cron@.len(),
            declared(cron@, id@) == declared(cron@.take(i as int), id@),
        decreases i,
    {
        assert(cron@.take(i as int).drop_last() == cron@.take(i - 1));
        i -= 1;
        if text::str_eq(cron[i].0.as_str(), id) {
            return Some(i);
        }
    }
    None
}

/// Adds the job that makes scheduled backups to the declared ones, where backups
/// have a schedule. It takes the place of a declaration under its identifier.
pub fn with_backup_job(
    cron: Vec<(String, CronJobDecl)>,
    schedule_cron: Option<String>,
    schedule_timezone: Option<String>,
) -> (r: Vec<(String, CronJobDecl)>)
    ensures
        match schedule_cron {
            None => r@ == cron@,
            Some(expr) => match declared(cron@, BACKUP_JOB@) {
                Some(i) => {
                    &&& r@ == cron@.update(i, r@[i])
                    &&& r@[i].0@ == BACKUP_JOB@
                    &&& is_backup(r@[i].1, expr@, tool::opt(schedule_timezone))
                },
                None => {
                    &&& r@ == cron@.push(r@.last())
                    &&& r@.last().0@ == BACKUP_JOB@
                    &&& is_backup(r@.last().1, expr@, tool::opt(schedule_timezone))
                },
            },
        },
{
    let mut r: Vec<(String, CronJobDecl)> = cron;
    match schedule_cron {
        None => r,
        Some(expr) => {
            let decl = CronJobDecl {
                name: Some("Scheduled backup".to_owned()),
                job_type: "shell".to_owned(),
                schedule: Schedule::Cron { expr, tz: schedule_timezone },
                command: Some("backup create".to_owned()),
                prompt: None,
                enabled: true,
                model: None,
                allowed_tools: None,
                uses_memory: true,
                timeout_secs: None,
                missed_run_policy: None,
                completion_check: None,
                session_target: None,
                delivery: None,
                shell_output_format: CronShellOutputFormat::Wrapped,
            };
            match find_declaration(&r, BACKUP_JOB) {
                Some(i) => {
                    r.set(i, (BACKUP_JOB.to_owned(), decl));
                    assert(r@ =~= cron@.update(i as int, r@[i as int]));
                },
                None => {
                    r.push((BACKUP_JOB.to_owned(), decl));
                    assert(r@ =~= cron@.push(r@.last()));
                },
            }
            r
        },
    }
}

/// Whether there is an agent under an alias.
pub open spec fn has_agent(agents: Seq<String>, alias: Seq<char>) -> bool {
    job::names(agents).contains(alias)
}

/// The agent that a job belongs to: the one that the job names, if it names one
/// that there is; else the one that lists the job, `listed`.
pub open spec fn owner_of(
    agents: Seq<String>,
    alias: Seq<char>,
    listed: Option<Seq<char>>,
) -> Option<Seq<char>> {
    if alias.len() > 0 && has_agent(agents, alias) {
        Some(alias)
    } else {
        listed
    }
}

/// The agent that a job belongs to.
pub fn resolve_owning_agent(agents: &Vec<String>, job: &CronJob, listed: Option<String>) -> (r:
    Option<String>)
    ensures
        tool::opt(r) == owner_of(agents@, job@.agent_alias, tool::opt(listed)),
{
    let alias: &str = job.agent_alias.as_str();
    let blank: bool = text::len_bytes(alias) == 0;
    proof {
        if alias@.len() == 0 {
            assert(text::byte_len(alias@) == 0);
        } else {
            vstd::utf8::encode_utf8_first_scalar(alias@);
        }
    }
    if !blank && job::list_has(agents, alias) {
        Some(alias.to_owned())
    } else {
        listed
    }
}

/// What becomes of a missed run. A declared job goes by its declaration, any
/// other one by its own setting: a job never goes by a declaration that only
/// shares its identifier. Where nothing is set the scheduler's default holds.
pub open spec fn policy_of(config: SchedulerConfig, j: JobView) -> CronMissedRunPolicy {
    let own = if j.source == "declarative"@ {
        match declared(config.cron@, j.id) {
            Some(i) => config.cron@[i].1.missed_run_policy,
            None => None,
        }
    } else {
        j.missed_run_policy
    };
    match own {
        Some(p) => p,
        None => if config.catch_up_on_startup {
            CronMissedRunPolicy::CatchUpOnce
        } else {
            CronMissedRunPolicy::Skip
        },
    }
}

/// What becomes of a missed run.
pub fn missed_run_policy(config: &SchedulerConfig, job: &CronJob) -> (r: CronMissedRunPolicy)
    ensures
        r == policy_of(*config, job@),
{
    let own: Option<CronMissedRunPolicy> = if job::is_declarative(job) {
        match find_declaration(&config.cron, job.id.as_str()) {
            Some(i) => config.cron[i].1.missed_run_policy,
            None => None,
        }
    } else {
        job.missed_run_policy
    };
    match own {
        Some(p) => p,
        None => {
            if config.catch_up_on_startup {
                CronMissedRunPolicy::CatchUpOnce
            } else {
                CronMissedRunPolicy::Skip
            }
        },
    }
}

/// A missed run that could not be put aside.
#[derive(Clone, Debug)]
pub struct StartupError {
    /// What is shown of it.
    pub message: String,
    /// What the store said.
    pub cause: String,
}

/// What is shown of a missed run that could not be put aside.
pub open spec fn startup_message(policy: CronMissedRunPolicy, id: Seq<char>) -> Seq<char> {
    if policy == CronMissedRunPolicy::Skip {
        "startup skip failed for cron job "@ + id
    } else {
        "startup quarantine failed for cron job "@ + id
    }
}

/// The jobs of a list.
pub open spec fn job_views(jobs: Seq<CronJob>) -> Seq<JobView> {
    jobs.map_values(|j: CronJob| j@)
}

/// The jobs whose missed run is made up for.
pub open spec fn to_catch_up(config: SchedulerConfig, jobs: Seq<JobView>) -> Seq<JobView> {
    jobs.filter(|j: JobView| policy_of(config, j) == CronMissedRunPolicy::CatchUpOnce)
}

/// The first job from position `from` on whose missed run is put aside.
pub open spec fn next_aside(config: SchedulerConfig, jobs: Seq<JobView>, from: int) -> Option<int>
    decreases jobs.len() - from,
{
    if from < 0 || from >= jobs.len() {
        None
    } else if policy_of(config, jobs[from]) != CronMissedRunPolicy::CatchUpOnce {
        Some(from)
    } else {
        next_aside(config, jobs, from + 1)
    }
}

/// What the scheduler does next with the runs that were missed.
pub enum StartupStep {
    /// The missed run of the job at this position is put aside: it is skipped or
    /// quarantined, as the policy says.
    PutAside { at: usize, policy: CronMissedRunPolicy },
    /// A missed run could not be put aside: nothing is run.
    Failed(StartupError),
    /// Every other missed run was put aside: these jobs are run.
    Ready(Vec<CronJob>),
}

/// What the scheduler does next with the runs that were missed. It begins at
/// position zero, without a reply. A job that is put aside is answered by the
/// store, and its position and the reply lead to the next step. The jobs whose
/// run is made up for are passed over, and run only once every other one was put
/// aside; the first one that cannot be put aside ends the startup.
pub fn startup_step(
    config: &SchedulerConfig,
    overdue: &Vec<CronJob>,
    at: usize,
    reply: Option<Result<(), String>>,
) -> (r: StartupStep)
    requires
        reply is Some ==> at < overdue@.len(),
    ensures
        match reply {
            Some(Err(cause)) => {
                &&& r matches StartupStep::Failed(e)
                &&& e.cause == cause
                &&& e.message@ == startup_message(
                    policy_of(*config, overdue@[at as int]@),
                    overdue@[at as int]@.id,
                )
            },
            _ => match next_aside(
                *config,
                job_views(overdue@),
                if reply is Some {
                    at + 1
                } else {
                    at as int
                },
            ) {
                Some(k) => {
                    &&& r matches StartupStep::PutAside { at, policy }
                    &&& at == k
                    &&& policy == policy_of(*config, job_views(overdue@)[k])
                },
                None => {
                    &&& r matches StartupStep::Ready(ready)
                    &&& job_views(ready@) == to_catch_up(*config, job_views(overdue@))
                },
            },
        },
{
    let count: usize = overdue.len();
    let start: usize = match reply {
        Some(Err(cause)) => {
            let mut message: String = match missed_run_policy(config, &overdue[at]) {
                CronMissedRunPolicy::Skip => "startup skip failed for cron job ".to_owned(),
                _ => "startup quarantine failed for cron job ".to_owned(),
            };
            message.append(overdue[at].id.as_str());
            return StartupStep::Failed(StartupError { message, cause });
        },
        Some(Ok(_)) => at + 1,
        None => at,
    };
    let ghost all = job_views(overdue@);
    let mut k: usize = start;
    while k < count
        invariant
            count == overdue@.len(),
            all == job_views(overdue@),
            !(reply is Some && reply->Some_0 is Err),
            start == (if reply is Some {
                at + 1
            } else {
                at as int
            }),
            next_aside(*config, all, k as int) == next_aside(*config, all, start as int),
        decreases overdue@.len() - k,
    {
        assert(all[k as int] == overdue@[k as int]@);
        let policy: CronMissedRunPolicy = missed_run_policy(config, &overdue[k]);
        if policy != CronMissedRunPolicy::CatchUpOnce {
            return StartupStep::PutAside { at: k, policy };
        }
        k = k + 1;
    }
    StartupStep::Ready(jobs_to_catch_up(config, overdue))
}

/// The jobs whose missed run is made up for.
fn jobs_to_catch_up(config: &SchedulerConfig, overdue: &Vec<CronJob>) -> (ready: Vec<CronJob>)
    ensures
        job_views(ready@) == to_catch_up(*config, job_views(overdue@)),
{
    let ghost all = job_views(overdue@);
    let ghost keep = |j: JobView| policy_of(*config, j) == CronMissedRunPolicy::CatchUpOnce;
    let mut ready: Vec<CronJob> = Vec::new();
    proof {
        reveal(Seq::filter);
        assert(all.take(0) =~= Seq::empty());
        assert(job_views(ready@) =~= Seq::empty());
    }
    for n in 0..overdue.len()
        invariant
            all == job_views(overdue@),
            keep == (|j: JobView| policy_of(*config, j) == CronMissedRunPolicy::CatchUpOnce),
            job_views(ready@) == all.take(n as int).filter(keep),
    {
        let ghost had = ready@;
        proof {
            reveal(Seq::filter);
            let t = all.take(n + 1);
            assert(t.drop_last() =~= all.take(n as int));
            assert(t.last() == overdue@[n as int]@);
        }
        if missed_run_policy(config, &overdue[n]) == CronMissedRunPolicy::CatchUpOnce {
            let job: CronJob = job::copy_job(&overdue[n]);
            ready.push(job);
            assert(job_views(ready@) =~= job_views(had).push(job@));
        }
    }
    assert(all.take(overdue@.len() as int) =~= all);
    ready
}

/// Startup leaves no missed run out: from any position on, the job that is put
/// aside next is the first one whose run is not made up for, and where none is put
/// aside there is none. So each such job is put aside once, in its turn, and a job
/// whose run is made up for never is.
pub proof fn law_startup_passes_over_caught_up_jobs_only(
    config: SchedulerConfig,
    jobs: Seq<JobView>,
    from: int,
)
    requires
        0 <= from <= jobs.len(),
    ensures
        match next_aside(config, jobs, from) {
            Some(k) => {
                &&& from <= k < jobs.len()
                &&& policy_of(config, jobs[k]) != CronMissedRunPolicy::CatchUpOnce
                &&& forall|i: int|
                    from <= i < k ==> policy_of(config, #[trigger] jobs[i])
                        == CronMissedRunPolicy::CatchUpOnce
            },
            None => forall|i: int|
                from <= i < jobs.len() ==> policy_of(config, #[trigger] jobs[i])
                    == CronMissedRunPolicy::CatchUpOnce,
        },
    decreases jobs.len() - from,
{
    if from < jobs.len() && policy_of(config, jobs[from]) == CronMissedRunPolicy::CatchUpOnce {
        law_startup_passes_over_caught_up_jobs_only(config, jobs, from + 1);
    }
}

/// A job that nobody declared is not touched by a declaration that happens to
/// have its identifier.
pub proof fn law_declarations_bind_declared_jobs_only(
    a: SchedulerConfig,
    b: SchedulerConfig,
    j: JobView,
)
    requires
        j.source != "declarative"@,
        a.catch_up_on_startup == b.catch_up_on_startup,
    ensures
        policy_of(a, j) == policy_of(b, j),
{
}

} // verus!
