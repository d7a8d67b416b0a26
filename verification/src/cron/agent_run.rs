//! Jobs that run an agent.

use crate::cron::job;
use crate::cron::job::{CronJob, JobType, JobView, SessionTarget};
use crate::cron::startup;
use crate::cron::startup::CronJobDecl;
use crate::digest;
use crate::text;
use crate::turn::tool;
use vstd::prelude::*;
use vstd::string::*;

verus! {

/// Why a job is kept from running.
#[derive(Clone, Copy, Debug, PartialEq, Eq, Structural)]
pub enum Block {
    ReadOnly,
    RateLimited,
    OverBudget,
}

impl Block {
    /// What is reported of a job that is kept from running.
    pub open spec fn shown(self) -> Seq<char> {
        match self {
            Block::ReadOnly => "blocked by security policy: autonomy is read-only"@,
            Block::RateLimited => "blocked by security policy: rate limit exceeded"@,
            Block::OverBudget => "blocked by security policy: action budget exhausted"@,
        }
    }

    /// What is reported of a job that is kept from running.
    pub fn message(self) -> (s: &'static str)
        ensures
            s@ == self.shown(),
    {
        match self {
            Block::ReadOnly => "blocked by security policy: autonomy is read-only",
            Block::RateLimited => "blocked by security policy: rate limit exceeded",
            Block::OverBudget => "blocked by security policy: action budget exhausted",
        }
    }
}

/// Why an agent job is kept from running, if it is. Where nothing speaks against
/// it, the action is counted against the budget, and only then.
pub fn agent_gate(can_act: bool, rate_limited: bool) -> (r: Option<Block>)
    ensures
        r == (if !can_act {
            Some(Block::ReadOnly)
        } else if rate_limited {
            Some(Block::RateLimited)
        } else {
            None
        }),
{
    if !can_act {
        Some(Block::ReadOnly)
    } else if rate_limited {
        Some(Block::RateLimited)
    } else {
        None
    }
}

/// Why a job is kept from running once its action was counted, if it is: there
/// was no room for it in the budget.
pub fn budget_gate(room: bool) -> (r: Option<Block>)
    ensures
        r == (if room {
            None
        } else {
            Some(Block::OverBudget)
        }),
{
    if room {
        None
    } else {
        Some(Block::OverBudget)
    }
}

/// The session of a run: the agent's main one, or one of its own.
pub open spec fn session_path(target: SessionTarget, run_id: Seq<char>) -> Seq<char> {
    match target {
        SessionTarget::Main => "main"@,
        SessionTarget::Isolated => "cron-"@ + run_id,
    }
}

/// The session of a run.
pub fn cron_agent_session_path(target: &SessionTarget, run_session_id: &str) -> (s: String)
    ensures
        s@ == session_path(*target, run_session_id@),
{
    match target {
        SessionTarget::Main => "main".to_owned(),
        SessionTarget::Isolated => {
            let mut s: String = "cron-".to_owned();
            s.append(run_session_id);
            s
        },
    }
}

/// What an agent is run with.
pub struct AgentRun {
    pub run_id: String,
    pub prompt: String,
    pub model: Option<String>,
    pub session_path: String,
    pub allowed_tools: Option<Vec<String>>,
    /// Whether the run saves what was said.
    pub auto_save: bool,
    /// Whether the run gets nothing from memory.
    pub suppress_memory_inject: bool,
    /// Whether the run has no memory at all, nor tools for one.
    pub memory_free: bool,
}

/// The prompt of a run: which job it is for, then what the job asks.
pub open spec fn prompt_of(j: JobView) -> Seq<char> {
    let name = match j.name {
        Some(n) => n,
        None => "cron-job"@,
    };
    let prompt = match j.prompt {
        Some(p) => p,
        None => ""@,
    };
    "[cron:"@ + j.id + " "@ + name + "] "@ + prompt
}

/// Whether a run is the one that a job asks for, under a run identifier.
pub open spec fn is_run_of(j: JobView, run_id: Seq<char>, run: AgentRun) -> bool {
    &&& run.run_id@ == run_id
    &&& run.prompt@ == prompt_of(j)
    &&& tool::opt(run.model) == j.model
    &&& run.session_path@ == session_path(j.session_target, run_id)
    &&& job::opt_names(run.allowed_tools) == j.allowed_tools
    &&& !run.auto_save
    &&& run.suppress_memory_inject == !j.uses_memory
    &&& run.memory_free == !j.uses_memory
}

/// What an agent is run with for a job, under a run identifier.
pub fn agent_run_given(job: &CronJob, run_id: String) -> (r: AgentRun)
    ensures
        is_run_of(job@, run_id@, r),
{
    let mut prompt: String = "[cron:".to_owned();
    prompt.append(job.id.as_str());
    prompt.append(" ");
    match &job.name {
        Some(n) => prompt.append(n.as_str()),
        None => prompt.append("cron-job"),
    }
    prompt.append("] ");
    match &job.prompt {
        Some(p) => prompt.append(p.as_str()),
        None => prompt.append(""),
    }
    AgentRun {
        prompt,
        model: tool::copy_opt(&job.model),
        session_path: cron_agent_session_path(&job.session_target, run_id.as_str()),
        run_id,
        allowed_tools: job::copy_opt_names(&job.allowed_tools),
        auto_save: false,
        suppress_memory_inject: !job.uses_memory,
        memory_free: !job.uses_memory,
    }
}

/// What an agent is run with for a job. Every run has an identifier of its own,
/// which chance gives it.
pub fn prepare_agent_run(job: &CronJob) -> (r: AgentRun)
    ensures
        r.run_id@.len() == 36,
        is_run_of(job@, r.run_id@, r),
{
    let run_id: String = digest::random_uuid();
    agent_run_given(job, run_id)
}

/// The part of an agent's security policy that a run changes, and the place that
/// it works in.
pub struct SecurityPolicy {
    pub workspace_dir: String,
    pub excluded_tools: Option<Vec<String>>,
}

/// The tools that change the schedule itself.
pub open spec fn scheduling_tools() -> Seq<Seq<char>> {
    seq!["cron_add"@, "cron_update"@, "cron_remove"@, "cron_run"@, "schedule"@]
}

/// A list with names added to its end, each unless it is there already.
pub open spec fn with_names(list: Seq<Seq<char>>, more: Seq<Seq<char>>) -> Seq<Seq<char>>
    decreases more.len(),
{
    if more.len() == 0 {
        list
    } else {
        let init = with_names(list, more.drop_last());
        if init.contains(more.last()) {
            init
        } else {
            init.push(more.last())
        }
    }
}

/// The tools that a run may not use: those of its agent and, for an agent job
/// without a list of its own, those that change the schedule.
pub open spec fn excluded_for(base: Option<Seq<Seq<char>>>, j: JobView) -> Option<Seq<Seq<char>>> {
    if j.job_type != JobType::Agent || j.allowed_tools is Some {
        base
    } else {
        Some(
            with_names(
                match base {
                    Some(l) => l,
                    None => Seq::empty(),
                },
                scheduling_tools(),
            ),
        )
    }
}

/// Adds a name to the end of a list, unless it is there already.
fn add_name(list: &mut Vec<String>, name: &str)
    ensures
        job::names(final(list)@) == (if job::names(old(list)@).contains(name@) {
            job::names(old(list)@)
        } else {
            job::names(old(list)@).push(name@)
        }),
{
    if !job::list_has(list, name) {
        let ghost before = list@;
        list.push(name.to_owned());
        assert(job::names(list@) =~= job::names(before).push(name@));
    }
}

/// The security policy of a run.
pub fn cron_agent_run_policy(base: &SecurityPolicy, j: &CronJob) -> (r: SecurityPolicy)
    ensures
        r.workspace_dir@ == base.workspace_dir@,
        job::opt_names(r.excluded_tools) == excluded_for(job::opt_names(base.excluded_tools), j@),
{
    let workspace_dir: String = base.workspace_dir.as_str().to_owned();
    if j.job_type != JobType::Agent || j.allowed_tools.is_some() {
        return SecurityPolicy {
            workspace_dir,
            excluded_tools: job::copy_opt_names(&base.excluded_tools),
        };
    }
    let mut excluded: Vec<String> = match &base.excluded_tools {
        Some(v) => job::copy_names(v),
        None => Vec::new(),
    };
    let tools: [&str; 5] = ["cron_add", "cron_update", "cron_remove", "cron_run", "schedule"];
    let ghost start = job::names(excluded@);
    let ghost more = scheduling_tools();
    proof {
        assert(text::views(tools@) =~= more);
        assert(more.take(0) =~= Seq::empty());
        if base.excluded_tools is None {
            assert(start =~= Seq::empty());
        }
    }
    for i in 0..5
        invariant
            text::views(tools@) == more,
            more.len() == 5,
            job::names(excluded@) == with_names(start, more.take(i as int)),
    {
        assert(more.take(i + 1).drop_last() =~= more.take(i as int));
        assert(more.take(i + 1).last() == tools@[i as int]@);
        add_name(&mut excluded, tools[i]);
    }
    assert(more.take(5) =~= more);
    SecurityPolicy { workspace_dir, excluded_tools: Some(excluded) }
}

/// A list has what is added to it.
proof fn lemma_with_names(list: Seq<Seq<char>>, more: Seq<Seq<char>>)
    ensures
        forall|k: int|
            0 <= k < more.len() ==> with_names(list, more).contains(#[trigger] more[k]),
        forall|k: int|
            0 <= k < list.len() ==> with_names(list, more).contains(#[trigger] list[k]),
    decreases more.len(),
{
    if more.len() == 0 {
        assert forall|k: int| 0 <= k < list.len() implies with_names(list, more).contains(
            #[trigger] list[k],
        ) by {
            assert(with_names(list, more)[k] == list[k]);
        }
    } else {
        let init = with_names(list, more.drop_last());
        lemma_with_names(list, more.drop_last());
        let all = with_names(list, more);
        assert forall|x: Seq<char>| #[trigger] init.contains(x) implies all.contains(x) by {
            let i = choose|i: int| 0 <= i < init.len() && init[i] == x;
            assert(all[i] == x);
        }
        assert forall|k: int| 0 <= k < more.len() implies all.contains(#[trigger] more[k]) by {
            if k < more.len() - 1 {
                assert(more.drop_last()[k] == more[k]);
                assert(init.contains(more[k]));
            } else if !init.contains(more.last()) {
                assert(all.last() == more.last());
            }
        }
        assert forall|k: int| 0 <= k < list.len() implies all.contains(#[trigger] list[k]) by {
            assert(init.contains(list[k]));
        }
    }
}

/// An agent job without a list of tools of its own cannot use a tool that changes
/// the schedule, nor one that its agent may not use; a list of its own is left as
/// it is.
pub proof fn law_runs_leave_the_schedule_alone(base: Option<Seq<Seq<char>>>, j: JobView)
    ensures
        j.job_type == JobType::Agent && j.allowed_tools is None ==> excluded_for(base, j) is Some
            && forall|k: int|
            0 <= k < scheduling_tools().len() ==> excluded_for(base, j)->Some_0.contains(
                #[trigger] scheduling_tools()[k],
            ),
        base matches Some(l) ==> excluded_for(base, j) is Some && forall|k: int|
            0 <= k < l.len() ==> excluded_for(base, j)->Some_0.contains(#[trigger] l[k]),
        j.allowed_tools is Some ==> excluded_for(base, j) == base,
{
    let l = match base {
        Some(l) => l,
        None => Seq::empty(),
    };
    lemma_with_names(l, scheduling_tools());
    if let Some(b) = base {
        assert forall|k: int| 0 <= k < b.len() implies excluded_for(base, j)->Some_0.contains(
            #[trigger] b[k],
        ) by {
            if excluded_for(base, j) == base {
                assert(excluded_for(base, j)->Some_0[k] == b[k]);
            }
        }
    }
}

/// The declaration that a job goes by: that of a declared agent job. A job that
/// only shares the identifier of a declaration has none.
pub open spec fn own_declaration(cron: Seq<(String, CronJobDecl)>, j: JobView) -> Option<int> {
    if j.source != "declarative"@ || j.job_type != JobType::Agent {
        None
    } else {
        startup::declared(cron, j.id)
    }
}

/// The declaration that a job goes by.
fn find_own(cron: &Vec<(String, CronJobDecl)>, j: &CronJob) -> (r: Option<usize>)
    ensures
        match r {
            Some(i) => own_declaration(cron@, j@) == Some(i as int) && i < cron@.len(),
            None => own_declaration(cron@, j@) is None,
        },
{
    if !job::is_declarative(j) || j.job_type != JobType::Agent {
        return None;
    }
    startup::find_declaration(cron, j.id.as_str())
}

/// How long an agent job may run, in seconds. `validated` gives the time that a
/// declaration sets, unless it is not one that can be set; a job without a
/// declaration of its own may run for any time.
pub fn cron_agent_timeout<F: Fn(&CronJobDecl) -> Result<Option<u64>, String>>(
    cron: &Vec<(String, CronJobDecl)>,
    j: &CronJob,
    validated: F,
) -> (r: Result<Option<u64>, String>)
    requires
        forall|d: &CronJobDecl| #[trigger] call_requires(validated, (d,)),
    ensures
        match own_declaration(cron@, j@) {
            Some(i) => call_ensures(validated, (&cron@[i].1,), r),
            None => r == Ok::<Option<u64>, String>(None),
        },
{
    match find_own(cron, j) {
        Some(i) => validated(&cron[i].1),
        None => Ok(None),
    }
}

/// What a run of an agent comes to, given the time that it had. A run whose time
/// could not be set does not take place, and its end is not looked at. `end` is
/// how it ended, if it did in its time, and `text` what is shown if it did not.
pub fn await_cron_agent_run(
    timeout: Result<Option<u64>, String>,
    end: Option<Result<String, String>>,
    text: String,
) -> (r: Result<String, String>)
    ensures
        match timeout {
            Err(e) => r == Err::<String, String>(e),
            Ok(_) => match end {
                Some(result) => r == result,
                None => r == Err::<String, String>(text),
            },
        },
{
    match timeout {
        Err(e) => Err(e),
        Ok(_) => match end {
            Some(result) => result,
            None => Err(text),
        },
    }
}

/// What is checked once an agent has run.
pub enum CompletionCheck {
    /// Nothing.
    Unchecked,
    /// The declaration asks for a check that cannot be made.
    Invalid(String),
    /// This command is run.
    Command(String),
}

/// What is checked once an agent has run for a job. `validated` gives the command
/// that a declaration sets, unless it is not one that can be set.
pub fn completion_check<F: Fn(&CronJobDecl) -> Result<Option<String>, String>>(
    cron: &Vec<(String, CronJobDecl)>,
    j: &CronJob,
    validated: F,
) -> (r: CompletionCheck)
    requires
        forall|d: &CronJobDecl| #[trigger] call_requires(validated, (d,)),
    ensures
        match own_declaration(cron@, j@) {
            Some(i) => asked_for(validated, cron@[i].1, r),
            None => r is Unchecked,
        },
{
    match find_own(cron, j) {
        Some(i) => {
            let reply: Result<Option<String>, String> = validated(&cron[i].1);
            assert(call_ensures(validated, (&cron@[i as int].1,), reply));
            let check: CompletionCheck = check_from(reply);
            assert(asked_for(validated, cron@[i as int].1, check));
            check
        },
        None => CompletionCheck::Unchecked,
    }
}

/// Whether a check is the one that a declaration asks for.
pub open spec fn asked_for<F: Fn(&CronJobDecl) -> Result<Option<String>, String>>(
    validated: F,
    decl: CronJobDecl,
    check: CompletionCheck,
) -> bool {
    exists|reply: Result<Option<String>, String>| #[trigger]
        call_ensures(validated, (&decl,), reply) && check == check_for(reply)
}

/// The check that a declaration asks for.
fn check_from(reply: Result<Option<String>, String>) -> (r: CompletionCheck)
    ensures
        r == check_for(reply),
{
    match reply {
        Ok(Some(command)) => CompletionCheck::Command(command),
        Ok(None) => CompletionCheck::Unchecked,
        Err(error) => CompletionCheck::Invalid(error),
    }
}

/// The check that a declaration asks for.
pub open spec fn check_for(reply: Result<Option<String>, String>) -> CompletionCheck {
    match reply {
        Ok(Some(command)) => CompletionCheck::Command(command),
        Ok(None) => CompletionCheck::Unchecked,
        Err(error) => CompletionCheck::Invalid(error),
    }
}

/// What came of the check after a run.
pub enum CheckEnd {
    /// Nothing was checked, or the check passed.
    Passed,
    /// The check failed; `text` is what is shown of that.
    Failed { text: String },
}

/// A result, with its texts as characters.
pub open spec fn result_view(r: Result<String, String>) -> Result<Seq<char>, Seq<char>> {
    match r {
        Ok(s) => Ok(s@),
        Err(e) => Err(e@),
    }
}

/// What a run comes to after its check. A failed check makes a successful run
/// fail; a run that had failed keeps its own error, with that of the check below
/// it.
pub open spec fn checked_result(
    run: Result<Seq<char>, Seq<char>>,
    failure: Option<Seq<char>>,
) -> Result<Seq<char>, Seq<char>> {
    match failure {
        None => run,
        Some(text) => match run {
            Ok(_) => Err(text),
            Err(error) => Err(error + "\n"@ + text),
        },
    }
}

/// What a run comes to after a check that failed.
pub fn failed_cron_completion_check(run_result: Result<String, String>, check_error: String) -> (r:
    Result<String, String>)
    ensures
        result_view(r) == checked_result(result_view(run_result), Some(check_error@)),
{
    match run_result {
        Ok(_) => Err(check_error),
        Err(error) => {
            let mut text: String = error;
            text.append("\n");
            text.append(check_error.as_str());
            Err(text)
        },
    }
}

/// What a run comes to after its check.
pub fn check_cron_agent_completion(run_result: Result<String, String>, check: CheckEnd) -> (r:
    Result<String, String>)
    ensures
        result_view(r) == checked_result(
            result_view(run_result),
            match check {
                CheckEnd::Passed => None,
                CheckEnd::Failed { text } => Some(text@),
            },
        ),
{
    match check {
        CheckEnd::Passed => run_result,
        CheckEnd::Failed { text } => failed_cron_completion_check(run_result, text),
    }
}

/// What is reported of an agent job.
pub open spec fn agent_report(run: Result<Seq<char>, Seq<char>>) -> (bool, Seq<char>) {
    match run {
        Ok(response) => (
            true,
            if text::trimmed(response).len() == 0 {
                "agent job executed"@
            } else {
                response
            },
        ),
        Err(e) => (false, "agent job failed: "@ + e),
    }
}

/// The session whose memory is cleared after a run: that of a failed run with a
/// session of its own.
pub open spec fn session_to_purge(
    run: Result<Seq<char>, Seq<char>>,
    target: SessionTarget,
    path: Seq<char>,
) -> Option<Seq<char>> {
    if run is Err && target == SessionTarget::Isolated {
        Some("cli:"@ + path)
    } else {
        None
    }
}

/// What is reported of an agent job, and the session whose memory is cleared.
pub fn finish_cron_agent_run(
    run_result: Result<String, String>,
    target: SessionTarget,
    session_path: &str,
) -> (r: (bool, String, Option<String>))
    ensures
        (r.0, r.1@) == agent_report(result_view(run_result)),
        tool::opt(r.2) == session_to_purge(result_view(run_result), target, session_path@),
{
    match run_result {
        Ok(response) => {
            let all: Vec<char> = text::chars_of(response.as_str());
            if text::trim(all.as_slice()).len() == 0 {
                (true, "agent job executed".to_owned(), None)
            } else {
                (true, response, None)
            }
        },
        Err(e) => {
            let mut output: String = "agent job failed: ".to_owned();
            output.append(e.as_str());
            let purge: Option<String> = match target {
                SessionTarget::Isolated => {
                    let mut key: String = "cli:".to_owned();
                    key.append(session_path);
                    Some(key)
                },
                SessionTarget::Main => None,
            };
            (false, output, purge)
        },
    }
}

/// A check never makes a failed run successful, and what a failed run said stays
/// at the front of what is reported.
pub proof fn law_checks_only_tighten(
    run: Result<Seq<char>, Seq<char>>,
    failure: Option<Seq<char>>,
)
    ensures
        checked_result(run, failure) is Ok ==> run is Ok && failure is None
            && checked_result(run, failure) == run,
        run matches Err(e) ==> checked_result(run, failure) matches Err(told) && e.is_prefix_of(
            told,
        ),
{
    if let Err(e) = run {
        if let Some(text) = failure {
            let told = e + "\n"@ + text;
            assert(e =~= told.subrange(0, e.len() as int));
        } else {
            assert(e =~= e.subrange(0, e.len() as int));
        }
    }
}

/// A job that is kept from running says so in a way that rules out another
/// attempt.
pub proof fn law_blocked_jobs_are_not_tried_again(b: Block)
    ensures
        crate::cron::retry::is_blocked(b.shown()),
{
    reveal_strlit("blocked by security policy:");
    reveal_strlit("blocked by security policy: autonomy is read-only");
    reveal_strlit("blocked by security policy: rate limit exceeded");
    reveal_strlit("blocked by security policy: action budget exhausted");
    assert("blocked by security policy:"@ =~= b.shown().subrange(
        0,
        "blocked by security policy:"@.len() as int,
    ));
}

} // verus!
