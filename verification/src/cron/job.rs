//! Scheduled jobs and how they are configured.

use crate::clock::Moment;
use crate::text;
use crate::turn::tool;
use vstd::prelude::*;
use vstd::string::*;

verus! {

/// What a job runs.
#[derive(Clone, Copy, Debug, PartialEq, Eq, Structural)]
pub enum JobType {
    Shell,
    Agent,
}

/// The session that an agent job runs in.
#[derive(Clone, Copy, Debug, PartialEq, Eq, Structural)]
pub enum SessionTarget {
    /// A session of its own for every run.
    Isolated,
    /// The agent's main session.
    Main,
}

/// How the output of a shell job is reported.
#[derive(Clone, Copy, Debug, PartialEq, Eq, Structural)]
pub enum CronShellOutputFormat {
    /// Exit status, standard output and standard error.
    Wrapped,
    /// Standard output alone, where the command succeeds.
    Raw,
}

/// What happens at startup to a run that was missed.
#[derive(Clone, Copy, Debug, PartialEq, Eq, Structural)]
pub enum CronMissedRunPolicy {
    /// It is made up for once.
    CatchUpOnce,
    /// It is skipped.
    Skip,
    /// It is left to a person.
    Reconcile,
}

/// When a job runs.
#[derive(Clone, Debug)]
pub enum Schedule {
    Cron { expr: String, tz: Option<String> },
    Every { every_ms: u64 },
    At { at: Moment },
}

/// Where the result of a job goes.
#[derive(Clone, Debug)]
pub struct DeliveryConfig {
    pub mode: String,
    pub channel: Option<String>,
    pub to: Option<String>,
    pub thread_id: Option<String>,
    pub reply_to: Option<String>,
    /// Whether a failed delivery leaves the run successful.
    pub best_effort: bool,
}

/// A scheduled job.
#[derive(Clone, Debug)]
pub struct CronJob {
    pub id: String,
    pub expression: String,
    pub schedule: Schedule,
    pub command: String,
    pub prompt: Option<String>,
    pub name: Option<String>,
    pub job_type: JobType,
    pub session_target: SessionTarget,
    pub model: Option<String>,
    pub agent_alias: String,
    pub enabled: bool,
    pub delivery: DeliveryConfig,
    pub delete_after_run: bool,
    pub allowed_tools: Option<Vec<String>>,
    pub uses_memory: bool,
    /// `declarative` where the configuration owns the job.
    pub source: String,
    pub shell_output_format: CronShellOutputFormat,
    pub missed_run_policy: Option<CronMissedRunPolicy>,
    pub created_at: Moment,
    pub next_run: Moment,
    pub last_run: Option<Moment>,
    pub last_status: Option<String>,
    pub last_output: Option<String>,
}

/// The model of a schedule.
pub enum ScheduleView {
    Cron { expr: Seq<char>, tz: Option<Seq<char>> },
    Every { every_ms: u64 },
    At { at: Moment },
}

/// The model of a delivery configuration.
pub struct DeliveryView {
    pub mode: Seq<char>,
    pub channel: Option<Seq<char>>,
    pub to: Option<Seq<char>>,
    pub thread_id: Option<Seq<char>>,
    pub reply_to: Option<Seq<char>>,
    pub best_effort: bool,
}

/// The model of a job.
pub struct JobView {
    pub id: Seq<char>,
    pub expression: Seq<char>,
    pub schedule: ScheduleView,
    pub command: Seq<char>,
    pub prompt: Option<Seq<char>>,
    pub name: Option<Seq<char>>,
    pub job_type: JobType,
    pub session_target: SessionTarget,
    pub model: Option<Seq<char>>,
    pub agent_alias: Seq<char>,
    pub enabled: bool,
    pub delivery: DeliveryView,
    pub delete_after_run: bool,
    pub allowed_tools: Option<Seq<Seq<char>>>,
    pub uses_memory: bool,
    pub source: Seq<char>,
    pub shell_output_format: CronShellOutputFormat,
    pub missed_run_policy: Option<CronMissedRunPolicy>,
    pub created_at: Moment,
    pub next_run: Moment,
    pub last_run: Option<Moment>,
    pub last_status: Option<Seq<char>>,
    pub last_output: Option<Seq<char>>,
}

impl View for Schedule {
    type V = ScheduleView;

    open spec fn view(&self) -> ScheduleView {
        match *self {
            Schedule::Cron { expr, tz } => ScheduleView::Cron { expr: expr@, tz: tool::opt(tz) },
            Schedule::Every { every_ms } => ScheduleView::Every { every_ms },
            Schedule::At { at } => ScheduleView::At { at },
        }
    }
}

impl View for DeliveryConfig {
    type V = DeliveryView;

    open spec fn view(&self) -> DeliveryView {
        DeliveryView {
            mode: self.mode@,
            channel: tool::opt(self.channel),
            to: tool::opt(self.to),
            thread_id: tool::opt(self.thread_id),
            reply_to: tool::opt(self.reply_to),
            best_effort: self.best_effort,
        }
    }
}

/// The characters of a list of strings.
pub open spec fn names(list: Seq<String>) -> Seq<Seq<char>> {
    list.map_values(|s: String| s@)
}

/// The characters of an optional list of strings.
pub open spec fn opt_names(list: Option<Vec<String>>) -> Option<Seq<Seq<char>>> {
    match list {
        Some(v) => Some(names(v@)),
        None => None,
    }
}

impl View for CronJob {
    type V = JobView;

    open spec fn view(&self) -> JobView {
        JobView {
            id: self.id@,
            expression: self.expression@,
            schedule: self.schedule@,
            command: self.command@,
            prompt: tool::opt(self.prompt),
            name: tool::opt(self.name),
            job_type: self.job_type,
            session_target: self.session_target,
            model: tool::opt(self.model),
            agent_alias: self.agent_alias@,
            enabled: self.enabled,
            delivery: self.delivery@,
            delete_after_run: self.delete_after_run,
            allowed_tools: opt_names(self.allowed_tools),
            uses_memory: self.uses_memory,
            source: self.source@,
            shell_output_format: self.shell_output_format,
            missed_run_policy: self.missed_run_policy,
            created_at: self.created_at,
            next_run: self.next_run,
            last_run: self.last_run,
            last_status: tool::opt(self.last_status),
            last_output: tool::opt(self.last_output),
        }
    }
}

/// A copy of a list of names.
pub(crate) fn copy_names(list: &Vec<String>) -> (r: Vec<String>)
    ensures
        names(r@) == names(list@),
{
    let mut r: Vec<String> = Vec::new();
    for i in 0..list.len()
        invariant
            r@.len() == i,
            forall|k: int| 0 <= k < i ==> r@[k]@ == list@[k]@,
    {
        r.push(list[i].as_str().to_owned());
    }
    assert(names(r@) =~= names(list@));
    r
}

/// A copy of an optional list of names.
pub(crate) fn copy_opt_names(list: &Option<Vec<String>>) -> (r: Option<Vec<String>>)
    ensures
        opt_names(r) == opt_names(*list),
{
    match list {
        Some(v) => Some(copy_names(v)),
        None => None,
    }
}

/// A copy of a schedule.
fn copy_schedule(s: &Schedule) -> (r: Schedule)
    ensures
        r@ == s@,
{
    match s {
        Schedule::Cron { expr, tz } => Schedule::Cron {
            expr: expr.clone(),
            tz: tool::copy_opt(tz),
        },
        Schedule::Every { every_ms } => Schedule::Every { every_ms: *every_ms },
        Schedule::At { at } => Schedule::At { at: *at },
    }
}

/// A copy of a delivery configuration.
fn copy_delivery(d: &DeliveryConfig) -> (r: DeliveryConfig)
    ensures
        r@ == d@,
{
    DeliveryConfig {
        mode: d.mode.clone(),
        channel: tool::copy_opt(&d.channel),
        to: tool::copy_opt(&d.to),
        thread_id: tool::copy_opt(&d.thread_id),
        reply_to: tool::copy_opt(&d.reply_to),
        best_effort: d.best_effort,
    }
}

/// A copy of a job.
pub(crate) fn copy_job(j: &CronJob) -> (r: CronJob)
    ensures
        r@ == j@,
{
    CronJob {
        id: j.id.clone(),
        expression: j.expression.clone(),
        schedule: copy_schedule(&j.schedule),
        command: j.command.clone(),
        prompt: tool::copy_opt(&j.prompt),
        name: tool::copy_opt(&j.name),
        job_type: j.job_type,
        session_target: j.session_target,
        model: tool::copy_opt(&j.model),
        agent_alias: j.agent_alias.clone(),
        enabled: j.enabled,
        delivery: copy_delivery(&j.delivery),
        delete_after_run: j.delete_after_run,
        allowed_tools: copy_opt_names(&j.allowed_tools),
        uses_memory: j.uses_memory,
        source: j.source.clone(),
        shell_output_format: j.shell_output_format,
        missed_run_policy: j.missed_run_policy,
        created_at: j.created_at,
        next_run: j.next_run,
        last_run: j.last_run,
        last_status: tool::copy_opt(&j.last_status),
        last_output: tool::copy_opt(&j.last_output),
    }
}

/// Whether two optional strings hold the same.
pub fn same_opt(a: &Option<String>, b: &Option<String>) -> (r: bool)
    ensures
        r == (tool::opt(*a) == tool::opt(*b)),
{
    match (a, b) {
        (Some(x), Some(y)) => text::str_eq(x.as_str(), y.as_str()),
        (None, None) => true,
        _ => false,
    }
}

/// Whether an optional string is the given text.
pub fn opt_is(a: &Option<String>, word: &str) -> (r: bool)
    ensures
        r == (tool::opt(*a) == Some(word@)),
{
    match a {
        Some(x) => text::str_eq(x.as_str(), word),
        None => false,
    }
}

/// Whether two lists hold the same strings in the same order.
pub fn same_names(a: &Vec<String>, b: &Vec<String>) -> (r: bool)
    ensures
        r == (names(a@) == names(b@)),
{
    if a.len() != b.len() {
        assert(names(a@).len() != names(b@).len());
        return false;
    }
    for i in 0..a.len()
        invariant
            a@.len() == b@.len(),
            forall|j: int| 0 <= j < i ==> names(a@)[j] == names(b@)[j],
    {
        if !text::str_eq(a[i].as_str(), b[i].as_str()) {
            assert(names(a@)[i as int] != names(b@)[i as int]);
            return false;
        }
    }
    assert(names(a@) =~= names(b@));
    true
}

/// Whether a list holds the given text.
pub fn list_has(list: &Vec<String>, word: &str) -> (r: bool)
    ensures
        r == names(list@).contains(word@),
{
    for i in 0..list.len()
        invariant
            forall|j: int| 0 <= j < i ==> #[trigger] names(list@)[j] != word@,
    {
        assert(names(list@)[i as int] == list@[i as int]@);
        if text::str_eq(list[i].as_str(), word) {
            return true;
        }
    }
    false
}

/// Whether two schedules are the same.
pub fn same_schedule(a: &Schedule, b: &Schedule) -> (r: bool)
    ensures
        r == (a@ == b@),
{
    match (a, b) {
        (
            Schedule::Cron { expr, tz },
            Schedule::Cron { expr: other_expr, tz: other_tz },
        ) => text::str_eq(expr.as_str(), other_expr.as_str()) && same_opt(tz, other_tz),
        (Schedule::Every { every_ms }, Schedule::Every { every_ms: other }) => *every_ms == *other,
        (Schedule::At { at }, Schedule::At { at: other }) => *at == *other,
        _ => false,
    }
}

/// Whether two delivery configurations are the same.
pub fn same_delivery(a: &DeliveryConfig, b: &DeliveryConfig) -> (r: bool)
    ensures
        r == (a@ == b@),
{
    text::str_eq(a.mode.as_str(), b.mode.as_str()) && same_opt(&a.channel, &b.channel) && same_opt(
        &a.to,
        &b.to,
    ) && same_opt(&a.thread_id, &b.thread_id) && same_opt(&a.reply_to, &b.reply_to)
        && a.best_effort == b.best_effort
}

/// Whether two jobs are the same in every field.
pub fn same_job(a: &CronJob, b: &CronJob) -> (r: bool)
    ensures
        r == (a@ == b@),
{
    let tools: bool = match (&a.allowed_tools, &b.allowed_tools) {
        (Some(x), Some(y)) => same_names(x, y),
        (None, None) => true,
        _ => false,
    };
    let policy: bool = match (a.missed_run_policy, b.missed_run_policy) {
        (Some(x), Some(y)) => x == y,
        (None, None) => true,
        _ => false,
    };
    let last: bool = match (a.last_run, b.last_run) {
        (Some(x), Some(y)) => x == y,
        (None, None) => true,
        _ => false,
    };
    text::str_eq(a.id.as_str(), b.id.as_str()) && text::str_eq(
        a.expression.as_str(),
        b.expression.as_str(),
    ) && same_schedule(&a.schedule, &b.schedule) && text::str_eq(
        a.command.as_str(),
        b.command.as_str(),
    ) && same_opt(&a.prompt, &b.prompt) && same_opt(&a.name, &b.name) && a.job_type == b.job_type
        && a.session_target == b.session_target && same_opt(&a.model, &b.model) && text::str_eq(
        a.agent_alias.as_str(),
        b.agent_alias.as_str(),
    ) && a.enabled == b.enabled && same_delivery(&a.delivery, &b.delivery) && a.delete_after_run
        == b.delete_after_run && tools && a.uses_memory == b.uses_memory && text::str_eq(
        a.source.as_str(),
        b.source.as_str(),
    ) && a.shell_output_format == b.shell_output_format && policy && a.created_at == b.created_at
        && a.next_run == b.next_run && last && same_opt(&a.last_status, &b.last_status)
        && same_opt(&a.last_output, &b.last_output)
}

/// Whether the configuration owns a job.
pub fn is_declarative(job: &CronJob) -> (r: bool)
    ensures
        r == (job@.source == "declarative"@),
{
    text::str_eq(job.source.as_str(), "declarative")
}

} // verus!
