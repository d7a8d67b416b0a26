//! What holds of how agents and commands are run, what is reported of them, and
//! what is delivered.

use crate::clock;
use crate::clock::Moment;
use crate::cron::agent_run;
use crate::cron::agent_run::{
    agent_gate, agent_run_given, await_cron_agent_run, budget_gate, check_cron_agent_completion,
    completion_check, cron_agent_run_policy, cron_agent_session_path, cron_agent_timeout,
    failed_cron_completion_check, finish_cron_agent_run, prepare_agent_run, AgentRun, Block,
    CheckEnd, CompletionCheck, SecurityPolicy,
};
use crate::cron::announce;
use crate::cron::announce::{
    announce_delivery_decision, is_no_reply_sentinel, AnnounceDecision, CronDeliveryContext,
};
use crate::cron::delivery;
use crate::cron::delivery::{
    deliver_and_classify_run_result, deliver_announcement, deliver_if_configured,
    failed_notification, notification_evidence, notification_not_started, plan_delivery,
    CronDeliveryOutcome, DeliveryError, DeliveryPlan, SendEnd,
};
use crate::cron::dispatch_laws;
use crate::cron::dispatch_laws::reads_same;
use crate::cron::event::{
    is_told, manual_event, manual_event_given, scheduled_event, scheduled_event_given,
    CronResultEvent,
};
use crate::cron::job;
use crate::cron::job::{CronJob, CronShellOutputFormat, DeliveryConfig, JobType, SessionTarget};
use crate::cron::manual_run::{ManualCronRunResult, ManualRunEnd};
use crate::cron::shell;
use crate::cron::shell::{exit_report_given, run_job_command, shell_gate, ShellEnd};
use crate::cron::startup;
use crate::cron::startup::{find_declaration, CronJobDecl};
use crate::effect::{DeliveryFailure, DeliverySummary, EffectOutcome};
use crate::text;
use crate::turn::tool;
use vstd::prelude::*;
use vstd::string::*;

verus! {

/// What is reported of a job that is kept from running.
pub proof fn law_blocks_are_shown(b: Block, s: &'static str)
    requires
        call_ensures(Block::message, (b,), s),
    ensures
        b is ReadOnly ==> s@ == "blocked by security policy: autonomy is read-only"@,
        b is RateLimited ==> s@ == "blocked by security policy: rate limit exceeded"@,
        b is OverBudget ==> s@ == "blocked by security policy: action budget exhausted"@,
{
}

/// An agent job passes its gates exactly if the agent may act, has not acted too
/// often, and has room in its budget; that it may not act is told first.
pub proof fn law_agents_pass_their_gates(
    can_act: bool,
    rate_limited: bool,
    room: bool,
    a: Option<Block>,
    b: Option<Block>,
)
    requires
        call_ensures(agent_gate, (can_act, rate_limited), a),
        call_ensures(budget_gate, (room,), b),
    ensures
        a is None <==> can_act && !rate_limited,
        a == Some(Block::ReadOnly) <==> !can_act,
        a == Some(Block::RateLimited) <==> can_act && rate_limited,
        b is None <==> room,
        b == Some(Block::OverBudget) <==> !room,
{
}

/// A command passes its gate exactly if the agent may act, has not acted too often,
/// and the command is permitted and names no forbidden path. The first of these
/// that does not hold is told.
pub proof fn law_commands_pass_their_gate(
    can_act: bool,
    rate_limited: bool,
    invalid: Option<String>,
    path: Option<String>,
    read_only: &'static str,
    limited: &'static str,
    r: Option<String>,
)
    requires
        call_ensures(Block::message, (Block::ReadOnly,), read_only),
        call_ensures(Block::message, (Block::RateLimited,), limited),
        call_ensures(shell_gate, (can_act, rate_limited, invalid, path), r),
    ensures
        r is None <==> can_act && !rate_limited && invalid is None && path is None,
        !can_act ==> r->Some_0@ == read_only@,
        can_act && rate_limited ==> r->Some_0@ == limited@,
        can_act && !rate_limited && invalid is Some ==> r->Some_0@ == invalid->Some_0@,
        can_act && !rate_limited && invalid is None && path is Some ==> r->Some_0@
            == "blocked by security policy: forbidden path argument: "@ + path->Some_0@,
{
}

/// A run goes on in the agent's main session only if its job asks for that;
/// otherwise it has one of its own, named by the run.
pub proof fn law_sessions_are_named_by_the_run(target: SessionTarget, id: &str, s: String)
    requires
        call_ensures(cron_agent_session_path, (&target, id), s),
    ensures
        target is Main ==> s@ == "main"@,
        target is Isolated ==> s@ == "cron-"@ + id@,
{
}

/// An agent is run with what its job asks for: model, tools and session. The prompt
/// names the job in front; nothing is saved by itself, and a job that uses no memory
/// gets none.
pub proof fn law_agents_run_with_what_the_job_asks_for(
    job: &CronJob,
    run_id: String,
    id: &str,
    path: String,
    r: AgentRun,
)
    requires
        id@ == run_id@,
        call_ensures(cron_agent_session_path, (&job.session_target, id), path),
        call_ensures(agent_run_given, (job, run_id), r),
    ensures
        r.run_id@ == run_id@,
        r.session_path@ == path@,
        reads_same(r.model, job.model),
        r.allowed_tools is Some <==> job.allowed_tools is Some,
        r.allowed_tools is Some ==> dispatch_laws::lists_same(
            r.allowed_tools->Some_0@,
            job.allowed_tools->Some_0@,
        ),
        !r.auto_save,
        r.suppress_memory_inject <==> !job.uses_memory,
        r.memory_free <==> !job.uses_memory,
        ({
            let name = match job.name {
                Some(n) => n@,
                None => "cron-job"@,
            };
            let asked = match job.prompt {
                Some(p) => p@,
                None => Seq::empty(),
            };
            r.prompt@ == "[cron:"@ + job.id@ + " "@ + name + "] "@ + asked
        }),
{
    reveal_strlit("");
    assert(""@ =~= Seq::<char>::empty());
    assert(job@.model == tool::opt(job.model));
    if job.allowed_tools is Some && r.allowed_tools is Some {
        dispatch_laws::lemma_lists(r.allowed_tools->Some_0@, job.allowed_tools->Some_0@);
    }
}

/// A run that is prepared is the one that its own identifier gives.
pub proof fn law_prepared_runs(job: &CronJob, r: AgentRun, run_id: String, s: AgentRun)
    requires
        call_ensures(prepare_agent_run, (job,), r),
        run_id@ == r.run_id@,
        call_ensures(agent_run_given, (job, run_id), s),
    ensures
        r.run_id@.len() == 36,
        r.prompt@ == s.prompt@,
        r.session_path@ == s.session_path@,
        reads_same(r.model, s.model),
        r.auto_save == s.auto_save,
        r.suppress_memory_inject == s.suppress_memory_inject,
        r.memory_free == s.memory_free,
{
    assert(tool::opt(r.model) == tool::opt(s.model));
}

/// Whether a tool stands in an optional list.
pub open spec fn excludes(list: Option<Vec<String>>, name: Seq<char>) -> bool {
    list matches Some(v) && dispatch_laws::is_known(v@, name)
}

/// A run excludes what its agent excludes. A run of an agent job without a list of
/// its own excludes the five tools that change the schedule as well, and nothing
/// else; any other run excludes nothing more.
pub proof fn law_what_a_run_excludes(
    base: &SecurityPolicy,
    j: &CronJob,
    r: SecurityPolicy,
    name: Seq<char>,
)
    requires
        call_ensures(cron_agent_run_policy, (base, j), r),
    ensures
        r.workspace_dir@ == base.workspace_dir@,
        excludes(r.excluded_tools, name) <==> excludes(base.excluded_tools, name) || (
        j.job_type is Agent && j.allowed_tools is None && (name == "cron_add"@ || name
            == "cron_update"@ || name == "cron_remove"@ || name == "cron_run"@ || name
            == "schedule"@)),
        base.excluded_tools is None && !(j.job_type is Agent && j.allowed_tools is None)
            ==> r.excluded_tools is None,
{
    let before = job::opt_names(base.excluded_tools);
    let after = job::opt_names(r.excluded_tools);
    lemma_excludes(base.excluded_tools, name);
    lemma_excludes(r.excluded_tools, name);
    assert(after == agent_run::excluded_for(before, j@));
    if j.job_type is Agent && j.allowed_tools is None {
        let l = match before {
            Some(l) => l,
            None => Seq::empty(),
        };
        let tools = agent_run::scheduling_tools();
        lemma_with_names_has(l, tools, name);
        assert(tools.len() == 5);
        assert(tools.contains(name) <==> (name == "cron_add"@ || name == "cron_update"@ || name
            == "cron_remove"@ || name == "cron_run"@ || name == "schedule"@)) by {
            assert(tools[0] == "cron_add"@ && tools[1] == "cron_update"@ && tools[2]
                == "cron_remove"@ && tools[3] == "cron_run"@ && tools[4] == "schedule"@);
        }
    }
}

proof fn lemma_excludes(list: Option<Vec<String>>, name: Seq<char>)
    ensures
        excludes(list, name) <==> (job::opt_names(list) matches Some(l) && l.contains(name)),
{
    if let Some(v) = list {
        dispatch_laws::lemma_known(v@, name);
    }
}

proof fn lemma_with_names_has(list: Seq<Seq<char>>, more: Seq<Seq<char>>, name: Seq<char>)
    ensures
        agent_run::with_names(list, more).contains(name) <==> list.contains(name) || more.contains(
            name,
        ),
    decreases more.len(),
{
    if more.len() > 0 {
        let rest = more.drop_last();
        lemma_with_names_has(list, rest, name);
        let init = agent_run::with_names(list, rest);
        let all = agent_run::with_names(list, more);
        if rest.contains(name) {
            let i = choose|i: int| 0 <= i < rest.len() && rest[i] == name;
            assert(more[i] == name);
        }
        if more.contains(name) {
            let i = choose|i: int| 0 <= i < more.len() && more[i] == name;
            if i < rest.len() {
                assert(rest[i] == name);
            }
        }
        if init.contains(name) {
            let i = choose|i: int| 0 <= i < init.len() && init[i] == name;
            assert(all[i] == name);
        }
        if all.contains(name) {
            let i = choose|i: int| 0 <= i < all.len() && all[i] == name;
            if i < init.len() {
                assert(init[i] == name);
            } else {
                assert(name == more.last());
                assert(more[more.len() - 1] == name);
            }
        }
        if name == more.last() {
            assert(more[more.len() - 1] == name);
            if !init.contains(name) {
                assert(all[all.len() - 1] == name);
            }
        }
    }
}

/// Only a declared agent job has a time of its own: the one that its declaration
/// sets. Any other job may run for any time, and has no check.
pub proof fn law_declarations_set_time_and_check<
    F: Fn(&CronJobDecl) -> Result<Option<u64>, String>,
    G: Fn(&CronJobDecl) -> Result<Option<String>, String>,
>(
    cron: &Vec<(String, CronJobDecl)>,
    j: &CronJob,
    id: &str,
    at: Option<usize>,
    time: F,
    r: Result<Option<u64>, String>,
    command: G,
    check: CompletionCheck,
    asked: spec_fn(CronJobDecl) -> Result<Option<String>, String>,
)
    requires
        id@ == j.id@,
        call_ensures(find_declaration, (cron, id), at),
        call_ensures(cron_agent_timeout::<F>, (cron, j, time), r),
        call_ensures(completion_check::<G>, (cron, j, command), check),
        forall|d: &CronJobDecl, reply: Result<Option<String>, String>| #[trigger]
            call_ensures(command, (d,), reply) ==> reply == asked(*d),
    ensures
        ({
            let own = j.source@ == "declarative"@ && j.job_type is Agent && at is Some;
            let decl = cron@[at->Some_0 as int].1;
            &&& own ==> call_ensures(time, (&decl,), r)
            &&& !own ==> r == Ok::<Option<u64>, String>(None)
            &&& !own ==> check is Unchecked
            &&& own ==> (match asked(decl) {
                Ok(Some(c)) => check == CompletionCheck::Command(c),
                Ok(None) => check is Unchecked,
                Err(e) => check == CompletionCheck::Invalid(e),
            })
        }),
{
}

/// A run whose time could not be set has that failure; one that ended in its time
/// has its own result; one that did not failed with what is shown of that.
pub proof fn law_runs_end_in_their_time(
    timeout: Result<Option<u64>, String>,
    end: Option<Result<String, String>>,
    told: String,
    r: Result<String, String>,
)
    requires
        call_ensures(await_cron_agent_run, (timeout, end, told), r),
    ensures
        timeout matches Err(e) ==> (r matches Err(w) && w == e),
        timeout is Ok && end is Some ==> r == end->Some_0,
        timeout is Ok && end is None ==> (r matches Err(w) && w == told),
{
}

/// A check that passed leaves the run as it is. One that failed fails it; the error
/// of a run that had failed stays in front.
pub proof fn law_failed_checks_fail_the_run(
    run: Result<String, String>,
    told: String,
    passed: Result<String, String>,
    failed: Result<String, String>,
    alone: Result<String, String>,
)
    requires
        call_ensures(check_cron_agent_completion, (run, CheckEnd::Passed), passed),
        call_ensures(check_cron_agent_completion, (run, CheckEnd::Failed { text: told }), failed),
        call_ensures(failed_cron_completion_check, (run, told), alone),
    ensures
        run is Ok <==> passed is Ok,
        run is Ok ==> passed->Ok_0@ == run->Ok_0@,
        run is Err ==> passed->Err_0@ == run->Err_0@,
        failed is Err,
        alone is Err,
        failed->Err_0@ == alone->Err_0@,
        run is Ok ==> failed->Err_0@ == told@,
        run is Err ==> failed->Err_0@ == run->Err_0@ + "\n"@ + told@,
{
}

/// A successful run is reported by its response, unless that is blank; a failed one
/// by its error. Only the session of a failed run that had one of its own is
/// cleared.
pub proof fn law_what_is_reported_of_an_agent(
    run: Result<String, String>,
    target: SessionTarget,
    path: &str,
    r: (bool, String, Option<String>),
)
    requires
        call_ensures(finish_cron_agent_run, (run, target, path), r),
    ensures
        r.0 <==> run is Ok,
        run matches Ok(response) ==> (text::trimmed(response@).len() > 0 ==> r.1@ == response@),
        run matches Ok(response) ==> (text::trimmed(response@).len() == 0 ==> r.1@
            == "agent job executed"@),
        run matches Err(e) ==> r.1@ == "agent job failed: "@ + e@,
        r.2 is Some <==> run is Err && target is Isolated,
        r.2 matches Some(key) ==> key@ == "cli:"@ + path@,
{
    assert(tool::opt(r.2) is Some <==> r.2 is Some);
}

/// A successful command is reported bare where that is asked for; any other that
/// ended with its status and both its outputs.
pub proof fn law_what_is_reported_of_an_exit(
    format: CronShellOutputFormat,
    success: bool,
    status: &str,
    stdout: &str,
    stderr: &str,
    r: String,
)
    requires
        call_ensures(exit_report_given, (format, success, status, stdout, stderr), r),
    ensures
        format is Raw && success ==> r@ == text::trimmed(stdout@),
        !(format is Raw && success) ==> r@ == "status="@ + status@ + "\nstdout:\n"@
            + text::trimmed(stdout@) + "\nstderr:\n"@ + text::trimmed(stderr@),
{
}

/// Only a command that ended well is a success. One that did not run, or not to its
/// end, is told as such.
pub proof fn law_what_is_reported_of_a_command(
    format: CronShellOutputFormat,
    end: ShellEnd,
    r: (bool, String),
)
    requires
        call_ensures(run_job_command, (format, end), r),
    ensures
        r.0 <==> (end matches ShellEnd::Exited { success, status, stdout, stderr } && success),
        end matches ShellEnd::SetupFailed { error } ==> r.1@ == "shell setup error: "@ + error@,
        end matches ShellEnd::SpawnFailed { error } ==> r.1@ == "spawn error: "@ + error@,
        end matches ShellEnd::TimedOut { seconds } ==> r.1@ == "job timed out after "@ + seconds@
            + "s"@,
        end matches ShellEnd::Exited { success, status, stdout, stderr } ==> {
            let out = shell::lossy_of(stdout@);
            let err = shell::lossy_of(stderr@);
            &&& format is Raw && success ==> r.1@ == text::trimmed(out)
            &&& !(format is Raw && success) ==> r.1@ == "status="@ + status@ + "\nstdout:\n"@
                + text::trimmed(out) + "\nstderr:\n"@ + text::trimmed(err)
        },
{
}

/// An output has nothing to report exactly if, without white space around it and in
/// lower case, it is `no_reply`, or goes on after that with a colon, or with `info`
/// in brackets.
pub proof fn law_what_has_nothing_to_report(
    output: &str,
    r: bool,
    d: AnnounceDecision,
    sent: bool,
)
    requires
        call_ensures(is_no_reply_sentinel, (output,), r),
        call_ensures(announce_delivery_decision, (output,), d),
        call_ensures(AnnounceDecision::should_deliver, (d,), sent),
    ensures
        sent <==> !r,
        d is Deliver <==> !r,
        r <==> {
            let said = text::ascii_lower(text::trimmed(output@));
            ||| said == "no_reply"@
            ||| "no_reply:"@.is_prefix_of(said)
            ||| "no_reply["@.is_prefix_of(said) && exists|i: int|
                9 <= i < said.len() && #[trigger] said[i] == ']' && text::trimmed(
                    said.subrange(9, i),
                ) == "info"@ && forall|j: int| 9 <= j < i ==> #[trigger] said[j] != ']'
        },
{
    reveal_strlit("no_reply[");
    let said = text::ascii_lower(text::trimmed(output@));
    let rest = said.skip(9);
    lemma_bracket(rest);
    if "no_reply["@.is_prefix_of(said) {
        assert forall|j: int| 0 <= j < rest.len() implies #[trigger] rest[j] == said[j + 9] by {}
        match announce::closing_bracket(rest) {
            Some(i) => {
                assert(rest.take(i) =~= said.subrange(9, i + 9));
                assert(said[i + 9] == ']');
                assert forall|j: int| 9 <= j < i + 9 implies #[trigger] said[j] != ']' by {
                    assert(rest[j - 9] == said[j]);
                }
                assert forall|k: int|
                    9 <= k < said.len() && #[trigger] said[k] == ']' && (forall|j: int|
                        9 <= j < k ==> #[trigger] said[j] != ']') implies k == i + 9 by {
                    if k < i + 9 {
                        assert(said[k] != ']');
                    }
                }
            },
            None => {
                assert forall|k: int| 9 <= k < said.len() implies #[trigger] said[k] != ']' by {
                    assert(rest[k - 9] == said[k]);
                }
            },
        }
    }
}

proof fn lemma_bracket(s: Seq<char>)
    ensures
        match announce::closing_bracket(s) {
            Some(i) => 0 <= i < s.len() && s[i] == ']' && forall|j: int|
                0 <= j < i ==> #[trigger] s[j] != ']',
            None => forall|j: int| 0 <= j < s.len() ==> #[trigger] s[j] != ']',
        },
    decreases s.len(),
{
    if s.len() > 0 && s[0] != ']' {
        let tail = s.drop_first();
        lemma_bracket(tail);
        assert forall|j: int| 1 <= j < s.len() implies #[trigger] s[j] == tail[j - 1] by {}
    }
}

/// What is logged of a delivery that failed.
pub proof fn law_failed_deliveries_are_logged(c: CronDeliveryContext, best: bool, m: &'static str)
    requires
        call_ensures(CronDeliveryContext::failure_message, (c, best), m),
    ensures
        c is Scheduled && best ==> m@ == "Cron delivery failed (best_effort)"@,
        c is Scheduled && !best ==> m@ == "Cron delivery failed"@,
        c is ToolManual && best ==> m@ == "cron_run delivery failed (best_effort)"@,
        c is ToolManual && !best ==> m@ == "cron_run delivery failed"@,
        c is GatewayManual && best ==> m@ == "manual cron trigger delivery failed (best_effort)"@,
        c is GatewayManual && !best ==> m@ == "manual cron trigger delivery failed"@,
        c is RpcManual && best ==> m@ == "RPC cron trigger delivery failed (best_effort)"@,
        c is RpcManual && !best ==> m@ == "RPC cron trigger delivery failed"@,
{
}

/// An output is announced exactly in announce mode and if it has something to
/// report. It goes to the configured channel and target, without either of which it
/// is refused; it answers a message where one is configured.
pub proof fn law_what_is_announced(
    d: &DeliveryConfig,
    output: &str,
    quiet: bool,
    p: DeliveryPlan,
)
    requires
        call_ensures(is_no_reply_sentinel, (output,), quiet),
        call_ensures(plan_delivery, (d, output), p),
    ensures
        p is Nothing <==> text::ascii_lower(d.mode@) != "announce"@ || quiet,
        p is Send <==> !(p is Nothing) && d.channel is Some && d.to is Some,
        p matches DeliveryPlan::Refused(e) ==> {
            &&& d.channel is None ==> e.message@
                == "delivery.channel is required for announce mode"@
            &&& d.channel is Some ==> e.message@ == "delivery.to is required for announce mode"@
            &&& e.failure matches Some(f) && f.outcome is NotStarted && f.chunk_index == 0
                && f.total_chunks == 1 && f.confirmed_chunks == 0
        },
        p matches DeliveryPlan::Send(a) ==> {
            &&& a.channel@ == d.channel->Some_0@
            &&& a.target@ == d.to->Some_0@
            &&& reads_same(a.thread_id, d.thread_id)
            &&& a.route is Some <==> d.reply_to is Some
            &&& a.route matches Some(route) ==> route.channel@ == a.channel@ && route.recipient@
                == a.target@ && route.sender@.len() == 0 && reads_same(route.thread, d.thread_id)
                && route.reply_to@ == d.reply_to->Some_0@
        },
{
    reveal_strlit("");
    let v = p@;
    let c = d@;
    assert(c.channel == tool::opt(d.channel));
    assert(c.to == tool::opt(d.to));
    if let DeliveryPlan::Refused(e) = p {
        assert(v == delivery::PlanView::Refused(e@));
    }
    if let DeliveryPlan::Send(a) = p {
        assert(v->route is Some <==> a.route is Some);
        if let Some(route) = a.route {
            assert(v->route->Some_0 == route@);
        }
    }
}

/// What a channel's summary is evidence of: full confirmation only where all of at
/// least one chunk is confirmed. Less than that is partial, or open.
pub proof fn law_what_a_summary_is_evidence_of(
    summary: Option<DeliverySummary>,
    r: EffectOutcome,
)
    requires
        call_ensures(notification_evidence, (summary,), r),
    ensures
        summary is None ==> r is PossiblyApplied,
        summary matches Some(s) ==> {
            &&& !(s.outcome is Confirmed) ==> r == s.outcome
            &&& s.outcome is Confirmed ==> {
                &&& r is Confirmed <==> s.total_chunks >= 1 && s.confirmed_chunks
                    == s.total_chunks
                &&& r is PartiallyApplied <==> 1 <= s.confirmed_chunks < s.total_chunks
                &&& r is Confirmed || r is PartiallyApplied || r is PossiblyApplied
            }
        },
{
}

/// What a failed delivery is evidence of: what the channel says of it, but chunks
/// that were confirmed before it are not undone; without a word, it may have gone
/// out.
pub proof fn law_what_a_failure_is_evidence_of(
    failure: Option<DeliveryFailure>,
    r: EffectOutcome,
    none: DeliveryFailure,
)
    requires
        call_ensures(failed_notification, (failure,), r),
        call_ensures(notification_not_started, (), none),
    ensures
        failure is None ==> r is PossiblyApplied,
        failure matches Some(f) ==> {
            &&& f.outcome is ConfirmedFailed && f.confirmed_chunks > 0 ==> r is PartiallyApplied
            &&& !(f.outcome is ConfirmedFailed && f.confirmed_chunks > 0) ==> r == f.outcome
        },
        none.outcome is NotStarted,
        none.chunk_index == 0,
        none.total_chunks == 1,
        none.confirmed_chunks == 0,
{
}

/// Without a handler nothing was attempted; otherwise the channel's word counts.
pub proof fn law_what_an_announcement_comes_to(
    sent: SendEnd,
    r: Result<Option<DeliverySummary>, DeliveryError>,
)
    requires
        call_ensures(deliver_announcement, (sent,), r),
    ensures
        sent matches SendEnd::NoHandler { shown } ==> (r matches Err(e) && e.message@ == shown@ && (
        e.failure matches Some(f) && f.outcome is NotStarted && f.confirmed_chunks == 0)),
        sent matches SendEnd::Taken { summary } ==> (r matches Ok(s) && s == summary),
        sent matches SendEnd::Failed { error } ==> (r matches Err(e) && e.message@ == error.message@
            && e.failure == error.failure),
{
    if let Err(e) = r {
        assert(delivery::announced(sent@) == Err::<Option<DeliverySummary>, _>(e@));
    }
}

/// A delivery ends with nothing where nothing is announced, with its refusal where
/// it is refused, and otherwise with what the announcement comes to.
pub proof fn law_how_a_delivery_ends(
    d: &DeliveryConfig,
    output: &str,
    sent: SendEnd,
    p: DeliveryPlan,
    reply: Result<Option<DeliverySummary>, DeliveryError>,
    summary: Option<DeliverySummary>,
    evidence: EffectOutcome,
    r: Result<Option<EffectOutcome>, DeliveryError>,
)
    requires
        call_ensures(plan_delivery, (d, output), p),
        call_ensures(deliver_announcement, (sent,), reply),
        reply is Ok ==> summary == reply->Ok_0,
        call_ensures(notification_evidence, (summary,), evidence),
        call_ensures(deliver_if_configured, (d, output, sent), r),
    ensures
        p is Nothing ==> (r matches Ok(o) && o is None),
        p matches DeliveryPlan::Refused(e) ==> (r matches Err(w) && w.message@ == e.message@
            && w.failure == e.failure),
        p is Send && reply is Ok ==> (r matches Ok(o) && o == Some(evidence)),
        p is Send && reply is Err ==> (r matches Err(w) && w.message@ == reply->Err_0.message@
            && w.failure == reply->Err_0.failure),
{
    let v = p@;
    if let DeliveryPlan::Refused(e) = p {
        assert(v == delivery::PlanView::Refused(e@));
        assert(r->Err_0@ == e@);
    }
    if p is Send && reply is Err {
        assert(v is Send);
        assert(r->Err_0@ == reply->Err_0@);
    }
}

/// A run whose delivery did not fail keeps its success and its output. A failed
/// delivery fails the run, unless delivery is on a best-effort basis and the run
/// succeeded: that one is degraded. The failure is told under the output.
pub proof fn law_what_a_delivered_run_amounts_to(
    d: &DeliveryConfig,
    success: bool,
    output: String,
    said: &str,
    sent: SendEnd,
    ended: Result<Option<EffectOutcome>, DeliveryError>,
    failure: Option<DeliveryFailure>,
    evidence: EffectOutcome,
    r: CronDeliveryOutcome,
)
    requires
        said@ == output@,
        call_ensures(deliver_if_configured, (d, said, sent), ended),
        ended is Err ==> failure == ended->Err_0.failure,
        call_ensures(failed_notification, (failure,), evidence),
        call_ensures(deliver_and_classify_run_result, (d, success, output, sent), r),
    ensures
        ended matches Ok(o) ==> {
            &&& r.delivery_outcome == o
            &&& r.success == success
            &&& success ==> r.status@ == "ok"@
            &&& !success ==> r.status@ == "error"@
            &&& r.output@ == output@
        },
        ended matches Err(e) ==> {
            &&& r.delivery_outcome == Some(evidence)
            &&& r.success <==> success && d.best_effort
            &&& success && d.best_effort ==> r.status@ == "degraded"@
            &&& !(success && d.best_effort) ==> r.status@ == "error"@
            &&& text::trimmed(output@).len() == 0 ==> r.output@ == "delivery failed: "@ + e.message@
            &&& text::trimmed(output@).len() > 0 ==> r.output@ == output@
                + "\n\ndelivery failed: "@ + e.message@
        },
{
}

/// What is told of a run is what it came to, at the time at which it ended; of a run
/// by hand its evidence as well. Only a run by hand that was run and delivered is
/// told of.
pub proof fn law_what_is_told_of_a_run(
    job_id: &str,
    success: bool,
    output: &str,
    timestamp: String,
    a: CronResultEvent,
    run: &ManualCronRunResult,
    b: CronResultEvent,
    end: &ManualRunEnd,
    told: bool,
)
    requires
        call_ensures(scheduled_event_given, (job_id, success, output, timestamp), a),
        call_ensures(manual_event_given, (run, timestamp), b),
        call_ensures(is_told, (end,), told),
    ensures
        a.job_id@ == job_id@,
        a.success == success,
        a.output@ == output@,
        a.timestamp@ == timestamp@,
        a.manual is None,
        b.job_id@ == run.job_id@,
        b.success == run.success,
        b.output@ == run.output@,
        b.timestamp@ == timestamp@,
        b.manual matches Some(m) && reads_same(m.occurrence_id, run.occurrence_id)
            && m.effect_outcome == run.effect_outcome && m.execution_outcome
            == run.execution_outcome && m.delivery_outcome == run.delivery_outcome,
        told <==> end is Ended,
{
    assert(a@.manual is None);
    assert(b@.manual is Some);
    assert(b@.manual->Some_0.occurrence_id == tool::opt(b.manual->Some_0.occurrence_id));
}

/// A run is told of exactly if the time of its end can be written.
pub proof fn law_runs_are_told_at_their_end(
    job_id: &str,
    success: bool,
    output: &str,
    at: Moment,
    r: Option<CronResultEvent>,
    run: &ManualCronRunResult,
    s: Option<CronResultEvent>,
)
    requires
        call_ensures(scheduled_event, (job_id, success, output, at), r),
        call_ensures(manual_event, (run,), s),
    ensures
        r is Some <==> at.is_calendar_time(),
        r matches Some(e) ==> e.job_id@ == job_id@ && e.success == success && e.output@ == output@
            && e.timestamp@ == clock::rfc3339_text(at.secs as int, at.nanos as int)
            && e.manual is None,
        s is Some <==> run.finished_at.is_calendar_time(),
        s matches Some(e) ==> e.job_id@ == run.job_id@ && e.success == run.success && e.output@
            == run.output@ && e.timestamp@ == clock::rfc3339_text(
            run.finished_at.secs as int,
            run.finished_at.nanos as int,
        ) && (e.manual matches Some(m) && m.effect_outcome == run.effect_outcome
            && m.execution_outcome == run.execution_outcome && m.delivery_outcome
            == run.delivery_outcome && reads_same(m.occurrence_id, run.occurrence_id)),
{
    if let Some(e) = r {
        assert(e@.manual is None);
    }
    if let Some(e) = s {
        assert(e@.manual is Some);
        assert(e@.manual->Some_0.occurrence_id == tool::opt(e.manual->Some_0.occurrence_id));
    }
}

} // verus!
