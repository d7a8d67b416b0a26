use zeroclaw_runtime::clock::Moment;
use zeroclaw_runtime::cron::agent_run::{
    agent_gate, agent_run_given, await_cron_agent_run, budget_gate, check_cron_agent_completion,
    completion_check,
    cron_agent_run_policy, cron_agent_session_path, cron_agent_timeout, finish_cron_agent_run,
    prepare_agent_run, Block, CheckEnd, CompletionCheck, SecurityPolicy,
};
use zeroclaw_runtime::cron::delivery::{
    deliver_and_classify_run_result, deliver_announcement, deliver_if_configured,
    notification_evidence, occurrence_delivery_state, plan_delivery, DeliveryError, DeliveryPlan,
    SendEnd,
};
use zeroclaw_runtime::cron::dispatch::{
    claimed_of, completion_action, concurrency, dispatch, execute_job_now, fallback_action,
    high_frequency_warning, is_high_frequency_agent_job, risk_profile_failure, Dispatch,
    RunCompletionAction,
};
use zeroclaw_runtime::cron::event::{scheduled_event, CRON_RESULT};
use zeroclaw_runtime::cron::job::{
    CronJob, CronMissedRunPolicy, CronShellOutputFormat, DeliveryConfig, JobType, Schedule,
    SessionTarget,
};
use zeroclaw_runtime::cron::retry::{after_attempt, begin_attempts, is_read_only, RetryStep};
use zeroclaw_runtime::cron::scheduled_run::{ScheduledEvent, ScheduledRun};
use zeroclaw_runtime::cron::scheduler::{
    announce_delivery_decision, is_no_reply_sentinel, on_event, CronDeliveryContext, LoopEvent,
    LoopStep,
};
use zeroclaw_runtime::cron::shell::{run_job_command, shell_gate, ShellEnd};
use zeroclaw_runtime::cron::startup::{
    missed_run_policy, poll_seconds, startup_step, with_backup_job, CronJobDecl, SchedulerConfig,
    StartupError, StartupStep, BACKUP_JOB,
};
use zeroclaw_runtime::effect::{DeliveryFailure, DeliverySummary, EffectOutcome};

const TEST_AGENT: &str = "test-agent";

fn plain_delivery() -> DeliveryConfig {
    DeliveryConfig {
        mode: "none".into(),
        channel: None,
        to: None,
        thread_id: None,
        reply_to: None,
        best_effort: true,
    }
}

fn test_job(command: &str) -> CronJob {
    CronJob {
        id: "test-job".into(),
        expression: "* * * * *".into(),
        schedule: Schedule::Cron { expr: "* * * * *".into(), tz: None },
        command: command.into(),
        prompt: None,
        name: None,
        job_type: JobType::Shell,
        session_target: SessionTarget::Isolated,
        model: None,
        agent_alias: TEST_AGENT.into(),
        enabled: true,
        delivery: plain_delivery(),
        delete_after_run: false,
        allowed_tools: None,
        uses_memory: true,
        source: "imperative".into(),
        shell_output_format: CronShellOutputFormat::Wrapped,
        missed_run_policy: None,
        created_at: Moment { secs: 1_750_000_000, nanos: 0 },
        next_run: Moment { secs: 1_750_000_060, nanos: 0 },
        last_run: None,
        last_status: None,
        last_output: None,
    }
}

fn agent_job_with_schedule(schedule: Schedule) -> CronJob {
    CronJob { job_type: JobType::Agent, schedule, ..test_job("echo test") }
}

fn announce_job() -> CronJob {
    let mut job = test_job("echo ok");
    job.delivery = DeliveryConfig {
        mode: "announce".to_string(),
        channel: Some("count-delivery".to_string()),
        to: Some("chat-id".to_string()),
        thread_id: None,
        reply_to: None,
        best_effort: true,
    };
    job
}

fn decl() -> CronJobDecl {
    CronJobDecl {
        name: None,
        job_type: "agent".into(),
        schedule: Schedule::Every { every_ms: 60_000 },
        command: None,
        prompt: Some("Synthetic scheduled task".into()),
        enabled: true,
        model: None,
        allowed_tools: None,
        uses_memory: true,
        timeout_secs: None,
        missed_run_policy: None,
        completion_check: None,
        session_target: None,
        delivery: None,
        shell_output_format: CronShellOutputFormat::Wrapped,
    }
}

fn empty_config() -> SchedulerConfig {
    SchedulerConfig { agents: vec![TEST_AGENT.into()], cron: Vec::new(), catch_up_on_startup: true }
}

fn taken() -> SendEnd {
    SendEnd::Taken { summary: None }
}

fn synthetic_failure() -> SendEnd {
    SendEnd::Failed {
        error: DeliveryError { message: "synthetic delivery failure".into(), failure: None },
    }
}

#[test]
fn is_no_reply_sentinel_matches_bare_form_case_insensitively() {
    assert!(is_no_reply_sentinel("NO_REPLY"));
    assert!(is_no_reply_sentinel("no_reply"));
    assert!(is_no_reply_sentinel("No_Reply"));
    // Trim tolerance.
    assert!(is_no_reply_sentinel("  NO_REPLY  "));
    assert!(is_no_reply_sentinel("\nNO_REPLY\n"));
}

#[test]
fn is_no_reply_sentinel_matches_quiet_info_and_legacy_prefixes() {
    assert!(is_no_reply_sentinel("NO_REPLY: nothing to report"));
    assert!(is_no_reply_sentinel("  NO_REPLY: trimmed  "));
    // Explicit informational kind.
    assert!(is_no_reply_sentinel("NO_REPLY[INFO]: all healthy"));
    assert!(is_no_reply_sentinel("no_reply[info]: all healthy"));
    // Bracket whitespace tolerance.
    assert!(is_no_reply_sentinel("NO_REPLY[ info ]: spaced"));
}

#[test]
fn is_no_reply_sentinel_does_not_suppress_failure_or_refusal_kinds() {
    assert!(!is_no_reply_sentinel("NO_REPLY[FAIL]: database check timed out"));
    assert!(!is_no_reply_sentinel("no_reply[fail]: timed out"));
    assert!(!is_no_reply_sentinel("NO_REPLY[REFUSE]: policy prevented the check"));
    assert!(!is_no_reply_sentinel("no_reply[refuse]: blocked"));
    // Unknown/future kinds are conservatively delivered, not suppressed.
    assert!(!is_no_reply_sentinel("NO_REPLY[WARN]: disk at 90%"));
    // Malformed kinded form with no closing bracket is delivered.
    assert!(!is_no_reply_sentinel("NO_REPLY[INFO without close"));
}

#[test]
fn is_no_reply_sentinel_rejects_real_content() {
    assert!(!is_no_reply_sentinel(""));
    assert!(!is_no_reply_sentinel("   "));
    assert!(!is_no_reply_sentinel("All systems nominal"));
    // Sentinel-looking but not a sentinel: word embedded in real prose.
    assert!(!is_no_reply_sentinel("The job returned NO_REPLY which means nothing happened"));
    assert!(!is_no_reply_sentinel("NO_REPLYING is the status"));
}

#[test]
fn heartbeat_announce_decision_matches_worker_behavior() {
    // NO_REPLY heartbeat: suppressed.
    assert!(!announce_delivery_decision("NO_REPLY").should_deliver());
    assert!(!announce_delivery_decision("NO_REPLY[INFO]: all good").should_deliver());
    // Non-sentinel heartbeat output: delivered.
    assert!(announce_delivery_decision("disk usage 42%").should_deliver());
    // Empty-output fallback string the worker builds: must deliver.
    assert!(
        announce_delivery_decision("💓 heartbeat task completed: db health").should_deliver(),
        "the empty-output heartbeat fallback must never be mistaken for a sentinel"
    );
    // Failure/refusal kinds: delivered (operator-visible).
    assert!(announce_delivery_decision("NO_REPLY[FAIL]: db timed out").should_deliver());
    assert!(announce_delivery_decision("NO_REPLY[REFUSE]: blocked by policy").should_deliver());
}

#[test]
fn white_space_of_other_scripts_is_trimmed() {
    assert!(is_no_reply_sentinel("\u{2003}NO_REPLY\u{3000}"));
    assert!(!is_no_reply_sentinel("\u{200b}NO_REPLY"));
}

#[test]
fn failure_messages_tell_who_asked() {
    assert_eq!(
        CronDeliveryContext::Scheduled.failure_message(true),
        "Cron delivery failed (best_effort)"
    );
    assert_eq!(CronDeliveryContext::ToolManual.failure_message(false), "cron_run delivery failed");
    assert_eq!(
        CronDeliveryContext::GatewayManual.failure_message(true),
        "manual cron trigger delivery failed (best_effort)"
    );
    assert_eq!(
        CronDeliveryContext::RpcManual.failure_message(false),
        "RPC cron trigger delivery failed"
    );
}

#[test]
fn cron_agent_session_path_main_is_stable() {
    assert_eq!(cron_agent_session_path(&SessionTarget::Main, "ignored"), "main");
    assert_eq!(cron_agent_session_path(&SessionTarget::Isolated, "abc"), "cron-abc");
}

fn base_policy(workspace: &str, excluded: Option<Vec<String>>) -> SecurityPolicy {
    SecurityPolicy { workspace_dir: workspace.into(), excluded_tools: excluded }
}

fn allows(policy: &SecurityPolicy, tool: &str) -> bool {
    match &policy.excluded_tools {
        Some(list) => !list.iter().any(|t| t == tool),
        None => true,
    }
}

#[test]
fn cron_agent_run_policy_uses_scheduler_workspace() {
    let workspace = "/tmp/zeroclaw-cron-agent-workspace";
    let mut job = test_job("");
    job.job_type = JobType::Agent;
    let policy = cron_agent_run_policy(&base_policy(workspace, None), &job);
    assert_eq!(policy.workspace_dir, workspace);
}

#[test]
fn cron_agent_run_policy_excludes_scheduler_mutation_tools_by_default() {
    let mut job = test_job("");
    job.job_type = JobType::Agent;
    job.allowed_tools = None;
    let policy = cron_agent_run_policy(&base_policy("", None), &job);
    for tool in ["cron_add", "cron_update", "cron_remove", "cron_run", "schedule"] {
        assert!(!allows(&policy, tool), "{tool} must be excluded from default cron agent runs");
    }
    assert!(
        allows(&policy, "http_request"),
        "non-scheduler tools remain available when the base policy is unrestricted"
    );
}

#[test]
fn cron_agent_run_policy_respects_explicit_allowed_tools() {
    let mut job = test_job("");
    job.job_type = JobType::Agent;
    job.allowed_tools = Some(vec!["cron_add".into()]);
    let policy = cron_agent_run_policy(&base_policy("", None), &job);
    assert!(allows(&policy, "cron_add"));
}

#[test]
fn excluded_tools_of_the_agent_stay_in_front() {
    let mut job = test_job("");
    job.job_type = JobType::Agent;
    let base = base_policy("", Some(vec!["cron_run".into(), "shell".into()]));
    let policy = cron_agent_run_policy(&base, &job);
    assert_eq!(
        policy.excluded_tools.unwrap(),
        ["cron_run", "shell", "cron_add", "cron_update", "cron_remove", "schedule"]
    );
    let unchanged = cron_agent_run_policy(&base, &test_job(""));
    assert_eq!(unchanged.excluded_tools.unwrap(), ["cron_run", "shell"]);
}

fn minutes(n: i64) -> impl Fn(&Schedule, Moment) -> Option<Moment> {
    move |_, m| Some(Moment { secs: (m.secs / (n * 60) + 1) * n * 60, nanos: 0 })
}

const NOW: Moment = Moment { secs: 1_750_000_123, nanos: 456 };

#[test]
fn high_frequency_daily_cron_is_not_flagged() {
    let job = agent_job_with_schedule(Schedule::Cron {
        expr: "0 6 * * *".into(),
        tz: Some("America/Chicago".into()),
    });
    assert!(!is_high_frequency_agent_job(&job, NOW, minutes(24 * 60)));
}

#[test]
fn high_frequency_every_4min_cron_is_flagged() {
    let job =
        agent_job_with_schedule(Schedule::Cron { expr: "*/4 * * * *".into(), tz: None });
    assert!(is_high_frequency_agent_job(&job, NOW, minutes(4)));
    assert_eq!(
        high_frequency_warning(&job),
        "Cron agent job 'test-job' is scheduled more frequently than every 5 minutes"
    );
}

#[test]
fn high_frequency_every_5min_cron_is_not_flagged() {
    let job =
        agent_job_with_schedule(Schedule::Cron { expr: "*/5 * * * *".into(), tz: None });
    assert!(!is_high_frequency_agent_job(&job, NOW, minutes(5)));
    assert!(!is_high_frequency_agent_job(&job, NOW, |_: &Schedule, _: Moment| None));
}

#[test]
fn high_frequency_every_interval_below_threshold_is_flagged() {
    let job = agent_job_with_schedule(Schedule::Every { every_ms: 4 * 60 * 1000 });
    assert!(is_high_frequency_agent_job(&job, NOW, minutes(60)));
}

#[test]
fn high_frequency_every_interval_at_threshold_is_not_flagged() {
    let job = agent_job_with_schedule(Schedule::Every { every_ms: 5 * 60 * 1000 });
    assert!(!is_high_frequency_agent_job(&job, NOW, minutes(1)));
}

#[test]
fn high_frequency_shell_job_is_never_flagged() {
    let job = CronJob {
        job_type: JobType::Shell,
        schedule: Schedule::Every { every_ms: 60 * 1000 },
        ..test_job("echo test")
    };
    assert!(!is_high_frequency_agent_job(&job, NOW, minutes(1)));
}

fn declared_agent() -> CronJob {
    let mut job = agent_job_with_schedule(Schedule::Every { every_ms: 60_000 });
    job.source = "declarative".into();
    job
}

fn timeout_of(d: &CronJobDecl) -> Result<Option<u64>, String> {
    match d.timeout_secs {
        Some(0) => Err("timeout_secs must be positive".to_string()),
        other => Ok(other),
    }
}

#[test]
fn cron_agent_deadline_uses_current_config_not_job_snapshot() {
    let job = declared_agent();
    let mut cron = vec![("test-job".to_string(), decl())];
    for secs in [300, 900, 600] {
        cron[0].1.timeout_secs = Some(secs);
        assert_eq!(cron_agent_timeout(&cron, &job, timeout_of), Ok(Some(secs)));
    }
    cron[0].1.timeout_secs = Some(0);
    assert!(cron_agent_timeout(&cron, &job, timeout_of).is_err());
}

#[test]
fn cron_agent_deadline_none_and_imperative_collision_remain_unbounded() {
    let mut job = declared_agent();
    let mut cron = vec![("test-job".to_string(), decl())];
    assert_eq!(cron_agent_timeout(&cron, &job, timeout_of), Ok(None));
    cron[0].1.timeout_secs = Some(1);
    job.source = "imperative".into();
    assert_eq!(cron_agent_timeout(&cron, &job, timeout_of), Ok(None));
    job.source = "declarative".into();
    job.job_type = JobType::Shell;
    assert_eq!(cron_agent_timeout(&cron, &job, timeout_of), Ok(None));
}

#[test]
fn completion_check_overrides_false_success_and_preserves_agent_failure() {
    let failed = || CheckEnd::Failed { text: "completion check failed: status=1".to_string() };
    assert_eq!(
        check_cron_agent_completion(Ok("NO_REPLY".into()), failed()),
        Err("completion check failed: status=1".to_string())
    );
    assert_eq!(
        check_cron_agent_completion(Err("provider failed".into()), failed()),
        Err("provider failed\ncompletion check failed: status=1".to_string())
    );
    assert_eq!(
        check_cron_agent_completion(Ok("NO_REPLY".into()), CheckEnd::Passed),
        Ok("NO_REPLY".to_string())
    );
    assert_eq!(
        check_cron_agent_completion(Err("provider failed".into()), CheckEnd::Passed),
        Err("provider failed".to_string())
    );
}

#[test]
fn completion_check_honors_current_policy_and_ignores_imperative_collision() {
    let validated = |d: &CronJobDecl| match d.completion_check.as_deref() {
        Some("") => Err("completion_check is empty".to_string()),
        Some(c) => Ok(Some(c.to_string())),
        None => Ok(None),
    };
    let mut job = declared_agent();
    let mut cron = vec![("test-job".to_string(), decl())];
    assert!(matches!(completion_check(&cron, &job, validated), CompletionCheck::Unchecked));
    cron[0].1.completion_check = Some("true".into());
    assert!(
        matches!(completion_check(&cron, &job, validated), CompletionCheck::Command(c) if c == "true")
    );
    cron[0].1.completion_check = Some("".into());
    assert!(matches!(completion_check(&cron, &job, validated), CompletionCheck::Invalid(_)));
    job.source = "imperative".into();
    assert!(matches!(completion_check(&cron, &job, validated), CompletionCheck::Unchecked));
}

#[test]
fn cron_agent_deadline_success_keeps_existing_completion_result() {
    let (success, output, purge) = finish_cron_agent_run(
        Ok("synthetic completed result".into()),
        SessionTarget::Isolated,
        "cron-fixture",
    );
    assert!(success);
    assert_eq!(output, "synthetic completed result");
    assert_eq!(purge, None);
}

#[test]
fn failed_agent_runs_clear_their_own_session_only() {
    let (success, output, purge) =
        finish_cron_agent_run(Err("boom".into()), SessionTarget::Isolated, "cron-fixture");
    assert!(!success);
    assert_eq!(output, "agent job failed: boom");
    assert_eq!(purge.as_deref(), Some("cli:cron-fixture"));
    let (_, _, purge) = finish_cron_agent_run(Err("boom".into()), SessionTarget::Main, "main");
    assert_eq!(purge, None);
    let (success, output, _) =
        finish_cron_agent_run(Ok(" \n".into()), SessionTarget::Main, "main");
    assert!(success);
    assert_eq!(output, "agent job executed");
}

#[test]
fn agent_runs_name_their_job_and_mind_its_memory_setting() {
    let mut job = declared_agent();
    job.prompt = Some("do it".into());
    job.allowed_tools = Some(vec!["web_fetch".into()]);
    let run = agent_run_given(&job, "run-1".into());
    assert_eq!(run.prompt, "[cron:test-job cron-job] do it");
    assert_eq!(run.session_path, "cron-run-1");
    assert_eq!(run.allowed_tools, Some(vec!["web_fetch".to_string()]));
    assert!(!run.auto_save && !run.memory_free && !run.suppress_memory_inject);
    job.name = Some("nightly".into());
    job.uses_memory = false;
    let first = prepare_agent_run(&job);
    let second = prepare_agent_run(&job);
    assert_eq!(first.prompt, "[cron:test-job nightly] do it");
    assert!(first.memory_free && first.suppress_memory_inject);
    assert_eq!(first.run_id.len(), 36);
    assert_ne!(first.run_id, second.run_id);
    assert_eq!(first.session_path, format!("cron-{}", first.run_id));
}

#[test]
fn run_agent_job_blocks_readonly_mode() {
    let block = agent_gate(false, false).unwrap();
    assert_eq!(block.message(), "blocked by security policy: autonomy is read-only");
}

#[test]
fn run_agent_job_blocks_rate_limited() {
    let block = agent_gate(true, true).unwrap();
    assert_eq!(block.message(), "blocked by security policy: rate limit exceeded");
}

#[test]
fn agent_jobs_over_budget_are_blocked() {
    assert_eq!(agent_gate(true, false), None);
    assert_eq!(agent_gate(false, true), Some(Block::ReadOnly));
    assert_eq!(budget_gate(true), None);
    assert_eq!(budget_gate(false), Some(Block::OverBudget));
    assert_eq!(
        Block::OverBudget.message(),
        "blocked by security policy: action budget exhausted"
    );
}

fn exited(success: bool, status: &str, stdout: &str, stderr: &str) -> ShellEnd {
    ShellEnd::Exited {
        success,
        status: status.into(),
        stdout: stdout.as_bytes().to_vec(),
        stderr: stderr.as_bytes().to_vec(),
    }
}

#[test]
fn run_job_command_success() {
    let (success, output) = run_job_command(
        CronShellOutputFormat::Wrapped,
        exited(true, "exit status: 0", "scheduler-ok\n", ""),
    );
    assert!(success);
    assert_eq!(output, "status=exit status: 0\nstdout:\nscheduler-ok\nstderr:\n");
}

#[test]
fn run_job_command_raw_output_success() {
    let (success, output) = run_job_command(
        CronShellOutputFormat::Raw,
        exited(true, "exit status: 0", "raw-format-ok\n", ""),
    );
    assert!(success);
    assert_eq!(output, "raw-format-ok");
}

#[test]
fn run_job_command_raw_output_success_drops_stderr() {
    let (success, output) = run_job_command(
        CronShellOutputFormat::Raw,
        exited(true, "exit status: 0", "raw-stdout-ok\n", "raw-stderr-noise\n"),
    );
    assert!(success);
    assert_eq!(output, "raw-stdout-ok");
}

#[test]
fn run_job_command_raw_output_failure_still_uses_wrapped() {
    let (success, output) = run_job_command(
        CronShellOutputFormat::Raw,
        exited(false, "exit status: 2", "", "ls: definitely_missing_file_raw_test\n"),
    );
    assert!(!success);
    assert!(output.contains("status=exit status:"));
    assert!(output.contains("definitely_missing_file_raw_test"));
}

#[test]
fn run_job_command_failure() {
    let (success, output) = run_job_command(
        CronShellOutputFormat::Wrapped,
        exited(false, "exit status: 2", "", "definitely_missing_file_for_scheduler_test"),
    );
    assert!(!success);
    assert!(output.contains("definitely_missing_file_for_scheduler_test"));
    assert!(output.contains("status=exit status:"));
}

#[test]
fn run_job_command_times_out() {
    let (success, output) = run_job_command(
        CronShellOutputFormat::Wrapped,
        ShellEnd::TimedOut { seconds: "0.05".into() },
    );
    assert!(!success);
    assert_eq!(output, "job timed out after 0.05s");
}

#[test]
fn commands_that_do_not_start_say_why() {
    assert_eq!(
        run_job_command(
            CronShellOutputFormat::Raw,
            ShellEnd::SetupFailed { error: "no runtime".into() }
        ),
        (false, "shell setup error: no runtime".to_string())
    );
    assert_eq!(
        run_job_command(
            CronShellOutputFormat::Raw,
            ShellEnd::SpawnFailed { error: "denied".into() }
        ),
        (false, "spawn error: denied".to_string())
    );
}

#[test]
fn output_that_is_not_text_is_shown_with_replacements() {
    let (_, output) = run_job_command(
        CronShellOutputFormat::Raw,
        ShellEnd::Exited {
            success: true,
            status: "exit status: 0".into(),
            stdout: vec![b'a', 0xff, b'b'],
            stderr: Vec::new(),
        },
    );
    assert_eq!(output, "a\u{fffd}b");
}

#[test]
fn run_job_command_blocks_readonly_mode() {
    let text = shell_gate(false, false, None, None).unwrap();
    assert!(text.contains("blocked by security policy"));
    assert!(text.contains("read-only"));
}

#[test]
fn run_job_command_blocks_rate_limited() {
    let text = shell_gate(true, true, None, None).unwrap();
    assert!(text.contains("blocked by security policy"));
    assert!(text.contains("rate limit exceeded"));
}

#[test]
fn run_job_command_blocks_forbidden_path_argument() {
    let text = shell_gate(true, false, None, Some("/etc/passwd".into())).unwrap();
    assert!(text.contains("blocked by security policy"));
    assert!(text.contains("forbidden path argument"));
    assert!(text.contains("/etc/passwd"));
}

#[test]
fn run_job_command_blocks_disallowed_command() {
    let invalid = "blocked by security policy: command not allowed".to_string();
    assert_eq!(
        shell_gate(true, false, Some(invalid.clone()), Some("/etc/passwd".into())),
        Some(invalid)
    );
    assert_eq!(shell_gate(true, false, None, None), None);
    assert_eq!(
        shell_gate(false, true, Some("no".into()), Some("/etc/passwd".into())).as_deref(),
        Some("blocked by security policy: autonomy is read-only")
    );
}

fn stateless(tool: &str) -> bool {
    tool == "web_fetch" || tool == "file_read"
}

#[test]
fn execute_job_with_retry_does_not_replay_possibly_applied_shell() {
    let job = test_job("sh ./retry-once.sh");
    assert!(!is_read_only(&job, stateless));
    let state = begin_attempts(is_read_only(&job, stateless), 1, 1);
    assert_eq!(
        after_attempt(state, false, "status=exit status: 1", 0),
        RetryStep::Done { success: false }
    );
}

#[test]
fn execute_job_with_retry_exhausts_attempts() {
    let mut job = declared_agent();
    job.allowed_tools = Some(vec!["web_fetch".into(), "file_read".into()]);
    assert!(is_read_only(&job, stateless));
    let first = begin_attempts(true, 1, 1);
    match after_attempt(first, false, "always_missing_for_retry_test", 777) {
        RetryStep::Again { sleep_ms, next } => {
            assert_eq!(sleep_ms, 200 + 777 % 250);
            assert_eq!(next.backoff_ms, 400);
            assert_eq!(
                after_attempt(next, false, "always_missing_for_retry_test", 0),
                RetryStep::Done { success: false }
            );
            assert_eq!(after_attempt(next, true, "ok", 0), RetryStep::Done { success: true });
        }
        RetryStep::Done { .. } => panic!("the first failure leaves an attempt"),
    }
}

#[test]
fn retries_need_a_closed_list_of_reading_tools() {
    let mut job = declared_agent();
    assert!(!is_read_only(&job, stateless));
    job.allowed_tools = Some(vec!["web_fetch".into(), "shell".into()]);
    assert!(!is_read_only(&job, stateless));
    job.allowed_tools = Some(Vec::new());
    assert!(is_read_only(&job, stateless));
}

#[test]
fn blocked_jobs_are_not_tried_again_and_waits_are_bounded() {
    let state = begin_attempts(true, 9, 20_000);
    assert_eq!(
        after_attempt(state, false, Block::RateLimited.message(), 0),
        RetryStep::Done { success: false }
    );
    match after_attempt(state, false, "transient", 249) {
        RetryStep::Again { sleep_ms, next } => {
            assert_eq!(sleep_ms, 20_249);
            assert_eq!(next.backoff_ms, 30_000);
            assert_eq!(next.attempt, 1);
        }
        RetryStep::Done { .. } => panic!("a transient failure is tried again"),
    }
}

fn at(secs: i64) -> Schedule {
    Schedule::At { at: Moment { secs, nanos: 0 } }
}

#[test]
fn persist_job_result_records_run_and_reschedules_shell_job() {
    let outcome = deliver_and_classify_run_result(&plain_delivery(), true, "ok".into(), taken());
    assert!(outcome.success);
    assert_eq!(outcome.status, "ok");
    assert_eq!(completion_action(&test_job("echo ok"), true), RunCompletionAction::Reschedule);
}

#[test]
fn persist_job_result_success_deletes_one_shot() {
    let mut job = agent_job_with_schedule(at(1_750_000_600));
    job.delete_after_run = true;
    assert_eq!(completion_action(&job, true), RunCompletionAction::Delete);
}

#[test]
fn persist_job_result_failure_disables_one_shot() {
    let mut job = agent_job_with_schedule(at(1_750_000_600));
    job.delete_after_run = true;
    let outcome =
        deliver_and_classify_run_result(&plain_delivery(), false, "boom".into(), taken());
    assert!(!outcome.success);
    assert_eq!(outcome.status, "error");
    assert_eq!(completion_action(&job, outcome.success), RunCompletionAction::Disable);
}

#[test]
fn persist_job_result_at_schedule_without_delete_after_run_is_disabled() {
    let job = agent_job_with_schedule(at(1_750_000_600));
    assert_eq!(completion_action(&job, true), RunCompletionAction::Disable);
}

#[test]
fn persist_job_result_falls_back_to_disable_when_auto_delete_history_insert_fails() {
    assert_eq!(fallback_action(RunCompletionAction::Delete), RunCompletionAction::Disable);
    assert_eq!(fallback_action(RunCompletionAction::Reschedule), RunCompletionAction::Reschedule);
    assert_eq!(fallback_action(RunCompletionAction::Disable), RunCompletionAction::Disable);
}

#[test]
fn persist_job_result_unacknowledged_delivery_preserves_execution_status() {
    let mut job = announce_job();
    job.delivery.best_effort = false;
    let outcome = deliver_and_classify_run_result(&job.delivery, true, "ok".into(), taken());
    assert!(outcome.success);
    assert_eq!(outcome.status, "ok");
    assert_eq!(outcome.delivery_outcome, Some(EffectOutcome::PossiblyApplied));
}

#[test]
fn persist_job_result_delivery_failure_best_effort_marks_degraded() {
    let outcome = deliver_and_classify_run_result(
        &announce_job().delivery,
        true,
        "ok".into(),
        synthetic_failure(),
    );
    assert!(outcome.success);
    assert_eq!(outcome.status, "degraded");
    assert_eq!(outcome.output, "ok\n\ndelivery failed: synthetic delivery failure");
}

#[test]
fn delivery_failure_classification_preserves_empty_output_evidence() {
    let outcome = deliver_and_classify_run_result(
        &announce_job().delivery,
        true,
        String::new(),
        synthetic_failure(),
    );
    assert!(outcome.success);
    assert_eq!(outcome.status, "degraded");
    assert_eq!(outcome.output, "delivery failed: synthetic delivery failure");
}

#[test]
fn required_delivery_fails_the_run() {
    let mut job = announce_job();
    job.delivery.best_effort = false;
    let outcome =
        deliver_and_classify_run_result(&job.delivery, true, "ok".into(), synthetic_failure());
    assert!(!outcome.success);
    assert_eq!(outcome.status, "error");
    assert_eq!(outcome.delivery_outcome, Some(EffectOutcome::PossiblyApplied));
}

#[test]
fn deliver_if_configured_handles_none_mode() {
    let r = deliver_if_configured(&test_job("echo ok").delivery, "x", synthetic_failure());
    assert!(matches!(r, Ok(None)));
}

#[test]
fn deliver_if_configured_suppresses_no_reply_but_delivers_real_and_failure() {
    let job = announce_job();
    for quiet in ["NO_REPLY", "NO_REPLY: nothing to report", "NO_REPLY[INFO]: healthy"] {
        assert!(matches!(plan_delivery(&job.delivery, quiet), DeliveryPlan::Nothing), "{quiet}");
    }
    for visible in [
        "All systems nominal",
        "NO_REPLY[FAIL]: database check timed out",
        "NO_REPLY[REFUSE]: policy prevented the check",
    ] {
        match plan_delivery(&job.delivery, visible) {
            DeliveryPlan::Send(a) => {
                assert_eq!(a.channel, "count-delivery");
                assert_eq!(a.target, "chat-id");
                assert!(a.thread_id.is_none());
                assert!(a.route.is_none());
            }
            _ => panic!("{visible} must be delivered"),
        }
    }
}

#[test]
fn announcements_without_a_place_are_refused() {
    let mut job = announce_job();
    job.delivery.to = None;
    match plan_delivery(&job.delivery, "done") {
        DeliveryPlan::Refused(e) => {
            assert_eq!(e.message, "delivery.to is required for announce mode");
            assert_eq!(e.failure.unwrap().outcome, EffectOutcome::NotStarted);
        }
        _ => panic!("refused"),
    }
    job.delivery.channel = None;
    let r = deliver_if_configured(&job.delivery, "done", taken());
    assert!(matches!(r, Err(e) if e.message == "delivery.channel is required for announce mode"));
}

#[test]
fn answers_carry_their_conversation() {
    let mut job = announce_job();
    job.delivery.mode = "Announce".into();
    job.delivery.thread_id = Some("thread".into());
    job.delivery.reply_to = Some("message".into());
    match plan_delivery(&job.delivery, "done") {
        DeliveryPlan::Send(a) => {
            let route = a.route.unwrap();
            assert_eq!(route.channel, "count-delivery");
            assert_eq!(route.recipient, "chat-id");
            assert_eq!(route.sender, "");
            assert_eq!(route.thread.as_deref(), Some("thread"));
            assert_eq!(route.reply_to, "message");
        }
        _ => panic!("sent"),
    }
}

fn failure(outcome: EffectOutcome, confirmed: usize) -> SendEnd {
    SendEnd::Failed {
        error: DeliveryError {
            message: "partial".into(),
            failure: Some(DeliveryFailure {
                outcome,
                chunk_index: 1,
                total_chunks: 2,
                confirmed_chunks: confirmed,
            }),
        },
    }
}

#[test]
fn notification_evidence_is_independent_of_execution_and_best_effort() {
    let job = announce_job();
    let failed_job = deliver_and_classify_run_result(
        &job.delivery,
        false,
        "execution failed".into(),
        SendEnd::Taken {
            summary: Some(DeliverySummary {
                outcome: EffectOutcome::Confirmed,
                confirmed_chunks: 1,
                total_chunks: 1,
            }),
        },
    );
    let successful_job = deliver_and_classify_run_result(
        &job.delivery,
        true,
        "execution done".into(),
        failure(EffectOutcome::ReconciliationRequired, 1),
    );
    assert!(!failed_job.success);
    assert_eq!(failed_job.delivery_outcome, Some(EffectOutcome::Confirmed));
    assert!(successful_job.success);
    assert_eq!(successful_job.status, "degraded");
    assert_eq!(successful_job.delivery_outcome, Some(EffectOutcome::ReconciliationRequired));
    assert_eq!(occurrence_delivery_state(failed_job.delivery_outcome), "confirmed");
    assert_eq!(
        occurrence_delivery_state(successful_job.delivery_outcome),
        "reconciliation_required"
    );
    let partial = deliver_and_classify_run_result(
        &job.delivery,
        true,
        "done".into(),
        failure(EffectOutcome::ConfirmedFailed, 1),
    );
    assert_eq!(partial.delivery_outcome, Some(EffectOutcome::PartiallyApplied));
    let nothing = deliver_and_classify_run_result(
        &job.delivery,
        true,
        "done".into(),
        failure(EffectOutcome::ConfirmedFailed, 0),
    );
    assert_eq!(nothing.delivery_outcome, Some(EffectOutcome::ConfirmedFailed));
}

#[test]
fn notification_without_ack_is_uncertain_and_suppression_is_not_delivery() {
    let job = announce_job();
    let unacknowledged =
        deliver_and_classify_run_result(&job.delivery, true, "done".into(), taken());
    assert_eq!(unacknowledged.delivery_outcome, Some(EffectOutcome::PossiblyApplied));
    let nobody = || SendEnd::NoHandler { shown: "nothing was attempted".into() };
    let suppressed =
        deliver_and_classify_run_result(&job.delivery, true, "NO_REPLY".into(), nobody());
    assert_eq!(suppressed.delivery_outcome, None);
    assert!(suppressed.success);
    let missing = deliver_and_classify_run_result(&job.delivery, true, "done".into(), nobody());
    assert_eq!(missing.delivery_outcome, Some(EffectOutcome::NotStarted));
    assert_eq!(missing.status, "degraded");
}

#[test]
fn empty_or_inconsistent_summary_cannot_confirm_notification() {
    for (confirmed_chunks, total_chunks) in [(0, 0), (0, 1), (2, 1)] {
        assert_eq!(
            notification_evidence(Some(DeliverySummary {
                outcome: EffectOutcome::Confirmed,
                confirmed_chunks,
                total_chunks,
            })),
            EffectOutcome::PossiblyApplied
        );
    }
    assert_eq!(
        notification_evidence(Some(DeliverySummary {
            outcome: EffectOutcome::Confirmed,
            confirmed_chunks: 1,
            total_chunks: 2,
        })),
        EffectOutcome::PartiallyApplied
    );
}

#[test]
fn deliver_announcement_without_handler_is_typed_not_started() {
    let r = deliver_announcement(SendEnd::NoHandler { shown: "nothing was attempted".into() });
    assert!(
        matches!(r, Err(e) if e.failure.unwrap().outcome == EffectOutcome::NotStarted && e.message == "nothing was attempted")
    );
}

#[test]
fn startup_policy_uses_live_declarative_owner_and_global_default() {
    let mut config = empty_config();
    let mut job = test_job("echo synthetic");
    for catch_up in [false, true] {
        config.catch_up_on_startup = catch_up;
        let expected = if catch_up {
            CronMissedRunPolicy::CatchUpOnce
        } else {
            CronMissedRunPolicy::Skip
        };
        job.source = "declarative".into();
        config.cron = vec![(job.id.clone(), decl())];
        assert_eq!(missed_run_policy(&config, &job), expected);
        for policy in [
            CronMissedRunPolicy::CatchUpOnce,
            CronMissedRunPolicy::Skip,
            CronMissedRunPolicy::Reconcile,
        ] {
            config.cron[0].1.missed_run_policy = Some(policy);
            assert_eq!(missed_run_policy(&config, &job), policy);
        }
        job.source = "imperative".into();
        assert_eq!(
            missed_run_policy(&config, &job),
            expected,
            "an alias collision cannot borrow config"
        );
    }
}

fn named(id: &str, policy: CronMissedRunPolicy) -> CronJob {
    CronJob {
        id: id.into(),
        missed_run_policy: Some(policy),
        ..test_job("echo synthetic-never-executed")
    }
}

fn start(
    config: &SchedulerConfig,
    overdue: &Vec<CronJob>,
    replies: Vec<Result<(), String>>,
) -> (Vec<(String, CronMissedRunPolicy)>, Result<Vec<CronJob>, StartupError>) {
    let mut asked = Vec::new();
    let mut replies = replies.into_iter();
    let mut step = startup_step(config, overdue, 0, None);
    loop {
        match step {
            StartupStep::PutAside { at, policy } => {
                asked.push((overdue[at].id.clone(), policy));
                step = startup_step(config, overdue, at, replies.next());
            }
            StartupStep::Failed(e) => return (asked, Err(e)),
            StartupStep::Ready(ready) => return (asked, Ok(ready)),
        }
    }
}

#[test]
fn imperative_policy_startup_partitions_and_never_resets_review() {
    let config = empty_config();
    let overdue = vec![
        named("catch", CronMissedRunPolicy::CatchUpOnce),
        named("skip", CronMissedRunPolicy::Skip),
        named("review", CronMissedRunPolicy::Reconcile),
    ];
    let (asked, ready) = start(&config, &overdue, vec![Ok(()), Ok(())]);
    let ready = ready.ok().unwrap();
    assert_eq!(ready.iter().map(|j| j.id.as_str()).collect::<Vec<_>>(), vec!["catch"]);
    assert_eq!(
        asked,
        vec![
            ("skip".to_string(), CronMissedRunPolicy::Skip),
            ("review".to_string(), CronMissedRunPolicy::Reconcile)
        ]
    );
}

#[test]
fn startup_policy_storage_failure_does_not_return_work_for_execution() {
    let config = empty_config();
    for (policy, message) in [
        (CronMissedRunPolicy::Skip, "startup skip failed for cron job broken"),
        (CronMissedRunPolicy::Reconcile, "startup quarantine failed for cron job broken"),
    ] {
        let overdue = vec![
            named("catch", CronMissedRunPolicy::CatchUpOnce),
            named("broken", policy),
            named("behind", CronMissedRunPolicy::Skip),
        ];
        let (asked, end) = start(&config, &overdue, vec![Err("an existing receipt".to_string())]);
        let e = end.err().unwrap();
        assert_eq!(e.message, message);
        assert_eq!(e.cause, "an existing receipt");
        assert_eq!(asked, vec![("broken".to_string(), policy)]);
    }
}

#[test]
fn every_missed_run_that_is_not_made_up_for_is_put_aside_once() {
    let config = empty_config();
    let overdue = vec![
        named("a", CronMissedRunPolicy::Skip),
        named("b", CronMissedRunPolicy::CatchUpOnce),
        named("c", CronMissedRunPolicy::CatchUpOnce),
        named("d", CronMissedRunPolicy::Reconcile),
    ];
    let (asked, ready) = start(&config, &overdue, vec![Ok(()), Ok(())]);
    let asked: Vec<&str> = asked.iter().map(|(id, _)| id.as_str()).collect();
    assert_eq!(asked, vec!["a", "d"]);
    let ready = ready.ok().unwrap();
    assert_eq!(ready.iter().map(|j| j.id.as_str()).collect::<Vec<_>>(), vec!["b", "c"]);
    assert_eq!(ready[0].command, overdue[1].command);
    assert_eq!(ready[0].next_run.secs, overdue[1].next_run.secs);
}

#[test]
fn backups_are_declared_once_and_take_their_own_place() {
    assert_eq!(with_backup_job(Vec::new(), None, None).len(), 0);
    let jobs = with_backup_job(
        vec![("other".to_string(), decl())],
        Some("0 3 * * *".to_string()),
        Some("UTC".to_string()),
    );
    assert_eq!(jobs.len(), 2);
    assert_eq!(jobs[1].0, BACKUP_JOB);
    assert_eq!(jobs[1].1.name.as_deref(), Some("Scheduled backup"));
    assert_eq!(jobs[1].1.job_type, "shell");
    assert_eq!(jobs[1].1.command.as_deref(), Some("backup create"));
    let again = with_backup_job(jobs, Some("0 4 * * *".to_string()), None);
    assert_eq!(again.len(), 2);
    assert!(matches!(&again[1].1.schedule, Schedule::Cron { expr, tz: None } if expr == "0 4 * * *"));
    assert_eq!(poll_seconds(1), 5);
    assert_eq!(poll_seconds(60), 60);
}

#[test]
fn claim_due_jobs_skips_in_flight_job() {
    let jobs = || {
        vec![
            named("free", CronMissedRunPolicy::Skip),
            named("busy", CronMissedRunPolicy::Skip),
            named("broken", CronMissedRunPolicy::Skip),
            named("also-free", CronMissedRunPolicy::Skip),
        ]
    };
    let claimed = claimed_of(
        jobs(),
        vec![Ok(true), Ok(false), Err("locked".to_string()), Ok(true)],
    );
    assert_eq!(
        claimed.iter().map(|j| j.id.as_str()).collect::<Vec<_>>(),
        vec!["free", "also-free"]
    );
    assert!(claimed_of(jobs(), vec![Ok(false), Ok(false), Ok(false), Ok(false)]).is_empty());
}

#[test]
fn process_due_jobs_releases_lock_for_skipped_orphan_job() {
    let agents = vec![TEST_AGENT.to_string()];
    let orphan = CronJob { agent_alias: String::new(), ..test_job("echo orphan") };
    assert!(matches!(dispatch(&orphan, &agents, None, true), Dispatch::Release));
    assert!(
        matches!(dispatch(&orphan, &agents, Some("other".into()), true), Dispatch::Run(a) if a == "other")
    );
    assert!(
        matches!(dispatch(&test_job("x"), &agents, Some("other".into()), true), Dispatch::Run(a) if a == TEST_AGENT)
    );
    assert!(matches!(dispatch(&test_job("x"), &agents, None, false), Dispatch::Release));
    assert_eq!(concurrency(0), 1);
    assert_eq!(concurrency(4), 4);
}

#[test]
fn jobs_nobody_answers_for_are_not_run() {
    let agents = vec![TEST_AGENT.to_string()];
    let mut job = test_job("x");
    assert_eq!(execute_job_now(&job, false, &agents, None), Ok(TEST_AGENT.to_string()));
    job.agent_alias = "gone".into();
    assert_eq!(
        execute_job_now(&job, false, &agents, None),
        Err("cron job \"test-job\" has no owning agent; add the alias to an [agents.<x>].cron_jobs list".to_string())
    );
    job.source = "declarative".into();
    job.id = "it's \"odd\"\n".into();
    assert_eq!(
        execute_job_now(&job, false, &agents, Some(TEST_AGENT.into())),
        Err("cron job \"it's \\\"odd\\\"\\n\" is an orphaned declarative entry (source = \"declarative\" but absent from live config); cannot execute".to_string())
    );
    assert_eq!(
        execute_job_now(&job, true, &agents, Some(TEST_AGENT.into())),
        Ok(TEST_AGENT.to_string())
    );
    assert_eq!(risk_profile_failure("a", "missing"), "agent a risk profile: missing");
}

#[test]
fn scheduled_runs_record_each_step_first() {
    let run = ScheduledRun::Starting;
    let record = run.to_record().unwrap();
    assert_eq!((record.execution, record.delivery), ("running", "not_started"));
    let run = run.advance(ScheduledEvent::Recorded).unwrap();
    assert!(run.to_record().is_none());
    let run = run
        .advance(ScheduledEvent::Executed { success: false, output: "boom".into() })
        .unwrap();
    let record = run.to_record().unwrap();
    assert_eq!((record.execution, record.delivery), ("possibly_applied", "submitting"));
    assert!(record.with_output);
    let run = run.advance(ScheduledEvent::Recorded).unwrap();
    let run = run
        .advance(ScheduledEvent::Delivered {
            success: false,
            delivery: Some(EffectOutcome::Confirmed),
        })
        .unwrap();
    let record = run.to_record().unwrap();
    assert_eq!((record.execution, record.delivery), ("possibly_applied", "confirmed"));
    let run = run.advance(ScheduledEvent::Recorded).unwrap();
    let run = run.advance(ScheduledEvent::Released).unwrap();
    assert!(matches!(run, ScheduledRun::Reported { success: false, output } if output == "boom"));
}

#[test]
fn scheduled_runs_without_a_record_end_without_success() {
    let lost = || ScheduledEvent::NotRecorded { error: "disk full".into() };
    let run = ScheduledRun::Starting.advance(lost()).unwrap();
    assert!(
        matches!(run, ScheduledRun::Reported { success: false, output } if output == "occurrence checkpoint failed before execution: disk full")
    );
    let recording = ScheduledRun::Recording { success: true, output: "done".into() };
    assert!(
        matches!(recording.advance(lost()), Some(ScheduledRun::Reported { success: false, output }) if output == "done")
    );
    assert!(ScheduledRun::Running.advance(ScheduledEvent::Recorded).is_none());
}

#[test]
fn the_loop_stops_on_a_failed_startup_and_goes_on_after_a_failed_look() {
    assert!(matches!(on_event(LoopEvent::Recovered { failure: None }), LoopStep::Prepare));
    assert!(
        matches!(on_event(LoopEvent::Recovered { failure: Some("db".into()) }), LoopStep::Fail { message, cause } if message == "scheduler startup recovery failed" && cause == "db")
    );
    assert!(matches!(
        on_event(LoopEvent::Prepared {
            jobs: Err(StartupError { message: "m".into(), cause: "c".into() })
        }),
        LoopStep::Fail { message, .. } if message == "m"
    ));
    assert!(
        matches!(on_event(LoopEvent::Polled { jobs: Err("down".into()) }), LoopStep::ReportError { error } if error == "down")
    );
    assert!(
        matches!(on_event(LoopEvent::Polled { jobs: Ok(vec![test_job("x")]) }), LoopStep::Process { jobs } if jobs.len() == 1)
    );
    assert!(matches!(on_event(LoopEvent::Cancelled), LoopStep::Stop));
}

#[test]
fn broadcast_sends_cron_result_on_success() {
    let (success, output) = run_job_command(
        CronShellOutputFormat::Wrapped,
        exited(true, "exit status: 0", "broadcast-ok\n", ""),
    );
    let event =
        scheduled_event("test-job", success, &output, Moment { secs: 1_700_000_000, nanos: 0 })
            .unwrap();
    assert_eq!(CRON_RESULT, "cron_result");
    assert_eq!(event.job_id, "test-job");
    assert!(event.success);
    assert!(event.output.contains("broadcast-ok"));
    assert_eq!(event.timestamp, "2023-11-14T22:13:20+00:00");
    assert!(event.manual.is_none());
}

#[test]
fn broadcast_sends_cron_result_on_failure() {
    let (success, output) = run_job_command(
        CronShellOutputFormat::Wrapped,
        exited(false, "exit status: 2", "", "No such file"),
    );
    let event =
        scheduled_event("test-job", success, &output, Moment { secs: 0, nanos: 0 }).unwrap();
    assert_eq!(event.job_id, "test-job");
    assert!(!event.success);
    assert!(event.output.contains("No such file"));
    assert!(scheduled_event("j", true, "", Moment { secs: i64::MAX, nanos: 0 }).is_none());
}

#[test]
fn agent_runs_out_of_time_end_with_the_given_text() {
    let late = || "timed out".to_string();
    assert_eq!(await_cron_agent_run(Ok(Some(5)), None, late()), Err("timed out".into()));
    assert_eq!(
        await_cron_agent_run(Ok(Some(5)), Some(Ok("done".into())), late()),
        Ok("done".into())
    );
    assert_eq!(
        await_cron_agent_run(Ok(None), Some(Err("failed".into())), late()),
        Err("failed".into())
    );
    assert_eq!(
        await_cron_agent_run(Err("no such job".into()), Some(Ok("x".into())), late()),
        Err("no such job".into())
    );
}
