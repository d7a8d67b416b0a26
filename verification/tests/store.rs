use rusqlite::Connection;
use sha2::{Digest, Sha256};
use zeroclaw_runtime::clock::Moment;
use zeroclaw_runtime::cron::delivery::CronDeliveryOutcome;
use zeroclaw_runtime::cron::job::{
    CronJob, CronShellOutputFormat, DeliveryConfig, JobType, Schedule, SessionTarget,
};
use zeroclaw_runtime::cron::event::{is_told, manual_event};
use zeroclaw_runtime::cron::manual_steps::{self, ManualEvent, ManualRecord, ManualRun};
use zeroclaw_runtime::cron::manual_run::{
    refusal_key, run_manual_job, run_manual_job_with_request_id, ManualRunEnd,
};
use zeroclaw_runtime::cron::store::ledger::{
    Checkpoint, JobRow, Ledger, OccurrenceRow, RunRow,
};
use zeroclaw_runtime::cron::store::manual::{
    checkpoint_manual_execution, claim_manual_occurrence, claim_manual_run_with_key,
    finish_manual_run, ClaimError, DuplicateManualReceipt, ManualAdmissionError, ManualClaim,
};
use zeroclaw_runtime::cron::store::occurrences::{
    query_sql, OccurrencePage, OccurrenceQuery, OccurrenceReadError, RawOccurrence, Storage,
    OUTPUT_BYTES, PAGE_BYTES,
};
use zeroclaw_runtime::cron::store::page::{page_given, read_occurrences, receipt_text};
use zeroclaw_runtime::cron::store::reconciliation::{
    reconcile_no_external_effect, reconciliation_status, ReconcileError,
    ReconciliationDisposition, ReconciliationReceipt, ReconciliationRequest,
    ReconciliationStatus,
};
use zeroclaw_runtime::effect::EffectOutcome;
use zeroclaw_runtime::text::bounded;

const LIMIT: usize = 16 * 1024;
const NOW: &str = "2026-01-01T00:00:00+00:00";
const LATER: &str = "2026-01-01T00:00:05+00:00";
const FINISHED: Moment = Moment { secs: 1_767_225_605, nanos: 0 };

fn job(id: &str, alias: &str) -> CronJob {
    CronJob {
        id: id.into(),
        expression: "0 * * * *".into(),
        schedule: Schedule::Cron { expr: "0 * * * *".into(), tz: None },
        command: "echo synthetic".into(),
        prompt: None,
        name: None,
        job_type: JobType::Shell,
        session_target: SessionTarget::Isolated,
        model: None,
        agent_alias: alias.into(),
        enabled: true,
        delivery: DeliveryConfig {
            mode: "none".into(),
            channel: None,
            to: None,
            thread_id: None,
            reply_to: None,
            best_effort: true,
        },
        delete_after_run: false,
        allowed_tools: None,
        uses_memory: true,
        source: "imperative".into(),
        shell_output_format: CronShellOutputFormat::Wrapped,
        missed_run_policy: None,
        created_at: Moment { secs: 1_767_000_000, nanos: 0 },
        next_run: Moment { secs: 1_767_229_200, nanos: 0 },
        last_run: None,
        last_status: None,
        last_output: None,
    }
}

fn ledger() -> Ledger {
    Ledger {
        job_id: "job".into(),
        job: Some(JobRow { job: job("job", "synthetic-agent"), locked_at: None, lock_owner: None }),
        occurrences: Vec::new(),
        runs: Vec::new(),
        reconciliations: Vec::new(),
    }
}

fn row(l: &Ledger) -> &JobRow {
    l.job.as_ref().unwrap()
}

fn state<'a>(l: &'a Ledger, id: &str) -> &'a OccurrenceRow {
    l.occurrences.iter().find(|o| o.id == id).unwrap()
}

fn claim(l: &mut Ledger, key: Option<&str>) -> Result<ManualClaim, ClaimError> {
    claim_manual_run_with_key(l, &job("job", "synthetic-agent"), key, NOW, LIMIT)
}

fn one_run() -> Option<Vec<RunRow>> {
    Some(vec![RunRow {
        id: 1,
        started_at: NOW.into(),
        finished_at: LATER.into(),
        status: "ok".into(),
        output: Some("receipt".into()),
    }])
}

fn finish(
    l: &mut Ledger,
    c: &ManualClaim,
    success: bool,
    delivery: Option<EffectOutcome>,
    allowed: bool,
    runs: Option<Vec<RunRow>>,
) -> Option<EffectOutcome> {
    finish_manual_run(l, c, success, delivery, FINISHED, "ok", "receipt", allowed, LATER, runs)
}

fn duplicate(r: Result<ManualClaim, ClaimError>) -> DuplicateManualReceipt {
    match r {
        Err(ClaimError::Duplicate(d)) => d,
        _ => panic!("a duplicate"),
    }
}

fn refusal(r: Result<ManualClaim, ClaimError>) -> Option<ManualAdmissionError> {
    match r {
        Err(ClaimError::Refused(e)) => Some(e),
        _ => None,
    }
}

fn serialized_job(l: &Ledger) -> String {
    match &l.job {
        Some(row) => serde_json::to_string(&format!("{:?}", row.job)).unwrap(),
        None => String::new(),
    }
}

fn shown_status(
    l: &Ledger,
    run_id: i64,
    occurrence_id: &str,
) -> Result<ReconciliationStatus, ReconcileError> {
    reconciliation_status(l, run_id, occurrence_id, &serialized_job(l))
}

fn give_evidence(
    l: &mut Ledger,
    run_id: i64,
    request: &ReconciliationRequest,
    source: &str,
    now: &str,
) -> Result<ReconciliationReceipt, ReconcileError> {
    let job = serialized_job(l);
    reconcile_no_external_effect(l, run_id, request, source, now, &job)
}

#[test]
fn keyed_manual_replay_returns_durable_evidence_without_reexecution() {
    let mut l = ledger();
    let c = claim(&mut l, Some("private-fixture-key")).ok().unwrap();
    assert!(!c.id().contains("private-fixture-key"));
    let pending = duplicate(claim(&mut l, Some("private-fixture-key")));
    assert_eq!(pending.effect, EffectOutcome::ReconciliationRequired);
    assert_eq!(pending.occurrence_id, c.id());
    assert!(checkpoint_manual_execution(
        &mut l,
        &c,
        true,
        "original receipt",
        Checkpoint::Moved,
        NOW
    ));
    assert_eq!(
        finish(&mut l, &c, true, None, true, one_run()),
        Some(EffectOutcome::Confirmed)
    );
    let before = (
        state(&l, c.id()).execution_state.clone(),
        state(&l, c.id()).delivery_state.clone(),
        state(&l, c.id()).output.clone(),
        state(&l, c.id()).updated_at.clone(),
    );
    let confirmed = duplicate(claim(&mut l, Some("private-fixture-key")));
    assert_eq!(confirmed.effect, EffectOutcome::Confirmed);
    assert_eq!(confirmed.output, "original receipt");
    let o = state(&l, c.id());
    assert_eq!(
        before,
        (
            o.execution_state.clone(),
            o.delivery_state.clone(),
            o.output.clone(),
            o.updated_at.clone()
        )
    );
    assert_eq!(l.runs.len(), 1);
    let other_owner = job("job", "another-agent");
    assert_eq!(
        refusal(claim_manual_run_with_key(
            &mut l,
            &other_owner,
            Some("private-fixture-key"),
            NOW,
            LIMIT
        )),
        Some(ManualAdmissionError::Changed)
    );
    // The job changes hands.
    let mut reassigned = job("job", "another-agent");
    reassigned.last_run = row(&l).job.last_run;
    reassigned.last_status = row(&l).job.last_status.clone();
    reassigned.last_output = row(&l).job.last_output.clone();
    l.job.as_mut().unwrap().job.agent_alias = "another-agent".into();
    let new_owner = claim_manual_run_with_key(
        &mut l,
        &reassigned,
        Some("private-fixture-key"),
        NOW,
        LIMIT,
    )
    .ok()
    .unwrap();
    assert_ne!(new_owner.id(), c.id());
    assert_eq!(
        state(&l, new_owner.id()).output,
        None,
        "a reassigned owner cannot retrieve the prior invocation output"
    );
}

#[test]
fn request_identifiers_stand_for_the_digest_of_job_owner_and_key() {
    let mut l = ledger();
    let c = claim(&mut l, Some("key\"1")).ok().unwrap();
    let identity = serde_json::to_vec(&("job", "synthetic-agent", "key\"1")).unwrap();
    let digest: String =
        Sha256::digest(identity).iter().map(|b| format!("{b:02x}")).collect();
    assert_eq!(c.id(), format!("manual:key:{digest}"));
}

#[test]
fn unreadable_keyed_receipt_is_uncertain_instead_of_non_delivery_evidence() {
    let mut l = ledger();
    let c = claim(&mut l, Some("receipt-key")).ok().unwrap();
    assert!(checkpoint_manual_execution(
        &mut l,
        &c,
        true,
        "execution receipt",
        Checkpoint::Moved,
        NOW
    ));
    l.occurrences[0].output = Some("x".repeat(LIMIT + 1));
    assert!(matches!(claim(&mut l, Some("receipt-key")), Err(ClaimError::Unreadable)));
    let result = run_manual_job_with_request_id(
        "job",
        FINISHED,
        true,
        ManualRunEnd::Refused { reason: None, text: "receipt unavailable".into(), at: FINISHED },
    );
    assert!(!result.success);
    assert_eq!(result.effect_outcome, EffectOutcome::ReconciliationRequired);
    assert_eq!(result.execution_outcome, EffectOutcome::PossiblyApplied);
    assert!(result.output.len() < 1024);
    assert!(l.runs.is_empty());
    assert_eq!(state(&l, c.id()).execution_state, "confirmed");
    assert!(row(&l).lock_owner.is_some());
}

#[test]
fn invalid_manual_request_ids_are_rejected_before_any_claim() {
    let mut l = ledger();
    for key in [String::new(), "space key".into(), "🦀".into(), "x".repeat(129)] {
        assert_eq!(
            refusal(claim(&mut l, Some(&key))),
            Some(ManualAdmissionError::InvalidRequestId)
        );
    }
    assert!(l.occurrences.is_empty());
    assert!(claim(&mut l, Some("valid-key")).is_ok());
}

#[test]
fn manual_claim_is_atomic_and_excludes_scheduled_and_manual_competitors() {
    let mut l = ledger();
    let c = claim(&mut l, None).ok().unwrap();
    assert!(c.id().starts_with("manual:"));
    assert_eq!(c.id().len(), "manual:".len() + 36);
    assert_eq!(refusal(claim(&mut l, None)), Some(ManualAdmissionError::InFlight));
    assert_eq!(refusal(claim(&mut l, Some("key"))), Some(ManualAdmissionError::InFlight));
    assert_eq!(state(&l, c.id()).execution_state, "running");
    assert!(checkpoint_manual_execution(
        &mut l,
        &c,
        true,
        "synthetic receipt",
        Checkpoint::Moved,
        NOW
    ));
    assert_eq!(
        finish(&mut l, &c, true, None, true, one_run()),
        Some(EffectOutcome::Confirmed)
    );
    assert_eq!(
        row(&l).job.next_run,
        job("job", "synthetic-agent").next_run,
        "manual execution must not consume the scheduled occurrence"
    );
    let mut updated = job("job", "synthetic-agent");
    updated.last_run = Some(FINISHED);
    updated.last_status = Some("ok".into());
    updated.last_output = Some("receipt".into());
    let next = claim_manual_run_with_key(&mut l, &updated, None, NOW, LIMIT).ok().unwrap();
    assert_ne!(c.id(), next.id());
}

#[test]
fn manual_claim_failure_rolls_back_lock_and_rejects_changed_approval_snapshot() {
    let mut l = ledger();
    l.job.as_mut().unwrap().job.command = "echo changed".into();
    assert_eq!(refusal(claim(&mut l, None)), Some(ManualAdmissionError::Changed));
    assert!(row(&l).locked_at.is_none() && row(&l).lock_owner.is_none());
    assert!(l.occurrences.is_empty());
    let mut current = job("job", "synthetic-agent");
    current.command = "echo changed".into();
    assert!(claim_manual_run_with_key(&mut l, &current, None, NOW, LIMIT).is_ok());
}

#[test]
fn manual_notification_and_history_commit_atomically_and_completion_is_idempotent() {
    let mut l = ledger();
    let c = claim(&mut l, None).ok().unwrap();
    assert!(checkpoint_manual_execution(
        &mut l,
        &c,
        true,
        "execution receipt",
        Checkpoint::Moved,
        NOW
    ));
    let confirmed = Some(EffectOutcome::Confirmed);
    assert_eq!(finish(&mut l, &c, true, confirmed, true, None), None);
    assert_eq!(state(&l, c.id()).delivery_state, "submitting");
    assert!(claim(&mut l, None).is_err());
    assert_eq!(finish(&mut l, &c, true, confirmed, true, one_run()), confirmed);
    assert_eq!(state(&l, c.id()).delivery_state, "confirmed");
    assert_eq!(state(&l, c.id()).output.as_deref(), Some("execution receipt"));
    assert_eq!(finish(&mut l, &c, true, confirmed, false, None), confirmed);
    assert_eq!(l.runs.len(), 1);
}

#[test]
fn keyed_replay_preserves_notification_absence_and_all_typed_outcomes() {
    for delivery in [
        None,
        Some(EffectOutcome::NotStarted),
        Some(EffectOutcome::Confirmed),
        Some(EffectOutcome::ConfirmedFailed),
        Some(EffectOutcome::PartiallyApplied),
        Some(EffectOutcome::PossiblyApplied),
        Some(EffectOutcome::ReconciliationRequired),
    ] {
        let mut l = ledger();
        let c = claim(&mut l, Some("receipt-key")).ok().unwrap();
        assert!(checkpoint_manual_execution(
            &mut l,
            &c,
            true,
            "execution receipt",
            Checkpoint::Moved,
            NOW
        ));
        let effect =
            finish(&mut l, &c, true, delivery, true, one_run()).unwrap();
        let replay = duplicate(claim(&mut l, Some("receipt-key")));
        assert_eq!(replay.delivery, delivery);
        assert_eq!(replay.effect, effect);
        assert_eq!(replay.execution, EffectOutcome::Confirmed);
        assert_eq!(l.runs.len(), 1);
    }
}

#[test]
fn manual_uncertainty_is_quarantined_and_reopen_never_replays() {
    for (success, delivery, effect) in [
        (false, None, EffectOutcome::ReconciliationRequired),
        (true, Some(EffectOutcome::PossiblyApplied), EffectOutcome::ReconciliationRequired),
        (true, Some(EffectOutcome::ConfirmedFailed), EffectOutcome::PartiallyApplied),
    ] {
        let mut l = ledger();
        let c = claim(&mut l, None).ok().unwrap();
        assert!(checkpoint_manual_execution(
            &mut l,
            &c,
            success,
            "keep receipt",
            Checkpoint::Moved,
            NOW
        ));
        assert_eq!(
            finish(&mut l, &c, success, delivery, true, one_run()),
            Some(effect)
        );
        assert!(!row(&l).job.enabled);
        assert_eq!(row(&l).job.last_status.as_deref(), Some("uncertain"));
        assert_eq!(refusal(claim(&mut l, None)), Some(ManualAdmissionError::Quarantined));
        assert_eq!(l.occurrences.len(), 1);
    }
}

#[test]
fn manual_receipts_survive_job_deletion_without_releasing_replacement_lock() {
    let mut l = ledger();
    let c = claim(&mut l, None).ok().unwrap();
    assert!(checkpoint_manual_execution(
        &mut l,
        &c,
        true,
        "execution receipt",
        Checkpoint::Moved,
        NOW
    ));
    l.job = None;
    let confirmed = Some(EffectOutcome::Confirmed);
    assert_eq!(finish(&mut l, &c, true, confirmed, true, None), confirmed);
    assert!(matches!(claim(&mut l, None), Err(ClaimError::NoJob)));
    l.job = Some(JobRow {
        job: job("job", "synthetic-agent"),
        locked_at: None,
        lock_owner: None,
    });
    let replacement = claim(&mut l, None).ok().unwrap();
    assert_eq!(finish(&mut l, &c, true, confirmed, false, None), confirmed);
    assert_eq!(state(&l, c.id()).delivery_state, "confirmed");
    assert_eq!(state(&l, replacement.id()).execution_state, "running");
    assert_eq!(row(&l).lock_owner.as_deref(), Some(replacement.id()));
}

#[test]
fn an_end_that_is_recorded_stays_recorded_whatever_the_rule_says() {
    let mut l = ledger();
    let c = claim(&mut l, None).ok().unwrap();
    assert_eq!(finish(&mut l, &c, false, None, false, one_run()), None);
    let doubt = Some(EffectOutcome::ReconciliationRequired);
    assert_eq!(finish(&mut l, &c, false, None, true, one_run()), doubt);
    let before = state(&l, c.id()).updated_at.clone();
    for allowed in [false, true] {
        assert_eq!(finish(&mut l, &c, false, None, allowed, None), doubt);
        assert_eq!(state(&l, c.id()).updated_at, before);
        assert_eq!(l.runs.len(), 1);
    }
    assert_eq!(finish(&mut l, &c, true, None, false, None), None);
}

#[test]
fn a_row_that_cannot_be_read_fails_only_a_page_that_comes_to_it() {
    let row = |id: &str| {
        Some(RawOccurrence {
            occurrence_id: Some(id.into()),
            execution_state: Some("confirmed".into()),
            delivery_state: Some("not_requested".into()),
            updated_at: Some(NOW.into()),
            output: None,
            output_bytes: 0,
        })
    };
    let query = |limit| OccurrenceQuery {
        occurrence_id: None,
        before: None,
        limit: Some(limit),
        include_output: false,
    };
    let page = read_occurrences("job", &query(1), Storage::Rows(vec![row("a"), None])).ok().unwrap();
    assert_eq!(page.occurrences.len(), 1);
    assert_eq!(page.next_before.as_deref(), Some("a"));
    assert_eq!(
        read_occurrences("job", &query(2), Storage::Rows(vec![row("a"), None])).err(),
        Some(OccurrenceReadError::StorageUnavailable)
    );
}

#[test]
fn refused_steps_and_taken_identifiers_change_nothing() {
    let mut l = ledger();
    let c = claim(&mut l, None).ok().unwrap();
    assert!(!checkpoint_manual_execution(
        &mut l,
        &c,
        true,
        "late",
        Checkpoint::Refused,
        NOW
    ));
    assert_eq!(state(&l, c.id()).execution_state, "running");
    assert_eq!(finish(&mut l, &c, true, None, false, one_run()), None);
    assert!(row(&l).lock_owner.is_some());
    l.job.as_mut().unwrap().locked_at = None;
    l.job.as_mut().unwrap().lock_owner = None;
    let again = claim_manual_occurrence(
        &mut l,
        &job("job", "synthetic-agent"),
        false,
        c.id().to_string(),
        NOW,
        LIMIT,
    );
    assert!(matches!(again, Err(ClaimError::Taken)));
    assert_eq!(
        ManualAdmissionError::InFlight.message(),
        "manual cron admission refused: InFlight"
    );
    let elsewhere = claim_manual_run_with_key(
        &mut l,
        &job("another-job", "synthetic-agent"),
        None,
        NOW,
        LIMIT,
    );
    assert!(matches!(elsewhere, Err(ClaimError::NoJob)));
}

#[test]
fn refusals_have_their_own_texts() {
    assert_eq!(
        refusal_key(Some(ManualAdmissionError::Quarantined), false),
        "cron-manual-quarantined"
    );
    assert_eq!(refusal_key(Some(ManualAdmissionError::InFlight), true), "cron-manual-in-flight");
    assert_eq!(refusal_key(Some(ManualAdmissionError::Changed), true), "cron-manual-changed");
    assert_eq!(
        refusal_key(Some(ManualAdmissionError::InvalidRequestId), true),
        "cron-manual-invalid-request-id"
    );
    assert_eq!(refusal_key(None, true), "cron-manual-receipt-unavailable");
    assert_eq!(refusal_key(None, false), "cron-manual-storage-unavailable");
}

#[test]
fn manual_trigger_rejects_durable_quarantine_even_with_stale_snapshot() {
    let mut l = ledger();
    l.job.as_mut().unwrap().job.last_status = Some("uncertain".into());
    let reason = refusal(claim(&mut l, None));
    assert_eq!(reason, Some(ManualAdmissionError::Quarantined));
    let result = run_manual_job(
        "job",
        FINISHED,
        ManualRunEnd::Refused { reason, text: "execution not started".into(), at: FINISHED },
    );
    assert!(!result.success);
    assert_eq!(result.status, "uncertain");
    assert_eq!(result.effect_outcome, EffectOutcome::ReconciliationRequired);
    assert_eq!(result.execution_outcome, EffectOutcome::NotStarted);
    assert!(result.occurrence_id.is_none());
    assert!(l.runs.is_empty());
    let missing = run_manual_job(
        "job",
        FINISHED,
        ManualRunEnd::Refused {
            reason: None,
            text: "could not read durable state".into(),
            at: FINISHED,
        },
    );
    assert_eq!(missing.status, "error");
    assert_eq!(missing.effect_outcome, EffectOutcome::NotStarted);
}

#[test]
fn run_manual_job_persists_history_and_broadcasts() {
    let started = Moment { secs: FINISHED.secs - 5, nanos: 250_000_000 };
    let delivered = || CronDeliveryOutcome {
        delivery_outcome: None,
        success: true,
        status: "ok".into(),
        output: "rpc-manual-ok".into(),
    };
    let result = run_manual_job(
        "job",
        started,
        ManualRunEnd::Ended {
            occurrence_id: "manual:1".into(),
            success: true,
            delivered: delivered(),
            effect: Some(EffectOutcome::Confirmed),
            text: String::new(),
            at: FINISHED,
        },
    );
    assert!(result.success && !result.duplicate);
    assert_eq!(result.status, "ok");
    assert_eq!(result.output, "rpc-manual-ok");
    assert_eq!(result.duration_ms, 4750);
    assert_eq!(result.occurrence_id.as_deref(), Some("manual:1"));
    let event = manual_event(&result).unwrap();
    assert_eq!(event.job_id, "job");
    assert!(event.success);
    assert_eq!(event.output, "rpc-manual-ok");
    let evidence = event.manual.unwrap();
    assert_eq!(evidence.occurrence_id.as_deref(), Some("manual:1"));
    assert_eq!(evidence.effect_outcome, EffectOutcome::Confirmed);
    assert_eq!(evidence.execution_outcome, EffectOutcome::Confirmed);
    assert_eq!(evidence.delivery_outcome, None);
    let lost = run_manual_job(
        "job",
        started,
        ManualRunEnd::Ended {
            occurrence_id: "manual:1".into(),
            success: true,
            delivered: delivered(),
            effect: None,
            text: "not recorded".into(),
            at: FINISHED,
        },
    );
    assert!(!lost.success);
    assert_eq!(lost.status, "uncertain");
    assert_eq!(lost.output, "rpc-manual-ok\nnot recorded");
    let unrecorded = run_manual_job(
        "job",
        started,
        ManualRunEnd::Unrecorded {
            occurrence_id: "manual:1".into(),
            success: true,
            output: "out".into(),
            text: "not recorded".into(),
            at: FINISHED,
        },
    );
    assert_eq!(unrecorded.output, "out\nnot recorded");
    assert_eq!(unrecorded.execution_outcome, EffectOutcome::Confirmed);
    assert_eq!(unrecorded.effect_outcome, EffectOutcome::ReconciliationRequired);
}

#[test]
fn only_runs_that_ended_are_told_of() {
    assert!(is_told(&ManualRunEnd::Ended {
        occurrence_id: "manual:1".into(),
        success: false,
        delivered: CronDeliveryOutcome {
            delivery_outcome: None,
            success: false,
            status: "error".into(),
            output: String::new(),
        },
        effect: None,
        text: String::new(),
        at: FINISHED,
    }));
    assert!(!is_told(&ManualRunEnd::Unrecorded {
        occurrence_id: "manual:1".into(),
        success: true,
        output: String::new(),
        text: String::new(),
        at: FINISHED,
    }));
    assert!(!is_told(&ManualRunEnd::Refused { reason: None, text: String::new(), at: FINISHED }));
}

#[test]
fn repeated_requests_report_the_first_run() {
    let receipt = DuplicateManualReceipt {
        occurrence_id: "manual:key:1".into(),
        execution: EffectOutcome::Confirmed,
        delivery: Some(EffectOutcome::PossiblyApplied),
        effect: EffectOutcome::ReconciliationRequired,
        output: "out".into(),
    };
    assert_eq!(receipt.message(), "manual occurrence already admitted: manual:key:1");
    let result = run_manual_job_with_request_id(
        "job",
        FINISHED,
        true,
        ManualRunEnd::Duplicate { receipt, at: FINISHED },
    );
    assert!(result.duplicate && !result.success);
    assert_eq!(result.status, "uncertain");
    assert_eq!(result.execution_outcome, EffectOutcome::Confirmed);
    assert_eq!(result.delivery_outcome, Some(EffectOutcome::PossiblyApplied));
}

#[test]
fn outputs_are_cut_between_characters() {
    assert_eq!(bounded("añb", 4), "añb");
    assert_eq!(bounded("añb", 3), "añ");
    assert_eq!(bounded("añb", 2), "a");
    assert_eq!(bounded("😀", 3), "");
}

// Pages of occurrences, read with the statement of the library.

fn storage() -> Connection {
    let conn = Connection::open_in_memory().unwrap();
    conn.execute_batch(
        "CREATE TABLE cron_occurrences(
            job_id TEXT NOT NULL, scheduled_at TEXT NOT NULL, execution_state TEXT NOT NULL,
            delivery_state TEXT NOT NULL, output TEXT, updated_at TEXT NOT NULL,
            PRIMARY KEY(job_id, scheduled_at))",
    )
    .unwrap();
    conn
}

fn insert(conn: &Connection, id: &str, execution: &str, delivery: &str, output: &str) {
    conn.execute(
        "INSERT INTO cron_occurrences VALUES ('deleted-job', ?1, ?2, ?3, ?4, '2026-01-01T00:00:00Z')",
        (id, execution, delivery, output),
    )
    .unwrap();
}

fn select(conn: &Connection, job_id: &str, query: &OccurrenceQuery) -> Storage {
    let limit = match query.validate(job_id) {
        Ok(n) => n,
        Err(_) => return Storage::Unavailable,
    };
    let bound = query
        .occurrence_id
        .clone()
        .or(query.before.clone())
        .unwrap_or_default();
    let mut statement = conn.prepare(&query_sql(query)).unwrap();
    let rows: Vec<Option<RawOccurrence>> = statement
        .query_map(
            (job_id, bound, limit as i64 + 1, query.include_output, OUTPUT_BYTES as i64),
            |r| {
                Ok(RawOccurrence {
                    occurrence_id: r.get(0)?,
                    execution_state: r.get(1)?,
                    delivery_state: r.get(2)?,
                    updated_at: r.get(3)?,
                    output: r.get(4)?,
                    output_bytes: r.get::<_, i64>(5)? as u64,
                })
            },
        )
        .unwrap()
        .map(|row| row.ok())
        .collect();
    Storage::Rows(rows)
}

fn read(
    conn: &Connection,
    job_id: &str,
    query: &OccurrenceQuery,
) -> Result<OccurrencePage, OccurrenceReadError> {
    read_occurrences(job_id, query, select(conn, job_id, query))
}

#[test]
fn missing_storage_is_explicit_and_read_does_not_create_it() {
    let page =
        read_occurrences("job", &OccurrenceQuery::default(), Storage::Absent).ok().unwrap();
    assert!(!page.storage_present);
    assert!(page.occurrences.is_empty());
    let query = OccurrenceQuery { limit: Some(0), ..Default::default() };
    assert_eq!(
        read_occurrences("job", &query, Storage::Absent).err(),
        Some(OccurrenceReadError::InvalidQuery)
    );
}

#[test]
fn cursor_reads_deleted_job_receipts_without_duplicates_or_mutation() {
    let conn = storage();
    for id in ["manual:z", "2026-01-01", "manual:a", "\u{10ffff}z"] {
        insert(&conn, id, "confirmed", "not_requested", "private output");
    }
    let mut query = OccurrenceQuery { limit: Some(2), ..Default::default() };
    let mut ids = Vec::new();
    loop {
        let page = read(&conn, "deleted-job", &query).ok().unwrap();
        assert!(page.storage_present);
        for receipt in page.occurrences {
            assert!(receipt.output.is_none());
            assert_eq!(receipt.output_bytes, 14);
            assert!(!receipt.retry_allowed);
            assert_eq!(receipt.delivery_outcome, None);
            ids.push(receipt.occurrence_id);
        }
        query.before = page.next_before;
        if query.before.is_none() {
            break;
        }
    }
    assert_eq!(ids, ["\u{10ffff}z", "manual:z", "manual:a", "2026-01-01"]);
    assert!(read(&conn, "other-job", &query).ok().unwrap().occurrences.is_empty());
    let exact = OccurrenceQuery { occurrence_id: Some("manual:a".into()), ..Default::default() };
    let page = read(&conn, "deleted-job", &exact).ok().unwrap();
    assert_eq!(page.occurrences.len(), 1);
    assert!(page.next_before.is_none());
}

fn encoded_len(page: &OccurrencePage) -> usize {
    let receipts: Vec<String> = page.occurrences.iter().map(receipt_text).collect();
    let next = match &page.next_before {
        Some(id) => serde_json::Value::from(id.as_str()).to_string(),
        None => "null".to_string(),
    };
    format!(
        "{{\"storage_present\":{},\"occurrences\":[{}],\"next_before\":{next}}}",
        page.storage_present,
        receipts.join(",")
    )
    .len()
}

#[test]
fn encoded_page_and_unicode_output_bounds_preserve_pagination() {
    let conn = storage();
    for i in 0..30 {
        insert(
            &conn,
            &format!("manual:{i:03}"),
            "confirmed",
            "confirmed",
            &"😀\n\"".repeat(5000),
        );
    }
    let mut query =
        OccurrenceQuery { limit: Some(100), include_output: true, ..Default::default() };
    let mut ids = std::collections::HashSet::new();
    loop {
        let page = read(&conn, "deleted-job", &query).ok().unwrap();
        assert!(encoded_len(&page) <= PAGE_BYTES);
        assert!(!page.occurrences.is_empty());
        for receipt in page.occurrences {
            assert!(receipt.output_truncated);
            assert_eq!(receipt.output_bytes, 30000);
            assert!(receipt.output.unwrap().len() <= OUTPUT_BYTES);
            assert!(ids.insert(receipt.occurrence_id));
        }
        query.before = page.next_before;
        if query.before.is_none() {
            break;
        }
    }
    assert_eq!(ids.len(), 30);
}

#[test]
fn uncertainty_is_typed_and_unknown_states_never_confirm() {
    let conn = storage();
    for (id, execution, delivery) in [
        ("a", "claimed", "submitting"),
        ("b", "running", "possibly_applied"),
        ("c", "possibly_applied", "reconciliation_required"),
        ("d", "future_state", "future_state"),
        ("e", "skipped", "not_started"),
        ("f", "confirmed", "partially_applied"),
        ("g", "confirmed", "confirmed_failed"),
    ] {
        insert(&conn, id, execution, delivery, "");
    }
    let page = read(&conn, "deleted-job", &OccurrenceQuery::default()).ok().unwrap();
    for receipt in &page.occurrences {
        assert!(!receipt.retry_allowed);
        assert_ne!(receipt.delivery_outcome, Some(EffectOutcome::Confirmed));
    }
    let unknown = page.occurrences.iter().find(|r| r.occurrence_id == "d").unwrap();
    assert_eq!(unknown.execution_outcome, EffectOutcome::ReconciliationRequired);
    assert_eq!(unknown.delivery_outcome, Some(EffectOutcome::ReconciliationRequired));
    let claimed = page.occurrences.iter().find(|r| r.occurrence_id == "a").unwrap();
    assert_eq!(claimed.execution_outcome, EffectOutcome::PossiblyApplied);
    assert_eq!(claimed.delivery_outcome, Some(EffectOutcome::ReconciliationRequired));
}

#[test]
fn malformed_or_locked_storage_is_not_empty_history() {
    let conn = storage();
    insert(&conn, "one", "confirmed", "confirmed", "body");
    let query = OccurrenceQuery::default();
    assert_eq!(
        read_occurrences("deleted-job", &query, Storage::Unavailable).err(),
        Some(OccurrenceReadError::StorageUnavailable)
    );
    conn.execute("UPDATE cron_occurrences SET updated_at='bad timestamp'", []).unwrap();
    assert_eq!(
        read(&conn, "deleted-job", &query).err(),
        Some(OccurrenceReadError::StorageUnavailable)
    );
    assert_eq!(
        OccurrenceReadError::StorageUnavailable.message_key(),
        "cron-occurrences-storage-unavailable"
    );
    assert_eq!(
        OccurrenceReadError::InvalidQuery.message_key(),
        "cron-occurrences-invalid-query"
    );
}

#[test]
fn malformed_output_is_only_read_on_explicit_request_and_metadata_is_bounded() {
    let conn = storage();
    insert(&conn, "one", "confirmed", "confirmed", "");
    conn.execute("UPDATE cron_occurrences SET output=x'fffe'", []).unwrap();
    let page = read(&conn, "deleted-job", &OccurrenceQuery::default()).ok().unwrap();
    assert!(page.occurrences[0].output.is_none());
    let with_output = OccurrenceQuery { include_output: true, ..Default::default() };
    assert_eq!(
        read(&conn, "deleted-job", &with_output).err(),
        Some(OccurrenceReadError::StorageUnavailable)
    );
    conn.execute("UPDATE cron_occurrences SET execution_state=?1", ["x".repeat(100000)]).unwrap();
    assert_eq!(
        read(&conn, "deleted-job", &OccurrenceQuery::default()).err(),
        Some(OccurrenceReadError::StorageUnavailable)
    );
}

#[test]
fn query_uses_primary_key_for_tail_cursor_and_exact_read() {
    let conn = storage();
    for query in [
        OccurrenceQuery::default(),
        OccurrenceQuery { before: Some("z".into()), ..Default::default() },
        OccurrenceQuery { occurrence_id: Some("a".into()), ..Default::default() },
    ] {
        let sql = format!("EXPLAIN QUERY PLAN {}", query_sql(&query));
        let mut stmt = conn.prepare(&sql).unwrap();
        let plans: Vec<String> = stmt
            .query_map(("deleted-job", "z", 21, false, OUTPUT_BYTES as i64), |r| r.get(3))
            .unwrap()
            .collect::<rusqlite::Result<_>>()
            .unwrap();
        assert!(
            plans.iter().any(
                |p| p.contains("SEARCH cron_occurrences USING INDEX") && p.contains("job_id=?")
            ),
            "{plans:?}"
        );
        assert!(
            !plans
                .iter()
                .any(|p| p.contains("TEMP B-TREE") || p.contains("SCAN cron_occurrences")),
            "{plans:?}"
        );
        if query.before.is_some() {
            assert!(plans.iter().any(|p| p.contains("scheduled_at<?")), "{plans:?}");
        }
    }
}

#[test]
fn queries_out_of_bounds_are_refused() {
    let bad = [
        OccurrenceQuery { limit: Some(101), ..Default::default() },
        OccurrenceQuery { occurrence_id: Some("".into()), ..Default::default() },
        OccurrenceQuery { before: Some("a\u{7}".into()), ..Default::default() },
        OccurrenceQuery { before: Some("x".repeat(513)), ..Default::default() },
        OccurrenceQuery {
            occurrence_id: Some("a".into()),
            before: Some("b".into()),
            ..Default::default()
        },
    ];
    for query in bad {
        assert_eq!(query.validate("job"), Err(OccurrenceReadError::InvalidQuery));
    }
    assert_eq!(OccurrenceQuery::default().validate("job"), Ok(20));
    assert_eq!(
        OccurrenceQuery::default().validate(""),
        Err(OccurrenceReadError::InvalidQuery)
    );
}

#[test]
fn receipts_are_encoded_field_by_field() {
    let conn = storage();
    insert(&conn, "one", "confirmed", "not_requested", "a \"b\"\u{1}");
    let query = OccurrenceQuery {
        occurrence_id: Some("one".into()),
        include_output: true,
        ..Default::default()
    };
    let page = read(&conn, "deleted-job", &query).ok().unwrap();
    assert_eq!(
        receipt_text(&page.occurrences[0]),
        "{\"occurrence_id\":\"one\",\"execution_state\":\"confirmed\",\"delivery_state\":\"not_requested\",\"execution_outcome\":\"confirmed\",\"delivery_outcome\":null,\"updated_at\":\"2026-01-01T00:00:00Z\",\"retry_allowed\":false,\"output\":\"a \\\"b\\\"\\u0001\",\"output_bytes\":6,\"output_truncated\":false}"
    );
    assert!(page_given(vec![None], false, 1).is_none());
    assert!(page_given(Vec::new(), false, 1).unwrap().occurrences.is_empty());
}

// Operators' evidence.

const OCCURRENCE: &str = "manual:key:original";
const SOURCE: &str = "local_operator:loopback_admin";

fn doubtful() -> (Ledger, ReconciliationRequest) {
    let mut l = ledger();
    {
        let j = &mut l.job.as_mut().unwrap().job;
        j.enabled = false;
        j.last_status = Some("uncertain".into());
        j.last_run = Some(FINISHED);
        j.last_output = Some("failed before connector".into());
    }
    l.runs.push(RunRow {
        id: 7,
        started_at: NOW.into(),
        finished_at: LATER.into(),
        status: "error".into(),
        output: Some("failed before connector".into()),
    });
    l.occurrences.push(OccurrenceRow {
        id: OCCURRENCE.into(),
        execution_state: "possibly_applied".into(),
        delivery_state: "not_requested".into(),
        output: Some("failed before connector".into()),
        updated_at: LATER.into(),
    });
    let status = shown_status(&l, 7, OCCURRENCE).ok().unwrap();
    assert!(status.eligible);
    let request = ReconciliationRequest {
        occurrence_id: OCCURRENCE.into(),
        expected_state: status.expected_state.unwrap(),
        disposition: ReconciliationDisposition::NoExternalEffect,
        evidence: "Owner inspected exact run; zero connector calls and zero external effects"
            .into(),
    };
    (l, request)
}

fn reconcile(l: &mut Ledger, request: &ReconciliationRequest) -> bool {
    give_evidence(l, 7, request, SOURCE, LATER).is_ok()
}

fn present_job(l: &Ledger) -> CronJob {
    let mut j = job("job", "synthetic-agent");
    let now = &row(l).job;
    j.enabled = now.enabled;
    j.last_run = now.last_run;
    j.last_status = now.last_status.clone();
    j.last_output = now.last_output.clone();
    j
}

#[test]
fn exact_no_effect_receipt_releases_only_gate_without_enabling_or_rewriting_history() {
    let (mut l, request) = doubtful();
    let receipt = give_evidence(&mut l, 7, &request, SOURCE, LATER).ok().unwrap();
    assert!(!receipt.retry_allowed);
    assert_eq!(receipt.job_id, "job");
    assert_eq!(receipt.run_id, 7);
    assert_eq!(receipt.source, SOURCE);
    assert_eq!(l.runs.len(), 1);
    assert_eq!(l.runs[0].status, "error");
    let o = state(&l, OCCURRENCE);
    assert_eq!(o.execution_state, "possibly_applied");
    assert_eq!(o.delivery_state, "not_requested");
    assert_eq!(o.updated_at, LATER);
    assert!(!row(&l).job.enabled);
    assert_eq!(row(&l).job.last_status.as_deref(), Some("reconciled_no_external_effect"));
    l.job.as_mut().unwrap().job.enabled = true;
    let enabled = present_job(&l);
    assert!(claim_manual_run_with_key(
        &mut l,
        &enabled,
        Some("fresh-verification"),
        LATER,
        LIMIT
    )
    .is_ok());
}

#[test]
fn duplicate_identical_is_deterministic_but_conflicting_repeat_is_rejected() {
    let (mut l, mut request) = doubtful();
    let first = give_evidence(&mut l, 7, &request, SOURCE, LATER).ok().unwrap();
    let again =
        give_evidence(&mut l, 7, &request, SOURCE, "some later time").ok().unwrap();
    assert_eq!(first.reconciled_at, again.reconciled_at);
    assert_eq!(l.reconciliations.len(), 1);
    assert_eq!(
        give_evidence(&mut l, 7, &request, "forged-other-source", LATER).err(),
        Some(ReconcileError::Rejected)
    );
    request.evidence.push('!');
    assert!(!reconcile(&mut l, &request));
}

#[test]
fn mismatched_job_run_occurrence_and_ambiguous_identifiers_reject() {
    let (mut l, request) = doubtful();
    for number in [8, 0] {
        assert!(
            give_evidence(&mut l, number, &request, SOURCE, LATER).is_err()
        );
    }
    let mut other = ledger();
    other.job_id = "latest".into();
    other.job = None;
    assert_eq!(
        give_evidence(&mut other, 7, &request, SOURCE, LATER).err(),
        Some(ReconcileError::Missing)
    );
    let mut wrong = doubtful().1;
    wrong.occurrence_id = "latest".into();
    assert!(!reconcile(&mut l, &wrong));
    assert_eq!(shown_status(&l, 7, "latest").err(), Some(ReconcileError::Missing));
    assert_eq!(shown_status(&l, 7, "").err(), Some(ReconcileError::Rejected));
}

#[test]
fn stale_job_and_receipt_expectations_reject() {
    let changes: Vec<fn(&mut Ledger)> = vec![
        |l| l.job.as_mut().unwrap().job.name = Some("changed".into()),
        |l| l.job.as_mut().unwrap().job.enabled = true,
        |l| l.job.as_mut().unwrap().job.last_status = Some("error".into()),
        |l| l.job.as_mut().unwrap().locked_at = Some("2026-01-01T00:00:00Z".into()),
        |l| l.occurrences[0].updated_at = "changed".into(),
        |l| l.occurrences[0].delivery_state = "submitted".into(),
        |l| l.runs[0].output = Some("different".into()),
    ];
    for change in changes {
        let (mut l, request) = doubtful();
        change(&mut l);
        assert_eq!(
            give_evidence(&mut l, 7, &request, SOURCE, LATER).err(),
            Some(ReconcileError::Rejected)
        );
        assert!(l.reconciliations.is_empty());
    }
}

#[test]
fn newer_run_and_multiple_uncertainties_reject_even_with_fresh_token() {
    let (mut l, mut request) = doubtful();
    l.runs.push(RunRow {
        id: 8,
        started_at: "2026-01-01T00:00:06+00:00".into(),
        finished_at: "2026-01-01T00:00:07+00:00".into(),
        status: "error".into(),
        output: Some("failed before connector".into()),
    });
    request.expected_state =
        shown_status(&l, 7, OCCURRENCE).ok().unwrap().expected_state.unwrap();
    assert!(!reconcile(&mut l, &request));
    let (mut l, mut request) = doubtful();
    l.occurrences.push(OccurrenceRow {
        id: "another".into(),
        execution_state: "possibly_applied".into(),
        delivery_state: "not_requested".into(),
        output: None,
        updated_at: "now".into(),
    });
    request.expected_state =
        shown_status(&l, 7, OCCURRENCE).ok().unwrap().expected_state.unwrap();
    assert!(!reconcile(&mut l, &request));
}

fn stored() -> Connection {
    let conn = Connection::open_in_memory().unwrap();
    conn.execute_batch(
        "CREATE TABLE cron_jobs (id TEXT PRIMARY KEY, last_status TEXT);
         CREATE TABLE cron_reconciliations (job_id TEXT, run_id INTEGER, receipt TEXT);
         INSERT INTO cron_jobs VALUES ('job', 'uncertain');",
    )
    .unwrap();
    conn
}

fn store(conn: &mut Connection, l: &Ledger) -> rusqlite::Result<()> {
    let tx = conn.transaction()?;
    for r in &l.reconciliations {
        tx.execute(
            "INSERT INTO cron_reconciliations VALUES (?1, ?2, ?3)",
            (&r.receipt.job_id, r.run_id, &r.receipt.reconciled_at),
        )?;
    }
    tx.execute(
        "UPDATE cron_jobs SET last_status = ?2 WHERE id = ?1",
        (&l.job_id, &row(l).job.last_status),
    )?;
    tx.commit()
}

fn read_back(conn: &Connection) -> (i64, String) {
    let receipts =
        conn.query_row("SELECT COUNT(*) FROM cron_reconciliations", [], |r| r.get(0)).unwrap();
    let last_status =
        conn.query_row("SELECT last_status FROM cron_jobs", [], |r| r.get(0)).unwrap();
    (receipts, last_status)
}

#[test]
fn receipt_failure_and_gate_failure_are_atomic() {
    for trigger in [
        "CREATE TRIGGER reject_receipt BEFORE INSERT ON cron_reconciliations BEGIN SELECT RAISE(ABORT,'fault'); END",
        "CREATE TRIGGER reject_gate BEFORE UPDATE ON cron_jobs BEGIN SELECT RAISE(ABORT,'fault'); END",
    ] {
        let mut conn = stored();
        conn.execute_batch(trigger).unwrap();
        let (mut l, request) = doubtful();
        assert!(reconcile(&mut l, &request));
        assert!(store(&mut conn, &l).is_err());
        let (receipts, last_status) = read_back(&conn);
        assert_eq!(receipts, 0);
        let (mut kept, _) = doubtful();
        kept.job.as_mut().unwrap().job.last_status = Some(last_status);
        let status = shown_status(&kept, 7, OCCURRENCE).ok().unwrap();
        assert!(status.receipt.is_none());
        assert!(status.eligible);
        assert!(!status.enabled);
    }
    let mut conn = stored();
    let (mut l, request) = doubtful();
    assert!(reconcile(&mut l, &request));
    store(&mut conn, &l).unwrap();
    assert_eq!(read_back(&conn), (1, "reconciled_no_external_effect".to_string()));
}

#[test]
fn the_token_is_the_digest_of_the_serialized_state() {
    let (l, request) = doubtful();
    let run = (NOW, LATER, "error", Some("failed before connector"));
    let occurrence = ("possibly_applied", "not_requested", Some("failed before connector"), LATER);
    let written = format!(
        "{{\"job\":{},\"run\":{},\"occurrence\":{},\"locked\":false,\"latest\":true,\"other_uncertain\":false}}",
        serialized_job(&l),
        serde_json::to_string(&run).unwrap(),
        serde_json::to_string(&occurrence).unwrap(),
    );
    let digest: String =
        Sha256::digest(written.as_bytes()).iter().map(|b| format!("{b:02x}")).collect();
    assert_eq!(request.expected_state, digest);
    let other = reconciliation_status(&l, 7, OCCURRENCE, "{}").ok().unwrap();
    assert_ne!(other.expected_state, Some(digest));
    let (mut quiet, _) = doubtful();
    quiet.runs[0].output = None;
    quiet.occurrences[0].output = None;
    let written = written.replace("\"error\",\"failed before connector\"", "\"error\",null");
    let written =
        written.replace("\"not_requested\",\"failed before connector\"", "\"not_requested\",null");
    let digest: String =
        Sha256::digest(written.as_bytes()).iter().map(|b| format!("{b:02x}")).collect();
    let status = shown_status(&quiet, 7, OCCURRENCE).ok().unwrap();
    assert_eq!(status.expected_state, Some(digest));
    assert!(!status.eligible);
}

#[test]
fn evidence_on_another_state_leaves_the_ledger_as_it_was() {
    let (mut l, mut request) = doubtful();
    request.expected_state = "0".repeat(64);
    assert!(!reconcile(&mut l, &request));
    let status = shown_status(&l, 7, OCCURRENCE).ok().unwrap();
    assert!(status.receipt.is_none());
    assert!(status.eligible);
    assert!(!status.enabled);
}

#[test]
fn status_is_read_only_durable_and_never_authorizes_replay() {
    let (mut l, request) = doubtful();
    assert!(reconcile(&mut l, &request));
    let status = shown_status(&l, 7, OCCURRENCE).ok().unwrap();
    assert_eq!(status.receipt.unwrap().reconciled_at, LATER);
    assert!(!status.eligible);
    assert!(!status.retry_allowed);
    assert!(!status.enabled);
    assert!(status.expected_state.is_none());
    assert_eq!(status.next_run, "2026-01-01T01:00:00+00:00");
    assert_eq!(
        shown_status(&l, 7, "other").err(),
        Some(ReconcileError::Rejected)
    );
}

#[test]
fn reconciliation_never_replays_original_manual_key() {
    let (mut l, mut request) = doubtful();
    let identity = serde_json::to_vec(&("job", "synthetic-agent", "original-request")).unwrap();
    let digest: String =
        Sha256::digest(identity).iter().map(|b| format!("{b:02x}")).collect();
    let original = format!("manual:key:{digest}");
    l.occurrences[0].id = original.clone();
    request.occurrence_id = original.clone();
    request.expected_state =
        shown_status(&l, 7, &original).ok().unwrap().expected_state.unwrap();
    assert!(reconcile(&mut l, &request));
    let present = present_job(&l);
    let r =
        claim_manual_run_with_key(&mut l, &present, Some("original-request"), LATER, LIMIT);
    assert!(matches!(r, Err(ClaimError::Duplicate(_))));
    assert_eq!(l.runs.len(), 1);
}

#[test]
fn changed_reconciled_occurrence_is_quarantined_again() {
    let (mut l, request) = doubtful();
    assert!(reconcile(&mut l, &request));
    l.occurrences[0].updated_at = "changed".into();
    let present = present_job(&l);
    assert_eq!(
        refusal(claim_manual_run_with_key(&mut l, &present, Some("new-request"), LATER, LIMIT)),
        Some(ManualAdmissionError::Quarantined)
    );
}

#[test]
fn receipt_status_survives_ordinary_run_history_retention() {
    let (mut l, request) = doubtful();
    let expected = give_evidence(&mut l, 7, &request, SOURCE, LATER).ok().unwrap();
    l.runs.clear();
    let status = shown_status(&l, 7, OCCURRENCE).ok().unwrap();
    let shown = status.receipt.unwrap();
    assert_eq!(shown.job_id, expected.job_id);
    assert_eq!(shown.run_id, expected.run_id);
    assert_eq!(shown.request.occurrence_id, expected.request.occurrence_id);
    assert_eq!(shown.request.expected_state, expected.request.expected_state);
    assert_eq!(shown.request.evidence, expected.request.evidence);
    assert_eq!(shown.source, expected.source);
    assert_eq!(shown.reconciled_at, expected.reconciled_at);
    assert!(!shown.retry_allowed && !expected.retry_allowed);
    assert!(!status.retry_allowed);
    assert!(!status.eligible);
    assert!(status.expected_state.is_none());
    l.occurrences.clear();
    assert!(shown_status(&l, 7, OCCURRENCE).ok().unwrap().receipt.is_some());
    assert_eq!(
        shown_status(&l, 7, "manual:key:another").err(),
        Some(ReconcileError::Rejected)
    );
}

#[test]
fn absent_storage_is_not_created_by_status_or_reconciliation() {
    let mut l = Ledger {
        job_id: "exact-job".into(),
        job: None,
        occurrences: Vec::new(),
        runs: Vec::new(),
        reconciliations: Vec::new(),
    };
    let request = ReconciliationRequest {
        occurrence_id: OCCURRENCE.into(),
        expected_state: "0".repeat(64),
        disposition: ReconciliationDisposition::NoExternalEffect,
        evidence: "operator evidence".into(),
    };
    assert_eq!(shown_status(&l, 1, OCCURRENCE).err(), Some(ReconcileError::Missing));
    assert!(give_evidence(&mut l, 1, &request, SOURCE, LATER).is_err());
    assert!(l.reconciliations.is_empty());
}

#[test]
fn requests_out_of_form_are_rejected() {
    for (state, evidence, source) in [
        ("0".repeat(63), "evidence".to_string(), SOURCE.to_string()),
        ("g".repeat(64), "evidence".to_string(), SOURCE.to_string()),
        ("0".repeat(64), " \n".to_string(), SOURCE.to_string()),
        ("0".repeat(64), "x".repeat(4097), SOURCE.to_string()),
        ("0".repeat(64), "evidence".to_string(), String::new()),
        ("0".repeat(64), "evidence".to_string(), "a\nb".to_string()),
    ] {
        let (mut l, mut request) = doubtful();
        request.expected_state = state;
        request.evidence = evidence;
        assert_eq!(
            give_evidence(&mut l, 7, &request, &source, LATER).err(),
            Some(ReconcileError::Rejected)
        );
    }
}

#[test]
fn times_that_cannot_be_written_are_told_apart() {
    let (mut l, _) = doubtful();
    l.job.as_mut().unwrap().job.next_run = Moment { secs: i64::MAX, nanos: 0 };
    assert_eq!(
        shown_status(&l, 7, OCCURRENCE).err(),
        Some(ReconcileError::UnwritableTime)
    );
    for (secs, nanos, written) in [
        (8_210_266_876_799, 0, true),
        (8_210_266_876_800, 0, false),
        (-8_334_601_228_800, 0, true),
        (-8_334_601_228_801, 0, false),
        (59, 1_999_999_999, true),
        (59, 2_000_000_000, false),
        (58, 1_000_000_000, false),
        (-1, 1_000_000_000, true),
    ] {
        l.job.as_mut().unwrap().job.next_run = Moment { secs, nanos };
        assert_eq!(shown_status(&l, 7, OCCURRENCE).is_ok(), written, "{secs} {nanos}");
    }
}

#[test]
fn one_shot_jobs_are_not_released() {
    let (mut l, mut request) = doubtful();
    l.job.as_mut().unwrap().job.schedule =
        Schedule::At { at: Moment { secs: 1_767_225_600, nanos: 0 } };
    let status = shown_status(&l, 7, OCCURRENCE).ok().unwrap();
    assert!(!status.eligible);
    request.expected_state = status.expected_state.unwrap();
    assert!(!reconcile(&mut l, &request));
}

#[test]
fn manual_runs_record_each_step_before_the_next() {
    let claim = ManualClaim { job_id: "job".into(), occurrence_id: "manual:1".into() };
    let run = ManualRun::Claiming;
    assert!(matches!(run.to_record(8), ManualRecord::Nothing));
    let run = run.advance(ManualEvent::Admitted { claim }).unwrap();
    let run = run
        .advance(ManualEvent::Executed {
            success: true,
            output: "long output".into(),
            at: FINISHED,
        })
        .unwrap();
    assert!(matches!(run.to_record(8), ManualRecord::Execution { success: true, output }
        if output == "long out"));
    let run = run.advance(ManualEvent::Recorded).unwrap();
    let run = run
        .advance(ManualEvent::Delivered {
            delivered: CronDeliveryOutcome {
                delivery_outcome: Some(EffectOutcome::Confirmed),
                success: true,
                status: "ok".into(),
                output: "long output".into(),
            },
        })
        .unwrap();
    match run.to_record(4) {
        ManualRecord::End { success, delivery, status, output, at } => {
            assert!(success);
            assert_eq!(delivery, Some(EffectOutcome::Confirmed));
            assert_eq!((status.as_str(), output.as_str()), ("ok", "long"));
            assert_eq!(at, FINISHED);
        }
        _ => panic!("the end was expected to be recorded"),
    }
    match run.advance(ManualEvent::Closed { effect: EffectOutcome::Confirmed }) {
        Some(ManualRun::Over { end }) => {
            assert!(is_told(&end));
            let result = run_manual_job("job", FINISHED, end);
            assert!(result.success);
            assert_eq!(result.effect_outcome, EffectOutcome::Confirmed);
            assert_eq!(result.occurrence_id.as_deref(), Some("manual:1"));
            assert_eq!(result.output, "long output");
        }
        _ => panic!("the run was expected to be over"),
    }
}

#[test]
fn manual_runs_without_a_record_are_not_delivered() {
    let executed = || {
        ManualRun::Claiming
            .advance(ManualEvent::Admitted {
                claim: ManualClaim { job_id: "job".into(), occurrence_id: "manual:1".into() },
            })
            .and_then(|r| {
                r.advance(ManualEvent::Executed {
                    success: true,
                    output: "out".into(),
                    at: FINISHED,
                })
            })
            .unwrap()
    };
    match executed().advance(ManualEvent::NotRecorded { text: "lost".into() }) {
        Some(ManualRun::Over { end }) => {
            assert!(!is_told(&end));
            let result = run_manual_job("job", FINISHED, end);
            assert_eq!(result.output, "out\nlost");
            assert_eq!(result.effect_outcome, EffectOutcome::ReconciliationRequired);
        }
        _ => panic!("the run was expected to be over"),
    }
    assert!(executed()
        .advance(ManualEvent::Closed { effect: EffectOutcome::Confirmed })
        .is_none());
    assert!(ManualRun::Claiming.advance(ManualEvent::Recorded).is_none());
}

#[test]
fn failed_claims_tell_an_earlier_run_or_a_reason() {
    assert!(matches!(manual_steps::refusal(ClaimError::NoJob), Err(None)));
    assert!(matches!(manual_steps::refusal(ClaimError::Taken), Err(None)));
    assert!(matches!(manual_steps::refusal(ClaimError::Unreadable), Err(None)));
    assert!(matches!(
        manual_steps::refusal(ClaimError::Refused(ManualAdmissionError::InFlight)),
        Err(Some(ManualAdmissionError::InFlight))
    ));
    let receipt = DuplicateManualReceipt {
        occurrence_id: "manual:key:1".into(),
        execution: EffectOutcome::Confirmed,
        delivery: None,
        effect: EffectOutcome::Confirmed,
        output: "out".into(),
    };
    assert!(matches!(manual_steps::refusal(ClaimError::Duplicate(receipt)), Ok(r)
        if r.occurrence_id == "manual:key:1"));
}

#[test]
fn ledgers_that_contradict_themselves_are_found_out() {
    let occurrence = |id: &str| OccurrenceRow {
        id: id.into(),
        execution_state: "confirmed".into(),
        delivery_state: "not_requested".into(),
        output: None,
        updated_at: NOW.into(),
    };
    let mut l = ledger();
    l.occurrences = vec![occurrence("x"), occurrence("y")];
    assert!(l.is_well_formed());
    l.occurrences.push(occurrence("x"));
    assert!(!l.is_well_formed());
    let mut l = ledger();
    l.job_id = "other".into();
    assert!(!l.is_well_formed());
    l.job = None;
    assert!(l.is_well_formed());
}
