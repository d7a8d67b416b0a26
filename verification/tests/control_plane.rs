use zeroclaw_runtime::control_plane::authority::{
    is_authoritative, is_authoritative_with_pid_liveness, SignalProbe,
};
use zeroclaw_runtime::control_plane::task_recovery::{
    collect_skipping_bad_rows, column_is_missing, RawTaskRow,
};
use zeroclaw_runtime::control_plane::task_registry::{
    kind_from_db, kind_to_db, status_from_db, status_to_db, TaskKind, TaskRecord, TaskStatus,
};
use zeroclaw_runtime::control_plane::task_store::{
    schema_is_supported, StoreError, TaskTable, CONTROL_PLANE_SCHEMA_VERSION,
};

const NOW: &str = "2026-06-18T01:00:00Z";

fn task(id: &str, agent: &str, owner_pid: u32, boot: &str) -> TaskRecord {
    TaskRecord {
        id: id.into(),
        kind: TaskKind::Delegate,
        agent: agent.into(),
        status: TaskStatus::Running,
        owner_pid,
        owner_boot_id: boot.into(),
        heartbeat_at: None,
        depth: 0,
        parent_id: None,
        originator_route: None,
        delivered: false,
        idem_key: None,
        principal_id: None,
        started_at: "2026-06-18T00:00:00Z".into(),
        finished_at: None,
    }
}

fn dead(_: i32) -> SignalProbe {
    SignalProbe::NoSuchProcess
}

fn live(_: i32) -> SignalProbe {
    SignalProbe::Delivered
}

#[test]
fn prior_boot_is_reclaimable() {
    assert!(is_authoritative(&task("t", "main", 999_999, "boot-OLD"), "boot-NEW", dead));
}

#[test]
fn different_boot_with_live_owner_is_never_reclaimed() {
    assert!(!is_authoritative(&task("t", "main", 4711, "old"), "new", live));
    assert!(!is_authoritative_with_pid_liveness(&task("t", "main", 42, "old"), "new", |_| true));
    assert!(is_authoritative_with_pid_liveness(&task("t", "main", 42, "old"), "new", |_| false));
}

#[test]
fn unstamped_owner_is_reclaimable() {
    assert!(is_authoritative(&task("t", "main", 0, "boot-NOW"), "boot-NOW", live));
}

#[test]
fn live_same_boot_pid_is_not_reclaimed() {
    assert!(!is_authoritative(&task("t", "main", 4711, "boot-NOW"), "boot-NOW", live));
}

#[test]
fn unstamped_boot_id_with_live_pid_is_not_reclaimed() {
    assert!(!is_authoritative(&task("t", "main", 4711, ""), "boot-NEW", live));
}

#[test]
fn unstamped_boot_id_reclaims_only_when_pid_liveness_says_dead() {
    assert!(!is_authoritative_with_pid_liveness(&task("t", "main", 42, ""), "boot-NEW", |_| true));
    assert!(is_authoritative_with_pid_liveness(&task("t", "main", 42, ""), "boot-NEW", |_| false));
}

#[test]
fn probes_without_a_certain_answer_leave_the_owner_alone() {
    let unknown = |_: i32| SignalProbe::Unknown;
    assert!(!is_authoritative(&task("t", "main", 4711, "old"), "new", unknown));
    assert!(!is_authoritative(&task("t", "main", u32::MAX, "old"), "new", dead));
}

#[test]
fn legacy_status_values_still_parse() {
    for (name, want) in [
        ("running", TaskStatus::Running),
        ("paused", TaskStatus::Paused),
        ("completed", TaskStatus::Completed),
        ("failed", TaskStatus::Failed),
        ("cancelled", TaskStatus::Cancelled),
    ] {
        assert_eq!(status_from_db(name), Some(want), "legacy status {name} must parse");
    }
}

#[test]
fn goal_kind_roundtrips_snake_case() {
    assert_eq!(kind_to_db(TaskKind::Goal), "goal");
    assert_eq!(kind_from_db("goal"), Some(TaskKind::Goal));
}

#[test]
fn new_loss_states_roundtrip_snake_case() {
    for st in [TaskStatus::Lost, TaskStatus::TimedOut] {
        let s = status_to_db(st);
        assert!(s == "lost" || s == "timed_out", "got {s}");
        assert_eq!(status_from_db(s), Some(st));
        assert!(st.is_terminal());
    }
}

#[test]
fn paused_status_is_non_terminal() {
    assert!(!TaskStatus::Paused.is_terminal());
}

#[test]
fn future_schema_is_rejected_before_modification() {
    assert!(!schema_is_supported(10));
    assert!(schema_is_supported(CONTROL_PLANE_SCHEMA_VERSION));
    assert!(schema_is_supported(0));
}

#[test]
fn channel_lifecycle_is_atomic_ordered_and_acknowledged() {
    let mut store = TaskTable::new();
    let turn = || {
        let mut t = task("turn", "fixture", 0, "old");
        t.kind = TaskKind::ChannelTurn;
        t.status = TaskStatus::Received;
        t
    };
    assert_eq!(store.admit_channel_turn(turn(), "private input".into(), NOW), Ok(true));
    assert_eq!(store.admit_channel_turn(turn(), "replacement".into(), NOW), Ok(false));
    assert!(store
        .checkpoint_channel_turn("turn", TaskStatus::Delivered, None, true, false, NOW)
        .is_err());
    assert!(store.update_status("turn", TaskStatus::Completed, None, None, NOW).is_err());
    for state in [
        TaskStatus::Queued,
        TaskStatus::Running,
        TaskStatus::WaitingOnTool,
        TaskStatus::Running,
        TaskStatus::ResponseReady,
        TaskStatus::Submitting,
    ] {
        assert_eq!(
            store.checkpoint_channel_turn("turn", state, None, false, true, NOW),
            Ok(())
        );
    }
    assert_eq!(
        store.checkpoint_channel_turn("turn", TaskStatus::Delivered, None, false, true, NOW),
        Err(StoreError::InvalidDelivery)
    );
    assert!(store
        .checkpoint_channel_turn("turn", TaskStatus::Running, None, false, false, NOW)
        .is_err());
    assert_eq!(
        store.checkpoint_channel_turn(
            "turn",
            TaskStatus::Delivered,
            Some("response".into()),
            true,
            true,
            NOW
        ),
        Ok(())
    );
    assert!(store
        .checkpoint_channel_turn("turn", TaskStatus::Uncertain, None, false, false, NOW)
        .is_err());
    let record = store.get("turn").unwrap();
    assert!(record.delivered && record.finished_at.is_some());
    assert_eq!(record.status, TaskStatus::Delivered);
    assert_eq!(store.channel_turn_input("turn").as_deref(), Some("private input"));
    assert_eq!(
        store.events.len(),
        8,
        "rejected and duplicate changes must not create events"
    );
}

#[test]
fn create_get_roundtrip() {
    let mut s = TaskTable::new();
    s.create(task("a", "main", 1, "boot-1"));
    let got = s.get("a").unwrap();
    assert_eq!(got.id, "a");
    assert_eq!(got.kind, TaskKind::Delegate);
    assert_eq!(got.status, TaskStatus::Running);
    assert!(s.get("missing").is_none());
}

#[test]
fn update_status_sets_terminal_and_finished_at() {
    let mut s = TaskTable::new();
    s.create(task("a", "main", 1, "boot-1"));
    assert_eq!(
        s.update_status("a", TaskStatus::Completed, Some("done".into()), None, NOW),
        Ok(())
    );
    let got = s.get("a").unwrap();
    assert_eq!(got.status, TaskStatus::Completed);
    assert!(got.finished_at.is_some());
}

#[test]
fn list_running_and_by_agent() {
    let mut s = TaskTable::new();
    s.create(task("a", "main", 1, "b"));
    s.create(task("b", "main", 1, "b"));
    s.create(task("c", "other", 1, "b"));
    assert_eq!(s.update_status("b", TaskStatus::Completed, None, None, NOW), Ok(()));
    assert_eq!(s.list_running().len(), 2);
    assert_eq!(s.list_by_agent("main").len(), 2);
    assert_eq!(s.count_by_agent("main"), 2);
    assert_eq!(s.delete_by_agent("main"), 2);
    assert_eq!(s.count_by_agent("main"), 0);
    assert_eq!(s.count_by_agent("other"), 1);
}

#[test]
fn reconcile_lost_only_when_authoritative() {
    let mut s = TaskTable::new();
    s.create(task("orphan", "main", 999_999, "boot-OLD"));
    assert!(s.reconcile_lost("orphan", "boot-NEW", 4711, false, NOW));
    assert_eq!(s.get("orphan").unwrap().status, TaskStatus::Lost);
    s.create(task("live", "main", 4711, "boot-NEW"));
    assert!(!s.reconcile_lost("live", "boot-NEW", 4711, true, NOW));
    assert_eq!(s.get("live").unwrap().status, TaskStatus::Running);
    s.create(task("done", "main", 0, "boot-OLD"));
    assert_eq!(s.update_status("done", TaskStatus::Completed, None, None, NOW), Ok(()));
    assert!(!s.reconcile_lost("done", "boot-NEW", 4711, false, NOW));
}

#[test]
fn heartbeat_only_from_owner_boot() {
    let mut s = TaskTable::new();
    s.create(task("a", "main", 1, "boot-1"));
    s.heartbeat("a", "boot-OTHER", NOW);
    assert!(s.get("a").unwrap().heartbeat_at.is_none());
    s.heartbeat("a", "boot-1", NOW);
    assert_eq!(s.get("a").unwrap().heartbeat_at.as_deref(), Some(NOW));
}

#[test]
fn claim_owner_updates_canonical_owner_fields_for_resumed_task() {
    let mut s = TaskTable::new();
    s.create(task("a", "main", 1, "boot-old"));
    s.claim_owner("a", 42, "boot-new");
    let got = s.get("a").unwrap();
    assert_eq!(got.owner_pid, 42);
    assert_eq!(got.owner_boot_id, "boot-new");
    assert!(got.heartbeat_at.is_none());
}

#[test]
fn refused_requests_name_their_reason() {
    let mut s = TaskTable::new();
    assert_eq!(
        s.admit_channel_turn(task("a", "main", 1, "b"), "input".into(), NOW),
        Err(StoreError::InvalidChannelTurn)
    );
    assert_eq!(
        s.checkpoint_channel_turn("missing", TaskStatus::Queued, None, false, true, NOW),
        Err(StoreError::MissingTask)
    );
    s.create(task("plain", "main", 1, "b"));
    assert_eq!(
        s.checkpoint_channel_turn("plain", TaskStatus::Queued, None, false, true, NOW),
        Err(StoreError::NotChannelTurn)
    );
    assert_eq!(
        s.checkpoint_channel_turn(
            "plain",
            TaskStatus::Queued,
            Some("x".repeat(1_048_577)),
            false,
            true,
            NOW
        ),
        Err(StoreError::ResponseTooLarge)
    );
    let mut turn = task("turn", "main", 0, "b");
    turn.kind = TaskKind::ChannelTurn;
    turn.status = TaskStatus::Received;
    assert_eq!(s.admit_channel_turn(turn, "input".into(), NOW), Ok(true));
    assert_eq!(
        s.checkpoint_channel_turn("turn", TaskStatus::Running, None, false, false, NOW),
        Err(StoreError::IllegalTransition)
    );
    assert_eq!(
        s.update_status("turn", TaskStatus::Completed, None, None, NOW),
        Err(StoreError::CheckpointRequired)
    );
}

#[test]
fn recovery_hands_out_queued_turns_and_settles_the_others() {
    let mut s = TaskTable::new();
    for id in ["queued", "running"] {
        let mut turn = task(id, "main", 0, "boot-OLD");
        turn.kind = TaskKind::ChannelTurn;
        turn.status = TaskStatus::Received;
        assert_eq!(s.admit_channel_turn(turn, format!("input of {id}"), NOW), Ok(true));
        assert_eq!(
            s.checkpoint_channel_turn(id, TaskStatus::Queued, None, false, true, NOW),
            Ok(())
        );
    }
    assert_eq!(
        s.checkpoint_channel_turn("running", TaskStatus::Running, None, false, true, NOW),
        Ok(())
    );
    assert!(s.take_recoverable_channel_turns("boot-NEW", NOW).is_empty());
    assert!(s.reconcile_lost("queued", "boot-NEW", 4711, false, NOW));
    assert!(s.reconcile_lost("running", "boot-NEW", 4711, false, NOW));
    let recovered = s.take_recoverable_channel_turns("boot-NEW", NOW);
    assert_eq!(recovered, vec![("queued".to_string(), "input of queued".to_string())]);
    assert!(s.get("running").unwrap().status.is_terminal());
}

#[test]
fn malformed_rows_are_left_out() {
    let raw = |id: &str, kind: &str, status: &str| RawTaskRow {
        id: id.into(),
        kind: kind.into(),
        agent: "main".into(),
        status: status.into(),
        owner_pid: 7,
        owner_boot_id: "b".into(),
        heartbeat_at: None,
        depth: 1,
        parent_id: None,
        originator_route: None,
        delivered: 0,
        idem_key: None,
        principal_id: None,
        started_at: "2026-06-18T00:00:00Z".into(),
        finished_at: None,
    };
    let kept = collect_skipping_bad_rows(vec![
        raw("a", "delegate", "running"),
        raw("b", "unknown-kind", "running"),
        raw("c", "goal", "unknown-status"),
        raw("d", "goal", "timed_out"),
    ]);
    assert_eq!(kept.len(), 2);
    assert_eq!(kept[0].id, "a");
    assert_eq!(kept[1].id, "d");
    assert_eq!(kept[1].status, TaskStatus::TimedOut);
    assert!(column_is_missing(&["id", "kind"], "depth"));
    assert!(!column_is_missing(&["id", "depth"], "depth"));
}

#[test]
fn tables_that_contradict_themselves_are_found_out() {
    let mut t = TaskTable::new();
    assert!(t.is_well_formed());
    t.create(task("a", "main", 1, "boot"));
    t.create(task("b", "main", 1, "boot"));
    t.inputs.push(("b".into(), "hello".into()));
    assert!(t.is_well_formed());
    t.inputs.push(("c".into(), "lost".into()));
    assert!(!t.is_well_formed());
    t.inputs.pop();
    t.rows[1].record.id = "a".into();
    t.inputs.clear();
    assert!(!t.is_well_formed());
}
