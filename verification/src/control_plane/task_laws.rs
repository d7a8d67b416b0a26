//! What holds of the task table, told by the rows before and after each change.

use crate::control_plane::authority::{
    is_authoritative, is_authoritative_with_pid_liveness, pid_is_alive, SignalProbe,
};
use crate::control_plane::task_registry::{
    kind_from_db, kind_to_db, status_from_db, status_to_db, TaskKind, TaskRecord, TaskStatus,
};
use crate::control_plane::task_registry;
use crate::control_plane::task_store;
use crate::control_plane::task_store::{
    schema_is_supported, StoreError, TaskRow, TaskTable, TurnEvent,
};
use crate::text;
use crate::turn::tool;
use vstd::prelude::*;
use vstd::string::*;

verus! {

/// The states in which nothing more happens to a task.
pub open spec fn over(s: TaskStatus) -> bool {
    match s {
        TaskStatus::Completed | TaskStatus::Delivered | TaskStatus::Failed
        | TaskStatus::Cancelled | TaskStatus::Lost | TaskStatus::TimedOut
        | TaskStatus::PartiallyDelivered | TaskStatus::Uncertain => true,
        TaskStatus::Received | TaskStatus::Queued | TaskStatus::Running | TaskStatus::Paused
        | TaskStatus::WaitingOnTool | TaskStatus::ResponseReady | TaskStatus::Submitting => false,
    }
}

/// Whether two optional texts read the same.
pub open spec fn same_text(a: Option<String>, b: Option<String>) -> bool {
    match (a, b) {
        (Some(x), Some(y)) => x@ == y@,
        (None, None) => true,
        _ => false,
    }
}

/// Whether two records agree in everything that identifies a task: what no change
/// of its state touches.
pub open spec fn same_task(a: TaskRecord, b: TaskRecord) -> bool {
    &&& a.id@ == b.id@
    &&& a.kind == b.kind
    &&& a.depth == b.depth
    &&& same_text(a.parent_id, b.parent_id)
    &&& same_text(a.originator_route, b.originator_route)
    &&& same_text(a.idem_key, b.idem_key)
    &&& same_text(a.principal_id, b.principal_id)
    &&& a.started_at@ == b.started_at@
}

/// Whether two records have one owner.
pub open spec fn same_owner(a: TaskRecord, b: TaskRecord) -> bool {
    &&& a.owner_pid == b.owner_pid
    &&& a.owner_boot_id@ == b.owner_boot_id@
    &&& same_text(a.heartbeat_at, b.heartbeat_at)
}

/// Whether two rows read the same.
pub open spec fn same_row(a: TaskRow, b: TaskRow) -> bool {
    &&& same_task(a.record, b.record)
    &&& same_owner(a.record, b.record)
    &&& a.record.agent@ == b.record.agent@
    &&& a.record.status == b.record.status
    &&& a.record.delivered == b.record.delivered
    &&& same_text(a.record.finished_at, b.record.finished_at)
    &&& same_text(a.output, b.output)
    &&& same_text(a.error, b.error)
}

/// Whether the rows other than the one at `i` read the same.
pub open spec fn same_others(a: Seq<TaskRow>, b: Seq<TaskRow>, i: int) -> bool {
    &&& a.len() == b.len()
    &&& forall|j: int| 0 <= j < a.len() && j != i ==> same_row(#[trigger] a[j], b[j])
}

/// Whether two events read the same.
pub open spec fn same_event(a: TurnEvent, b: TurnEvent) -> bool {
    &&& a.task_id@ == b.task_id@
    &&& a.state == b.state
    &&& a.recorded_at@ == b.recorded_at@
    &&& a.delivered == b.delivered
    &&& a.response_bytes == b.response_bytes
}

/// Whether two lists of events read the same.
pub open spec fn same_events(a: Seq<TurnEvent>, b: Seq<TurnEvent>) -> bool {
    &&& a.len() == b.len()
    &&& forall|j: int| 0 <= j < a.len() ==> same_event(#[trigger] a[j], b[j])
}

/// Whether two lists of inputs read the same.
pub open spec fn same_inputs(a: Seq<(String, String)>, b: Seq<(String, String)>) -> bool {
    &&& a.len() == b.len()
    &&& forall|j: int| 0 <= j < a.len() ==> (#[trigger] a[j]).0@ == b[j].0@ && a[j].1@ == b[j].1@
}

/// Whether two tables read the same.
pub open spec fn same_table(a: TaskTable, b: TaskTable) -> bool {
    &&& same_others(a.rows@, b.rows@, -1)
    &&& same_inputs(a.inputs@, b.inputs@)
    &&& same_events(a.events@, b.events@)
}

/// Whether `b` has one event more than `a`, with this state and what else is given.
pub open spec fn one_event_more(
    a: Seq<TurnEvent>,
    b: Seq<TurnEvent>,
    id: Seq<char>,
    state: TaskStatus,
    now: Seq<char>,
    delivered: bool,
    response_bytes: nat,
) -> bool {
    &&& b.len() == a.len() + 1
    &&& same_events(a, b.drop_last())
    &&& b.last().task_id@ == id
    &&& b.last().state == state
    &&& b.last().recorded_at@ == now
    &&& b.last().delivered == delivered
    &&& b.last().response_bytes == response_bytes
}

/// Rows read the same exactly if they have one model.
pub proof fn lemma_row(a: TaskRow, b: TaskRow)
    ensures
        a@ == b@ <==> same_row(a, b),
{
    assert(same_row(a, b) ==> a@.record == b@.record);
}

/// Events read the same exactly if they have one model.
pub proof fn lemma_event(a: TurnEvent, b: TurnEvent)
    ensures
        a@ == b@ <==> same_event(a, b),
{
}

proof fn lemma_others(a: Seq<TaskRow>, b: Seq<TaskRow>, i: int)
    requires
        a.len() == b.len(),
        forall|j: int|
            0 <= j < a.len() && j != i ==> task_store::row_views(a)[j] == #[trigger]
                task_store::row_views(b)[j],
    ensures
        same_others(a, b, i),
{
    assert forall|j: int| 0 <= j < a.len() && j != i implies same_row(#[trigger] a[j], b[j]) by {
        assert(task_store::row_views(a)[j] == task_store::row_views(b)[j]);
        lemma_row(a[j], b[j]);
    }
}

/// Inputs with one model read the same.
pub proof fn lemma_inputs(a: Seq<(String, String)>, b: Seq<(String, String)>)
    requires
        task_store::input_views(a) == task_store::input_views(b),
    ensures
        same_inputs(a, b),
{
    assert(task_store::input_views(a).len() == a.len());
    assert(task_store::input_views(b).len() == b.len());
    assert forall|j: int| 0 <= j < a.len() implies (#[trigger] a[j]).0@ == b[j].0@ && a[j].1@
        == b[j].1@ by {
        assert(task_store::input_views(a)[j] == task_store::input_views(b)[j]);
    }
}

proof fn lemma_events(a: Seq<TurnEvent>, b: Seq<TurnEvent>)
    requires
        task_store::event_views(a) == task_store::event_views(b),
    ensures
        same_events(a, b),
{
    assert(task_store::event_views(a).len() == a.len());
    assert(task_store::event_views(b).len() == b.len());
    assert forall|j: int| 0 <= j < a.len() implies same_event(#[trigger] a[j], b[j]) by {
        assert(task_store::event_views(a)[j] == a[j]@);
        assert(task_store::event_views(b)[j] == b[j]@);
        lemma_event(a[j], b[j]);
    }
}

proof fn lemma_table(a: TaskTable, b: TaskTable)
    requires
        a@ == b@,
    ensures
        same_table(a, b),
{
    assert(a@.rows.len() == a.rows@.len());
    assert(b@.rows.len() == b.rows@.len());
    lemma_others(a.rows@, b.rows@, -1);
    lemma_inputs(a.inputs@, b.inputs@);
    lemma_events(a.events@, b.events@);
}

proof fn lemma_one_more(
    a: Seq<TurnEvent>,
    b: Seq<TurnEvent>,
    id: Seq<char>,
    state: TaskStatus,
    now: Seq<char>,
    delivered: bool,
    response_bytes: nat,
)
    requires
        task_store::event_views(b) == task_store::event_views(a).push(
            task_store::new_event(id, state, now, delivered, response_bytes),
        ),
    ensures
        one_event_more(a, b, id, state, now, delivered, response_bytes),
{
    let va = task_store::event_views(a);
    let vb = task_store::event_views(b);
    assert(va.len() == a.len());
    assert(vb.len() == b.len());
    assert(vb.len() == va.len() + 1);
    assert forall|j: int| 0 <= j < a.len() implies #[trigger] va[j] == b.drop_last()[j]@ by {
        assert(vb[j] == va[j]);
        assert(vb[j] == b[j]@);
    }
    assert(vb[b.len() - 1] == b.last()@);
    assert(task_store::event_views(b.drop_last()) =~= va);
    lemma_events(a, b.drop_last());
}

/// Where the only row with an id stands.
pub proof fn lemma_at(t: TaskTable, id: Seq<char>, i: int)
    requires
        task_store::well_formed(t@),
        0 <= i < t.rows@.len(),
        t.rows@[i].record.id@ == id,
    ensures
        task_store::find(t@.rows, id) == Some(i),
        t@.rows[i] == t.rows@[i]@,
{
    assert(t@.rows[i] == t.rows@[i]@);
    assert forall|j: int| 0 <= j < i implies (#[trigger] t@.rows[j]).record.id != id by {
        assert(t@.rows[j].record.id != t@.rows[i].record.id);
    }
    task_store::lemma_found_at(t@.rows, id, i);
}

/// No row with an id that is not found.
proof fn lemma_nowhere(t: TaskTable, id: Seq<char>)
    ensures
        task_store::find(t@.rows, id) is None <==> forall|j: int|
            0 <= j < t.rows@.len() ==> (#[trigger] t.rows@[j]).record.id@ != id,
{
    task_store::lemma_find(t@.rows, id);
    assert forall|j: int| 0 <= j < t.rows@.len() implies #[trigger] t.rows@[j]@ == t@.rows[j] by {}
    if task_store::find(t@.rows, id) is Some {
        let i = task_store::find(t@.rows, id)->0;
        assert(t.rows@[i]@ == t@.rows[i]);
    } else {
        assert forall|j: int| 0 <= j < t.rows@.len() implies (#[trigger] t.rows@[j]).record.id@
            != id by {
            assert(t.rows@[j]@ == t@.rows[j]);
        }
    }
}

/// Which states are final, and in which a task is worked on.
pub proof fn law_final_states(s: TaskStatus, done: bool, active: bool)
    requires
        call_ensures(TaskStatus::is_terminal, (&s,), done),
        call_ensures(TaskStatus::is_active, (&s,), active),
    ensures
        done <==> over(s),
        active <==> !over(s) && !(s is Paused),
{
}

/// A task is given up exactly if it is not over and its owner is dead. A channel
/// turn that waits in the queue never started and stays there, under this process,
/// for a restart. Any other channel turn ends as uncertain, never as a success; any
/// other task ends as lost. A turn's last event tells its new state.
pub proof fn law_what_a_dead_owner_leaves_behind(
    t: &mut TaskTable,
    id: &str,
    boot: &str,
    own_pid: u32,
    alive: bool,
    now: &str,
    r: bool,
    i: int,
)
    requires
        task_store::well_formed(old(t)@),
        0 <= i < old(t).rows@.len(),
        old(t).rows@[i].record.id@ == id@,
        call_ensures(TaskTable::reconcile_lost, (t, id, boot, own_pid, alive, now), r),
    ensures
        r <==> !alive && !over(old(t).rows@[i].record.status),
        !r ==> same_table(*old(t), *final(t)),
        r ==> {
            let before = old(t).rows@[i];
            let after = final(t).rows@[i];
            let turn = before.record.kind is ChannelTurn;
            let queued = before.record.status is Queued;
            &&& turn && queued ==> after.record.status is Queued
            &&& turn && !queued ==> after.record.status is Uncertain
            &&& !turn ==> after.record.status is Lost
            &&& turn && queued ==> after.record.finished_at is None
            &&& !(turn && queued) ==> (after.record.finished_at matches Some(end) && end@ == now@)
            &&& turn && queued ==> (after.error matches Some(e) && e@ == "restart_pending"@)
            &&& turn && !queued ==> (after.error matches Some(e) && e@
                == "restart_reconciliation_required"@)
            &&& !turn ==> same_text(before.error, after.error)
            &&& turn ==> after.record.owner_pid == own_pid && after.record.owner_boot_id@ == boot@
            &&& !turn ==> same_owner(before.record, after.record)
            &&& same_text(before.record.heartbeat_at, after.record.heartbeat_at)
            &&& same_task(before.record, after.record)
            &&& before.record.agent@ == after.record.agent@
            &&& before.record.delivered == after.record.delivered
            &&& same_text(before.output, after.output)
            &&& same_others(old(t).rows@, final(t).rows@, i)
            &&& same_inputs(old(t).inputs@, final(t).inputs@)
            &&& turn ==> one_event_more(
                old(t).events@,
                final(t).events@,
                id@,
                after.record.status,
                now@,
                false,
                0,
            )
            &&& !turn ==> same_events(old(t).events@, final(t).events@)
        },
{
    lemma_at(*old(t), id@, i);
    if r {
        let before = old(t)@;
        let after = final(t)@;
        assert(after.rows.len() == before.rows.len());
        assert(after.rows[i] == final(t).rows@[i]@);
        lemma_others(old(t).rows@, final(t).rows@, i);
        lemma_inputs(old(t).inputs@, final(t).inputs@);
        if old(t).rows@[i].record.kind is ChannelTurn {
            lemma_one_more(
                old(t).events@,
                final(t).events@,
                id@,
                final(t).rows@[i].record.status,
                now@,
                false,
                0,
            );
        } else {
            lemma_events(old(t).events@, final(t).events@);
        }
    } else {
        lemma_table(*old(t), *final(t));
    }
}

/// An unknown id is nothing to give up.
pub proof fn law_unknown_tasks_are_not_given_up(
    t: &mut TaskTable,
    id: &str,
    boot: &str,
    own_pid: u32,
    alive: bool,
    now: &str,
    r: bool,
)
    requires
        task_store::well_formed(old(t)@),
        forall|j: int|
            0 <= j < old(t).rows@.len() ==> (#[trigger] old(t).rows@[j]).record.id@ != id@,
        call_ensures(TaskTable::reconcile_lost, (t, id, boot, own_pid, alive, now), r),
    ensures
        !r,
        same_table(*old(t), *final(t)),
{
    lemma_nowhere(*old(t), id@);
    lemma_table(*old(t), *final(t));
}

/// How kinds are written in storage, and that they are read back.
pub proof fn law_kinds_are_read_back(k: TaskKind, name: &'static str, r: Option<TaskKind>)
    requires
        call_ensures(kind_to_db, (k,), name),
        call_ensures(kind_from_db, (name,), r),
    ensures
        r == Some(k),
        name@ == (match k {
            TaskKind::Delegate => "delegate"@,
            TaskKind::Subagent => "subagent"@,
            TaskKind::Goal => "goal"@,
            TaskKind::PeerInbox => "peer_inbox"@,
            TaskKind::ChannelTurn => "channel_turn"@,
        }),
{
    if let Some(other) = r {
        task_registry::law_kind_names_are_distinct(k, other);
    }
}

/// How states are written in storage, and that they are read back.
pub proof fn law_states_are_read_back(s: TaskStatus, name: &'static str, r: Option<TaskStatus>)
    requires
        call_ensures(status_to_db, (s,), name),
        call_ensures(status_from_db, (name,), r),
    ensures
        r == Some(s),
        name@ == (match s {
            TaskStatus::Received => "received"@,
            TaskStatus::Queued => "queued"@,
            TaskStatus::Running => "running"@,
            TaskStatus::Paused => "paused"@,
            TaskStatus::WaitingOnTool => "waiting_on_tool"@,
            TaskStatus::ResponseReady => "response_ready"@,
            TaskStatus::Submitting => "submitting"@,
            TaskStatus::Completed => "completed"@,
            TaskStatus::Delivered => "delivered"@,
            TaskStatus::Failed => "failed"@,
            TaskStatus::Cancelled => "cancelled"@,
            TaskStatus::Lost => "lost"@,
            TaskStatus::TimedOut => "timed_out"@,
            TaskStatus::PartiallyDelivered => "partially_delivered"@,
            TaskStatus::Uncertain => "uncertain"@,
        }),
{
    if let Some(other) = r {
        task_registry::law_status_names_are_distinct(s, other);
    }
}

/// A name that is read is one that would be written.
pub proof fn law_unknown_names_are_not_read(
    name: &str,
    kind: Option<TaskKind>,
    status: Option<TaskStatus>,
    k: TaskKind,
    kind_text: &'static str,
    s: TaskStatus,
    status_text: &'static str,
)
    requires
        call_ensures(kind_from_db, (name,), kind),
        call_ensures(status_from_db, (name,), status),
        call_ensures(kind_to_db, (k,), kind_text),
        call_ensures(status_to_db, (s,), status_text),
    ensures
        kind == Some(k) <==> name@ == kind_text@,
        status == Some(s) <==> name@ == status_text@,
{
    if let Some(other) = kind {
        if name@ == kind_text@ {
            task_registry::law_kind_names_are_distinct(k, other);
        }
    }
    if let Some(other) = status {
        if name@ == status_text@ {
            task_registry::law_status_names_are_distinct(s, other);
        }
    }
}

/// Storage of the ninth layout and of any older one can be opened, no newer one.
pub proof fn law_newer_storage_is_refused(version: i64, r: bool)
    requires
        call_ensures(schema_is_supported, (version,), r),
    ensures
        r <==> version <= 9,
{
}

/// A task that is registered can be found; its row has neither output nor error. A
/// known id changes nothing, and nothing else changes.
pub proof fn law_registered_tasks_are_found(t: &mut TaskTable, rec: TaskRecord)
    requires
        task_store::well_formed(old(t)@),
        call_ensures(TaskTable::create, (t, rec), ()),
    ensures
        ({
            let n = old(t).rows@.len() as int;
            let known = exists|i: int|
                0 <= i < n && (#[trigger] old(t).rows@[i]).record.id@ == rec.id@;
            &&& known ==> same_table(*old(t), *final(t))
            &&& !known ==> {
                &&& final(t).rows@.len() == n + 1
                &&& same_others(old(t).rows@, final(t).rows@.drop_last(), -1)
                &&& same_row(
                    final(t).rows@[n],
                    (TaskRow { record: rec, output: None, error: None }),
                )
                &&& same_inputs(old(t).inputs@, final(t).inputs@)
                &&& same_events(old(t).events@, final(t).events@)
            }
        }),
{
    let n = old(t).rows@.len() as int;
    lemma_nowhere(*old(t), rec.id@);
    if task_store::find(old(t)@.rows, rec.id@) is Some {
        lemma_table(*old(t), *final(t));
    } else {
        lemma_one_row_more(*old(t), *final(t), rec);
        lemma_inputs(old(t).inputs@, final(t).inputs@);
        lemma_events(old(t).events@, final(t).events@);
    }
}

proof fn lemma_one_row_more(a: TaskTable, b: TaskTable, rec: TaskRecord)
    requires
        b@.rows == a@.rows.push(task_store::new_row(rec@)),
    ensures
        b.rows@.len() == a.rows@.len() + 1,
        same_others(a.rows@, b.rows@.drop_last(), -1),
        same_row(
            b.rows@[a.rows@.len() as int],
            (TaskRow { record: rec, output: None, error: None }),
        ),
{
    let n = a.rows@.len() as int;
    assert(a@.rows.len() == n);
    assert(b@.rows.len() == b.rows@.len());
    assert(b@.rows[n] == b.rows@[n]@);
    let fresh = TaskRow { record: rec, output: None, error: None };
    assert(fresh@ == task_store::new_row(rec@));
    lemma_row(b.rows@[n], fresh);
    let init = b.rows@.drop_last();
    assert forall|j: int| 0 <= j < n implies task_store::row_views(a.rows@)[j] == #[trigger]
        task_store::row_views(init)[j] by {
        assert(b@.rows[j] == b.rows@[j]@);
        assert(task_store::row_views(init)[j] == init[j]@);
    }
    lemma_others(a.rows@, init, -1);
}

/// A channel turn is admitted exactly if it has an id, is one that was just
/// received, its input has at most a mebibyte, and its id is new. It then stands in
/// the table with its input and one event; otherwise nothing changes.
pub proof fn law_who_is_admitted(
    t: &mut TaskTable,
    rec: TaskRecord,
    input: String,
    now: &str,
    r: Result<bool, StoreError>,
)
    requires
        task_store::well_formed(old(t)@),
        call_ensures(TaskTable::admit_channel_turn, (t, rec, input, now), r),
    ensures
        ({
            let n = old(t).rows@.len() as int;
            let known = exists|i: int|
                0 <= i < n && (#[trigger] old(t).rows@[i]).record.id@ == rec.id@;
            let fit = rec.kind is ChannelTurn && rec.status is Received && rec.id@.len() > 0
                && text::byte_len(input@) <= 1048576;
            &&& !fit ==> r == Err::<bool, StoreError>(StoreError::InvalidChannelTurn)
            &&& fit && known ==> r == Ok::<bool, StoreError>(false)
            &&& fit && !known ==> r == Ok::<bool, StoreError>(true)
            &&& !fit || known ==> same_table(*old(t), *final(t))
            &&& fit && !known ==> {
                let m = old(t).inputs@.len() as int;
                &&& final(t).rows@.len() == n + 1
                &&& same_others(old(t).rows@, final(t).rows@.drop_last(), -1)
                &&& same_row(
                    final(t).rows@[n],
                    (TaskRow { record: rec, output: None, error: None }),
                )
                &&& final(t).inputs@.len() == m + 1
                &&& same_inputs(old(t).inputs@, final(t).inputs@.drop_last())
                &&& final(t).inputs@[m].0@ == rec.id@
                &&& final(t).inputs@[m].1@ == input@
                &&& one_event_more(
                    old(t).events@,
                    final(t).events@,
                    rec.id@,
                    TaskStatus::Received,
                    now@,
                    false,
                    0,
                )
            }
        }),
{
    let n = old(t).rows@.len() as int;
    let m = old(t).inputs@.len() as int;
    lemma_nowhere(*old(t), rec.id@);
    if r == Ok::<bool, StoreError>(true) {
        lemma_one_row_more(*old(t), *final(t), rec);
        lemma_one_more(
            old(t).events@,
            final(t).events@,
            rec.id@,
            TaskStatus::Received,
            now@,
            false,
            0,
        );
        let va = old(t)@.inputs;
        let vb = final(t)@.inputs;
        assert(va.len() == m);
        assert(vb.len() == final(t).inputs@.len());
        assert(vb[m] == (final(t).inputs@[m].0@, final(t).inputs@[m].1@));
        let init = final(t).inputs@.drop_last();
        assert forall|j: int| 0 <= j < m implies #[trigger] va[j]
            == task_store::input_views(init)[j] by {
            assert(vb[j] == va[j]);
            assert(vb[j] == (init[j].0@, init[j].1@));
        }
        assert(task_store::input_views(init) =~= va);
        lemma_inputs(old(t).inputs@, init);
    } else {
        lemma_table(*old(t), *final(t));
    }
}

/// A checkpoint moves a channel turn that is not over to a permitted state. A turn
/// is delivered exactly in the state of that name; a response has at most a
/// mebibyte and replaces the one before; the end is stamped in a final state; one
/// event is added. A refused checkpoint changes nothing.
pub proof fn law_checkpoints_move_turns(
    t: &mut TaskTable,
    id: &str,
    status: TaskStatus,
    output: Option<String>,
    delivered: bool,
    permitted: bool,
    now: &str,
    r: Result<(), StoreError>,
    i: int,
)
    requires
        task_store::well_formed(old(t)@),
        0 <= i < old(t).rows@.len(),
        old(t).rows@[i].record.id@ == id@,
        call_ensures(
            TaskTable::checkpoint_channel_turn,
            (t, id, status, output, delivered, permitted, now),
            r,
        ),
    ensures
        ({
            let before = old(t).rows@[i];
            let after = final(t).rows@[i];
            let size: nat = match output {
                Some(s) => text::byte_len(s@),
                None => 0,
            };
            &&& r is Ok <==> delivered == (status is Delivered) && size <= 1048576
                && before.record.kind is ChannelTurn && permitted && !over(before.record.status)
            &&& delivered != (status is Delivered) ==> r == Err::<(), _>(
                StoreError::InvalidDelivery,
            )
            &&& delivered == (status is Delivered) && size > 1048576 ==> r == Err::<(), _>(
                StoreError::ResponseTooLarge,
            )
            &&& delivered == (status is Delivered) && size <= 1048576 ==> {
                let turn = before.record.kind is ChannelTurn;
                &&& !turn ==> r == Err::<(), _>(StoreError::NotChannelTurn)
                &&& turn && !permitted ==> r == Err::<(), _>(StoreError::IllegalTransition)
                &&& turn && permitted && over(before.record.status) ==> r == Err::<(), _>(
                    StoreError::AlreadyTerminal,
                )
            }
            &&& r is Err ==> same_table(*old(t), *final(t))
            &&& r is Ok ==> {
                &&& after.record.status == status
                &&& after.record.delivered <==> status is Delivered
                &&& over(status) ==> (after.record.finished_at matches Some(end) && end@ == now@)
                &&& !over(status) ==> same_text(
                    before.record.finished_at,
                    after.record.finished_at,
                )
                &&& output is Some ==> same_text(output, after.output)
                &&& output is None ==> same_text(before.output, after.output)
                &&& same_text(before.error, after.error)
                &&& same_task(before.record, after.record)
                &&& same_owner(before.record, after.record)
                &&& before.record.agent@ == after.record.agent@
                &&& same_others(old(t).rows@, final(t).rows@, i)
                &&& same_inputs(old(t).inputs@, final(t).inputs@)
                &&& one_event_more(
                    old(t).events@,
                    final(t).events@,
                    id@,
                    status,
                    now@,
                    delivered,
                    size,
                )
            }
        }),
{
    lemma_at(*old(t), id@, i);
    if r is Ok {
        assert(final(t)@.rows.len() == old(t)@.rows.len());
        assert(final(t)@.rows[i] == final(t).rows@[i]@);
        lemma_others(old(t).rows@, final(t).rows@, i);
        lemma_inputs(old(t).inputs@, final(t).inputs@);
        let size: nat = match output {
            Some(s) => text::byte_len(s@),
            None => 0,
        };
        lemma_one_more(
            old(t).events@,
            final(t).events@,
            id@,
            status,
            now@,
            delivered,
            size,
        );
    } else {
        lemma_table(*old(t), *final(t));
    }
}

/// An unknown turn has no checkpoint.
pub proof fn law_unknown_turns_have_no_checkpoint(
    t: &mut TaskTable,
    id: &str,
    status: TaskStatus,
    output: Option<String>,
    delivered: bool,
    permitted: bool,
    now: &str,
    r: Result<(), StoreError>,
)
    requires
        task_store::well_formed(old(t)@),
        forall|j: int|
            0 <= j < old(t).rows@.len() ==> (#[trigger] old(t).rows@[j]).record.id@ != id@,
        call_ensures(
            TaskTable::checkpoint_channel_turn,
            (t, id, status, output, delivered, permitted, now),
            r,
        ),
    ensures
        r is Err,
        delivered == (status is Delivered) && output is None ==> r == Err::<(), _>(
            StoreError::MissingTask,
        ),
        same_table(*old(t), *final(t)),
{
    lemma_nowhere(*old(t), id@);
    lemma_table(*old(t), *final(t));
}

/// A turn is bound to an agent exactly while it is one that this run received and
/// nobody has worked on. Only its agent changes.
pub proof fn law_received_turns_are_bound(
    t: &mut TaskTable,
    id: &str,
    agent: &str,
    boot: &str,
    r: Result<(), StoreError>,
    i: int,
)
    requires
        task_store::well_formed(old(t)@),
        0 <= i < old(t).rows@.len(),
        old(t).rows@[i].record.id@ == id@,
        call_ensures(TaskTable::assign_channel_turn, (t, id, agent, boot), r),
    ensures
        ({
            let before = old(t).rows@[i];
            let after = final(t).rows@[i];
            &&& r is Ok <==> before.record.kind is ChannelTurn && before.record.status is Received
                && before.record.owner_boot_id@ == boot@
            &&& r is Err ==> r == Err::<(), _>(StoreError::NotRoutable) && same_table(
                *old(t),
                *final(t),
            )
            &&& r is Ok ==> {
                &&& after.record.agent@ == agent@
                &&& after.record.status is Received
                &&& same_task(before.record, after.record)
                &&& same_owner(before.record, after.record)
                &&& before.record.delivered == after.record.delivered
                &&& same_text(before.record.finished_at, after.record.finished_at)
                &&& same_text(before.output, after.output)
                &&& same_text(before.error, after.error)
                &&& same_others(old(t).rows@, final(t).rows@, i)
                &&& same_inputs(old(t).inputs@, final(t).inputs@)
                &&& same_events(old(t).events@, final(t).events@)
            }
        }),
{
    lemma_at(*old(t), id@, i);
    if r is Ok {
        assert(final(t)@.rows.len() == old(t)@.rows.len());
        assert(final(t)@.rows[i] == final(t).rows@[i]@);
        lemma_others(old(t).rows@, final(t).rows@, i);
        lemma_inputs(old(t).inputs@, final(t).inputs@);
        lemma_events(old(t).events@, final(t).events@);
    } else {
        lemma_table(*old(t), *final(t));
    }
}

/// An unknown turn cannot be bound.
pub proof fn law_unknown_turns_are_not_bound(
    t: &mut TaskTable,
    id: &str,
    agent: &str,
    boot: &str,
    r: Result<(), StoreError>,
)
    requires
        task_store::well_formed(old(t)@),
        forall|j: int|
            0 <= j < old(t).rows@.len() ==> (#[trigger] old(t).rows@[j]).record.id@ != id@,
        call_ensures(TaskTable::assign_channel_turn, (t, id, agent, boot), r),
    ensures
        r == Err::<(), _>(StoreError::NotRoutable),
        same_table(*old(t), *final(t)),
{
    lemma_nowhere(*old(t), id@);
    lemma_table(*old(t), *final(t));
}

/// Only the run that owns a task can stamp its heartbeat, and nothing else changes.
pub proof fn law_owners_stamp_heartbeats(
    t: &mut TaskTable,
    id: &str,
    boot: &str,
    now: &str,
    i: int,
)
    requires
        task_store::well_formed(old(t)@),
        0 <= i < old(t).rows@.len(),
        old(t).rows@[i].record.id@ == id@,
        call_ensures(TaskTable::heartbeat, (t, id, boot, now), ()),
    ensures
        ({
            let before = old(t).rows@[i];
            let after = final(t).rows@[i];
            let owner = before.record.owner_boot_id@ == boot@;
            &&& !owner ==> same_table(*old(t), *final(t))
            &&& owner ==> {
                &&& after.record.heartbeat_at matches Some(h) && h@ == now@
                &&& after.record.owner_pid == before.record.owner_pid
                &&& after.record.owner_boot_id@ == boot@
                &&& after.record.status == before.record.status
                &&& after.record.agent@ == before.record.agent@
                &&& after.record.delivered == before.record.delivered
                &&& same_text(before.record.finished_at, after.record.finished_at)
                &&& same_task(before.record, after.record)
                &&& same_text(before.output, after.output)
                &&& same_text(before.error, after.error)
                &&& same_others(old(t).rows@, final(t).rows@, i)
                &&& same_inputs(old(t).inputs@, final(t).inputs@)
                &&& same_events(old(t).events@, final(t).events@)
            }
        }),
{
    lemma_at(*old(t), id@, i);
    if old(t).rows@[i].record.owner_boot_id@ == boot@ {
        assert(final(t)@.rows.len() == old(t)@.rows.len());
        assert(final(t)@.rows[i] == final(t).rows@[i]@);
        lemma_others(old(t).rows@, final(t).rows@, i);
        lemma_inputs(old(t).inputs@, final(t).inputs@);
        lemma_events(old(t).events@, final(t).events@);
    } else {
        lemma_table(*old(t), *final(t));
    }
}

/// A task that is neither over nor a channel turn moves to any state. Output and
/// error are replaced only by new ones, and the end is stamped in a final state. A
/// channel turn is refused; neither it nor a task that is over changes.
pub proof fn law_tasks_move_until_they_are_over(
    t: &mut TaskTable,
    id: &str,
    status: TaskStatus,
    output: Option<String>,
    error: Option<String>,
    now: &str,
    r: Result<(), StoreError>,
    i: int,
)
    requires
        task_store::well_formed(old(t)@),
        0 <= i < old(t).rows@.len(),
        old(t).rows@[i].record.id@ == id@,
        call_ensures(TaskTable::update_status, (t, id, status, output, error, now), r),
    ensures
        ({
            let before = old(t).rows@[i];
            let after = final(t).rows@[i];
            let turn = before.record.kind is ChannelTurn;
            &&& turn ==> r == Err::<(), _>(StoreError::CheckpointRequired)
            &&& !turn ==> r is Ok
            &&& turn || over(before.record.status) ==> same_table(*old(t), *final(t))
            &&& !turn && !over(before.record.status) ==> {
                &&& after.record.status == status
                &&& over(status) ==> (after.record.finished_at matches Some(end) && end@ == now@)
                &&& !over(status) ==> same_text(
                    before.record.finished_at,
                    after.record.finished_at,
                )
                &&& output is Some ==> same_text(output, after.output)
                &&& output is None ==> same_text(before.output, after.output)
                &&& error is Some ==> same_text(error, after.error)
                &&& error is None ==> same_text(before.error, after.error)
                &&& same_task(before.record, after.record)
                &&& same_owner(before.record, after.record)
                &&& before.record.agent@ == after.record.agent@
                &&& before.record.delivered == after.record.delivered
                &&& same_others(old(t).rows@, final(t).rows@, i)
                &&& same_inputs(old(t).inputs@, final(t).inputs@)
                &&& same_events(old(t).events@, final(t).events@)
            }
        }),
{
    lemma_at(*old(t), id@, i);
    let before = old(t).rows@[i];
    if before.record.kind is ChannelTurn || over(before.record.status) {
        assert(old(t)@.rows.update(i, old(t)@.rows[i]) =~= old(t)@.rows);
        lemma_table(*old(t), *final(t));
    } else {
        assert(final(t)@.rows.len() == old(t)@.rows.len());
        assert(final(t)@.rows[i] == final(t).rows@[i]@);
        lemma_others(old(t).rows@, final(t).rows@, i);
        lemma_inputs(old(t).inputs@, final(t).inputs@);
        lemma_events(old(t).events@, final(t).events@);
    }
}

/// A task that is not over passes to the claimant, whose heartbeat is still to
/// come; one that is over keeps its owner.
pub proof fn law_claims_pass_the_task_on(
    t: &mut TaskTable,
    id: &str,
    pid: u32,
    boot: &str,
    i: int,
)
    requires
        task_store::well_formed(old(t)@),
        0 <= i < old(t).rows@.len(),
        old(t).rows@[i].record.id@ == id@,
        call_ensures(TaskTable::claim_owner, (t, id, pid, boot), ()),
    ensures
        ({
            let before = old(t).rows@[i];
            let after = final(t).rows@[i];
            &&& over(before.record.status) ==> same_table(*old(t), *final(t))
            &&& !over(before.record.status) ==> {
                &&& after.record.owner_pid == pid
                &&& after.record.owner_boot_id@ == boot@
                &&& after.record.heartbeat_at is None
                &&& after.record.status == before.record.status
                &&& after.record.agent@ == before.record.agent@
                &&& after.record.delivered == before.record.delivered
                &&& same_text(before.record.finished_at, after.record.finished_at)
                &&& same_task(before.record, after.record)
                &&& same_text(before.output, after.output)
                &&& same_text(before.error, after.error)
                &&& same_others(old(t).rows@, final(t).rows@, i)
                &&& same_inputs(old(t).inputs@, final(t).inputs@)
                &&& same_events(old(t).events@, final(t).events@)
            }
        }),
{
    lemma_at(*old(t), id@, i);
    if over(old(t).rows@[i].record.status) {
        assert(old(t)@.rows.update(i, old(t)@.rows[i]) =~= old(t)@.rows);
        lemma_table(*old(t), *final(t));
    } else {
        assert(final(t)@.rows.len() == old(t)@.rows.len());
        assert(final(t)@.rows[i] == final(t).rows@[i]@);
        lemma_others(old(t).rows@, final(t).rows@, i);
        lemma_inputs(old(t).inputs@, final(t).inputs@);
        lemma_events(old(t).events@, final(t).events@);
    }
}

/// An unknown id changes nothing: neither state nor heartbeat nor owner.
pub proof fn law_unknown_tasks_do_not_change(
    a: &mut TaskTable,
    b: &mut TaskTable,
    c: &mut TaskTable,
    id: &str,
    status: TaskStatus,
    output: Option<String>,
    error: Option<String>,
    pid: u32,
    boot: &str,
    now: &str,
    r: Result<(), StoreError>,
)
    requires
        task_store::well_formed(old(a)@),
        task_store::well_formed(old(b)@),
        task_store::well_formed(old(c)@),
        forall|j: int|
            0 <= j < old(a).rows@.len() ==> (#[trigger] old(a).rows@[j]).record.id@ != id@,
        forall|j: int|
            0 <= j < old(b).rows@.len() ==> (#[trigger] old(b).rows@[j]).record.id@ != id@,
        forall|j: int|
            0 <= j < old(c).rows@.len() ==> (#[trigger] old(c).rows@[j]).record.id@ != id@,
        call_ensures(TaskTable::update_status, (a, id, status, output, error, now), r),
        call_ensures(TaskTable::heartbeat, (b, id, boot, now), ()),
        call_ensures(TaskTable::claim_owner, (c, id, pid, boot), ()),
    ensures
        r is Ok,
        same_table(*old(a), *final(a)),
        same_table(*old(b), *final(b)),
        same_table(*old(c), *final(c)),
{
    lemma_nowhere(*old(a), id@);
    lemma_nowhere(*old(b), id@);
    lemma_nowhere(*old(c), id@);
    lemma_table(*old(a), *final(a));
    lemma_table(*old(b), *final(b));
    lemma_table(*old(c), *final(c));
}

/// An event that is recorded is the last one, and nothing else changes.
pub proof fn law_events_are_recorded_last(
    t: &mut TaskTable,
    id: &str,
    state: TaskStatus,
    now: &str,
    delivered: bool,
    response_bytes: usize,
)
    requires
        task_store::well_formed(old(t)@),
        call_ensures(
            TaskTable::record_turn_event,
            (t, id, state, now, delivered, response_bytes),
            (),
        ),
    ensures
        same_others(old(t).rows@, final(t).rows@, -1),
        same_inputs(old(t).inputs@, final(t).inputs@),
        one_event_more(
            old(t).events@,
            final(t).events@,
            id@,
            state,
            now@,
            delivered,
            response_bytes as nat,
        ),
{
    assert(final(t)@.rows.len() == final(t).rows@.len());
    assert(old(t)@.rows.len() == old(t).rows@.len());
    lemma_others(old(t).rows@, final(t).rows@, -1);
    lemma_inputs(old(t).inputs@, final(t).inputs@);
    lemma_one_more(
        old(t).events@,
        final(t).events@,
        id@,
        state,
        now@,
        delivered,
        response_bytes as nat,
    );
}

/// What is read under an id is the row with that id, wherever it stands.
pub proof fn law_tasks_are_read_by_id(t: &TaskTable, id: &str, r: Option<TaskRecord>, at: Option<usize>)
    requires
        call_ensures(TaskTable::get, (t, id), r),
        call_ensures(TaskTable::position, (t, id), at),
        task_store::well_formed(t@),
    ensures
        r is None <==> forall|j: int|
            0 <= j < t.rows@.len() ==> (#[trigger] t.rows@[j]).record.id@ != id@,
        at is None <==> r is None,
        forall|i: int|
            0 <= i < t.rows@.len() && (#[trigger] t.rows@[i]).record.id@ == id@ ==> at == Some(
                i as usize,
            ) && same_row(
                (TaskRow { record: r->Some_0, output: None, error: None }),
                (TaskRow { record: t.rows@[i].record, output: None, error: None }),
            ),
{
    lemma_nowhere(*t, id@);
    assert forall|i: int| 0 <= i < t.rows@.len() && (#[trigger] t.rows@[i]).record.id@
        == id@ implies at == Some(i as usize) && same_row(
        (TaskRow { record: r->Some_0, output: None, error: None }),
        (TaskRow { record: t.rows@[i].record, output: None, error: None }),
    ) by {
        lemma_at(*t, id@, i);
        let a = TaskRow { record: r->Some_0, output: None, error: None };
        let b = TaskRow { record: t.rows@[i].record, output: None, error: None };
        assert(a@ == b@);
        lemma_row(a, b);
    }
}

/// What is read of an input is the first one that stands under the id.
pub proof fn law_inputs_are_read_by_id(t: &TaskTable, id: &str, r: Option<String>, i: int)
    requires
        call_ensures(TaskTable::channel_turn_input, (t, id), r),
        0 <= i < t.inputs@.len(),
        t.inputs@[i].0@ == id@,
        forall|j: int| 0 <= j < i ==> (#[trigger] t.inputs@[j]).0@ != id@,
    ensures
        r matches Some(input) && input@ == t.inputs@[i].1@,
{
    let views = t@.inputs;
    assert(views.len() == t.inputs@.len());
    assert(views[i] == (t.inputs@[i].0@, t.inputs@[i].1@));
    assert forall|j: int| 0 <= j < i implies (#[trigger] views[j]).0 != id@ by {
        assert(views[j] == (t.inputs@[j].0@, t.inputs@[j].1@));
    }
    lemma_first_input(views, id@, i);
}

proof fn lemma_first_input(inputs: Seq<(Seq<char>, Seq<char>)>, id: Seq<char>, i: int)
    requires
        0 <= i < inputs.len(),
        inputs[i].0 == id,
        forall|j: int| 0 <= j < i ==> (#[trigger] inputs[j]).0 != id,
    ensures
        task_store::input_of(inputs, id) == Some(inputs[i].1),
    decreases inputs.len(),
{
    let init = inputs.drop_last();
    if i < init.len() {
        lemma_first_input(init, id, i);
    } else {
        lemma_no_input(init, id);
    }
}

proof fn lemma_no_input(inputs: Seq<(Seq<char>, Seq<char>)>, id: Seq<char>)
    requires
        forall|j: int| 0 <= j < inputs.len() ==> (#[trigger] inputs[j]).0 != id,
    ensures
        task_store::input_of(inputs, id) is None,
    decreases inputs.len(),
{
    if inputs.len() > 0 {
        let init = inputs.drop_last();
        assert forall|j: int| 0 <= j < init.len() implies (#[trigger] init[j]).0 != id by {
            assert(inputs[j].0 != id);
        }
        lemma_no_input(init, id);
    }
}

/// Nothing is read of an input that no turn has.
pub proof fn law_unknown_inputs_are_not_read(t: &TaskTable, id: &str, r: Option<String>)
    requires
        call_ensures(TaskTable::channel_turn_input, (t, id), r),
        forall|j: int| 0 <= j < t.inputs@.len() ==> (#[trigger] t.inputs@[j]).0@ != id@,
    ensures
        r is None,
{
    let views = t@.inputs;
    assert(views.len() == t.inputs@.len());
    assert forall|j: int| 0 <= j < views.len() implies (#[trigger] views[j]).0 != id@ by {
        assert(views[j] == (t.inputs@[j].0@, t.inputs@[j].1@));
    }
    lemma_no_input(views, id@);
}

/// The process id zero stands for no process. One that no process can have counts
/// as alive, and so does every other unless its probe finds no such process.
pub proof fn law_only_a_missing_process_is_dead<F: Fn(i32) -> SignalProbe>(
    pid: u32,
    probe: F,
    r: bool,
    p: SignalProbe,
)
    requires
        call_ensures(pid_is_alive, (pid, probe), r),
        forall|q: SignalProbe| #[trigger] call_ensures(probe, (pid as i32,), q) ==> q == p,
    ensures
        r <==> pid != 0 && (pid > 0x7fff_ffff || !(p is NoSuchProcess)),
{
}

/// A task may be reclaimed exactly if its owner's process is dead, whatever run it
/// belonged to.
pub proof fn law_the_dead_owners_tasks_are_reclaimed<F: Fn(i32) -> SignalProbe>(
    rec: &TaskRecord,
    boot: &str,
    probe: F,
    r: bool,
    p: SignalProbe,
)
    requires
        call_ensures(is_authoritative, (rec, boot, probe), r),
        forall|q: SignalProbe| #[trigger]
            call_ensures(probe, (rec.owner_pid as i32,), q) ==> q == p,
    ensures
        r <==> rec.owner_pid == 0 || (rec.owner_pid <= 0x7fff_ffff && p is NoSuchProcess),
{
}

/// A task may be reclaimed exactly if its owner is said not to be alive.
pub proof fn law_liveness_decides<F: Fn(u32) -> bool>(
    rec: &TaskRecord,
    boot: &str,
    alive: F,
    r: bool,
    word: bool,
)
    requires
        call_ensures(is_authoritative_with_pid_liveness, (rec, boot, alive), r),
        forall|q: bool| #[trigger] call_ensures(alive, (rec.owner_pid,), q) ==> q == word,
    ensures
        r <==> !word,
{
}

/// A table that was read can be used exactly if no two tasks share an id, and every
/// input and every event belongs to a task.
pub proof fn law_which_tables_can_be_used(t: &TaskTable, r: bool)
    requires
        call_ensures(TaskTable::is_well_formed, (t,), r),
    ensures
        r <==> {
            &&& forall|i: int, j: int|
                0 <= i < j < t.rows@.len() ==> (#[trigger] t.rows@[i]).record.id@ != (
                #[trigger] t.rows@[j]).record.id@
            &&& forall|i: int|
                0 <= i < t.inputs@.len() ==> has_task(*t, (#[trigger] t.inputs@[i]).0@)
            &&& forall|i: int|
                0 <= i < t.events@.len() ==> has_task(*t, (#[trigger] t.events@[i]).task_id@)
        },
{
    let v = t@;
    assert(v.rows.len() == t.rows@.len());
    assert(v.inputs.len() == t.inputs@.len());
    assert(v.events.len() == t.events@.len());
    assert forall|i: int| 0 <= i < t.rows@.len() implies (#[trigger] t.rows@[i])@ == v.rows[i] by {}
    assert forall|i: int| 0 <= i < v.rows.len() implies #[trigger] v.rows[i] == t.rows@[i]@ by {}
    assert forall|id: Seq<char>| #[trigger]
        has_task(*t, id) <==> task_store::find(v.rows, id) is Some by {
        lemma_nowhere(*t, id);
        if has_task(*t, id) {
            let i = choose|i: int| 0 <= i < t.rows@.len() && (#[trigger] t.rows@[i]).record.id@
                == id;
            assert(t.rows@[i].record.id@ == id);
        }
    }
    if r {
        assert forall|i: int, j: int| 0 <= i < j < t.rows@.len() implies (
        #[trigger] t.rows@[i]).record.id@ != (#[trigger] t.rows@[j]).record.id@ by {
            assert(v.rows[i].record.id != v.rows[j].record.id);
        }
        assert forall|i: int| 0 <= i < t.inputs@.len() implies has_task(
            *t,
            (#[trigger] t.inputs@[i]).0@,
        ) by {
            assert(v.inputs[i].0 == t.inputs@[i].0@);
        }
        assert forall|i: int| 0 <= i < t.events@.len() implies has_task(
            *t,
            (#[trigger] t.events@[i]).task_id@,
        ) by {
            assert(v.events[i].task_id == t.events@[i].task_id@);
        }
    } else {
        if forall|i: int, j: int|
            0 <= i < j < t.rows@.len() ==> (#[trigger] t.rows@[i]).record.id@ != (
            #[trigger] t.rows@[j]).record.id@ {
            assert forall|i: int, j: int| 0 <= i < j < v.rows.len() implies (
            #[trigger] v.rows[i]).record.id != (#[trigger] v.rows[j]).record.id by {
                assert(t.rows@[i].record.id@ != t.rows@[j].record.id@);
            }
        }
        if forall|i: int| 0 <= i < t.inputs@.len() ==> has_task(*t, (#[trigger] t.inputs@[i]).0@) {
            assert forall|i: int| 0 <= i < v.inputs.len() implies task_store::find(
                v.rows,
                (#[trigger] v.inputs[i]).0,
            ) is Some by {
                assert(v.inputs[i].0 == t.inputs@[i].0@);
            }
        }
        if forall|i: int|
            0 <= i < t.events@.len() ==> has_task(*t, (#[trigger] t.events@[i]).task_id@) {
            assert forall|i: int| 0 <= i < v.events.len() implies task_store::find(
                v.rows,
                (#[trigger] v.events[i]).task_id,
            ) is Some by {
                assert(v.events[i].task_id == t.events@[i].task_id@);
            }
        }
    }
}

/// Whether a table has a task with this id.
pub open spec fn has_task(t: TaskTable, id: Seq<char>) -> bool {
    exists|i: int| 0 <= i < t.rows@.len() && (#[trigger] t.rows@[i]).record.id@ == id
}

/// A new table is empty, and a copied record reads the same.
pub proof fn law_new_tables_and_copies(t: TaskTable, rec: TaskRecord, copied: TaskRecord)
    requires
        call_ensures(TaskTable::new, (), t),
        call_ensures(TaskRecord::copy, (&rec,), copied),
    ensures
        t.rows@.len() == 0,
        t.inputs@.len() == 0,
        t.events@.len() == 0,
        same_row(
            (TaskRow { record: rec, output: None, error: None }),
            (TaskRow { record: copied, output: None, error: None }),
        ),
{
    assert(t@.rows.len() == t.rows@.len());
    assert(t@.inputs.len() == t.inputs@.len());
    assert(t@.events.len() == t.events@.len());
    let a = TaskRow { record: rec, output: None, error: None };
    let b = TaskRow { record: copied, output: None, error: None };
    assert(a@ == b@);
    lemma_row(a, b);
}

} // verus!
