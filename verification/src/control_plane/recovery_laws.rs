//! What holds of lists of tasks, of removal and recovery, and of stored rows.

use crate::control_plane::task_laws;
use crate::control_plane::task_laws::{same_row, same_text};
use crate::control_plane::task_recovery;
use crate::control_plane::task_recovery::{
    collect_skipping_bad_rows, column_is_missing, row_to_record, RawTaskRow,
};
use crate::control_plane::task_registry;
use crate::control_plane::task_registry::{
    kind_from_db, status_from_db, RecordView, TaskKind, TaskRecord, TaskStatus,
};
use crate::control_plane::task_store;
use crate::control_plane::task_store::{
    EventView, RowView, TableView, TaskRow, TaskTable, TurnEvent,
};
use crate::text;
use crate::turn::tool;
use vstd::prelude::*;
use vstd::string::*;

verus! {

/// Whether two records read the same.
pub open spec fn same_record(a: TaskRecord, b: TaskRecord) -> bool {
    same_row(
        TaskRow { record: a, output: None, error: None },
        TaskRow { record: b, output: None, error: None },
    )
}

proof fn lemma_record(a: TaskRecord, b: TaskRecord)
    requires
        a@ == b@,
    ensures
        same_record(a, b),
{
    let x = TaskRow { record: a, output: None, error: None };
    let y = TaskRow { record: b, output: None, error: None };
    assert(x@ == y@);
    task_laws::lemma_row(x, y);
}

/// To pick by what an item stands for, and to take what the picked items stand for,
/// is the same.
proof fn lemma_pick<A, B>(
    s: Seq<A>,
    f: spec_fn(A) -> B,
    p: spec_fn(B) -> bool,
    q: spec_fn(A) -> bool,
)
    requires
        forall|a: A| #[trigger] q(a) <==> p(f(a)),
    ensures
        s.map_values(f).filter(p) == s.filter(q).map_values(f),
    decreases s.len(),
{
    reveal(Seq::filter);
    if s.len() > 0 {
        let init = s.drop_last();
        lemma_pick(init, f, p, q);
        assert(s.map_values(f).drop_last() =~= init.map_values(f));
        assert(s.map_values(f).last() == f(s.last()));
        assert(q(s.last()) <==> p(f(s.last())));
        if q(s.last()) {
            assert(s.filter(q).map_values(f) =~= init.filter(q).map_values(f).push(f(s.last())));
        }
    } else {
        assert(s.map_values(f).filter(p) =~= s.filter(q).map_values(f));
    }
}

/// The tasks that are listed as being worked on are those that are neither over nor
/// paused, each once and in the order of the table.
pub proof fn law_running_tasks_are_listed(t: &TaskTable, out: Vec<TaskRecord>)
    requires
        call_ensures(TaskTable::list_running, (t,), out),
    ensures
        ({
            let picked = t.rows@.filter(
                |r: TaskRow| !task_laws::over(r.record.status) && !(r.record.status is Paused),
            );
            &&& out@.len() == picked.len()
            &&& forall|k: int|
                0 <= k < picked.len() ==> same_record(#[trigger] out@[k], picked[k].record)
        }),
{
    let q = |r: TaskRow| !task_laws::over(r.record.status) && !(r.record.status is Paused);
    let p = |r: RowView| r.record.status.active();
    let f = |r: TaskRow| r@;
    lemma_pick(t.rows@, f, p, q);
    let picked = t.rows@.filter(q);
    let views = task_store::record_views(out@);
    assert(views == task_store::records_of(picked.map_values(f)));
    assert(views.len() == out@.len());
    assert forall|k: int| 0 <= k < picked.len() implies same_record(
        #[trigger] out@[k],
        picked[k].record,
    ) by {
        assert(views[k] == out@[k]@);
        assert(views[k] == picked.map_values(f)[k].record);
        lemma_record(out@[k], picked[k].record);
    }
}

/// An agent's tasks are listed each as often as the table holds it, none of another
/// agent, the latest start first.
pub proof fn law_an_agents_tasks_are_listed(t: &TaskTable, agent: &str, out: Vec<TaskRecord>, n: usize)
    requires
        call_ensures(TaskTable::list_by_agent, (t, agent), out),
        call_ensures(TaskTable::count_by_agent, (t, agent), n),
    ensures
        ({
            let picked = t.rows@.filter(|r: TaskRow| r.record.agent@ == agent@);
            &&& n == picked.len()
            &&& out@.len() == picked.len()
            &&& out@.map_values(|r: TaskRecord| r@).to_multiset() == picked.map_values(
                |r: TaskRow| r.record@,
            ).to_multiset()
            &&& forall|k: int| 0 <= k < out@.len() ==> (#[trigger] out@[k]).agent@ == agent@
            &&& forall|a: int, b: int|
                0 <= a < b < out@.len() ==> !text::comes_before(
                    (#[trigger] out@[a]).started_at@,
                    (#[trigger] out@[b]).started_at@,
                )
        }),
{
    broadcast use vstd::seq_lib::group_to_multiset_ensures;

    let q = |r: TaskRow| r.record.agent@ == agent@;
    let p = |r: RowView| r.record.agent == agent@;
    let f = |r: TaskRow| r@;
    let g = |r: TaskRow| r.record@;
    lemma_pick(t.rows@, f, p, q);
    let picked = t.rows@.filter(q);
    assert(task_store::records_of(picked.map_values(f)) =~= picked.map_values(g));
    let views = task_store::record_views(out@);
    assert(views =~= out@.map_values(|r: TaskRecord| r@));
    assert(views.len() == views.to_multiset().len());
    assert(picked.map_values(g).len() == picked.map_values(g).to_multiset().len());
    assert forall|k: int| 0 <= k < out@.len() implies (#[trigger] out@[k]).agent@ == agent@ by {
        assert(views[k] == out@[k]@);
        assert(views.contains(views[k]));
        assert(views.to_multiset().count(views[k]) > 0);
        assert(picked.map_values(g).contains(views[k]));
        let j = choose|j: int|
            0 <= j < picked.len() && #[trigger] picked.map_values(g)[j] == views[k];
        assert(picked.contains(picked[j]));
        assert(q(picked[j])) by {
            broadcast use vstd::seq_lib::group_filter_ensures;
        }
    }
    assert forall|a: int, b: int| 0 <= a < b < out@.len() implies !text::comes_before(
        (#[trigger] out@[a]).started_at@,
        (#[trigger] out@[b]).started_at@,
    ) by {
        assert(views[a] == out@[a]@ && views[b] == out@[b]@);
    }
}

/// Whether the table holds a task of this id and agent.
pub open spec fn is_of(t: TaskTable, id: Seq<char>, agent: Seq<char>) -> bool {
    exists|i: int|
        0 <= i < t.rows@.len() && (#[trigger] t.rows@[i]).record.id@ == id
            && t.rows@[i].record.agent@ == agent
}

/// An agent that is removed leaves nothing: neither tasks nor their inputs and
/// events. What belongs to others stays, in its order; the number of tasks that are
/// gone is told.
pub proof fn law_removed_agents_leave_nothing(t: &mut TaskTable, agent: &str, n: usize)
    requires
        task_store::well_formed(old(t)@),
        call_ensures(TaskTable::delete_by_agent, (t, agent), n),
    ensures
        n == old(t).rows@.filter(|r: TaskRow| r.record.agent@ == agent@).len(),
        final(t)@.rows == old(t).rows@.filter(
            |r: TaskRow| r.record.agent@ != agent@,
        ).map_values(|r: TaskRow| r@),
        final(t)@.inputs == old(t).inputs@.filter(
            |p: (String, String)| !is_of(*old(t), p.0@, agent@),
        ).map_values(|p: (String, String)| (p.0@, p.1@)),
        final(t)@.events == old(t).events@.filter(
            |e: TurnEvent| !is_of(*old(t), e.task_id@, agent@),
        ).map_values(|e: TurnEvent| e@),
{
    let start = *old(t);
    assert forall|id: Seq<char>| #[trigger]
        is_of(start, id, agent@) <==> task_recovery::belongs_to(start@.rows, id, agent@) by {
        if is_of(start, id, agent@) {
            let i = choose|i: int|
                0 <= i < start.rows@.len() && (#[trigger] start.rows@[i]).record.id@ == id
                    && start.rows@[i].record.agent@ == agent@;
            task_laws::lemma_at(start, id, i);
        }
        if task_recovery::belongs_to(start@.rows, id, agent@) {
            let i = task_store::find(start@.rows, id)->0;
            task_store::lemma_find(start@.rows, id);
            assert(start@.rows[i] == start.rows@[i]@);
        }
    }
    let f = |r: TaskRow| r@;
    let own = |r: TaskRow| r.record.agent@ == agent@;
    let own_view = |r: RowView| r.record.agent == agent@;
    lemma_pick(start.rows@, f, own_view, own);
    assert(start.rows@.filter(own).map_values(f).len() == start.rows@.filter(own).len());
    let other = |r: TaskRow| r.record.agent@ != agent@;
    let other_view = |r: RowView| r.record.agent != agent@;
    lemma_pick(start.rows@, f, other_view, other);
    let g = |p: (String, String)| (p.0@, p.1@);
    let keep_input = |p: (String, String)| !is_of(start, p.0@, agent@);
    let keep_input_view = |p: (Seq<char>, Seq<char>)|
        !task_recovery::belongs_to(start@.rows, p.0, agent@);
    lemma_pick(start.inputs@, g, keep_input_view, keep_input);
    let h = |e: TurnEvent| e@;
    let keep_event = |e: TurnEvent| !is_of(start, e.task_id@, agent@);
    let keep_event_view = |e: EventView|
        !task_recovery::belongs_to(start@.rows, e.task_id, agent@);
    lemma_pick(start.events@, h, keep_event_view, keep_event);
}

/// Whether the turn at `i` waits in the queue of this run for a restart and has an
/// input.
pub open spec fn waits(t: TaskTable, boot: Seq<char>, i: int) -> bool {
    let row = t.rows@[i];
    &&& 0 <= i < t.rows@.len()
    &&& row.record.kind is ChannelTurn
    &&& row.record.status is Queued
    &&& row.error matches Some(e) && e@ == "restart_pending"@
    &&& row.record.owner_boot_id@ == boot
    &&& exists|j: int| 0 <= j < t.inputs@.len() && (#[trigger] t.inputs@[j]).0@ == row.record.id@
}

proof fn lemma_some_input(inputs: Seq<(Seq<char>, Seq<char>)>, id: Seq<char>)
    ensures
        task_store::input_of(inputs, id) is Some <==> exists|j: int|
            0 <= j < inputs.len() && (#[trigger] inputs[j]).0 == id,
        task_store::input_of(inputs, id) matches Some(x) ==> exists|j: int|
            0 <= j < inputs.len() && (#[trigger] inputs[j]) == (id, x),
    decreases inputs.len(),
{
    if inputs.len() > 0 {
        let init = inputs.drop_last();
        lemma_some_input(init, id);
        assert(inputs[inputs.len() - 1] == inputs.last());
        assert forall|j: int| 0 <= j < init.len() implies #[trigger] inputs[j] == init[j] by {}
        if exists|j: int| 0 <= j < inputs.len() && (#[trigger] inputs[j]).0 == id {
            let j = choose|j: int| 0 <= j < inputs.len() && (#[trigger] inputs[j]).0 == id;
            if j < init.len() {
                assert(init[j].0 == id);
            }
        }
        if let Some(x) = task_store::input_of(init, id) {
            let j = choose|j: int| 0 <= j < init.len() && (#[trigger] init[j]) == (id, x);
            assert(inputs[j] == (id, x));
        }
    }
}

proof fn lemma_waits(t: TaskTable, boot: Seq<char>, i: int)
    requires
        0 <= i < t.rows@.len(),
    ensures
        waits(t, boot, i) <==> task_recovery::is_recoverable(t@, boot, i),
{
    assert(t@.rows[i] == t.rows@[i]@);
    let id = t.rows@[i].record.id@;
    lemma_some_input(t@.inputs, id);
    assert(t@.inputs.len() == t.inputs@.len());
    if exists|j: int| 0 <= j < t.inputs@.len() && (#[trigger] t.inputs@[j]).0@ == id {
        let j = choose|j: int| 0 <= j < t.inputs@.len() && (#[trigger] t.inputs@[j]).0@ == id;
        assert(t@.inputs[j] == (t.inputs@[j].0@, t.inputs@[j].1@));
    }
    if exists|j: int| 0 <= j < t@.inputs.len() && (#[trigger] t@.inputs[j]).0 == id {
        let j = choose|j: int| 0 <= j < t@.inputs.len() && (#[trigger] t@.inputs[j]).0 == id;
        assert(t@.inputs[j] == (t.inputs@[j].0@, t.inputs@[j].1@));
        assert(t.inputs@[j].0@ == id);
    }
}

proof fn lemma_recovered(t: TableView, list: Seq<usize>, now: Seq<char>, n: nat)
    requires
        n <= list.len(),
        list.no_duplicates(),
        forall|k: int| 0 <= k < list.len() ==> (#[trigger] list[k]) < t.rows.len(),
    ensures
        ({
            let after = task_recovery::recovered(t, list, now, n);
            &&& after.rows.len() == t.rows.len()
            &&& after.inputs == t.inputs
            &&& after.events.len() == t.events.len() + n
            &&& forall|i: int| 0 <= i < t.events.len() ==> #[trigger] after.events[i] == t.events[i]
            &&& forall|k: int|
                0 <= k < n ==> #[trigger] after.events[t.events.len() + k]
                    == task_store::new_event(
                    t.rows[list[k] as int].record.id,
                    TaskStatus::Received,
                    now,
                    false,
                    0,
                )
            &&& forall|k: int|
                0 <= k < n ==> after.rows[(#[trigger] list[k]) as int] == task_recovery::taken_up(
                    t.rows[list[k] as int],
                )
            &&& forall|i: int|
                0 <= i < t.rows.len() && (forall|k: int| 0 <= k < n ==> (#[trigger] list[k]) != i)
                    ==> #[trigger] after.rows[i] == t.rows[i]
        }),
    decreases n,
{
    if n > 0 {
        let m = (n - 1) as nat;
        lemma_recovered(t, list, now, m);
        let before = task_recovery::recovered(t, list, now, m);
        let after = task_recovery::recovered(t, list, now, n);
        let last = list[n - 1] as int;
        assert forall|k: int| 0 <= k < m implies (#[trigger] list[k]) != last by {
            assert(list[k] != list[n - 1]);
        }
        assert(before.rows[last] == t.rows[last]);
        assert(last < t.rows.len());
        assert forall|k: int| 0 <= k < n implies after.rows[(#[trigger] list[k]) as int]
            == task_recovery::taken_up(t.rows[list[k] as int]) by {
            if k < m {
                assert(list[k] != list[n - 1]);
            }
        }
        assert forall|i: int|
            0 <= i < t.rows.len() && (forall|k: int| 0 <= k < n ==> (#[trigger] list[k])
                != i) implies #[trigger] after.rows[i] == t.rows[i] by {
            assert(list[n - 1] != i);
            assert(before.rows[i] == t.rows[i]);
        }
        assert forall|k: int| 0 <= k < n implies #[trigger] after.events[t.events.len() + k]
            == task_store::new_event(
            t.rows[list[k] as int].record.id,
            TaskStatus::Received,
            now,
            false,
            0,
        ) by {
            if k < m {
                assert(before.events[t.events.len() + k] == after.events[t.events.len() + k]);
            }
        }
    }
}

proof fn lemma_first_event(events: Seq<EventView>, id: Seq<char>)
    ensures
        ({
            let f = task_recovery::first_event(events, id);
            &&& f >= 0 ==> f < events.len() && events[f].task_id == id
            &&& f < 0 ==> f == -1
            &&& forall|e: int|
                0 <= e < events.len() && (#[trigger] events[e]).task_id == id ==> 0 <= f <= e
        }),
    decreases events.len(),
{
    if events.len() > 0 {
        let init = events.drop_last();
        lemma_first_event(init, id);
        assert forall|e: int| 0 <= e < init.len() implies #[trigger] events[e] == init[e] by {}
        assert forall|e: int| 0 <= e < events.len() && (#[trigger] events[e]).task_id
            == id implies 0 <= task_recovery::first_event(events, id) <= e by {
            if e < init.len() {
                assert(init[e].task_id == id);
            }
        }
    }
}

/// One recovery takes up turns that wait for a restart and no others: sixteen, or
/// all where there are fewer. Each is back where it was received, without an error;
/// it is handed out once, with an input of its own, and has one event more. No
/// other row changes.
pub proof fn law_waiting_turns_are_taken_up(
    t: &mut TaskTable,
    boot: &str,
    now: &str,
    r: Vec<(String, String)>,
)
    requires
        task_store::well_formed(old(t)@),
        call_ensures(TaskTable::take_recoverable_channel_turns, (t, boot, now), r),
    ensures
        r@.len() <= 16,
        final(t).rows@.len() == old(t).rows@.len(),
        task_laws::same_inputs(old(t).inputs@, final(t).inputs@),
        final(t).events@.len() == old(t).events@.len() + r@.len(),
        forall|e: int|
            0 <= e < old(t).events@.len() ==> task_laws::same_event(
                old(t).events@[e],
                #[trigger] final(t).events@[e],
            ),
        forall|k: int|
            0 <= k < r@.len() ==> {
                let event = #[trigger] final(t).events@[old(t).events@.len() + k];
                &&& event.task_id@ == r@[k].0@
                &&& event.state is Received
                &&& event.recorded_at@ == now@
                &&& !event.delivered
                &&& event.response_bytes == 0
            },
        forall|k: int|
            0 <= k < r@.len() ==> exists|j: int|
                0 <= j < old(t).inputs@.len() && (#[trigger] old(t).inputs@[j]).0@ == (
                #[trigger] r@[k]).0@ && old(t).inputs@[j].1@ == r@[k].1@,
        forall|a: int, b: int|
            0 <= a < b < r@.len() ==> (#[trigger] r@[a]).0@ != (#[trigger] r@[b]).0@,
        forall|i: int|
            #![trigger final(t).rows@[i]]
            0 <= i < old(t).rows@.len() ==> {
                let before = old(t).rows@[i];
                let after = final(t).rows@[i];
                let handed = exists|k: int|
                    0 <= k < r@.len() && (#[trigger] r@[k]).0@ == before.record.id@;
                &&& !handed ==> same_row(before, after)
                &&& handed ==> waits(*old(t), boot@, i) && after.record.status is Received
                    && after.error is None && task_laws::same_task(before.record, after.record)
                    && task_laws::same_owner(before.record, after.record)
                    && before.record.agent@ == after.record.agent@ && before.record.delivered
                    == after.record.delivered && same_text(
                    before.record.finished_at,
                    after.record.finished_at,
                ) && same_text(before.output, after.output)
                &&& waits(*old(t), boot@, i) && r@.len() < 16 ==> handed
            },
        forall|k: int|
            0 <= k < r@.len() ==> exists|i: int|
                0 <= i < old(t).rows@.len() && (#[trigger] old(t).rows@[i]).record.id@ == (
                #[trigger] r@[k]).0@,
{
    let start = *old(t);
    let end = *final(t);
    let order = choose|order: Seq<usize>| #[trigger]
        task_recovery::is_recovery_order(start@, boot@, order) && end@
            == task_recovery::recovered(
            start@,
            task_recovery::taken(order),
            now@,
            task_recovery::taken(order).len(),
        ) && r@.map_values(|p: (String, String)| (p.0@, Some(p.1@))) == task_recovery::turns_at(
            start@,
            task_recovery::taken(order),
        );
    lemma_taken(start, boot@, now@, order, end, r@);
    lemma_taken_rows(start, boot@, now@, order, end, r@);
}

/// What one recovery leaves of the table.
spec fn is_recovery(
    start: TaskTable,
    boot: Seq<char>,
    now: Seq<char>,
    order: Seq<usize>,
    end: TaskTable,
    r: Seq<(String, String)>,
) -> bool {
    let list = task_recovery::taken(order);
    &&& task_recovery::is_recovery_order(start@, boot, order)
    &&& end@ == task_recovery::recovered(start@, list, now, list.len())
    &&& r.map_values(|p: (String, String)| (p.0@, Some(p.1@))) == task_recovery::turns_at(
        start@,
        list,
    )
}

proof fn lemma_list(
    start: TaskTable,
    boot: Seq<char>,
    now: Seq<char>,
    order: Seq<usize>,
    end: TaskTable,
    r: Seq<(String, String)>,
)
    requires
        task_store::well_formed(start@),
        is_recovery(start, boot, now, order, end, r),
    ensures
        ({
            let list = task_recovery::taken(order);
            &&& list.len() == r.len()
            &&& r.len() <= 16
            &&& r.len() < 16 ==> list == order
            &&& list.no_duplicates()
            &&& forall|k: int|
                #![trigger list[k]]
                #![trigger r[k]]
                0 <= k < list.len() ==> {
                    &&& list[k] < start.rows@.len()
                    &&& waits(start, boot, list[k] as int)
                    &&& r[k].0@ == start.rows@[list[k] as int].record.id@
                    &&& task_store::input_of(start@.inputs, r[k].0@) == Some(r[k].1@)
                }
        }),
{
    let list = task_recovery::taken(order);
    let g = |p: (String, String)| (p.0@, Some(p.1@));
    let shown = task_recovery::turns_at(start@, list);
    assert(r.map_values(g).len() == r.len());
    assert(shown.len() == list.len());
    assert(list.no_duplicates()) by {
        assert forall|a: int, b: int| 0 <= a < list.len() && 0 <= b < list.len() && a
            != b implies list[a] != list[b] by {
            assert(list[a] == order[a] && list[b] == order[b]);
        }
    }
    assert forall|k: int| 0 <= k < list.len() implies list[k] < start.rows@.len() && waits(
        start,
        boot,
        #[trigger] list[k] as int,
    ) && r[k].0@ == start.rows@[list[k] as int].record.id@ && task_store::input_of(
        start@.inputs,
        r[k].0@,
    ) == Some(r[k].1@) by {
        assert(list[k] == order[k]);
        assert(order.contains(order[k]));
        assert(task_recovery::is_recoverable(start@, boot, list[k] as int));
        lemma_waits(start, boot, list[k] as int);
        assert(r.map_values(g)[k] == shown[k]);
        assert(start@.rows[list[k] as int] == start.rows@[list[k] as int]@);
    }
}

proof fn lemma_taken(
    start: TaskTable,
    boot: Seq<char>,
    now: Seq<char>,
    order: Seq<usize>,
    end: TaskTable,
    r: Seq<(String, String)>,
)
    requires
        task_store::well_formed(start@),
        is_recovery(start, boot, now, order, end, r),
    ensures
        r.len() <= 16,
        end.rows@.len() == start.rows@.len(),
        task_laws::same_inputs(start.inputs@, end.inputs@),
        end.events@.len() == start.events@.len() + r.len(),
        forall|e: int|
            0 <= e < start.events@.len() ==> task_laws::same_event(
                start.events@[e],
                #[trigger] end.events@[e],
            ),
        forall|k: int|
            0 <= k < r.len() ==> {
                let event = #[trigger] end.events@[start.events@.len() + k];
                &&& event.task_id@ == r[k].0@
                &&& event.state is Received
                &&& event.recorded_at@ == now
                &&& !event.delivered
                &&& event.response_bytes == 0
            },
        forall|k: int|
            0 <= k < r.len() ==> exists|j: int|
                0 <= j < start.inputs@.len() && (#[trigger] start.inputs@[j]).0@ == (
                #[trigger] r[k]).0@ && start.inputs@[j].1@ == r[k].1@,
        forall|a: int, b: int|
            0 <= a < b < r.len() ==> (#[trigger] r[a]).0@ != (#[trigger] r[b]).0@,
{
    let list = task_recovery::taken(order);
    lemma_list(start, boot, now, order, end, r);
    assert(start@.rows.len() == start.rows@.len());
    assert(end@.rows.len() == end.rows@.len());
    assert(start@.events.len() == start.events@.len());
    assert(end@.events.len() == end.events@.len());
    lemma_recovered(start@, list, now, list.len());
    task_laws::lemma_inputs(start.inputs@, end.inputs@);
    assert forall|e: int| 0 <= e < start.events@.len() implies task_laws::same_event(
        start.events@[e],
        #[trigger] end.events@[e],
    ) by {
        assert(end@.events[e] == end.events@[e]@);
        assert(start@.events[e] == start.events@[e]@);
        task_laws::lemma_event(start.events@[e], end.events@[e]);
    }
    assert forall|k: int| 0 <= k < r.len() implies ({
        let event = #[trigger] end.events@[start.events@.len() + k];
        &&& event.task_id@ == r[k].0@
        &&& event.state is Received
        &&& event.recorded_at@ == now
        &&& !event.delivered
        &&& event.response_bytes == 0
    }) by {
        let e = start.events@.len() + k;
        assert(end@.events[start@.events.len() + k] == end.events@[e]@);
        assert(list[k] < start.rows@.len());
        assert(start@.rows[list[k] as int] == start.rows@[list[k] as int]@);
    }
    assert forall|k: int| 0 <= k < r.len() implies exists|j: int|
        0 <= j < start.inputs@.len() && (#[trigger] start.inputs@[j]).0@ == (#[trigger] r[k]).0@
            && start.inputs@[j].1@ == r[k].1@ by {
        assert(list[k] < start.rows@.len());
        lemma_some_input(start@.inputs, r[k].0@);
        let j = choose|j: int|
            0 <= j < start@.inputs.len() && (#[trigger] start@.inputs[j]) == (r[k].0@, r[k].1@);
        assert(start@.inputs.len() == start.inputs@.len());
        assert(start@.inputs[j] == (start.inputs@[j].0@, start.inputs@[j].1@));
        assert(start.inputs@[j].0@ == r[k].0@);
    }
    assert forall|a: int, b: int| 0 <= a < b < r.len() implies (#[trigger] r[a]).0@ != (
    #[trigger] r[b]).0@ by {
        assert(list[a] != list[b]);
        let x = list[a] as int;
        let y = list[b] as int;
        assert(start@.rows[x] == start.rows@[x]@);
        assert(start@.rows[y] == start.rows@[y]@);
        if x < y {
            assert(start@.rows[x].record.id != start@.rows[y].record.id);
        } else {
            assert(start@.rows[y].record.id != start@.rows[x].record.id);
        }
    }
}

proof fn lemma_taken_rows(
    start: TaskTable,
    boot: Seq<char>,
    now: Seq<char>,
    order: Seq<usize>,
    end: TaskTable,
    r: Seq<(String, String)>,
)
    requires
        task_store::well_formed(start@),
        is_recovery(start, boot, now, order, end, r),
    ensures
        end.rows@.len() == start.rows@.len(),
        forall|i: int|
            #![trigger end.rows@[i]]
            0 <= i < start.rows@.len() ==> {
                let before = start.rows@[i];
                let after = end.rows@[i];
                let handed = exists|k: int|
                    0 <= k < r.len() && (#[trigger] r[k]).0@ == before.record.id@;
                &&& !handed ==> same_row(before, after)
                &&& handed ==> waits(start, boot, i) && after.record.status is Received
                    && after.error is None && task_laws::same_task(before.record, after.record)
                    && task_laws::same_owner(before.record, after.record)
                    && before.record.agent@ == after.record.agent@ && before.record.delivered
                    == after.record.delivered && same_text(
                    before.record.finished_at,
                    after.record.finished_at,
                ) && same_text(before.output, after.output)
                &&& waits(start, boot, i) && r.len() < 16 ==> handed
            },
        forall|k: int|
            0 <= k < r.len() ==> exists|i: int|
                0 <= i < start.rows@.len() && (#[trigger] start.rows@[i]).record.id@ == (
                #[trigger] r[k]).0@,
{
    let list = task_recovery::taken(order);
    lemma_list(start, boot, now, order, end, r);
    assert(start@.rows.len() == start.rows@.len());
    assert(end@.rows.len() == end.rows@.len());
    lemma_recovered(start@, list, now, list.len());
    assert forall|i: int|
        #![trigger end.rows@[i]]
        0 <= i < start.rows@.len() implies ({
        let before = start.rows@[i];
        let after = end.rows@[i];
        let handed = exists|k: int| 0 <= k < r.len() && (#[trigger] r[k]).0@ == before.record.id@;
        &&& !handed ==> same_row(before, after)
        &&& handed ==> waits(start, boot, i) && after.record.status is Received
            && after.error is None && task_laws::same_task(before.record, after.record)
            && task_laws::same_owner(before.record, after.record) && before.record.agent@
            == after.record.agent@ && before.record.delivered == after.record.delivered
            && same_text(before.record.finished_at, after.record.finished_at) && same_text(
            before.output,
            after.output,
        )
        &&& waits(start, boot, i) && r.len() < 16 ==> handed
    }) by {
        let before = start.rows@[i];
        let after = end.rows@[i];
        assert(end@.rows[i] == after@);
        assert(start@.rows[i] == before@);
        let handed = exists|k: int| 0 <= k < r.len() && (#[trigger] r[k]).0@ == before.record.id@;
        if handed {
            let k = choose|k: int| 0 <= k < r.len() && (#[trigger] r[k]).0@ == before.record.id@;
            let at = list[k] as int;
            assert(start@.rows[at] == start.rows@[at]@);
            if at < i {
                assert(start@.rows[at].record.id != start@.rows[i].record.id);
            } else if i < at {
                assert(start@.rows[i].record.id != start@.rows[at].record.id);
            }
            assert(end@.rows[list[k] as int] == task_recovery::taken_up(start@.rows[at]));
        } else {
            assert forall|k: int| 0 <= k < list.len() implies (#[trigger] list[k]) != i by {
                assert(r[k].0@ == start.rows@[list[k] as int].record.id@);
            }
            assert(end@.rows[i] == start@.rows[i]);
            task_laws::lemma_row(before, after);
        }
        if waits(start, boot, i) && r.len() < 16 {
            lemma_waits(start, boot, i);
            assert(start.rows.len() == start.rows@.len());
            assert(task_recovery::is_recoverable(start@, boot, (i as usize) as int));
            assert(order.contains(i as usize));
            let k = choose|k: int| 0 <= k < order.len() && order[k] == i as usize;
            assert(list[k] == i);
            assert(r[k].0@ == before.record.id@);
        }
    }
    assert forall|k: int| 0 <= k < r.len() implies exists|i: int|
        0 <= i < start.rows@.len() && (#[trigger] start.rows@[i]).record.id@ == (
        #[trigger] r[k]).0@ by {
        assert(start.rows@[list[k] as int].record.id@ == r[k].0@);
    }
}

/// Turns are handed out in the order in which they were first recorded: where one
/// has any event, it has one that is no later than each event of those behind it.
pub proof fn law_the_earliest_turns_come_first(
    t: &mut TaskTable,
    boot: &str,
    now: &str,
    r: Vec<(String, String)>,
    a: int,
    b: int,
    e: int,
)
    requires
        task_store::well_formed(old(t)@),
        call_ensures(TaskTable::take_recoverable_channel_turns, (t, boot, now), r),
        0 <= a < b < r@.len(),
        0 <= e < old(t).events@.len(),
        old(t).events@[e].task_id@ == r@[b].0@,
    ensures
        (exists|d: int| 0 <= d <= e && (#[trigger] old(t).events@[d]).task_id@ == r@[a].0@) || (
        forall|d: int|
            0 <= d < old(t).events@.len() ==> (#[trigger] old(t).events@[d]).task_id@ != r@[a].0@),
{
    let start = *old(t);
    let end = *final(t);
    let order = choose|order: Seq<usize>| #[trigger]
        task_recovery::is_recovery_order(start@, boot@, order) && end@
            == task_recovery::recovered(
            start@,
            task_recovery::taken(order),
            now@,
            task_recovery::taken(order).len(),
        ) && r@.map_values(|p: (String, String)| (p.0@, Some(p.1@))) == task_recovery::turns_at(
            start@,
            task_recovery::taken(order),
        );
    let list = task_recovery::taken(order);
    lemma_list(start, boot@, now@, order, end, r@);
    let x = r@[a].0@;
    let y = r@[b].0@;
    assert(list[a] == order[a] && list[b] == order[b]);
    assert(start@.rows[list[a] as int] == start.rows@[list[a] as int]@);
    assert(start@.rows[list[b] as int] == start.rows@[list[b] as int]@);
    assert(task_recovery::rank(start@, order[a] as int) <= task_recovery::rank(
        start@,
        order[b] as int,
    ));
    lemma_first_event(start@.events, x);
    lemma_first_event(start@.events, y);
    assert(start@.events[e] == start.events@[e]@);
    let f = task_recovery::first_event(start@.events, x);
    if f >= 0 {
        assert(start@.events[f] == start.events@[f]@);
        assert(start.events@[f].task_id@ == x);
    } else {
        assert forall|d: int| 0 <= d < start.events@.len() implies (
        #[trigger] start.events@[d]).task_id@ != x by {
            assert(start@.events[d] == start.events@[d]@);
        }
    }
}

/// A stored row is read exactly if its kind and its state are known names; every
/// column is read as it stands.
pub proof fn law_rows_are_read_as_they_stand(
    raw: RawTaskRow,
    r: Option<TaskRecord>,
    kind_text: &str,
    kind: Option<TaskKind>,
    status_text: &str,
    status: Option<TaskStatus>,
)
    requires
        call_ensures(row_to_record, (raw,), r),
        kind_text@ == raw.kind@,
        status_text@ == raw.status@,
        call_ensures(kind_from_db, (kind_text,), kind),
        call_ensures(status_from_db, (status_text,), status),
    ensures
        r is Some <==> kind is Some && status is Some,
        r matches Some(rec) ==> {
            &&& kind == Some(rec.kind)
            &&& status == Some(rec.status)
            &&& rec.id@ == raw.id@
            &&& rec.agent@ == raw.agent@
            &&& rec.owner_pid == raw.owner_pid as u32
            &&& rec.owner_boot_id@ == raw.owner_boot_id@
            &&& same_text(rec.heartbeat_at, raw.heartbeat_at)
            &&& rec.depth == raw.depth as u32
            &&& same_text(rec.parent_id, raw.parent_id)
            &&& same_text(rec.originator_route, raw.originator_route)
            &&& rec.delivered <==> raw.delivered != 0
            &&& same_text(rec.idem_key, raw.idem_key)
            &&& same_text(rec.principal_id, raw.principal_id)
            &&& rec.started_at@ == raw.started_at@
            &&& same_text(rec.finished_at, raw.finished_at)
        },
{
    if let Some(rec) = r {
        if let Some(k) = kind {
            task_registry::law_kind_names_are_distinct(k, rec.kind);
        }
        if let Some(s) = status {
            task_registry::law_status_names_are_distinct(s, rec.status);
        }
    }
}

/// Whether a stored row has a known kind and a known state.
pub open spec fn has_known_names(raw: RawTaskRow) -> bool {
    &&& exists|k: TaskKind| #[trigger] task_registry::kind_name(k) == raw.kind@
    &&& exists|s: TaskStatus| #[trigger] task_registry::status_name(s) == raw.status@
}

/// Of stored rows those with unknown names are left out, and no others; the rest
/// keeps its order.
pub proof fn law_one_bad_row_hides_no_other(rows: Vec<RawTaskRow>, out: Vec<TaskRecord>)
    requires
        call_ensures(collect_skipping_bad_rows, (rows,), out),
    ensures
        ({
            let good = rows@.filter(|raw: RawTaskRow| has_known_names(raw));
            &&& out@.len() == good.len()
            &&& forall|k: int|
                0 <= k < good.len() ==> (#[trigger] out@[k]).id@ == good[k].id@ && out@[k].agent@
                    == good[k].agent@ && task_registry::kind_name(out@[k].kind) == good[k].kind@
                    && task_registry::status_name(out@[k].status) == good[k].status@
                    && out@[k].started_at@ == good[k].started_at@ && (out@[k].delivered
                    <==> good[k].delivered != 0)
        }),
{
    let p = |raw: RawTaskRow| has_known_names(raw);
    let q = |raw: RawTaskRow| task_recovery::is_readable(raw);
    assert(p =~= q);
    let good = rows@.filter(p);
    let views = task_store::record_views(out@);
    assert(views.len() == out@.len());
    assert forall|k: int| 0 <= k < good.len() implies (#[trigger] out@[k]).id@ == good[k].id@
        && out@[k].agent@ == good[k].agent@ && task_registry::kind_name(out@[k].kind)
        == good[k].kind@ && task_registry::status_name(out@[k].status) == good[k].status@
        && out@[k].started_at@ == good[k].started_at@ && (out@[k].delivered
        <==> good[k].delivered != 0) by {
        assert(views[k] == out@[k]@);
        assert(task_recovery::reads_as(good[k], views[k]));
    }
}

/// A column is missing exactly if none of those that are there has its name.
pub proof fn law_missing_columns(columns: &[&str], column: &str, r: bool)
    requires
        call_ensures(column_is_missing, (columns, column), r),
    ensures
        r <==> forall|i: int| 0 <= i < columns@.len() ==> (#[trigger] columns@[i])@ != column@,
{
    let views = text::views(columns@);
    if r {
        assert forall|i: int| 0 <= i < columns@.len() implies (#[trigger] columns@[i])@
            != column@ by {
            assert(views[i] == columns@[i]@);
        }
    } else {
        let i = choose|i: int| 0 <= i < views.len() && views[i] == column@;
        assert(columns@[i]@ == column@);
    }
}

} // verus!
