//! Recovery of channel turns that never started, removal of an agent's tasks,
//! and the reading of stored rows.

use crate::control_plane::task_registry;
use crate::control_plane::task_registry::{RecordView, TaskKind, TaskRecord, TaskStatus};
use crate::control_plane::task_store;
use crate::control_plane::task_store::{
    EventView, RowView, TableView, TaskRow, TaskTable, TurnEvent, RECOVERY_LIMIT,
};
use crate::text;
use crate::turn::tool;
use vstd::prelude::*;
use vstd::string::*;

verus! {

/// The position of the first event of a task, or -1.
pub open spec fn first_event(events: Seq<EventView>, id: Seq<char>) -> int
    decreases events.len(),
{
    if events.len() == 0 {
        -1
    } else {
        let before = first_event(events.drop_last(), id);
        if before >= 0 {
            before
        } else if events.last().task_id == id {
            events.len() - 1
        } else {
            -1
        }
    }
}

/// Whether the turn at `i` never started: it waits in the queue of this run for
/// a restart, and its input is known.
pub open spec fn is_recoverable(t: TableView, boot: Seq<char>, i: int) -> bool {
    &&& 0 <= i < t.rows.len()
    &&& t.rows[i].record.kind == TaskKind::ChannelTurn
    &&& t.rows[i].record.status == TaskStatus::Queued
    &&& t.rows[i].error == Some("restart_pending"@)
    &&& t.rows[i].record.owner_boot_id == boot
    &&& task_store::input_of(t.inputs, t.rows[i].record.id) is Some
}

/// When the turn at `i` was first recorded.
pub open spec fn rank(t: TableView, i: int) -> int {
    first_event(t.events, t.rows[i].record.id)
}

/// Whether `order` holds exactly the positions of the recoverable turns, the
/// earliest recorded first.
pub open spec fn is_recovery_order(t: TableView, boot: Seq<char>, order: Seq<usize>) -> bool {
    &&& order.no_duplicates()
    &&& forall|i: usize|
        #![trigger order.contains(i)]
        #![trigger is_recoverable(t, boot, i as int)]
        order.contains(i) <==> is_recoverable(t, boot, i as int)
    &&& forall|a: int, b: int|
        0 <= a <= b < order.len() ==> rank(t, (#[trigger] order[a]) as int) <= rank(
            t,
            (#[trigger] order[b]) as int,
        )
}

/// The part of an order that one recovery takes.
pub open spec fn taken(order: Seq<usize>) -> Seq<usize> {
    if order.len() <= RECOVERY_LIMIT {
        order
    } else {
        order.take(RECOVERY_LIMIT as int)
    }
}

/// A row that is taken up again.
pub open spec fn taken_up(row: RowView) -> RowView {
    RowView {
        record: RecordView { status: TaskStatus::Received, ..row.record },
        error: None,
        ..row
    }
}

/// The table after the turns at the first `n` positions of `list` have been
/// taken up again.
pub open spec fn recovered(t: TableView, list: Seq<usize>, now: Seq<char>, n: nat) -> TableView
    decreases n,
{
    if n == 0 {
        t
    } else {
        let before = recovered(t, list, now, (n - 1) as nat);
        let i = list[n - 1] as int;
        TableView {
            rows: before.rows.update(i, taken_up(before.rows[i])),
            inputs: before.inputs,
            events: before.events.push(
                task_store::new_event(
                    before.rows[i].record.id,
                    TaskStatus::Received,
                    now,
                    false,
                    0,
                ),
            ),
        }
    }
}

/// The ids and inputs of the turns at the positions of `list`.
pub open spec fn turns_at(t: TableView, list: Seq<usize>) -> Seq<(Seq<char>, Option<Seq<char>>)> {
    list.map_values(
        |i: usize|
            (
                t.rows[i as int].record.id,
                task_store::input_of(t.inputs, t.rows[i as int].record.id),
            ),
    )
}

/// Recovery keeps ids, inputs and the number of rows.
proof fn lemma_recovered_ids(t: TableView, list: Seq<usize>, now: Seq<char>, n: nat)
    requires
        n <= list.len(),
        forall|k: int| 0 <= k < list.len() ==> (#[trigger] list[k]) < t.rows.len(),
    ensures
        recovered(t, list, now, n).rows.len() == t.rows.len(),
        recovered(t, list, now, n).inputs == t.inputs,
        forall|i: int|
            0 <= i < t.rows.len() ==> (#[trigger] recovered(t, list, now, n).rows[i]).record.id
                == t.rows[i].record.id,
    decreases n,
{
    if n > 0 {
        lemma_recovered_ids(t, list, now, (n - 1) as nat);
        let before = recovered(t, list, now, (n - 1) as nat);
        let after = recovered(t, list, now, n);
        assert(list[n - 1] < t.rows.len());
        assert forall|i: int| 0 <= i < t.rows.len() implies (#[trigger] after.rows[i]).record.id
            == t.rows[i].record.id by {
            assert(before.rows[i].record.id == t.rows[i].record.id);
        }
    }
}

impl TaskTable {
    /// The position of the first event of a task, or -1.
    fn first_event_of(&self, id: &str) -> (r: i128)
        ensures
            r == first_event(self@.events, id@),
    {
        let ghost events = self@.events;
        for i in 0..self.events.len()
            invariant
                events == self@.events,
                first_event(events.take(i as int), id@) == -1,
        {
            assert(events.take(i + 1).drop_last() == events.take(i as int));
            assert(events[i as int] == self.events@[i as int]@);
            if text::str_eq(self.events[i].task_id.as_str(), id) {
                proof {
                    lemma_first_event_prefix(events, id@, i + 1);
                }
                return i as i128;
            }
        }
        assert(events.take(self.events@.len() as int) == events);
        -1
    }

    /// Whether the turn at `i` never started.
    fn can_recover(&self, boot_id: &str, i: usize) -> (r: bool)
        requires
            i < self.rows@.len(),
        ensures
            r == is_recoverable(self@, boot_id@, i as int),
    {
        assert(self@.rows[i as int] == self.rows@[i as int]@);
        let row: &TaskRow = &self.rows[i];
        let pending: bool = match &row.error {
            Some(e) => text::str_eq(e.as_str(), "restart_pending"),
            None => false,
        };
        pending && row.record.kind == TaskKind::ChannelTurn && row.record.status
            == TaskStatus::Queued && text::str_eq(row.record.owner_boot_id.as_str(), boot_id)
            && self.channel_turn_input(row.record.id.as_str()).is_some()
    }

    /// The recoverable turns, the earliest recorded first.
    fn recovery_order(&self, boot_id: &str) -> (order: Vec<usize>)
        ensures
            is_recovery_order(self@, boot_id@, order@),
    {
        let mut order: Vec<usize> = Vec::new();
        for i in 0..self.rows.len()
            invariant
                order@.no_duplicates(),
                forall|k: usize|
                    #![trigger order@.contains(k)]
                    #![trigger is_recoverable(self@, boot_id@, k as int)]
                    order@.contains(k) <==> k < i && is_recoverable(self@, boot_id@, k as int),
                forall|a: int, b: int|
                    0 <= a <= b < order@.len() ==> rank(self@, (#[trigger] order@[a]) as int)
                        <= rank(self@, (#[trigger] order@[b]) as int),
                forall|a: int| 0 <= a < order@.len() ==> (#[trigger] order@[a]) < self.rows@.len(),
        {
            if self.can_recover(boot_id, i) {
                assert(self@.rows[i as int] == self.rows@[i as int]@);
                let own: i128 = self.first_event_of(self.rows[i].record.id.as_str());
                let mut at: usize = order.len();
                let mut searching: bool = true;
                while searching && at > 0
                    invariant
                        at <= order@.len(),
                        own == rank(self@, i as int),
                        forall|a: int|
                            0 <= a < order@.len() ==> (#[trigger] order@[a]) < self.rows@.len(),
                        forall|a: int|
                            at <= a < order@.len() ==> own < rank(
                                self@,
                                (#[trigger] order@[a]) as int,
                            ),
                        !searching ==> at > 0 && rank(self@, order@[at - 1] as int) <= own,
                    decreases
                        at + (if searching {
                            1int
                        } else {
                            0int
                        }),
                {
                    let j: usize = order[at - 1];
                    assert(order@[at - 1] < self.rows@.len());
                    assert(self@.rows[j as int] == self.rows@[j as int]@);
                    let other: i128 = self.first_event_of(self.rows[j].record.id.as_str());
                    if other <= own {
                        searching = false;
                    } else {
                        at -= 1;
                    }
                }
                let ghost before = order@;
                order.insert(at, i);
                proof {
                    lemma_insert_in_order(self@, before, i, at as int);
                    assert forall|k: usize|
                        #![trigger order@.contains(k)]
                        #![trigger is_recoverable(self@, boot_id@, k as int)]
                        order@.contains(k) <==> k < i + 1 && is_recoverable(
                            self@,
                            boot_id@,
                            k as int,
                        ) by {
                        assert(order@.contains(k) <==> before.contains(k) || k == i);
                    }
                }
            }
        }
        order
    }

    /// Takes up again, at most sixteen at a time, the turns that never started.
    /// Each is back where it was received; its id and input are handed out.
    pub fn take_recoverable_channel_turns(&mut self, boot_id: &str, now: &str) -> (r: Vec<
        (String, String),
    >)
        requires
            task_store::well_formed(old(self)@),
        ensures
            exists|order: Seq<usize>| #[trigger]
                is_recovery_order(old(self)@, boot_id@, order) && {
                    &&& final(self)@ == recovered(
                        old(self)@,
                        taken(order),
                        now@,
                        taken(order).len(),
                    )
                    &&& r@.map_values(|p: (String, String)| (p.0@, Some(p.1@))) == turns_at(
                        old(self)@,
                        taken(order),
                    )
                },
            task_store::well_formed(final(self)@),
    {
        let ghost start = self@;
        let order: Vec<usize> = self.recovery_order(boot_id);
        let ghost list = taken(order@);
        let count: usize = if order.len() <= RECOVERY_LIMIT {
            order.len()
        } else {
            RECOVERY_LIMIT
        };
        proof {
            assert forall|k: int| 0 <= k < list.len() implies (#[trigger] list[k])
                < start.rows.len() && is_recoverable(start, boot_id@, list[k] as int) by {
                assert(list[k] == order@[k]);
                assert(order@.contains(order@[k]));
            }
        }
        let mut out: Vec<(String, String)> = Vec::new();
        let ghost f = |p: (String, String)| (p.0@, Some(p.1@));
        assert(out@.map_values(f) =~= turns_at(start, list.take(0)));
        for k in 0..count
            invariant
                count == list.len(),
                list == taken(order@),
                f == (|p: (String, String)| (p.0@, Some(p.1@))),
                forall|j: int|
                    0 <= j < list.len() ==> (#[trigger] list[j]) < start.rows.len()
                        && is_recoverable(start, boot_id@, list[j] as int),
                self@ == recovered(start, list, now@, k as nat),
                task_store::well_formed(self@),
                out@.map_values(f) == turns_at(start, list.take(k as int)),
        {
            let i: usize = order[k];
            assert(i == list[k as int]);
            proof {
                lemma_recovered_ids(start, list, now@, k as nat);
            }
            let ghost before = self@;
            assert(before.rows[i as int] == self.rows@[i as int]@);
            let mut row: TaskRow = self.row_at(i);
            let id: String = row.record.id.clone();
            let input: Option<String> = self.channel_turn_input(id.as_str());
            row.record.status = TaskStatus::Received;
            row.error = None;
            self.put(i, row);
            proof {
                task_store::lemma_find_after_update(before.rows, i as int, row@, id@);
                task_store::lemma_find(before.rows, id@);
            }
            self.record_turn_event(id.as_str(), TaskStatus::Received, now, false, 0);
            assert(self@ =~= recovered(start, list, now@, (k + 1) as nat));
            let ghost shown = out@;
            match input {
                Some(input) => {
                    out.push((id, input));
                },
                None => {
                    assert(false);
                },
            }
            assert(list.take(k + 1) =~= list.take(k as int).push(i));
            proof {
                let next = (
                    start.rows[i as int].record.id,
                    task_store::input_of(start.inputs, start.rows[i as int].record.id),
                );
                assert(before.rows[i as int].record.id == start.rows[i as int].record.id);
                assert(turns_at(start, list.take(k + 1)) =~= turns_at(
                    start,
                    list.take(k as int),
                ).push(next));
                assert(f(out@.last()) == next);
                assert(out@.map_values(f) =~= shown.map_values(f).push(next));
            }
        }
        assert(list.take(count as int) =~= list);
        out
    }
}

proof fn lemma_insert_in_order(t: TableView, order: Seq<usize>, i: usize, at: int)
    requires
        order.no_duplicates(),
        !order.contains(i),
        0 <= at <= order.len(),
        forall|a: int, b: int|
            0 <= a <= b < order.len() ==> rank(t, (#[trigger] order[a]) as int) <= rank(
                t,
                (#[trigger] order[b]) as int,
            ),
        forall|a: int|
            at <= a < order.len() ==> rank(t, i as int) < rank(t, (#[trigger] order[a]) as int),
        at > 0 ==> rank(t, order[at - 1] as int) <= rank(t, i as int),
    ensures
        order.insert(at, i).no_duplicates(),
        forall|k: usize| #[trigger] order.insert(at, i).contains(k) <==> order.contains(k) || k == i,
        forall|a: int, b: int|
            0 <= a <= b < order.insert(at, i).len() ==> rank(
                t,
                (#[trigger] order.insert(at, i)[a]) as int,
            ) <= rank(t, (#[trigger] order.insert(at, i)[b]) as int),
{
    let after = order.insert(at, i);
    assert forall|k: usize| #[trigger] after.contains(k) <==> order.contains(k) || k == i by {
        if order.contains(k) {
            let j = choose|j: int| 0 <= j < order.len() && order[j] == k;
            if j < at {
                assert(after[j] == k);
            } else {
                assert(after[j + 1] == k);
            }
        }
        if k == i {
            assert(after[at] == k);
        }
        if after.contains(k) {
            let j = choose|j: int| 0 <= j < after.len() && after[j] == k;
            if j < at {
                assert(order[j] == k);
            } else if j > at {
                assert(order[j - 1] == k);
            }
        }
    }
    assert forall|a: int, b: int| 0 <= a < after.len() && 0 <= b < after.len() && a
        != b implies after[a] != after[b] by {
        let x = if a < at {
            a
        } else {
            a - 1
        };
        let y = if b < at {
            b
        } else {
            b - 1
        };
        if a == at {
            assert(after[b] == order[y]);
        } else if b == at {
            assert(after[a] == order[x]);
        } else {
            assert(after[a] == order[x] && after[b] == order[y]);
        }
    }
    assert forall|a: int, b: int| 0 <= a <= b < after.len() implies rank(
        t,
        (#[trigger] after[a]) as int,
    ) <= rank(t, (#[trigger] after[b]) as int) by {
        if a < at {
            assert(after[a] == order[a]);
            assert(rank(t, order[a] as int) <= rank(t, order[at - 1] as int));
        } else if a > at {
            assert(after[a] == order[a - 1]);
        }
        if b < at {
            assert(after[b] == order[b]);
        } else if b > at {
            assert(after[b] == order[b - 1]);
        }
    }
}

proof fn lemma_first_event_prefix(events: Seq<EventView>, id: Seq<char>, n: int)
    requires
        0 <= n <= events.len(),
        first_event(events.take(n), id) >= 0,
    ensures
        first_event(events, id) == first_event(events.take(n), id),
    decreases events.len() - n,
{
    if n < events.len() {
        assert(events.take(n + 1).drop_last() == events.take(n));
        lemma_first_event_prefix(events, id, n + 1);
    } else {
        assert(events.take(n) == events);
    }
}

/// Whether the task with this id is the agent's.
pub open spec fn belongs_to(rows: Seq<RowView>, id: Seq<char>, agent: Seq<char>) -> bool {
    task_store::find(rows, id) matches Some(i) && rows[i].record.agent == agent
}

/// The table without an agent's tasks, and without their inputs and events.
pub open spec fn without_agent(t: TableView, agent: Seq<char>) -> TableView {
    TableView {
        rows: t.rows.filter(|r: RowView| r.record.agent != agent),
        inputs: t.inputs.filter(
            |p: (Seq<char>, Seq<char>)| !belongs_to(t.rows, p.0, agent),
        ),
        events: t.events.filter(|e: EventView| !belongs_to(t.rows, e.task_id, agent)),
    }
}

impl TaskTable {
    /// Whether the task with this id is the agent's.
    fn task_is_of(&self, id: &str, agent: &str) -> (r: bool)
        ensures
            r == belongs_to(self@.rows, id@, agent@),
    {
        match self.position(id) {
            Some(i) => {
                assert(self@.rows[i as int] == self.rows@[i as int]@);
                text::str_eq(self.rows[i].record.agent.as_str(), agent)
            },
            None => false,
        }
    }

    /// How many tasks an agent has.
    pub fn count_by_agent(&self, agent: &str) -> (n: usize)
        ensures
            n == task_store::owned_by(self@.rows, agent@).len(),
    {
        let ghost rows = self@.rows;
        let ghost p = |r: RowView| r.record.agent == agent@;
        let mut n: usize = 0;
        proof {
            reveal(Seq::filter);
        }
        for i in 0..self.rows.len()
            invariant
                rows == self@.rows,
                p == (|r: RowView| r.record.agent == agent@),
                n == rows.take(i as int).filter(p).len(),
                n <= i,
        {
            assert(rows[i as int] == self.rows@[i as int]@);
            proof {
                task_store::lemma_filter_step(rows, i as int, p);
            }
            if text::str_eq(self.rows[i].record.agent.as_str(), agent) {
                n += 1;
            }
        }
        assert(rows.take(self.rows@.len() as int) == rows);
        n
    }

    /// Removes an agent's tasks with their inputs and events, and says how many
    /// tasks there were.
    pub fn delete_by_agent(&mut self, agent: &str) -> (n: usize)
        requires
            task_store::well_formed(old(self)@),
        ensures
            n == task_store::owned_by(old(self)@.rows, agent@).len(),
            final(self)@ == without_agent(old(self)@, agent@),
            task_store::well_formed(final(self)@),
    {
        let ghost start = self@;
        let n: usize = self.count_by_agent(agent);
        let mut inputs: Vec<(String, String)> = Vec::new();
        let ghost keep_input = |p: (Seq<char>, Seq<char>)| !belongs_to(start.rows, p.0, agent@);
        proof {
            reveal(Seq::filter);
        }
        assert(task_store::input_views(inputs@) =~= start.inputs.take(0).filter(keep_input));
        for i in 0..self.inputs.len()
            invariant
                self@ == start,
                keep_input == (|p: (Seq<char>, Seq<char>)| !belongs_to(start.rows, p.0, agent@)),
                task_store::input_views(inputs@) == start.inputs.take(i as int).filter(keep_input),
        {
            let ghost item = start.inputs[i as int];
            assert(item == (self.inputs@[i as int].0@, self.inputs@[i as int].1@));
            proof {
                lemma_filter_grows(start.inputs, i as int, keep_input);
            }
            let ghost before = inputs@;
            if !self.task_is_of(self.inputs[i].0.as_str(), agent) {
                inputs.push((self.inputs[i].0.clone(), self.inputs[i].1.clone()));
                assert(task_store::input_views(inputs@) =~= task_store::input_views(before).push(
                    item,
                ));
            }
        }
        assert(start.inputs.take(self.inputs@.len() as int) == start.inputs);
        let mut events: Vec<TurnEvent> = Vec::new();
        let ghost keep_event = |e: EventView| !belongs_to(start.rows, e.task_id, agent@);
        assert(task_store::event_views(events@) =~= start.events.take(0).filter(keep_event));
        for i in 0..self.events.len()
            invariant
                self@ == start,
                keep_event == (|e: EventView| !belongs_to(start.rows, e.task_id, agent@)),
                task_store::event_views(events@) == start.events.take(i as int).filter(keep_event),
        {
            let ghost item = start.events[i as int];
            assert(item == self.events@[i as int]@);
            proof {
                lemma_filter_grows(start.events, i as int, keep_event);
            }
            let ghost before = events@;
            let e: &TurnEvent = &self.events[i];
            if !self.task_is_of(e.task_id.as_str(), agent) {
                events.push(
                    TurnEvent {
                        task_id: e.task_id.clone(),
                        state: e.state,
                        recorded_at: e.recorded_at.clone(),
                        delivered: e.delivered,
                        response_bytes: e.response_bytes,
                    },
                );
                assert(task_store::event_views(events@) =~= task_store::event_views(before).push(
                    item,
                ));
            }
        }
        assert(start.events.take(self.events@.len() as int) == start.events);
        let mut rows: Vec<TaskRow> = Vec::new();
        let ghost keep_row = |r: RowView| r.record.agent != agent@;
        assert(task_store::row_views(rows@) =~= start.rows.take(0).filter(keep_row));
        for i in 0..self.rows.len()
            invariant
                self@ == start,
                keep_row == (|r: RowView| r.record.agent != agent@),
                task_store::row_views(rows@) == start.rows.take(i as int).filter(keep_row),
        {
            let ghost item = start.rows[i as int];
            assert(item == self.rows@[i as int]@);
            proof {
                lemma_filter_grows(start.rows, i as int, keep_row);
            }
            let ghost before = rows@;
            if !text::str_eq(self.rows[i].record.agent.as_str(), agent) {
                rows.push(self.row_at(i));
                assert(task_store::row_views(rows@) =~= task_store::row_views(before).push(item));
            }
        }
        assert(start.rows.take(self.rows@.len() as int) == start.rows);
        self.rows = rows;
        self.inputs = inputs;
        self.events = events;
        proof {
            assert(self@ =~= without_agent(start, agent@));
            lemma_without_agent_well_formed(start, agent@);
        }
        n
    }
}

proof fn lemma_filter_grows<A>(s: Seq<A>, i: int, p: spec_fn(A) -> bool)
    requires
        0 <= i < s.len(),
    ensures
        s.take(i + 1).filter(p) == (if p(s[i]) {
            s.take(i).filter(p).push(s[i])
        } else {
            s.take(i).filter(p)
        }),
{
    reveal(Seq::filter);
    assert(s.take(i + 1).drop_last() == s.take(i));
    assert(s.take(i + 1).last() == s[i]);
}

proof fn lemma_filter_distinct(rows: Seq<RowView>, p: spec_fn(RowView) -> bool)
    requires
        task_store::distinct_ids(rows),
    ensures
        task_store::distinct_ids(rows.filter(p)),
    decreases rows.len(),
{
    reveal(Seq::filter);
    if rows.len() > 0 {
        let init = rows.drop_last();
        assert forall|i: int, j: int| 0 <= i < j < init.len() implies (
        #[trigger] init[i]).record.id != (#[trigger] init[j]).record.id by {
            assert(rows[i].record.id != rows[j].record.id);
        }
        lemma_filter_distinct(init, p);
        if p(rows.last()) {
            let kept = init.filter(p);
            let after = rows.filter(p);
            assert(after == kept.push(rows.last()));
            assert forall|i: int, j: int| 0 <= i < j < after.len() implies (
            #[trigger] after[i]).record.id != (#[trigger] after[j]).record.id by {
                assert(after[i] == kept[i]);
                if j < kept.len() {
                    assert(after[j] == kept[j]);
                } else {
                    init.lemma_filter_contains_rev(p, kept[i]);
                    let k = choose|k: int| 0 <= k < init.len() && init[k] == kept[i];
                    assert(rows[k] == kept[i]);
                    assert(rows[k].record.id != rows[rows.len() - 1].record.id);
                }
            }
        }
    }
}

proof fn lemma_kept_is_found(
    rows: Seq<RowView>,
    id: Seq<char>,
    agent: Seq<char>,
    p: spec_fn(RowView) -> bool,
)
    requires
        p == (|r: RowView| r.record.agent != agent),
        task_store::find(rows, id) is Some,
        !belongs_to(rows, id, agent),
    ensures
        task_store::find(rows.filter(p), id) is Some,
{
    let i = task_store::find(rows, id)->0;
    task_store::lemma_find(rows, id);
    task_store::lemma_find(rows.filter(p), id);
    assert(p(rows[i]));
    rows.lemma_filter_contains(p, i);
    let k = choose|k: int| 0 <= k < rows.filter(p).len() && rows.filter(p)[k] == rows[i];
    assert(rows.filter(p)[k].record.id == id);
}

proof fn lemma_without_agent_well_formed(t: TableView, agent: Seq<char>)
    requires
        task_store::well_formed(t),
    ensures
        task_store::well_formed(without_agent(t, agent)),
{
    let after = without_agent(t, agent);
    let p = |r: RowView| r.record.agent != agent;
    lemma_filter_distinct(t.rows, p);
    let keep_input = |q: (Seq<char>, Seq<char>)| !belongs_to(t.rows, q.0, agent);
    assert forall|k: int| 0 <= k < after.inputs.len() implies task_store::find(
        after.rows,
        (#[trigger] after.inputs[k]).0,
    ) is Some by {
        let item = after.inputs[k];
        assert(after.inputs.contains(item));
        t.inputs.lemma_filter_contains_rev(keep_input, item);
        let j = choose|j: int| 0 <= j < t.inputs.len() && t.inputs[j] == item;
        assert(task_store::find(t.rows, t.inputs[j].0) is Some);
        assert(keep_input(item)) by {
            broadcast use vstd::seq_lib::group_filter_ensures;
        }
        lemma_kept_is_found(t.rows, item.0, agent, p);
    }
    let keep_event = |e: EventView| !belongs_to(t.rows, e.task_id, agent);
    assert forall|k: int| 0 <= k < after.events.len() implies task_store::find(
        after.rows,
        (#[trigger] after.events[k]).task_id,
    ) is Some by {
        let item = after.events[k];
        assert(after.events.contains(item));
        t.events.lemma_filter_contains_rev(keep_event, item);
        let j = choose|j: int| 0 <= j < t.events.len() && t.events[j] == item;
        assert(task_store::find(t.rows, t.events[j].task_id) is Some);
        assert(keep_event(item)) by {
            broadcast use vstd::seq_lib::group_filter_ensures;
        }
        lemma_kept_is_found(t.rows, item.task_id, agent, p);
    }
}

/// A task as its columns hold it.
pub struct RawTaskRow {
    pub id: String,
    pub kind: String,
    pub agent: String,
    pub status: String,
    pub owner_pid: i64,
    pub owner_boot_id: String,
    pub heartbeat_at: Option<String>,
    pub depth: i64,
    pub parent_id: Option<String>,
    pub originator_route: Option<String>,
    pub delivered: i64,
    pub idem_key: Option<String>,
    pub principal_id: Option<String>,
    pub started_at: String,
    pub finished_at: Option<String>,
}

/// Whether `rec` is what the columns say.
pub open spec fn reads_as(raw: RawTaskRow, rec: RecordView) -> bool {
    &&& task_registry::kind_name(rec.kind) == raw.kind@
    &&& task_registry::status_name(rec.status) == raw.status@
    &&& rec.id == raw.id@
    &&& rec.agent == raw.agent@
    &&& rec.owner_pid == raw.owner_pid as u32
    &&& rec.owner_boot_id == raw.owner_boot_id@
    &&& rec.heartbeat_at == tool::opt(raw.heartbeat_at)
    &&& rec.depth == raw.depth as u32
    &&& rec.parent_id == tool::opt(raw.parent_id)
    &&& rec.originator_route == tool::opt(raw.originator_route)
    &&& rec.delivered == (raw.delivered != 0)
    &&& rec.idem_key == tool::opt(raw.idem_key)
    &&& rec.principal_id == tool::opt(raw.principal_id)
    &&& rec.started_at == raw.started_at@
    &&& rec.finished_at == tool::opt(raw.finished_at)
}

/// Whether the kind and the state of a row are known.
pub open spec fn is_readable(raw: RawTaskRow) -> bool {
    &&& exists|k: TaskKind| #[trigger] task_registry::kind_name(k) == raw.kind@
    &&& exists|s: TaskStatus| #[trigger] task_registry::status_name(s) == raw.status@
}

/// Reads a row; none where its kind or state is unknown.
pub fn row_to_record(raw: RawTaskRow) -> (r: Option<TaskRecord>)
    ensures
        r is Some <==> is_readable(raw),
        r matches Some(rec) ==> reads_as(raw, rec@),
{
    let kind: TaskKind = match task_registry::kind_from_db(raw.kind.as_str()) {
        Some(k) => k,
        None => {
            return None;
        },
    };
    let status: TaskStatus = match task_registry::status_from_db(raw.status.as_str()) {
        Some(s) => s,
        None => {
            return None;
        },
    };
    assert(task_registry::kind_name(kind) == raw.kind@);
    assert(task_registry::status_name(status) == raw.status@);
    Some(
        TaskRecord {
            id: raw.id,
            kind,
            agent: raw.agent,
            status,
            owner_pid: #[verifier::truncate] (raw.owner_pid as u32),
            owner_boot_id: raw.owner_boot_id,
            heartbeat_at: raw.heartbeat_at,
            depth: #[verifier::truncate] (raw.depth as u32),
            parent_id: raw.parent_id,
            originator_route: raw.originator_route,
            delivered: raw.delivered != 0,
            idem_key: raw.idem_key,
            principal_id: raw.principal_id,
            started_at: raw.started_at,
            finished_at: raw.finished_at,
        },
    )
}

/// Whether `out` holds, in order, what the readable rows of `rows` say.
pub open spec fn reads_all(rows: Seq<RawTaskRow>, out: Seq<RecordView>) -> bool {
    let readable = rows.filter(|r: RawTaskRow| is_readable(r));
    &&& out.len() == readable.len()
    &&& forall|i: int| 0 <= i < out.len() ==> reads_as(readable[i], #[trigger] out[i])
}

/// Reads rows and leaves out those that cannot be read: one unknown row must not
/// hide the others.
pub fn collect_skipping_bad_rows(rows: Vec<RawTaskRow>) -> (out: Vec<TaskRecord>)
    ensures
        reads_all(rows@, task_store::record_views(out@)),
{
    let ghost all = rows@;
    let ghost p = |r: RawTaskRow| is_readable(r);
    let mut rest: Vec<RawTaskRow> = rows;
    let mut out: Vec<TaskRecord> = Vec::new();
    proof {
        reveal(Seq::filter);
        assert(all.take(0).filter(p) =~= Seq::empty());
        assert(all.skip(0) == all);
    }
    let ghost mut i: int = 0;
    while rest.len() > 0
        invariant
            0 <= i <= all.len(),
            p == (|r: RawTaskRow| is_readable(r)),
            rest@ == all.skip(i),
            out@.len() == all.take(i).filter(p).len(),
            forall|k: int|
                0 <= k < out@.len() ==> reads_as(
                    all.take(i).filter(p)[k],
                    (#[trigger] out@[k])@,
                ),
        decreases rest@.len(),
    {
        let raw: RawTaskRow = rest.remove(0);
        proof {
            assert(raw == all[i]);
            assert(rest@ =~= all.skip(i + 1));
            lemma_filter_grows(all, i, p);
        }
        if let Some(rec) = row_to_record(raw) {
            out.push(rec);
        }
        proof {
            i = i + 1;
        }
    }
    proof {
        assert(all.take(i) =~= all);
        let views = task_store::record_views(out@);
        assert forall|k: int| 0 <= k < views.len() implies reads_as(
            all.filter(p)[k],
            #[trigger] views[k],
        ) by {
            assert(views[k] == out@[k]@);
        }
    }
    out
}

/// Whether a column has to be added to a table with these columns.
pub fn column_is_missing(columns: &[&str], column: &str) -> (r: bool)
    ensures
        r == !text::views(columns@).contains(column@),
{
    let name: Vec<char> = text::chars_of(column);
    !text::is_one_of(name.as_slice(), columns)
}

/// A task that is over stays as it ended: no change of state, owner or
/// checkpoint touches it.
pub proof fn law_final_state_is_final(
    t: TableView,
    id: Seq<char>,
    status: TaskStatus,
    output: Option<Seq<char>>,
    error: Option<Seq<char>>,
    delivered: bool,
    permitted: bool,
    pid: u32,
    boot: Seq<char>,
    now: Seq<char>,
)
    requires
        task_store::find(t.rows, id) is Some,
        t.rows[task_store::find(t.rows, id)->0].record.status.terminal(),
    ensures
        ({
            let row = t.rows[task_store::find(t.rows, id)->0];
            &&& task_store::with_status(row, status, output, error, now) == row
            &&& task_store::with_owner(row, pid, boot) == row
            &&& task_store::checkpoint_refusal(t, id, status, output, delivered, permitted) is Some
        }),
{
}

/// A channel turn is admitted once: after its admission the id is known.
pub proof fn law_admission_happens_once(
    t: TableView,
    rec: RecordView,
    input: Seq<char>,
    now: Seq<char>,
)
    requires
        task_store::find(t.rows, rec.id) is None,
    ensures
        task_store::find(task_store::admitted(t, rec, input, now).rows, rec.id) == Some(
            t.rows.len() as int,
        ),
        task_store::input_of(t.inputs, rec.id) is None ==> task_store::input_of(
            task_store::admitted(t, rec, input, now).inputs,
            rec.id,
        ) == Some(input),
{
    task_store::lemma_find_after_push(t.rows, task_store::new_row(rec), rec.id);
    let after = task_store::admitted(t, rec, input, now).inputs;
    assert(after.drop_last() =~= t.inputs);
}

/// A turn counts as delivered exactly when its last checkpoint says so.
pub proof fn law_delivery_needs_a_delivered_checkpoint(
    t: TableView,
    id: Seq<char>,
    status: TaskStatus,
    output: Option<Seq<char>>,
    delivered: bool,
    permitted: bool,
    now: Seq<char>,
)
    requires
        task_store::checkpoint_refusal(t, id, status, output, delivered, permitted) is None,
    ensures
        ({
            let i = task_store::find(t.rows, id)->0;
            let row = task_store::checkpointed(t, id, status, output, delivered, now).rows[i];
            row.record.status == status && row.record.delivered == (status
                == TaskStatus::Delivered)
        }),
{
    task_store::lemma_find(t.rows, id);
}

/// What a dead owner left behind is never run again by itself unless it had not
/// started: of channel turns only a queued one stays in the queue, and nothing
/// else that is given up can be recovered.
pub proof fn law_only_queued_turns_are_kept(
    row: RowView,
    now_boot: Seq<char>,
    own_pid: u32,
    now: Seq<char>,
)
    requires
        !row.record.status.terminal(),
    ensures
        ({
            let after = task_store::given_up(row, now_boot, own_pid, now);
            let kept = row.record.kind == TaskKind::ChannelTurn && row.record.status
                == TaskStatus::Queued;
            &&& kept ==> after.record.status == TaskStatus::Queued && after.error == Some(
                "restart_pending"@,
            )
            &&& !kept ==> after.record.status.terminal() && after.record.finished_at == Some(now)
        }),
{
}

} // verus!
