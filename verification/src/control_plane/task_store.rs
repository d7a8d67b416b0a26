//! The task table: every change that durable tasks, their inputs and their turn
//! events can go through.
//!
//! A transaction brings the rows that it touches into a table, applies one
//! operation, and writes the table back.

use crate::control_plane::task_registry::{TaskKind, TaskRecord, TaskStatus, RecordView};
use crate::text;
use crate::turn::tool;
use vstd::prelude::*;
use vstd::string::*;

verus! {

/// The newest storage layout that is understood.
pub const CONTROL_PLANE_SCHEMA_VERSION: i64 = 9;

/// The longest channel input or response that is kept, in bytes.
pub const MAX_CHECKPOINT_BYTES: usize = 1048576;

/// How many turns one recovery takes.
pub const RECOVERY_LIMIT: usize = 16;

/// Whether storage of this layout may be opened. A newer one is refused before
/// anything is changed.
pub fn schema_is_supported(version: i64) -> (r: bool)
    ensures
        r == (version <= CONTROL_PLANE_SCHEMA_VERSION),
{
    version <= CONTROL_PLANE_SCHEMA_VERSION
}

/// A stored task.
pub struct TaskRow {
    pub record: TaskRecord,
    pub output: Option<String>,
    pub error: Option<String>,
}

/// A step in the life of a channel turn.
pub struct TurnEvent {
    pub task_id: String,
    pub state: TaskStatus,
    pub recorded_at: String,
    pub delivered: bool,
    pub response_bytes: usize,
}

/// Stored tasks, the inputs of channel turns, and their events in the order in
/// which they were recorded.
pub struct TaskTable {
    pub rows: Vec<TaskRow>,
    pub inputs: Vec<(String, String)>,
    pub events: Vec<TurnEvent>,
}

/// The model of a stored task.
pub struct RowView {
    pub record: RecordView,
    pub output: Option<Seq<char>>,
    pub error: Option<Seq<char>>,
}

/// The model of an event.
pub struct EventView {
    pub task_id: Seq<char>,
    pub state: TaskStatus,
    pub recorded_at: Seq<char>,
    pub delivered: bool,
    pub response_bytes: nat,
}

/// The model of the table.
#[verifier::ext_equal]
pub struct TableView {
    pub rows: Seq<RowView>,
    pub inputs: Seq<(Seq<char>, Seq<char>)>,
    pub events: Seq<EventView>,
}

impl View for TaskRow {
    type V = RowView;

    open spec fn view(&self) -> RowView {
        RowView {
            record: self.record@,
            output: tool::opt(self.output),
            error: tool::opt(self.error),
        }
    }
}

impl View for TurnEvent {
    type V = EventView;

    open spec fn view(&self) -> EventView {
        EventView {
            task_id: self.task_id@,
            state: self.state,
            recorded_at: self.recorded_at@,
            delivered: self.delivered,
            response_bytes: self.response_bytes as nat,
        }
    }
}

/// The models of stored tasks.
pub open spec fn row_views(rows: Seq<TaskRow>) -> Seq<RowView> {
    rows.map_values(|r: TaskRow| r@)
}

/// The models of inputs.
pub open spec fn input_views(inputs: Seq<(String, String)>) -> Seq<(Seq<char>, Seq<char>)> {
    inputs.map_values(|p: (String, String)| (p.0@, p.1@))
}

/// The models of events.
pub open spec fn event_views(events: Seq<TurnEvent>) -> Seq<EventView> {
    events.map_values(|e: TurnEvent| e@)
}

impl View for TaskTable {
    type V = TableView;

    open spec fn view(&self) -> TableView {
        TableView {
            rows: row_views(self.rows@),
            inputs: input_views(self.inputs@),
            events: event_views(self.events@),
        }
    }
}

/// The position of the task with this id.
pub open spec fn find(rows: Seq<RowView>, id: Seq<char>) -> Option<int>
    decreases rows.len(),
{
    if rows.len() == 0 {
        None
    } else {
        match find(rows.drop_last(), id) {
            Some(i) => Some(i),
            None => if rows.last().record.id == id {
                Some(rows.len() - 1)
            } else {
                None
            },
        }
    }
}

/// The input of the channel turn with this id.
pub open spec fn input_of(inputs: Seq<(Seq<char>, Seq<char>)>, id: Seq<char>) -> Option<Seq<char>>
    decreases inputs.len(),
{
    if inputs.len() == 0 {
        None
    } else {
        match input_of(inputs.drop_last(), id) {
            Some(i) => Some(i),
            None => if inputs.last().0 == id {
                Some(inputs.last().1)
            } else {
                None
            },
        }
    }
}

/// No id occurs twice.
pub open spec fn distinct_ids(rows: Seq<RowView>) -> bool {
    forall|i: int, j: int|
        0 <= i < j < rows.len() ==> (#[trigger] rows[i]).record.id != (
        #[trigger] rows[j]).record.id
}

/// No two tasks share an id, and every input belongs to a task.
pub open spec fn well_formed(t: TableView) -> bool {
    &&& distinct_ids(t.rows)
    &&& forall|i: int|
        0 <= i < t.inputs.len() ==> find(t.rows, (#[trigger] t.inputs[i]).0) is Some
    &&& forall|i: int|
        0 <= i < t.events.len() ==> find(t.rows, (#[trigger] t.events[i]).task_id) is Some
}

/// What `find` gives is a task with the id.
pub proof fn lemma_find(rows: Seq<RowView>, id: Seq<char>)
    ensures
        match find(rows, id) {
            Some(i) => 0 <= i < rows.len() && rows[i].record.id == id && forall|j: int|
                0 <= j < i ==> (#[trigger] rows[j]).record.id != id,
            None => forall|j: int| 0 <= j < rows.len() ==> (#[trigger] rows[j]).record.id != id,
        },
    decreases rows.len(),
{
    if rows.len() > 0 {
        let init = rows.drop_last();
        lemma_find(init, id);
        assert forall|j: int| 0 <= j < init.len() implies #[trigger] rows[j] == init[j] by {}
    }
}

/// A task is found at the only position that has its id.
pub proof fn lemma_found_at(rows: Seq<RowView>, id: Seq<char>, i: int)
    requires
        0 <= i < rows.len(),
        rows[i].record.id == id,
        forall|j: int| 0 <= j < i ==> (#[trigger] rows[j]).record.id != id,
    ensures
        find(rows, id) == Some(i),
{
    lemma_find(rows, id);
}

/// A change that keeps a row's id keeps where every id is found.
pub proof fn lemma_find_after_update(rows: Seq<RowView>, i: int, row: RowView, id: Seq<char>)
    requires
        0 <= i < rows.len(),
        row.record.id == rows[i].record.id,
    ensures
        find(rows.update(i, row), id) == find(rows, id),
{
    let after = rows.update(i, row);
    lemma_find(rows, id);
    lemma_find(after, id);
    match find(rows, id) {
        Some(k) => {
            assert forall|j: int| 0 <= j < k implies (#[trigger] after[j]).record.id != id by {
                assert(rows[j].record.id != id);
            }
            lemma_found_at(after, id, k);
        },
        None => {
            if find(after, id) is Some {
                let k = find(after, id)->0;
                assert(rows[k].record.id == after[k].record.id);
            }
        },
    }
}

/// A new row at the end keeps where every other id is found.
pub proof fn lemma_find_after_push(rows: Seq<RowView>, row: RowView, id: Seq<char>)
    ensures
        find(rows, id) is Some ==> find(rows.push(row), id) == find(rows, id),
        find(rows, id) is None ==> find(rows.push(row), id) == (if row.record.id == id {
            Some(rows.len() as int)
        } else {
            None
        }),
{
    assert(rows.push(row).drop_last() == rows);
}

/// A change of one row that keeps its id keeps the table well formed.
pub proof fn lemma_update_well_formed(t: TableView, i: int, row: RowView)
    requires
        well_formed(t),
        0 <= i < t.rows.len(),
        row.record.id == t.rows[i].record.id,
    ensures
        well_formed(TableView { rows: t.rows.update(i, row), ..t }),
{
    let after = t.rows.update(i, row);
    assert forall|a: int, b: int| 0 <= a < b < after.len() implies (#[trigger] after[a]).record.id
        != (#[trigger] after[b]).record.id by {
        assert(t.rows[a].record.id != t.rows[b].record.id);
    }
    assert forall|k: int| 0 <= k < t.inputs.len() implies find(
        after,
        (#[trigger] t.inputs[k]).0,
    ) is Some by {
        lemma_find_after_update(t.rows, i, row, t.inputs[k].0);
    }
    assert forall|k: int| 0 <= k < t.events.len() implies find(
        after,
        (#[trigger] t.events[k]).task_id,
    ) is Some by {
        lemma_find_after_update(t.rows, i, row, t.events[k].task_id);
    }
}

impl TaskRecord {
    /// A copy of the record.
    pub fn copy(&self) -> (r: TaskRecord)
        ensures
            r@ == self@,
    {
        TaskRecord {
            id: self.id.clone(),
            kind: self.kind,
            agent: self.agent.clone(),
            status: self.status,
            owner_pid: self.owner_pid,
            owner_boot_id: self.owner_boot_id.clone(),
            heartbeat_at: tool::copy_opt(&self.heartbeat_at),
            depth: self.depth,
            parent_id: tool::copy_opt(&self.parent_id),
            originator_route: tool::copy_opt(&self.originator_route),
            delivered: self.delivered,
            idem_key: tool::copy_opt(&self.idem_key),
            principal_id: tool::copy_opt(&self.principal_id),
            started_at: self.started_at.clone(),
            finished_at: tool::copy_opt(&self.finished_at),
        }
    }
}

/// The row of a task that is registered.
pub open spec fn new_row(rec: RecordView) -> RowView {
    RowView { record: rec, output: None, error: None }
}

/// The first of two optional values that is there.
pub open spec fn either(a: Option<Seq<char>>, b: Option<Seq<char>>) -> Option<Seq<char>> {
    match a {
        Some(x) => Some(x),
        None => b,
    }
}

/// A row after a change of state. A task that is over does not change; output
/// and error are replaced only by new ones; the end is stamped once the state is
/// final.
pub open spec fn with_status(
    row: RowView,
    status: TaskStatus,
    output: Option<Seq<char>>,
    error: Option<Seq<char>>,
    now: Seq<char>,
) -> RowView {
    if row.record.status.terminal() {
        row
    } else {
        RowView {
            record: RecordView {
                status,
                finished_at: if status.terminal() {
                    Some(now)
                } else {
                    row.record.finished_at
                },
                ..row.record
            },
            output: either(output, row.output),
            error: either(error, row.error),
        }
    }
}

/// A row under a new owner. A task that is over keeps its owner.
pub open spec fn with_owner(row: RowView, pid: u32, boot: Seq<char>) -> RowView {
    if row.record.status.terminal() {
        row
    } else {
        RowView {
            record: RecordView {
                owner_pid: pid,
                owner_boot_id: boot,
                heartbeat_at: None,
                ..row.record
            },
            ..row
        }
    }
}

/// Why an operation on the table was refused. The table is then unchanged.
#[derive(Clone, Copy, Debug, PartialEq, Eq, Structural)]
pub enum StoreError {
    /// The record is no fresh channel turn, has no id, or its input is too long.
    InvalidChannelTurn,
    /// Confirmed delivery and the delivered state do not go together.
    InvalidDelivery,
    /// The response is too long to keep.
    ResponseTooLarge,
    /// There is no such task.
    MissingTask,
    /// The task is no channel turn.
    NotChannelTurn,
    /// The state cannot follow the present one.
    IllegalTransition,
    /// The task is over.
    AlreadyTerminal,
    /// The turn can no longer be routed.
    NotRoutable,
    /// A channel turn changes only by checkpoints.
    CheckpointRequired,
}

impl TaskTable {
    /// An empty table.
    pub fn new() -> (t: TaskTable)
        ensures
            t@ == (TableView { rows: Seq::empty(), inputs: Seq::empty(), events: Seq::empty() }),
            well_formed(t@),
    {
        let t = TaskTable { rows: Vec::new(), inputs: Vec::new(), events: Vec::new() };
        assert(t@ =~= TableView {
            rows: Seq::empty(),
            inputs: Seq::empty(),
            events: Seq::empty(),
        });
        t
    }

    /// The position of the task with this id.
    pub fn position(&self, id: &str) -> (r: Option<usize>)
        ensures
            match r {
                Some(i) => find(self@.rows, id@) == Some(i as int) && i < self.rows@.len(),
                None => find(self@.rows, id@) is None,
            },
    {
        let ghost rows = self@.rows;
        for i in 0..self.rows.len()
            invariant
                rows == self@.rows,
                forall|j: int| 0 <= j < i ==> (#[trigger] rows[j]).record.id != id@,
        {
            assert(rows[i as int] == self.rows@[i as int]@);
            if text::str_eq(self.rows[i].record.id.as_str(), id) {
                proof {
                    lemma_found_at(rows, id@, i as int);
                }
                return Some(i);
            }
        }
        proof {
            lemma_find(rows, id@);
        }
        None
    }

    /// Whether the table is well-formed: to be asked of one that was read from
    /// storage.
    pub fn is_well_formed(&self) -> (r: bool)
        ensures
            r == well_formed(self@),
    {
        let ghost t = self@;
        for i in 0..self.rows.len()
            invariant
                t == self@,
                forall|k: int, j: int|
                    0 <= k < j < i ==> (#[trigger] t.rows[k]).record.id != (
                    #[trigger] t.rows[j]).record.id,
        {
            proof {
                lemma_find(t.rows, t.rows[i as int].record.id);
            }
            assert(t.rows[i as int] == self.rows@[i as int]@);
            match self.position(self.rows[i].record.id.as_str()) {
                Some(k) => {
                    if k != i {
                        assert(t.rows[k as int].record.id == t.rows[i as int].record.id);
                        return false;
                    }
                },
                None => {
                    return false;
                },
            }
        }
        for i in 0..self.inputs.len()
            invariant
                t == self@,
                distinct_ids(t.rows),
                forall|k: int|
                    0 <= k < i ==> find(t.rows, (#[trigger] t.inputs[k]).0) is Some,
        {
            assert(t.inputs[i as int].0 == self.inputs@[i as int].0@);
            if self.position(self.inputs[i].0.as_str()).is_none() {
                return false;
            }
        }
        for i in 0..self.events.len()
            invariant
                t == self@,
                distinct_ids(t.rows),
                forall|k: int|
                    0 <= k < t.inputs.len() ==> find(t.rows, (#[trigger] t.inputs[k]).0) is Some,
                forall|k: int|
                    0 <= k < i ==> find(t.rows, (#[trigger] t.events[k]).task_id) is Some,
        {
            assert(t.events[i as int].task_id == self.events@[i as int].task_id@);
            if self.position(self.events[i].task_id.as_str()).is_none() {
                return false;
            }
        }
        true
    }

    /// Registers a task. An id that is known changes nothing.
    pub fn create(&mut self, rec: TaskRecord)
        requires
            well_formed(old(self)@),
        ensures
            final(self)@ == (if find(old(self)@.rows, rec@.id) is Some {
                old(self)@
            } else {
                TableView { rows: old(self)@.rows.push(new_row(rec@)), ..old(self)@ }
            }),
            well_formed(final(self)@),
    {
        let known: Option<usize> = self.position(rec.id.as_str());
        if known.is_some() {
            return ;
        }
        let ghost before = self@;
        let ghost row = new_row(rec@);
        self.rows.push(TaskRow { record: rec, output: None, error: None });
        proof {
            assert(self@.rows =~= before.rows.push(row));
            lemma_push_well_formed(before, row);
        }
    }
}

/// The model of an event that is recorded.
pub open spec fn new_event(
    id: Seq<char>,
    state: TaskStatus,
    now: Seq<char>,
    delivered: bool,
    response_bytes: nat,
) -> EventView {
    EventView { task_id: id, state, recorded_at: now, delivered, response_bytes }
}

/// Whether a record and its input can be admitted as a channel turn.
pub open spec fn is_admissible(rec: RecordView, input: Seq<char>) -> bool {
    &&& rec.kind == TaskKind::ChannelTurn
    &&& rec.status == TaskStatus::Received
    &&& rec.id.len() > 0
    &&& text::byte_len(input) <= MAX_CHECKPOINT_BYTES
}

/// The table after a channel turn has been admitted.
pub open spec fn admitted(
    t: TableView,
    rec: RecordView,
    input: Seq<char>,
    now: Seq<char>,
) -> TableView {
    TableView {
        rows: t.rows.push(new_row(rec)),
        inputs: t.inputs.push((rec.id, input)),
        events: t.events.push(new_event(rec.id, TaskStatus::Received, now, false, 0)),
    }
}

/// Why a checkpoint of the channel turn `id` is refused; none where it is made.
/// `permitted` says whether the new state may follow the present one.
pub open spec fn checkpoint_refusal(
    t: TableView,
    id: Seq<char>,
    status: TaskStatus,
    output: Option<Seq<char>>,
    delivered: bool,
    permitted: bool,
) -> Option<StoreError> {
    if delivered != (status == TaskStatus::Delivered) {
        Some(StoreError::InvalidDelivery)
    } else if output matches Some(s) && text::byte_len(s) > MAX_CHECKPOINT_BYTES {
        Some(StoreError::ResponseTooLarge)
    } else {
        match find(t.rows, id) {
            None => Some(StoreError::MissingTask),
            Some(i) => if t.rows[i].record.kind != TaskKind::ChannelTurn {
                Some(StoreError::NotChannelTurn)
            } else if !permitted {
                Some(StoreError::IllegalTransition)
            } else if t.rows[i].record.status.terminal() {
                Some(StoreError::AlreadyTerminal)
            } else {
                None
            },
        }
    }
}

/// The table after a checkpoint of the channel turn `id`.
pub open spec fn checkpointed(
    t: TableView,
    id: Seq<char>,
    status: TaskStatus,
    output: Option<Seq<char>>,
    delivered: bool,
    now: Seq<char>,
) -> TableView {
    let i = find(t.rows, id)->0;
    let row = with_status(t.rows[i], status, output, None, now);
    TableView {
        rows: t.rows.update(
            i,
            RowView { record: RecordView { delivered, ..row.record }, ..row },
        ),
        inputs: t.inputs,
        events: t.events.push(
            new_event(
                id,
                status,
                now,
                delivered,
                match output {
                    Some(s) => text::byte_len(s),
                    None => 0,
                },
            ),
        ),
    }
}

/// Whether a channel turn can be bound to an agent: it has been received under
/// the present run and not been worked on.
pub open spec fn is_routable(row: RowView, boot: Seq<char>) -> bool {
    &&& row.record.kind == TaskKind::ChannelTurn
    &&& row.record.status == TaskStatus::Received
    &&& row.record.owner_boot_id == boot
}

/// A row after its dead owner's work has been given up. A queued channel turn
/// never started and is kept for a restart; any other channel turn is left to a
/// person; any other task is lost.
pub open spec fn given_up(row: RowView, now_boot: Seq<char>, own_pid: u32, now: Seq<char>) -> RowView {
    if row.record.kind == TaskKind::ChannelTurn {
        if row.record.status == TaskStatus::Queued {
            RowView {
                record: RecordView {
                    status: TaskStatus::Queued,
                    owner_boot_id: now_boot,
                    owner_pid: own_pid,
                    finished_at: None,
                    ..row.record
                },
                error: Some("restart_pending"@),
                ..row
            }
        } else {
            RowView {
                record: RecordView {
                    status: TaskStatus::Uncertain,
                    owner_boot_id: now_boot,
                    owner_pid: own_pid,
                    finished_at: Some(now),
                    ..row.record
                },
                error: Some("restart_reconciliation_required"@),
                ..row
            }
        }
    } else {
        RowView {
            record: RecordView { status: TaskStatus::Lost, finished_at: Some(now), ..row.record },
            ..row
        }
    }
}

/// The table after the task `id` has been given up.
pub open spec fn reconciled(
    t: TableView,
    id: Seq<char>,
    now_boot: Seq<char>,
    own_pid: u32,
    now: Seq<char>,
) -> TableView {
    let i = find(t.rows, id)->0;
    let row = given_up(t.rows[i], now_boot, own_pid, now);
    TableView {
        rows: t.rows.update(i, row),
        inputs: t.inputs,
        events: if t.rows[i].record.kind == TaskKind::ChannelTurn {
            t.events.push(new_event(id, row.record.status, now, false, 0))
        } else {
            t.events
        },
    }
}

/// An event of a known task keeps the table well formed.
pub proof fn lemma_event_well_formed(t: TableView, e: EventView)
    requires
        well_formed(t),
        find(t.rows, e.task_id) is Some,
    ensures
        well_formed(TableView { events: t.events.push(e), ..t }),
{
    let after = t.events.push(e);
    assert forall|k: int| 0 <= k < after.len() implies find(
        t.rows,
        (#[trigger] after[k]).task_id,
    ) is Some by {
        if k < t.events.len() {
            assert(after[k] == t.events[k]);
        }
    }
}

impl TaskTable {
    /// Puts `row` in the place of the row at `i`.
    pub(crate) fn put(&mut self, i: usize, row: TaskRow)
        requires
            well_formed(old(self)@),
            i < old(self).rows@.len(),
            row@.record.id == old(self)@.rows[i as int].record.id,
        ensures
            final(self)@ == (TableView {
                rows: old(self)@.rows.update(i as int, row@),
                ..old(self)@
            }),
            well_formed(final(self)@),
    {
        let ghost before = self@;
        self.rows.set(i, row);
        proof {
            assert(self@.rows =~= before.rows.update(i as int, row@));
            lemma_update_well_formed(before, i as int, row@);
        }
    }

    /// A copy of the row at `i`.
    pub(crate) fn row_at(&self, i: usize) -> (r: TaskRow)
        requires
            i < self.rows@.len(),
        ensures
            r@ == self@.rows[i as int],
    {
        TaskRow {
            record: self.rows[i].record.copy(),
            output: tool::copy_opt(&self.rows[i].output),
            error: tool::copy_opt(&self.rows[i].error),
        }
    }

    /// Records an event of a known task.
    pub fn record_turn_event(
        &mut self,
        id: &str,
        state: TaskStatus,
        now: &str,
        delivered: bool,
        response_bytes: usize,
    )
        requires
            well_formed(old(self)@),
            find(old(self)@.rows, id@) is Some,
        ensures
            final(self)@ == (TableView {
                events: old(self)@.events.push(
                    new_event(id@, state, now@, delivered, response_bytes as nat),
                ),
                ..old(self)@
            }),
            well_formed(final(self)@),
    {
        let ghost before = self@;
        let ghost e = new_event(id@, state, now@, delivered, response_bytes as nat);
        self.events.push(
            TurnEvent {
                task_id: id.to_owned(),
                state,
                recorded_at: now.to_owned(),
                delivered,
                response_bytes,
            },
        );
        proof {
            assert(self@.events =~= before.events.push(e));
            lemma_event_well_formed(before, e);
        }
    }

    /// Admits a channel turn with its input. A known id is a duplicate: it changes
    /// nothing and gives no permission to run anything.
    pub fn admit_channel_turn(&mut self, rec: TaskRecord, input: String, now: &str) -> (r: Result<
        bool,
        StoreError,
    >)
        requires
            well_formed(old(self)@),
        ensures
            r == (if !is_admissible(rec@, input@) {
                Err::<bool, StoreError>(StoreError::InvalidChannelTurn)
            } else {
                Ok(find(old(self)@.rows, rec@.id) is None)
            }),
            final(self)@ == (if r == Ok::<bool, StoreError>(true) {
                admitted(old(self)@, rec@, input@, now@)
            } else {
                old(self)@
            }),
            well_formed(final(self)@),
    {
        if rec.kind != TaskKind::ChannelTurn || rec.status != TaskStatus::Received
            || rec.id.as_str().is_empty() || text::len_bytes(input.as_str())
            > MAX_CHECKPOINT_BYTES {
            return Err(StoreError::InvalidChannelTurn);
        }
        let known: Option<usize> = self.position(rec.id.as_str());
        if known.is_some() {
            return Ok(false);
        }
        let ghost before = self@;
        let ghost view = rec@;
        let id: String = rec.id.clone();
        self.create(rec);
        proof {
            lemma_find_after_push(before.rows, new_row(view), view.id);
        }
        self.record_turn_event(id.as_str(), TaskStatus::Received, now, false, 0);
        let ghost mid = self@;
        self.inputs.push((id, input));
        proof {
            assert(self@.inputs =~= mid.inputs.push((view.id, input@)));
            assert forall|k: int| 0 <= k < self@.inputs.len() implies find(
                self@.rows,
                (#[trigger] self@.inputs[k]).0,
            ) is Some by {
                if k < mid.inputs.len() {
                    assert(self@.inputs[k] == mid.inputs[k]);
                }
            }
            assert(self@ =~= admitted(before, view, input@, now@));
        }
        Ok(true)
    }

    /// Moves a channel turn to another state. `permitted` says whether the state
    /// may follow the present one; `output` is the response so far.
    pub fn checkpoint_channel_turn(
        &mut self,
        id: &str,
        status: TaskStatus,
        output: Option<String>,
        delivered: bool,
        permitted: bool,
        now: &str,
    ) -> (r: Result<(), StoreError>)
        requires
            well_formed(old(self)@),
        ensures
            match checkpoint_refusal(
                old(self)@,
                id@,
                status,
                tool::opt(output),
                delivered,
                permitted,
            ) {
                Some(e) => r == Err::<(), StoreError>(e) && final(self)@ == old(self)@,
                None => r is Ok && final(self)@ == checkpointed(
                    old(self)@,
                    id@,
                    status,
                    tool::opt(output),
                    delivered,
                    now@,
                ),
            },
            well_formed(final(self)@),
    {
        if delivered != (status == TaskStatus::Delivered) {
            return Err(StoreError::InvalidDelivery);
        }
        let response_bytes: usize = match &output {
            Some(s) => text::len_bytes(s.as_str()),
            None => 0,
        };
        if response_bytes > MAX_CHECKPOINT_BYTES {
            return Err(StoreError::ResponseTooLarge);
        }
        let i: usize = match self.position(id) {
            Some(i) => i,
            None => {
                return Err(StoreError::MissingTask);
            },
        };
        let ghost before = self@;
        assert(before.rows[i as int] == self.rows@[i as int]@);
        if self.rows[i].record.kind != TaskKind::ChannelTurn {
            return Err(StoreError::NotChannelTurn);
        }
        if !permitted {
            return Err(StoreError::IllegalTransition);
        }
        if self.rows[i].record.status.is_terminal() {
            return Err(StoreError::AlreadyTerminal);
        }
        let ghost out = tool::opt(output);
        let mut row: TaskRow = self.row_at(i);
        row.record.status = status;
        if status.is_terminal() {
            row.record.finished_at = Some(now.to_owned());
        }
        if output.is_some() {
            row.output = output;
        }
        row.record.delivered = delivered;
        proof {
            lemma_find(before.rows, id@);
        }
        self.put(i, row);
        proof {
            lemma_find_after_update(before.rows, i as int, row@, id@);
        }
        self.record_turn_event(id, status, now, delivered, response_bytes);
        assert(self@ =~= checkpointed(before, id@, status, out, delivered, now@));
        Ok(())
    }

    /// Binds a received channel turn to an agent.
    pub fn assign_channel_turn(&mut self, id: &str, agent: &str, boot_id: &str) -> (r: Result<
        (),
        StoreError,
    >)
        requires
            well_formed(old(self)@),
        ensures
            r is Ok <==> (find(old(self)@.rows, id@) matches Some(i) && is_routable(
                old(self)@.rows[i],
                boot_id@,
            )),
            r matches Err(e) ==> e == StoreError::NotRoutable && final(self)@ == old(self)@,
            r is Ok ==> ({
                let i = find(old(self)@.rows, id@)->0;
                final(self)@ == (TableView {
                    rows: old(self)@.rows.update(
                        i,
                        RowView {
                            record: RecordView { agent: agent@, ..old(self)@.rows[i].record },
                            ..old(self)@.rows[i]
                        },
                    ),
                    ..old(self)@
                })
            }),
            well_formed(final(self)@),
    {
        let i: usize = match self.position(id) {
            Some(i) => i,
            None => {
                return Err(StoreError::NotRoutable);
            },
        };
        assert(self@.rows[i as int] == self.rows@[i as int]@);
        if self.rows[i].record.kind != TaskKind::ChannelTurn || self.rows[i].record.status
            != TaskStatus::Received || !text::str_eq(
            self.rows[i].record.owner_boot_id.as_str(),
            boot_id,
        ) {
            return Err(StoreError::NotRoutable);
        }
        let mut row: TaskRow = self.row_at(i);
        row.record.agent = agent.to_owned();
        self.put(i, row);
        Ok(())
    }

    /// The input of a channel turn.
    pub fn channel_turn_input(&self, id: &str) -> (r: Option<String>)
        ensures
            tool::opt(r) == input_of(self@.inputs, id@),
    {
        let ghost inputs = self@.inputs;
        for i in 0..self.inputs.len()
            invariant
                inputs == self@.inputs,
                input_of(inputs.take(i as int), id@) is None,
        {
            assert(inputs.take(i + 1).drop_last() == inputs.take(i as int));
            assert(inputs[i as int] == (self.inputs@[i as int].0@, self.inputs@[i as int].1@));
            if text::str_eq(self.inputs[i].0.as_str(), id) {
                proof {
                    lemma_input_prefix(inputs, id@, i + 1);
                }
                return Some(self.inputs[i].1.clone());
            }
        }
        assert(inputs.take(self.inputs@.len() as int) == inputs);
        None
    }

    /// Stamps a heartbeat. Only the run that owns the task can.
    pub fn heartbeat(&mut self, id: &str, owner_boot_id: &str, now: &str)
        requires
            well_formed(old(self)@),
        ensures
            match find(old(self)@.rows, id@) {
                Some(i) => if old(self)@.rows[i].record.owner_boot_id == owner_boot_id@ {
                    final(self)@ == (TableView {
                        rows: old(self)@.rows.update(
                            i,
                            RowView {
                                record: RecordView {
                                    heartbeat_at: Some(now@),
                                    ..old(self)@.rows[i].record
                                },
                                ..old(self)@.rows[i]
                            },
                        ),
                        ..old(self)@
                    })
                } else {
                    final(self)@ == old(self)@
                },
                None => final(self)@ == old(self)@,
            },
            well_formed(final(self)@),
    {
        if let Some(i) = self.position(id) {
            assert(self@.rows[i as int] == self.rows@[i as int]@);
            if text::str_eq(self.rows[i].record.owner_boot_id.as_str(), owner_boot_id) {
                let mut row: TaskRow = self.row_at(i);
                row.record.heartbeat_at = Some(now.to_owned());
                self.put(i, row);
            }
        }
    }

    /// Moves a task to another state. A task that is over, or unknown, does not
    /// change; a channel turn changes only by checkpoints.
    pub fn update_status(
        &mut self,
        id: &str,
        status: TaskStatus,
        output: Option<String>,
        error: Option<String>,
        now: &str,
    ) -> (r: Result<(), StoreError>)
        requires
            well_formed(old(self)@),
        ensures
            match find(old(self)@.rows, id@) {
                None => r is Ok && final(self)@ == old(self)@,
                Some(i) => if old(self)@.rows[i].record.kind == TaskKind::ChannelTurn {
                    r == Err::<(), StoreError>(StoreError::CheckpointRequired) && final(self)@
                        == old(self)@
                } else {
                    r is Ok && final(self)@ == (TableView {
                        rows: old(self)@.rows.update(
                            i,
                            with_status(
                                old(self)@.rows[i],
                                status,
                                tool::opt(output),
                                tool::opt(error),
                                now@,
                            ),
                        ),
                        ..old(self)@
                    })
                },
            },
            well_formed(final(self)@),
    {
        let i: usize = match self.position(id) {
            Some(i) => i,
            None => {
                return Ok(());
            },
        };
        assert(self@.rows[i as int] == self.rows@[i as int]@);
        if self.rows[i].record.kind == TaskKind::ChannelTurn {
            return Err(StoreError::CheckpointRequired);
        }
        if self.rows[i].record.status.is_terminal() {
            assert(self@.rows.update(i as int, self@.rows[i as int]) =~= self@.rows);
            return Ok(());
        }
        let mut row: TaskRow = self.row_at(i);
        row.record.status = status;
        if status.is_terminal() {
            row.record.finished_at = Some(now.to_owned());
        }
        if output.is_some() {
            row.output = output;
        }
        if error.is_some() {
            row.error = error;
        }
        self.put(i, row);
        Ok(())
    }

    /// Gives a task another owner. A task that is over, or unknown, does not
    /// change.
    pub fn claim_owner(&mut self, id: &str, owner_pid: u32, owner_boot_id: &str)
        requires
            well_formed(old(self)@),
        ensures
            final(self)@ == (match find(old(self)@.rows, id@) {
                None => old(self)@,
                Some(i) => TableView {
                    rows: old(self)@.rows.update(
                        i,
                        with_owner(old(self)@.rows[i], owner_pid, owner_boot_id@),
                    ),
                    ..old(self)@
                },
            }),
            well_formed(final(self)@),
    {
        if let Some(i) = self.position(id) {
            assert(self@.rows[i as int] == self.rows@[i as int]@);
            if self.rows[i].record.status.is_terminal() {
                assert(self@.rows.update(i as int, self@.rows[i as int]) =~= self@.rows);
                return ;
            }
            let mut row: TaskRow = self.row_at(i);
            row.record.owner_pid = owner_pid;
            row.record.owner_boot_id = owner_boot_id.to_owned();
            row.record.heartbeat_at = None;
            self.put(i, row);
        }
    }

    /// The record of a task.
    pub fn get(&self, id: &str) -> (r: Option<TaskRecord>)
        ensures
            match find(self@.rows, id@) {
                Some(i) => r matches Some(rec) && rec@ == self@.rows[i].record,
                None => r is None,
            },
    {
        match self.position(id) {
            Some(i) => {
                assert(self@.rows[i as int] == self.rows@[i as int]@);
                Some(self.rows[i].record.copy())
            },
            None => None,
        }
    }

    /// Gives up a task whose owner is dead. A task that is over, unknown, or owned
    /// by a living process is left as it is. `owner_alive` is the word on the
    /// owner's process; `own_pid` is this process.
    pub fn reconcile_lost(
        &mut self,
        id: &str,
        now_boot_id: &str,
        own_pid: u32,
        owner_alive: bool,
        now: &str,
    ) -> (r: bool)
        requires
            well_formed(old(self)@),
        ensures
            r == (find(old(self)@.rows, id@) matches Some(i)
                && !old(self)@.rows[i].record.status.terminal() && !owner_alive),
            final(self)@ == (if r {
                reconciled(old(self)@, id@, now_boot_id@, own_pid, now@)
            } else {
                old(self)@
            }),
            well_formed(final(self)@),
    {
        let i: usize = match self.position(id) {
            Some(i) => i,
            None => {
                return false;
            },
        };
        let ghost before = self@;
        assert(before.rows[i as int] == self.rows@[i as int]@);
        if self.rows[i].record.status.is_terminal() || owner_alive {
            return false;
        }
        let mut row: TaskRow = self.row_at(i);
        proof {
            lemma_find(before.rows, id@);
        }
        if row.record.kind == TaskKind::ChannelTurn {
            let queued: bool = row.record.status == TaskStatus::Queued;
            let state: TaskStatus = if queued {
                TaskStatus::Queued
            } else {
                TaskStatus::Uncertain
            };
            row.record.status = state;
            row.record.owner_boot_id = now_boot_id.to_owned();
            row.record.owner_pid = own_pid;
            if queued {
                row.error = Some("restart_pending".to_owned());
                row.record.finished_at = None;
            } else {
                row.error = Some("restart_reconciliation_required".to_owned());
                row.record.finished_at = Some(now.to_owned());
            }
            self.put(i, row);
            proof {
                lemma_find_after_update(before.rows, i as int, row@, id@);
            }
            self.record_turn_event(id, state, now, false, 0);
        } else {
            row.record.status = TaskStatus::Lost;
            row.record.finished_at = Some(now.to_owned());
            self.put(i, row);
        }
        assert(self@ =~= reconciled(before, id@, now_boot_id@, own_pid, now@));
        true
    }
}

/// What an input list gives is what any part of it from the front gives, once
/// that gives anything.
proof fn lemma_input_prefix(inputs: Seq<(Seq<char>, Seq<char>)>, id: Seq<char>, n: int)
    requires
        0 <= n <= inputs.len(),
        input_of(inputs.take(n), id) is Some,
    ensures
        input_of(inputs, id) == input_of(inputs.take(n), id),
    decreases inputs.len() - n,
{
    if n < inputs.len() {
        assert(inputs.take(n + 1).drop_last() == inputs.take(n));
        lemma_input_prefix(inputs, id, n + 1);
    } else {
        assert(inputs.take(n) == inputs);
    }
}

/// A row with a new id at the end keeps the table well formed.
pub proof fn lemma_push_well_formed(t: TableView, row: RowView)
    requires
        well_formed(t),
        find(t.rows, row.record.id) is None,
    ensures
        well_formed(TableView { rows: t.rows.push(row), ..t }),
{
    let after = t.rows.push(row);
    lemma_find(t.rows, row.record.id);
    assert forall|a: int, b: int| 0 <= a < b < after.len() implies (#[trigger] after[a]).record.id
        != (#[trigger] after[b]).record.id by {
        if b < t.rows.len() {
            assert(t.rows[a].record.id != t.rows[b].record.id);
        } else {
            assert(t.rows[a].record.id != row.record.id);
        }
    }
    assert forall|k: int| 0 <= k < t.inputs.len() implies find(
        after,
        (#[trigger] t.inputs[k]).0,
    ) is Some by {
        lemma_find_after_push(t.rows, row, t.inputs[k].0);
    }
    assert forall|k: int| 0 <= k < t.events.len() implies find(
        after,
        (#[trigger] t.events[k]).task_id,
    ) is Some by {
        lemma_find_after_push(t.rows, row, t.events[k].task_id);
    }
}

/// The tasks of an agent.
pub open spec fn owned_by(rows: Seq<RowView>, agent: Seq<char>) -> Seq<RowView> {
    rows.filter(|r: RowView| r.record.agent == agent)
}

/// The tasks that are being worked on.
pub open spec fn active_rows(rows: Seq<RowView>) -> Seq<RowView> {
    rows.filter(|r: RowView| r.record.status.active())
}

/// The records of rows.
pub open spec fn records_of(rows: Seq<RowView>) -> Seq<RecordView> {
    rows.map_values(|r: RowView| r.record)
}

/// The models of records.
pub open spec fn record_views(records: Seq<TaskRecord>) -> Seq<RecordView> {
    records.map_values(|r: TaskRecord| r@)
}

/// Whether records stand with the latest start first.
pub open spec fn latest_first(records: Seq<RecordView>) -> bool {
    forall|i: int, j: int|
        0 <= i <= j < records.len() ==> !text::comes_before(
            (#[trigger] records[i]).started_at,
            (#[trigger] records[j]).started_at,
        )
}

/// One more row of the table is one more or none of those that `p` picks.
pub proof fn lemma_filter_step(rows: Seq<RowView>, i: int, p: spec_fn(RowView) -> bool)
    requires
        0 <= i < rows.len(),
    ensures
        rows.take(i + 1).filter(p) == (if p(rows[i]) {
            rows.take(i).filter(p).push(rows[i])
        } else {
            rows.take(i).filter(p)
        }),
{
    reveal(Seq::filter);
    assert(rows.take(i + 1).drop_last() == rows.take(i));
    assert(rows.take(i + 1).last() == rows[i]);
}

impl TaskTable {
    /// The tasks that are being worked on, in the order of the table.
    pub fn list_running(&self) -> (out: Vec<TaskRecord>)
        ensures
            record_views(out@) == records_of(active_rows(self@.rows)),
    {
        let ghost rows = self@.rows;
        let ghost p = |r: RowView| r.record.status.active();
        let mut out: Vec<TaskRecord> = Vec::new();
        proof {
            reveal(Seq::filter);
        }
        assert(record_views(out@) =~= records_of(rows.take(0).filter(p)));
        for i in 0..self.rows.len()
            invariant
                rows == self@.rows,
                p == (|r: RowView| r.record.status.active()),
                record_views(out@) == records_of(rows.take(i as int).filter(p)),
        {
            assert(rows[i as int] == self.rows@[i as int]@);
            proof {
                lemma_filter_step(rows, i as int, p);
            }
            let ghost before = out@;
            if self.rows[i].record.status.is_active() {
                out.push(self.rows[i].record.copy());
                assert(record_views(out@) =~= record_views(before).push(rows[i as int].record));
                assert(records_of(rows.take(i + 1).filter(p)) =~= records_of(
                    rows.take(i as int).filter(p),
                ).push(rows[i as int].record));
            }
        }
        assert(rows.take(self.rows@.len() as int) == rows);
        out
    }

    /// The tasks of an agent, the latest start first.
    pub fn list_by_agent(&self, agent: &str) -> (out: Vec<TaskRecord>)
        ensures
            latest_first(record_views(out@)),
            record_views(out@).to_multiset() == records_of(
                owned_by(self@.rows, agent@),
            ).to_multiset(),
    {
        let ghost rows = self@.rows;
        let ghost p = |r: RowView| r.record.agent == agent@;
        let mut out: Vec<TaskRecord> = Vec::new();
        proof {
            reveal(Seq::filter);
        }
        assert(record_views(out@) =~= records_of(rows.take(0).filter(p)));
        for i in 0..self.rows.len()
            invariant
                rows == self@.rows,
                p == (|r: RowView| r.record.agent == agent@),
                latest_first(record_views(out@)),
                record_views(out@).to_multiset() == records_of(
                    rows.take(i as int).filter(p),
                ).to_multiset(),
        {
            assert(rows[i as int] == self.rows@[i as int]@);
            proof {
                lemma_filter_step(rows, i as int, p);
            }
            if text::str_eq(self.rows[i].record.agent.as_str(), agent) {
                let rec: TaskRecord = self.rows[i].record.copy();
                let start: Vec<char> = text::chars_of(rec.started_at.as_str());
                let mut at: usize = 0;
                let mut searching: bool = true;
                while searching && at < out.len()
                    invariant
                        at <= out@.len(),
                        start@ == rec@.started_at,
                        forall|j: int|
                            0 <= j < at ==> !text::comes_before(
                                (#[trigger] out@[j])@.started_at,
                                rec@.started_at,
                            ),
                        !searching ==> at < out@.len() && text::comes_before(
                            out@[at as int]@.started_at,
                            rec@.started_at,
                        ),
                    decreases out@.len() - at + (if searching { 1int } else { 0int }),
                {
                    let other: Vec<char> = text::chars_of(out[at].started_at.as_str());
                    if text::is_before(other.as_slice(), start.as_slice()) {
                        searching = false;
                    } else {
                        at += 1;
                    }
                }
                let ghost before = record_views(out@);
                let ghost view = rec@;
                out.insert(at, rec);
                proof {
                    assert(record_views(out@) =~= before.insert(at as int, view));
                    assert(forall|j: int|
                        0 <= j < before.len() ==> (#[trigger] before[j]) == out@.remove(
                            at as int,
                        )[j]@);
                    lemma_insert_latest_first(before, view, at as int);
                    assert(records_of(rows.take(i + 1).filter(p)) =~= records_of(
                        rows.take(i as int).filter(p),
                    ).push(view));
                    vstd::seq_lib::to_multiset_build(
                        records_of(rows.take(i as int).filter(p)),
                        view,
                    );
                }
            }
        }
        assert(rows.take(self.rows@.len() as int) == rows);
        out
    }
}

proof fn lemma_insert_latest_first(records: Seq<RecordView>, rec: RecordView, at: int)
    requires
        latest_first(records),
        0 <= at <= records.len(),
        forall|j: int|
            0 <= j < at ==> !text::comes_before((#[trigger] records[j]).started_at, rec.started_at),
        at < records.len() ==> text::comes_before(records[at].started_at, rec.started_at),
    ensures
        latest_first(records.insert(at, rec)),
        records.insert(at, rec).to_multiset() == records.to_multiset().insert(rec),
{
    let after = records.insert(at, rec);
    assert forall|i: int, j: int| 0 <= i <= j < after.len() implies !text::comes_before(
        (#[trigger] after[i]).started_at,
        (#[trigger] after[j]).started_at,
    ) by {
        text::lemma_order(rec.started_at, rec.started_at, rec.started_at);
        if i < at {
            assert(after[i] == records[i]);
            if j < at {
                assert(after[j] == records[j]);
            } else if j > at {
                assert(after[j] == records[j - 1]);
            }
        } else if i > at {
            assert(after[i] == records[i - 1]);
            assert(after[j] == records[j - 1]);
        } else if j > at {
            assert(after[j] == records[j - 1]);
            text::lemma_order(records[at].started_at, rec.started_at, rec.started_at);
            text::lemma_order(rec.started_at, records[at].started_at, records[j - 1].started_at);
        }
    }
    let left = records.take(at);
    let right = records.skip(at);
    assert(records == left + right);
    assert(after == left + seq![rec] + right);
    vstd::seq_lib::lemma_multiset_commutative(left + seq![rec], right);
    vstd::seq_lib::lemma_multiset_commutative(left, seq![rec]);
    vstd::seq_lib::lemma_multiset_commutative(left, right);
    vstd::seq_lib::to_multiset_build(Seq::<RecordView>::empty(), rec);
    assert(Seq::<RecordView>::empty().push(rec) =~= seq![rec]);
    assert(Seq::<RecordView>::empty().to_multiset() =~= vstd::multiset::Multiset::empty()) by {
        broadcast use vstd::seq_lib::group_to_multiset_ensures;
    }
    assert(after.to_multiset() =~= records.to_multiset().insert(rec));
}

} // verus!
