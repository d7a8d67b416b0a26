//! Durable tasks: what they are, which states they pass through, and how both
//! are written in storage.

use crate::text;
use crate::turn::tool;
use vstd::prelude::*;
use vstd::string::*;

verus! {

/// The domain of a task.
#[derive(Clone, Copy, Debug, PartialEq, Eq, Structural)]
pub enum TaskKind {
    /// Background delegation task.
    Delegate,
    /// Subagent task spawned under the runtime.
    Subagent,
    /// Goal-mode task.
    Goal,
    /// Peer inbox task.
    PeerInbox,
    /// Accepted channel turn, supervised by the same registry as delegates.
    ChannelTurn,
}

/// The state of a task.
#[derive(Clone, Copy, Debug, PartialEq, Eq, Structural)]
pub enum TaskStatus {
    Received,
    Queued,
    Running,
    Paused,
    WaitingOnTool,
    ResponseReady,
    Submitting,
    Completed,
    Delivered,
    Failed,
    Cancelled,
    Lost,
    TimedOut,
    PartiallyDelivered,
    Uncertain,
}

/// A unit of work.
#[derive(Clone, Debug)]
pub struct TaskRecord {
    /// Stable task id.
    pub id: String,
    pub kind: TaskKind,
    /// Alias of the agent that owns and executes the task.
    pub agent: String,
    pub status: TaskStatus,
    /// Process id of the daemon that owns the task.
    pub owner_pid: u32,
    /// Run id of that daemon; it outlives the reuse of a process id.
    pub owner_boot_id: String,
    /// The owner's last heartbeat, in RFC 3339 form.
    pub heartbeat_at: Option<String>,
    /// Recursion depth of delegation.
    pub depth: u32,
    pub parent_id: Option<String>,
    /// The route that the task came from.
    pub originator_route: Option<String>,
    /// Whether delivery to the user has been confirmed.
    pub delivered: bool,
    pub idem_key: Option<String>,
    pub principal_id: Option<String>,
    /// When the task was registered, in RFC 3339 form.
    pub started_at: String,
    /// When the task ended, in RFC 3339 form.
    pub finished_at: Option<String>,
}

/// The model of a task.
pub struct RecordView {
    pub id: Seq<char>,
    pub kind: TaskKind,
    pub agent: Seq<char>,
    pub status: TaskStatus,
    pub owner_pid: u32,
    pub owner_boot_id: Seq<char>,
    pub heartbeat_at: Option<Seq<char>>,
    pub depth: u32,
    pub parent_id: Option<Seq<char>>,
    pub originator_route: Option<Seq<char>>,
    pub delivered: bool,
    pub idem_key: Option<Seq<char>>,
    pub principal_id: Option<Seq<char>>,
    pub started_at: Seq<char>,
    pub finished_at: Option<Seq<char>>,
}

impl View for TaskRecord {
    type V = RecordView;

    open spec fn view(&self) -> RecordView {
        RecordView {
            id: self.id@,
            kind: self.kind,
            agent: self.agent@,
            status: self.status,
            owner_pid: self.owner_pid,
            owner_boot_id: self.owner_boot_id@,
            heartbeat_at: tool::opt(self.heartbeat_at),
            depth: self.depth,
            parent_id: tool::opt(self.parent_id),
            originator_route: tool::opt(self.originator_route),
            delivered: self.delivered,
            idem_key: tool::opt(self.idem_key),
            principal_id: tool::opt(self.principal_id),
            started_at: self.started_at@,
            finished_at: tool::opt(self.finished_at),
        }
    }
}

/// The name of a task kind in storage.
pub open spec fn kind_name(k: TaskKind) -> Seq<char> {
    match k {
        TaskKind::Delegate => "delegate"@,
        TaskKind::Subagent => "subagent"@,
        TaskKind::Goal => "goal"@,
        TaskKind::PeerInbox => "peer_inbox"@,
        TaskKind::ChannelTurn => "channel_turn"@,
    }
}

/// The name of a task state in storage.
pub open spec fn status_name(s: TaskStatus) -> Seq<char> {
    match s {
        TaskStatus::Received => "received"@,
        TaskStatus::Queued => "queued"@,
        TaskStatus::Running => "running"@,
        TaskStatus::Paused => "paused"@,
        TaskStatus::WaitingOnTool => "waiting_on_tool"@,
        TaskStatus::ResponseReady => "response_ready"@,
        TaskStatus::Submitting => "submitting"@,
        TaskStatus::Completed => "completed"@,
        TaskStatus::Delivered => "delivered"@,
        TaskStatus::Failed => "failed"@,
        TaskStatus::Cancelled => "cancelled"@,
        TaskStatus::Lost => "lost"@,
        TaskStatus::TimedOut => "timed_out"@,
        TaskStatus::PartiallyDelivered => "partially_delivered"@,
        TaskStatus::Uncertain => "uncertain"@,
    }
}

/// The name of a task kind in storage.
pub fn kind_to_db(k: TaskKind) -> (s: &'static str)
    ensures
        s@ == kind_name(k),
{
    match k {
        TaskKind::Delegate => "delegate",
        TaskKind::Subagent => "subagent",
        TaskKind::Goal => "goal",
        TaskKind::PeerInbox => "peer_inbox",
        TaskKind::ChannelTurn => "channel_turn",
    }
}

/// The name of a task state in storage.
pub fn status_to_db(s: TaskStatus) -> (n: &'static str)
    ensures
        n@ == status_name(s),
{
    match s {
        TaskStatus::Received => "received",
        TaskStatus::Queued => "queued",
        TaskStatus::Running => "running",
        TaskStatus::Paused => "paused",
        TaskStatus::WaitingOnTool => "waiting_on_tool",
        TaskStatus::ResponseReady => "response_ready",
        TaskStatus::Submitting => "submitting",
        TaskStatus::Completed => "completed",
        TaskStatus::Delivered => "delivered",
        TaskStatus::Failed => "failed",
        TaskStatus::Cancelled => "cancelled",
        TaskStatus::Lost => "lost",
        TaskStatus::TimedOut => "timed_out",
        TaskStatus::PartiallyDelivered => "partially_delivered",
        TaskStatus::Uncertain => "uncertain",
    }
}

/// The kind that a name in storage stands for; none where it is no such name.
pub fn kind_from_db(s: &str) -> (r: Option<TaskKind>)
    ensures
        r matches Some(k) ==> kind_name(k) == s@,
        r is None ==> forall|k: TaskKind| #![trigger kind_name(k)] kind_name(k) != s@,
{
    let all: [TaskKind; 5] = [
        TaskKind::Delegate,
        TaskKind::Subagent,
        TaskKind::Goal,
        TaskKind::PeerInbox,
        TaskKind::ChannelTurn,
    ];
    assert(all@[0] is Delegate && all@[1] is Subagent && all@[2] is Goal && all@[3] is PeerInbox
        && all@[4] is ChannelTurn);
    for i in 0..5
        invariant
            all@.len() == 5,
            forall|j: int| 0 <= j < i ==> kind_name(#[trigger] all@[j]) != s@,
    {
        if text::str_eq(s, kind_to_db(all[i])) {
            return Some(all[i]);
        }
    }
    None
}

/// The state that a name in storage stands for; none where it is no such name.
pub fn status_from_db(s: &str) -> (r: Option<TaskStatus>)
    ensures
        r matches Some(t) ==> status_name(t) == s@,
        r is None ==> forall|t: TaskStatus| #![trigger status_name(t)] status_name(t) != s@,
{
    let all: [TaskStatus; 15] = [
        TaskStatus::Received,
        TaskStatus::Queued,
        TaskStatus::Running,
        TaskStatus::Paused,
        TaskStatus::WaitingOnTool,
        TaskStatus::ResponseReady,
        TaskStatus::Submitting,
        TaskStatus::Completed,
        TaskStatus::Delivered,
        TaskStatus::Failed,
        TaskStatus::Cancelled,
        TaskStatus::Lost,
        TaskStatus::TimedOut,
        TaskStatus::PartiallyDelivered,
        TaskStatus::Uncertain,
    ];
    assert(all@[0] is Received && all@[1] is Queued && all@[2] is Running && all@[3] is Paused
        && all@[4] is WaitingOnTool && all@[5] is ResponseReady && all@[6] is Submitting
        && all@[7] is Completed && all@[8] is Delivered && all@[9] is Failed && all@[10] is Cancelled
        && all@[11] is Lost && all@[12] is TimedOut && all@[13] is PartiallyDelivered
        && all@[14] is Uncertain);
    for i in 0..15
        invariant
            all@.len() == 15,
            forall|j: int| 0 <= j < i ==> status_name(#[trigger] all@[j]) != s@,
    {
        if text::str_eq(s, status_to_db(all[i])) {
            return Some(all[i]);
        }
    }
    None
}

/// The length and the first two characters of a name tell the names apart.
proof fn lemma_kind_name(k: TaskKind)
    ensures
        (kind_name(k).len(), kind_name(k)[0], kind_name(k)[1]) == (match k {
            TaskKind::Delegate => (8nat, 'd', 'e'),
            TaskKind::Subagent => (8nat, 's', 'u'),
            TaskKind::Goal => (4nat, 'g', 'o'),
            TaskKind::PeerInbox => (10nat, 'p', 'e'),
            TaskKind::ChannelTurn => (12nat, 'c', 'h'),
        }),
{
    match k {
        TaskKind::Delegate => {
            reveal_strlit("delegate");
        },
        TaskKind::Subagent => {
            reveal_strlit("subagent");
        },
        TaskKind::Goal => {
            reveal_strlit("goal");
        },
        TaskKind::PeerInbox => {
            reveal_strlit("peer_inbox");
        },
        TaskKind::ChannelTurn => {
            reveal_strlit("channel_turn");
        },
    }
}

/// The length and the first two characters of a name tell the names apart.
proof fn lemma_status_name(s: TaskStatus)
    ensures
        (status_name(s).len(), status_name(s)[0], status_name(s)[1]) == (match s {
            TaskStatus::Received => (8nat, 'r', 'e'),
            TaskStatus::Queued => (6nat, 'q', 'u'),
            TaskStatus::Running => (7nat, 'r', 'u'),
            TaskStatus::Paused => (6nat, 'p', 'a'),
            TaskStatus::WaitingOnTool => (15nat, 'w', 'a'),
            TaskStatus::ResponseReady => (14nat, 'r', 'e'),
            TaskStatus::Submitting => (10nat, 's', 'u'),
            TaskStatus::Completed => (9nat, 'c', 'o'),
            TaskStatus::Delivered => (9nat, 'd', 'e'),
            TaskStatus::Failed => (6nat, 'f', 'a'),
            TaskStatus::Cancelled => (9nat, 'c', 'a'),
            TaskStatus::Lost => (4nat, 'l', 'o'),
            TaskStatus::TimedOut => (9nat, 't', 'i'),
            TaskStatus::PartiallyDelivered => (19nat, 'p', 'a'),
            TaskStatus::Uncertain => (9nat, 'u', 'n'),
        }),
{
    match s {
        TaskStatus::Received => {
            reveal_strlit("received");
        },
        TaskStatus::Queued => {
            reveal_strlit("queued");
        },
        TaskStatus::Running => {
            reveal_strlit("running");
        },
        TaskStatus::Paused => {
            reveal_strlit("paused");
        },
        TaskStatus::WaitingOnTool => {
            reveal_strlit("waiting_on_tool");
        },
        TaskStatus::ResponseReady => {
            reveal_strlit("response_ready");
        },
        TaskStatus::Submitting => {
            reveal_strlit("submitting");
        },
        TaskStatus::Completed => {
            reveal_strlit("completed");
        },
        TaskStatus::Delivered => {
            reveal_strlit("delivered");
        },
        TaskStatus::Failed => {
            reveal_strlit("failed");
        },
        TaskStatus::Cancelled => {
            reveal_strlit("cancelled");
        },
        TaskStatus::Lost => {
            reveal_strlit("lost");
        },
        TaskStatus::TimedOut => {
            reveal_strlit("timed_out");
        },
        TaskStatus::PartiallyDelivered => {
            reveal_strlit("partially_delivered");
        },
        TaskStatus::Uncertain => {
            reveal_strlit("uncertain");
        },
    }
}

/// No two kinds share a name in storage.
pub proof fn law_kind_names_are_distinct(a: TaskKind, b: TaskKind)
    requires
        kind_name(a) == kind_name(b),
    ensures
        a == b,
{
    lemma_kind_name(a);
    lemma_kind_name(b);
}

/// No two states share a name in storage.
pub proof fn law_status_names_are_distinct(a: TaskStatus, b: TaskStatus)
    requires
        status_name(a) == status_name(b),
    ensures
        a == b,
{
    lemma_status_name(a);
    lemma_status_name(b);
}

impl TaskStatus {
    /// Whether nothing more happens to a task in this state.
    pub open spec fn terminal(self) -> bool {
        ||| self is Completed
        ||| self is Delivered
        ||| self is Failed
        ||| self is Cancelled
        ||| self is Lost
        ||| self is TimedOut
        ||| self is PartiallyDelivered
        ||| self is Uncertain
    }

    /// Whether nothing more happens to a task in this state.
    pub fn is_terminal(&self) -> (r: bool)
        ensures
            r == self.terminal(),
    {
        match self {
            TaskStatus::Completed => true,
            TaskStatus::Delivered => true,
            TaskStatus::Failed => true,
            TaskStatus::Cancelled => true,
            TaskStatus::Lost => true,
            TaskStatus::TimedOut => true,
            TaskStatus::PartiallyDelivered => true,
            TaskStatus::Uncertain => true,
            _ => false,
        }
    }

    /// Whether a task in this state is being worked on.
    pub open spec fn active(self) -> bool {
        ||| self is Received
        ||| self is Queued
        ||| self is Running
        ||| self is WaitingOnTool
        ||| self is ResponseReady
        ||| self is Submitting
    }

    /// Whether a task in this state is being worked on.
    pub fn is_active(&self) -> (r: bool)
        ensures
            r == self.active(),
    {
        match self {
            TaskStatus::Received => true,
            TaskStatus::Queued => true,
            TaskStatus::Running => true,
            TaskStatus::WaitingOnTool => true,
            TaskStatus::ResponseReady => true,
            TaskStatus::Submitting => true,
            _ => false,
        }
    }
}

/// A task is never both over and being worked on; a paused task is neither.
pub proof fn law_terminal_is_not_active(s: TaskStatus)
    ensures
        !(s.terminal() && s.active()),
        !s.terminal() && !s.active() <==> s is Paused,
{
}

} // verus!
