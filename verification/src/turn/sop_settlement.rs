//! Live ownership of operating procedures during interruption. The state of a
//! run belongs to its engine; the errors here keep the evidence until the caller
//! handles it.

use crate::text;
use crate::turn::error;
use crate::turn::error::{Cause, CauseKind, Layer, SopPhase, TurnError};
use crate::turn::owned_cancellation;
use vstd::prelude::*;
use vstd::string::*;

verus! {

/// How long the assembly of a step's agent may take, in milliseconds.
pub const ASSEMBLY_BUDGET_MS: u64 = 30_000;

/// How long an interrupted step may take to settle, in milliseconds.
pub const STEP_SETTLEMENT_BUDGET_MS: u64 = 650;

/// How long the audit of a step may take, in milliseconds.
pub const AUDIT_SETTLEMENT_BUDGET_MS: u64 = 500;

/// What a run asks its driver to do next. `detail` is what the action says
/// beside its run, as JSON text.
pub enum SopRunAction {
    ExecuteStep { run_id: String, detail: String },
    DeterministicStep { run_id: String, detail: String },
    WaitApproval { run_id: String, detail: String },
    CheckpointWait { run_id: String, detail: String },
    Pending { run_id: String, detail: String },
    Completed { run_id: String, detail: String },
    Cancelled { run_id: String, detail: String },
    Failed { run_id: String, detail: String },
}

/// An action with the engine that it came from.
pub struct QueuedSopAction {
    pub action: SopRunAction,
    /// The driver's handle of the engine.
    pub engine: u64,
    /// Whether the run keeps an audit.
    pub audited: bool,
}

/// How a step ended.
#[derive(Clone, Copy, Debug, PartialEq, Eq, Structural)]
pub enum SopStepStatus {
    Completed,
    /// Any status but completion.
    NotCompleted,
}

/// The result of a step.
pub struct SopStepResult {
    pub status: SopStepStatus,
    pub output: String,
}

/// What came of the audit of a step.
pub enum AuditSettlement {
    NotStarted,
    Complete,
    Failed(TurnError),
    /// The audit did not end in time. Nothing says that its write was cancelled.
    Incomplete,
}

/// A step that has run.
pub struct StepSettlement {
    pub queued: QueuedSopAction,
    pub result: SopStepResult,
    pub persistence_error: Option<TurnError>,
    pub audit: AuditSettlement,
}

/// An action that was not started, and what came of the request to cancel it.
pub struct QueuedSettlement {
    pub queued: QueuedSopAction,
    pub cancellation: Result<Option<SopRunAction>, TurnError>,
}

/// What a driver had done when it was interrupted.
pub struct SopDriveEvidence {
    pub steps: Vec<StepSettlement>,
    pub queued: Vec<QueuedSettlement>,
}

impl SopRunAction {
    /// The run that the action belongs to.
    pub open spec fn run(self) -> Seq<char> {
        match self {
            SopRunAction::ExecuteStep { run_id, detail } => run_id@,
            SopRunAction::DeterministicStep { run_id, detail } => run_id@,
            SopRunAction::WaitApproval { run_id, detail } => run_id@,
            SopRunAction::CheckpointWait { run_id, detail } => run_id@,
            SopRunAction::Pending { run_id, detail } => run_id@,
            SopRunAction::Completed { run_id, detail } => run_id@,
            SopRunAction::Cancelled { run_id, detail } => run_id@,
            SopRunAction::Failed { run_id, detail } => run_id@,
        }
    }

    /// Whether the run is over.
    pub open spec fn ends_run(self) -> bool {
        self is Completed || self is Failed || self is Cancelled
    }
}

/// The run that an action belongs to.
pub fn action_run_id(action: &SopRunAction) -> (id: &str)
    ensures
        id@ == action.run(),
{
    match action {
        SopRunAction::ExecuteStep { run_id, .. } => run_id.as_str(),
        SopRunAction::DeterministicStep { run_id, .. } => run_id.as_str(),
        SopRunAction::WaitApproval { run_id, .. } => run_id.as_str(),
        SopRunAction::CheckpointWait { run_id, .. } => run_id.as_str(),
        SopRunAction::Pending { run_id, .. } => run_id.as_str(),
        SopRunAction::Completed { run_id, .. } => run_id.as_str(),
        SopRunAction::Cancelled { run_id, .. } => run_id.as_str(),
        SopRunAction::Failed { run_id, .. } => run_id.as_str(),
    }
}

/// Another action of the same run's driver.
pub fn with_action(queued: &QueuedSopAction, action: SopRunAction) -> (r: QueuedSopAction)
    ensures
        r == (QueuedSopAction { action, engine: queued.engine, audited: queued.audited }),
{
    QueuedSopAction { action, engine: queued.engine, audited: queued.audited }
}

/// What came of an attempt to cancel an action that was not started.
pub enum CancelAttempt {
    /// The engine was busy: it was not waited for.
    Busy,
    /// The request was not accepted.
    NotRequested(TurnError),
    /// The request was accepted; what finishing it gave.
    Finished(Result<Option<SopRunAction>, TurnError>),
}

/// The settlement that an attempt gives.
pub open spec fn settled_as(
    attempt: CancelAttempt,
    cancellation: Result<Option<SopRunAction>, TurnError>,
) -> bool {
    match attempt {
        CancelAttempt::Busy => cancellation matches Err(e) && e.layers@
            == owned_cancellation::single(Cause::SopPhaseIncomplete(SopPhase::QueuedCancellation)),
        CancelAttempt::NotRequested(e) => cancellation == Err::<Option<SopRunAction>, TurnError>(e),
        CancelAttempt::Finished(r) => cancellation == r,
    }
}

/// The settlement of an action that was not started. It stays with its engine
/// even where the cancellation could not be made.
pub fn cancel_unstarted(queued: QueuedSopAction, attempt: CancelAttempt) -> (s: QueuedSettlement)
    ensures
        s.queued == queued,
        settled_as(attempt, s.cancellation),
{
    let cancellation: Result<Option<SopRunAction>, TurnError> = match attempt {
        CancelAttempt::Busy => Err(
            TurnError::new(Cause::SopPhaseIncomplete(SopPhase::QueuedCancellation)),
        ),
        CancelAttempt::NotRequested(e) => Err(e),
        CancelAttempt::Finished(r) => r,
    };
    QueuedSettlement { queued, cancellation }
}

/// The actions that an interrupted driver still holds: the current one, then the
/// pending ones.
pub open spec fn held(
    current: Option<QueuedSopAction>,
    pending: Seq<QueuedSopAction>,
) -> Seq<QueuedSopAction> {
    match current {
        Some(c) => seq![c] + pending,
        None => pending,
    }
}

/// The error of an interrupted driver: the steps that ran, and every action that
/// did not, with what came of its cancellation. `attempts` holds one attempt for
/// each action, in their order.
pub fn interrupted(
    cause: TurnError,
    current: Option<QueuedSopAction>,
    pending: Vec<QueuedSopAction>,
    steps: Vec<StepSettlement>,
    attempts: Vec<CancelAttempt>,
) -> (e: TurnError)
    requires
        attempts@.len() == held(current, pending@).len(),
    ensures
        e.layers@.len() > 0,
        e.layers@.drop_first() == cause.layers@,
        !e.layers@[0].context,
        e.layers@[0].cause matches Cause::SopDriveInterrupted(evidence) && {
            &&& evidence.steps == steps
            &&& evidence.queued@.len() == held(current, pending@).len()
            &&& forall|i: int|
                0 <= i < evidence.queued@.len() ==> (#[trigger] evidence.queued@[i]).queued == held(
                    current,
                    pending@,
                )[i] && settled_as(attempts@[i], evidence.queued@[i].cancellation)
        },
{
    let ghost all = held(current, pending@);
    let ghost tries = attempts@;
    let mut rest: Vec<QueuedSopAction> = pending;
    if let Some(c) = current {
        rest.insert(0, c);
        assert(rest@ =~= all);
    }
    let mut attempts: Vec<CancelAttempt> = attempts;
    let mut queued: Vec<QueuedSettlement> = Vec::new();
    assert(all.skip(0) == all);
    assert(tries.skip(0) == tries);
    while rest.len() > 0
        invariant
            tries.len() == all.len(),
            queued@.len() + rest@.len() == all.len(),
            rest@ == all.skip(queued@.len() as int),
            attempts@ == tries.skip(queued@.len() as int),
            forall|i: int|
                0 <= i < queued@.len() ==> (#[trigger] queued@[i]).queued == all[i] && settled_as(
                    tries[i],
                    queued@[i].cancellation,
                ),
        decreases rest@.len(),
    {
        let ghost n = queued@.len() as int;
        let action: QueuedSopAction = rest.remove(0);
        let attempt: CancelAttempt = attempts.remove(0);
        assert(action == all[n]);
        assert(attempt == tries[n]);
        queued.push(cancel_unstarted(action, attempt));
        assert(rest@ =~= all.skip(n + 1));
        assert(attempts@ =~= tries.skip(n + 1));
    }
    let ghost below = cause.layers@;
    let e: TurnError = cause.source_of(
        Cause::SopDriveInterrupted(SopDriveEvidence { steps, queued }),
    );
    assert(e.layers@.drop_first() =~= below);
    e
}

/// How the assembly of a step's agent came to its end.
pub enum AssemblyEnd<T> {
    /// It was not admitted.
    Refused(TurnError),
    /// It ended by itself; `after` is what a look for a reason to stop found then.
    Finished { result: Result<T, TurnError>, after: Result<(), TurnError> },
    /// It was interrupted.
    Interrupted(TurnError),
    /// Its budget ran out.
    TimedOut,
}

/// What an assembly returns. What was assembled counts only after a fresh look
/// for a reason to stop.
pub fn assemble<T>(end: AssemblyEnd<T>) -> (r: Result<T, TurnError>)
    ensures
        match end {
            AssemblyEnd::Refused(e) => r == Err::<T, TurnError>(e),
            AssemblyEnd::Finished { result, after: Ok(_) } => r == result,
            AssemblyEnd::Finished { result, after: Err(e) } => r == Err::<T, TurnError>(e),
            AssemblyEnd::Interrupted(cause) => r matches Err(e) && e.layers@ == seq![
                Layer { cause: Cause::SopPhaseIncomplete(SopPhase::Assembly), context: true },
            ] + cause.layers@,
            AssemblyEnd::TimedOut => r matches Err(e) && e.layers@ == owned_cancellation::single(
                Cause::SopPhaseIncomplete(SopPhase::Assembly),
            ),
        },
{
    match end {
        AssemblyEnd::Refused(e) => Err(e),
        AssemblyEnd::Finished { result, after } => match after {
            Ok(()) => result,
            Err(e) => Err(e),
        },
        AssemblyEnd::Interrupted(cause) => Err(
            cause.context(Cause::SopPhaseIncomplete(SopPhase::Assembly)),
        ),
        AssemblyEnd::TimedOut => Err(
            TurnError::new(Cause::SopPhaseIncomplete(SopPhase::Assembly)),
        ),
    }
}

/// How a step came to its end.
pub enum StepEnd {
    /// It was not admitted.
    Refused(TurnError),
    /// It ended by itself.
    Finished(Result<String, TurnError>),
    /// It was interrupted; `settled` is what it came to within the settlement
    /// budget.
    Interrupted { cause: TurnError, settled: Option<Result<String, TurnError>> },
}

/// What a step returns. A completed output stays a completed step.
pub fn execute_step(end: StepEnd) -> (r: Result<String, TurnError>)
    ensures
        match end {
            StepEnd::Refused(e) => r == Err::<String, TurnError>(e),
            StepEnd::Finished(result) => r == result,
            StepEnd::Interrupted { cause, settled: Some(Ok(output)) } => r == Ok::<
                String,
                TurnError,
            >(output),
            StepEnd::Interrupted { cause, settled: Some(Err(e)) } => r matches Err(s) && s.layers@
                == owned_cancellation::stopped(e.layers@, cause.layers@),
            StepEnd::Interrupted { cause, settled: None } => r matches Err(s) && s.layers@ == seq![
                Layer { cause: Cause::SopPhaseIncomplete(SopPhase::NestedStep), context: true },
            ] + cause.layers@,
        },
{
    match end {
        StepEnd::Refused(e) => Err(e),
        StepEnd::Finished(result) => result,
        StepEnd::Interrupted { cause, settled } => match settled {
            Some(Ok(output)) => Ok(output),
            Some(Err(e)) => Err(owned_cancellation::with_stop_cause(e, cause)),
            None => Err(cause.context(Cause::SopPhaseIncomplete(SopPhase::NestedStep))),
        },
    }
}

/// Whether an error ends the drive of a step: the turn was stopped, or a part of
/// the procedure did not settle.
pub fn terminal_step_error(error: &TurnError) -> (r: bool)
    ensures
        r == (owned_cancellation::stops_turn(error.layers@) || error::carries(
            error.layers@,
            CauseKind::SopPhaseIncomplete,
        )),
{
    owned_cancellation::is_terminal(error) || error.mentions(CauseKind::SopPhaseIncomplete)
}

/// What came of the attempt to cancel a run and then advance it past a step.
pub enum AdvanceAttempt<R> {
    /// The engine was busy.
    Busy,
    /// The cancellation could not be requested; the run was not advanced.
    NotRequested(TurnError),
    /// The run could not be advanced.
    NotAdvanced(TurnError),
    /// The run was advanced; what the engine then holds of it.
    Advanced { action: SopRunAction, run: Option<R> },
}

/// The next action of a run that is being cancelled, and the run itself where it
/// is over.
pub fn cancel_then_advance<R>(attempt: AdvanceAttempt<R>) -> (r: Result<
    (SopRunAction, Option<R>),
    TurnError,
>)
    ensures
        match attempt {
            AdvanceAttempt::Busy => r matches Err(e) && e.layers@ == owned_cancellation::single(
                Cause::SopPhaseIncomplete(SopPhase::StepCancellation),
            ),
            AdvanceAttempt::NotRequested(e) => r == Err::<(SopRunAction, Option<R>), TurnError>(e),
            AdvanceAttempt::NotAdvanced(e) => r == Err::<(SopRunAction, Option<R>), TurnError>(e),
            AdvanceAttempt::Advanced { action, run } => r == Ok::<
                (SopRunAction, Option<R>),
                TurnError,
            >(
                (
                    action,
                    if action.ends_run() {
                        run
                    } else {
                        None
                    },
                ),
            ),
        },
{
    match attempt {
        AdvanceAttempt::Busy => Err(
            TurnError::new(Cause::SopPhaseIncomplete(SopPhase::StepCancellation)),
        ),
        AdvanceAttempt::NotRequested(e) => Err(e),
        AdvanceAttempt::NotAdvanced(e) => Err(e),
        AdvanceAttempt::Advanced { action, run } => {
            let over: bool = match &action {
                SopRunAction::Completed { .. } => true,
                SopRunAction::Failed { .. } => true,
                SopRunAction::Cancelled { .. } => true,
                _ => false,
            };
            if over {
                Ok((action, run))
            } else {
                Ok((action, None))
            }
        },
    }
}

/// What came of an audit: `attempt` is none where it did not end in time. A run
/// without an audit counts as audited.
pub fn audit(audited: bool, attempt: Option<Result<(), TurnError>>) -> (s: AuditSettlement)
    ensures
        !audited ==> s is Complete,
        audited ==> (match attempt {
            Some(Ok(_)) => s is Complete,
            Some(Err(e)) => s == AuditSettlement::Failed(e),
            None => s is Incomplete,
        }),
{
    if !audited {
        return AuditSettlement::Complete;
    }
    match attempt {
        Some(Ok(())) => AuditSettlement::Complete,
        Some(Err(e)) => AuditSettlement::Failed(e),
        None => AuditSettlement::Incomplete,
    }
}

/// The error of an audit that is not complete.
pub fn audit_error(audit: &AuditSettlement) -> (r: Option<TurnError>)
    ensures
        r is None <==> audit is Complete,
        r matches Some(e) ==> e.layers@ == owned_cancellation::single(
            Cause::SopPhaseIncomplete(SopPhase::Audit),
        ),
{
    match audit {
        AuditSettlement::Complete => None,
        _ => Some(TurnError::new(Cause::SopPhaseIncomplete(SopPhase::Audit))),
    }
}

/// The counts by which an interrupted drive is described, without any payload.
#[derive(Clone, Copy, Debug, PartialEq, Eq, Structural)]
pub struct DriveCounts {
    pub steps: usize,
    pub completed_steps: usize,
    pub persistence_failures: usize,
    pub audit_failure_causes: usize,
    pub owned_runs: usize,
    pub pending_cancellations: usize,
    pub queued: usize,
}

/// The number of completed steps.
pub open spec fn completed_count(steps: Seq<StepSettlement>) -> nat
    decreases steps.len(),
{
    if steps.len() == 0 {
        0
    } else {
        completed_count(steps.drop_last()) + (if steps.last().result.status
            == SopStepStatus::Completed {
            1nat
        } else {
            0nat
        })
    }
}

/// The number of steps that could not be persisted.
pub open spec fn persistence_count(steps: Seq<StepSettlement>) -> nat
    decreases steps.len(),
{
    if steps.len() == 0 {
        0
    } else {
        persistence_count(steps.drop_last()) + (if steps.last().persistence_error is Some {
            1nat
        } else {
            0nat
        })
    }
}

/// The number of layers in the errors of failed audits.
pub open spec fn audit_causes(steps: Seq<StepSettlement>) -> nat
    decreases steps.len(),
{
    if steps.len() == 0 {
        0
    } else {
        audit_causes(steps.drop_last()) + (match steps.last().audit {
            AuditSettlement::Failed(e) => e.layers@.len(),
            _ => 0,
        })
    }
}

/// The number of actions whose cancellation is still open.
pub open spec fn open_cancellations(queued: Seq<QueuedSettlement>) -> nat
    decreases queued.len(),
{
    if queued.len() == 0 {
        0
    } else {
        open_cancellations(queued.drop_last()) + (if queued.last().cancellation is Err {
            1nat
        } else {
            0nat
        })
    }
}

/// The runs that the evidence speaks of, in order and with repetitions.
pub open spec fn run_ids(evidence: SopDriveEvidence) -> Seq<Seq<char>> {
    evidence.steps@.map_values(|s: StepSettlement| s.queued.action.run())
        + evidence.queued@.map_values(|q: QueuedSettlement| q.queued.action.run())
}

/// Adds `id` to a list without repetitions, unless it is there.
fn note_run(list: &mut Vec<Vec<char>>, id: &str)
    requires
        text::piece_views(old(list)@).no_duplicates(),
    ensures
        text::piece_views(final(list)@).no_duplicates(),
        text::piece_views(final(list)@).to_set() == text::piece_views(old(list)@).to_set().insert(
            id@,
        ),
        final(list)@.len() <= old(list)@.len() + 1,
{
    let ghost before = text::piece_views(list@);
    for i in 0..list.len()
        invariant
            before == text::piece_views(list@),
            before.no_duplicates(),
            list@ == old(list)@,
            forall|j: int| 0 <= j < i ==> #[trigger] before[j] != id@,
    {
        assert(before[i as int] == list@[i as int]@);
        if text::same_chars(list[i].as_slice(), id) {
            assert(before.contains(id@));
            assert(before.to_set() =~= before.to_set().insert(id@));
            return ;
        }
    }
    list.push(text::chars_of(id));
    proof {
        let after = text::piece_views(list@);
        assert(after =~= before.push(id@));
        assert(!before.contains(id@));
        assert forall|x: Seq<char>| after.to_set().contains(x) == before.to_set().insert(
            id@,
        ).contains(x) by {
            if before.contains(x) {
                let k = choose|k: int| 0 <= k < before.len() && before[k] == x;
                assert(after[k] == x);
            }
            if x == id@ {
                assert(after[before.len() as int] == x);
            }
        }
        assert(after.to_set() =~= before.to_set().insert(id@));
    }
}

impl SopDriveEvidence {
    /// The counts by which the evidence is described.
    pub fn counts(&self) -> (c: DriveCounts)
        requires
            audit_causes(self.steps@) <= usize::MAX,
        ensures
            c.steps == self.steps@.len(),
            c.completed_steps == completed_count(self.steps@),
            c.persistence_failures == persistence_count(self.steps@),
            c.audit_failure_causes == audit_causes(self.steps@),
            c.owned_runs == run_ids(*self).to_set().len(),
            c.pending_cancellations == open_cancellations(self.queued@),
            c.queued == self.queued@.len(),
    {
        let ghost ids = run_ids(*self);
        let mut completed: usize = 0;
        let mut persistence: usize = 0;
        let mut causes: usize = 0;
        let mut open: usize = 0;
        let mut runs: Vec<Vec<char>> = Vec::new();
        assert(text::piece_views(runs@) =~= Seq::empty());
        assert(text::piece_views(runs@).to_set() =~= ids.take(0).to_set());
        for i in 0..self.steps.len()
            invariant
                ids == run_ids(*self),
                audit_causes(self.steps@) <= usize::MAX,
                completed == completed_count(self.steps@.take(i as int)),
                completed <= i,
                persistence == persistence_count(self.steps@.take(i as int)),
                persistence <= i,
                causes == audit_causes(self.steps@.take(i as int)),
                text::piece_views(runs@).no_duplicates(),
                text::piece_views(runs@).to_set() == ids.take(i as int).to_set(),
        {
            let ghost after = self.steps@.take(i + 1);
            assert(after.drop_last() == self.steps@.take(i as int));
            assert(after.last() == self.steps@[i as int]);
            proof {
                lemma_audit_causes_monotone(self.steps@, i + 1);
                lemma_set_of_take(ids, i as int);
            }
            assert(ids[i as int] == self.steps@[i as int].queued.action.run());
            let step: &StepSettlement = &self.steps[i];
            if step.result.status == SopStepStatus::Completed {
                completed += 1;
            }
            if step.persistence_error.is_some() {
                persistence += 1;
            }
            if let AuditSettlement::Failed(e) = &step.audit {
                causes += e.layers.len();
            }
            note_run(&mut runs, action_run_id(&step.queued.action));
        }
        assert(self.steps@.take(self.steps@.len() as int) == self.steps@);
        let base: usize = self.steps.len();
        for i in 0..self.queued.len()
            invariant
                ids == run_ids(*self),
                base == self.steps@.len(),
                open == open_cancellations(self.queued@.take(i as int)),
                open <= i,
                text::piece_views(runs@).no_duplicates(),
                text::piece_views(runs@).to_set() == ids.take(base + i).to_set(),
        {
            let ghost after = self.queued@.take(i + 1);
            assert(after.drop_last() == self.queued@.take(i as int));
            assert(after.last() == self.queued@[i as int]);
            proof {
                lemma_set_of_take(ids, base + i);
            }
            assert(ids[base + i] == self.queued@[i as int].queued.action.run());
            let item: &QueuedSettlement = &self.queued[i];
            if item.cancellation.is_err() {
                open += 1;
            }
            note_run(&mut runs, action_run_id(&item.queued.action));
        }
        assert(self.queued@.take(self.queued@.len() as int) == self.queued@);
        assert(ids.take(base + self.queued@.len()) == ids);
        proof {
            text::piece_views(runs@).unique_seq_to_set();
        }
        DriveCounts {
            steps: self.steps.len(),
            completed_steps: completed,
            persistence_failures: persistence,
            audit_failure_causes: causes,
            owned_runs: runs.len(),
            pending_cancellations: open,
            queued: self.queued.len(),
        }
    }
}

proof fn lemma_set_of_take(ids: Seq<Seq<char>>, i: int)
    requires
        0 <= i < ids.len(),
    ensures
        ids.take(i + 1).to_set() == ids.take(i).to_set().insert(ids[i]),
{
    let a = ids.take(i + 1);
    let b = ids.take(i);
    assert forall|x: Seq<char>| a.to_set().contains(x) == b.to_set().insert(ids[i]).contains(x) by {
        if a.contains(x) {
            let k = choose|k: int| 0 <= k < a.len() && a[k] == x;
            if k < i {
                assert(b[k] == x);
            }
        }
        if b.contains(x) {
            let k = choose|k: int| 0 <= k < b.len() && b[k] == x;
            assert(a[k] == x);
        }
        if x == ids[i] {
            assert(a[i] == x);
        }
    }
    assert(a.to_set() =~= b.to_set().insert(ids[i]));
}

proof fn lemma_audit_causes_monotone(steps: Seq<StepSettlement>, n: int)
    requires
        0 <= n <= steps.len(),
    ensures
        audit_causes(steps.take(n)) <= audit_causes(steps),
    decreases steps.len() - n,
{
    if n < steps.len() {
        assert(steps.take(n + 1).drop_last() == steps.take(n));
        lemma_audit_causes_monotone(steps, n + 1);
    } else {
        assert(steps.take(n) == steps);
    }
}

/// An interrupted drive still says why it was interrupted: whatever was found in
/// the cause as an error or a source of one is found in the drive's error.
pub proof fn law_drive_keeps_its_cause(evidence: SopDriveEvidence, cause: Seq<Layer>, k: CauseKind)
    requires
        error::in_sources(cause, k),
    ensures
        error::carries(
            seq![Layer { cause: Cause::SopDriveInterrupted(evidence), context: false }] + cause,
            k,
        ),
{
    let all = seq![Layer { cause: Cause::SopDriveInterrupted(evidence), context: false }] + cause;
    let i = choose|i: int|
        0 <= i < cause.len() && !(#[trigger] cause[i]).context && cause[i].cause.kind() == k;
    assert(all[i + 1] == cause[i]);
}

} // verus!
