//! The ledger of one job: its row, its occurrences, its run history, and the
//! evidence that operators gave of it.

use crate::cron::job::{CronJob, JobView};
use crate::cron::store::reconciliation::{ReceiptView, ReconciliationReceipt};
use crate::text;
use crate::turn::tool;
use vstd::prelude::*;
use vstd::string::*;

verus! {

/// One occurrence of a job: a scheduled run or an invocation by hand.
pub struct OccurrenceRow {
    pub id: String,
    pub execution_state: String,
    pub delivery_state: String,
    pub output: Option<String>,
    pub updated_at: String,
}

/// One entry of the run history.
pub struct RunRow {
    pub id: i64,
    pub started_at: String,
    pub finished_at: String,
    pub status: String,
    pub output: Option<String>,
}

/// The job itself, with the lock of the run that is under way.
pub struct JobRow {
    pub job: CronJob,
    pub locked_at: Option<String>,
    pub lock_owner: Option<String>,
}

/// The evidence that an operator gave of one run, and the state of the
/// occurrence that it speaks of.
pub struct ReconciliationRow {
    pub run_id: i64,
    pub occurrence_id: String,
    pub occurrence_updated_at: String,
    pub receipt: ReconciliationReceipt,
}

/// Everything that is stored under one job identifier. Occurrences and evidence
/// outlive the job row.
pub struct Ledger {
    pub job_id: String,
    pub job: Option<JobRow>,
    pub occurrences: Vec<OccurrenceRow>,
    pub runs: Vec<RunRow>,
    pub reconciliations: Vec<ReconciliationRow>,
}

/// The model of an occurrence.
pub struct OccurrenceView {
    pub id: Seq<char>,
    pub execution_state: Seq<char>,
    pub delivery_state: Seq<char>,
    pub output: Option<Seq<char>>,
    pub updated_at: Seq<char>,
}

/// The model of a run.
pub struct RunView {
    pub id: i64,
    pub started_at: Seq<char>,
    pub finished_at: Seq<char>,
    pub status: Seq<char>,
    pub output: Option<Seq<char>>,
}

/// The model of a job row.
pub struct JobRowView {
    pub job: JobView,
    pub locked_at: Option<Seq<char>>,
    pub lock_owner: Option<Seq<char>>,
}

/// The model of an operator's evidence.
pub struct ReconciliationView {
    pub run_id: i64,
    pub occurrence_id: Seq<char>,
    pub occurrence_updated_at: Seq<char>,
    pub receipt: ReceiptView,
}

/// The model of a ledger.
pub struct LedgerView {
    pub job_id: Seq<char>,
    pub job: Option<JobRowView>,
    pub occurrences: Seq<OccurrenceView>,
    pub runs: Seq<RunView>,
    pub reconciliations: Seq<ReconciliationView>,
}

impl View for OccurrenceRow {
    type V = OccurrenceView;

    open spec fn view(&self) -> OccurrenceView {
        OccurrenceView {
            id: self.id@,
            execution_state: self.execution_state@,
            delivery_state: self.delivery_state@,
            output: tool::opt(self.output),
            updated_at: self.updated_at@,
        }
    }
}

impl View for RunRow {
    type V = RunView;

    open spec fn view(&self) -> RunView {
        RunView {
            id: self.id,
            started_at: self.started_at@,
            finished_at: self.finished_at@,
            status: self.status@,
            output: tool::opt(self.output),
        }
    }
}

impl View for JobRow {
    type V = JobRowView;

    open spec fn view(&self) -> JobRowView {
        JobRowView {
            job: self.job@,
            locked_at: tool::opt(self.locked_at),
            lock_owner: tool::opt(self.lock_owner),
        }
    }
}

impl View for ReconciliationRow {
    type V = ReconciliationView;

    open spec fn view(&self) -> ReconciliationView {
        ReconciliationView {
            run_id: self.run_id,
            occurrence_id: self.occurrence_id@,
            occurrence_updated_at: self.occurrence_updated_at@,
            receipt: self.receipt@,
        }
    }
}

/// The occurrences of a list of rows.
pub open spec fn occurrence_views(rows: Seq<OccurrenceRow>) -> Seq<OccurrenceView> {
    rows.map_values(|r: OccurrenceRow| r@)
}

/// The runs of a list of rows.
pub open spec fn run_views(rows: Seq<RunRow>) -> Seq<RunView> {
    rows.map_values(|r: RunRow| r@)
}

/// The evidence of a list of rows.
pub open spec fn reconciliation_views(rows: Seq<ReconciliationRow>) -> Seq<ReconciliationView> {
    rows.map_values(|r: ReconciliationRow| r@)
}

/// The job row, if there is one.
pub open spec fn job_row_view(row: Option<JobRow>) -> Option<JobRowView> {
    match row {
        Some(r) => Some(r@),
        None => None,
    }
}

impl View for Ledger {
    type V = LedgerView;

    open spec fn view(&self) -> LedgerView {
        LedgerView {
            job_id: self.job_id@,
            job: job_row_view(self.job),
            occurrences: occurrence_views(self.occurrences@),
            runs: run_views(self.runs@),
            reconciliations: reconciliation_views(self.reconciliations@),
        }
    }
}

impl LedgerView {
    /// The job row is filed under its own identifier, and no two occurrences
    /// share one.
    pub open spec fn well_formed(self) -> bool {
        &&& self.job matches Some(row) ==> row.job.id == self.job_id
        &&& forall|i: int, j: int|
            #![trigger self.occurrences[i], self.occurrences[j]]
            0 <= i < j < self.occurrences.len() ==> self.occurrences[i].id
                != self.occurrences[j].id
    }

    /// Whether a run of the job is under way.
    pub open spec fn locked(self) -> bool {
        self.job matches Some(row) && (row.locked_at is Some || row.lock_owner is Some)
    }

    /// Whether an operator gave evidence of the occurrence in its present state.
    pub open spec fn settled(self, o: OccurrenceView) -> bool {
        exists|k: int|
            0 <= k < self.reconciliations.len() && (
            #[trigger] self.reconciliations[k]).occurrence_id == o.id
                && self.reconciliations[k].occurrence_updated_at == o.updated_at
    }
}

/// The position of the occurrence with an identifier.
pub open spec fn position(list: Seq<OccurrenceView>, id: Seq<char>) -> Option<int>
    decreases list.len(),
{
    if list.len() == 0 {
        None
    } else if list.last().id == id {
        Some(list.len() - 1)
    } else {
        position(list.drop_last(), id)
    }
}

/// `position` finds an occurrence with the identifier, if there is one.
pub proof fn lemma_position(list: Seq<OccurrenceView>, id: Seq<char>)
    ensures
        match position(list, id) {
            Some(i) => 0 <= i < list.len() && list[i].id == id,
            None => forall|i: int| 0 <= i < list.len() ==> (#[trigger] list[i]).id != id,
        },
    decreases list.len(),
{
    if list.len() > 0 && list.last().id != id {
        lemma_position(list.drop_last(), id);
        assert forall|i: int| 0 <= i < list.len() && position(list, id) is None implies (
        #[trigger] list[i]).id != id by {
            if i < list.len() - 1 {
                assert(list.drop_last()[i] == list[i]);
            }
        }
    }
}

/// Whether no later occurrence has the identifier of the one at `i`.
spec fn is_last(list: Seq<OccurrenceView>, i: int) -> bool {
    forall|j: int| i < j < list.len() ==> (#[trigger] list[j]).id != list[i].id
}

/// `position` finds the last occurrence with an identifier.
proof fn lemma_last(list: Seq<OccurrenceView>, i: int)
    requires
        0 <= i < list.len(),
    ensures
        position(list, list[i].id) == Some(i) ==> is_last(list, i),
    decreases list.len(),
{
    if i < list.len() - 1 && list.last().id != list[i].id {
        let init = list.drop_last();
        assert(init[i] == list[i]);
        lemma_last(init, i);
        assert forall|j: int|
            position(list, list[i].id) == Some(i) && i < j < list.len() implies (
        #[trigger] list[j]).id != list[i].id by {
            if j < list.len() - 1 {
                assert(list[j] == init[j]);
            }
        }
    }
}

/// In a well-formed ledger an occurrence stands at its position.
pub proof fn lemma_position_of(l: LedgerView, i: int)
    requires
        l.well_formed(),
        0 <= i < l.occurrences.len(),
    ensures
        position(l.occurrences, l.occurrences[i].id) == Some(i),
{
    lemma_position(l.occurrences, l.occurrences[i].id);
    let p = position(l.occurrences, l.occurrences[i].id);
    if let Some(j) = p {
        if j < i {
            assert(l.occurrences[j].id != l.occurrences[i].id);
        } else if i < j {
            assert(l.occurrences[i].id != l.occurrences[j].id);
        }
    }
}

/// What the store's transition rule says of a step that an occurrence is asked
/// to take.
#[derive(Clone, Copy, Debug, PartialEq, Eq, Structural)]
pub enum Checkpoint {
    /// The step is not allowed.
    Refused,
    /// The occurrence already is where the step leads.
    Kept,
    /// The step is taken.
    Moved,
}

/// The ledger after an occurrence is asked to take a step; nothing where there is
/// no such occurrence or the step is refused. Without an output the recorded one
/// stays.
pub open spec fn checkpointed(
    l: LedgerView,
    id: Seq<char>,
    execution: Seq<char>,
    delivery: Seq<char>,
    output: Option<Seq<char>>,
    step: Checkpoint,
    now: Seq<char>,
) -> Option<LedgerView> {
    match position(l.occurrences, id) {
        None => None,
        Some(i) => match step {
            Checkpoint::Refused => None,
            Checkpoint::Kept => Some(l),
            Checkpoint::Moved => Some(
                LedgerView {
                    occurrences: l.occurrences.update(
                        i,
                        OccurrenceView {
                            id,
                            execution_state: execution,
                            delivery_state: delivery,
                            output: match output {
                                Some(s) => Some(s),
                                None => l.occurrences[i].output,
                            },
                            updated_at: now,
                        },
                    ),
                    ..l
                },
            ),
        },
    }
}

impl Ledger {
    /// The position of the occurrence with an identifier.
    pub fn position_of(&self, id: &str) -> (r: Option<usize>)
        ensures
            match r {
                Some(i) => position(self@.occurrences, id@) == Some(i as int) && i
                    < self.occurrences@.len() && self@.occurrences[i as int].id == id@,
                None => position(self@.occurrences, id@) is None,
            },
    {
        let ghost all = self@.occurrences;
        let mut i: usize = self.occurrences.len();
        assert(all.take(all.len() as int) == all);
        while i > 0
            invariant
                i <= self.occurrences@.len(),
                all == self@.occurrences,
                position(all, id@) == position(all.take(i as int), id@),
            decreases i,
        {
            assert(all.take(i as int).drop_last() == all.take(i - 1));
            assert(all.take(i as int).last() == self.occurrences@[i - 1]@);
            i -= 1;
            if text::str_eq(self.occurrences[i].id.as_str(), id) {
                return Some(i);
            }
        }
        None
    }

    /// Whether the ledger is well-formed: to be asked of one that was read from
    /// storage.
    pub fn is_well_formed(&self) -> (r: bool)
        ensures
            r == self@.well_formed(),
    {
        let ghost l = self@;
        if let Some(row) = &self.job {
            if !text::str_eq(row.job.id.as_str(), self.job_id.as_str()) {
                return false;
            }
        }
        for i in 0..self.occurrences.len()
            invariant
                l == self@,
                l.job matches Some(row) ==> row.job.id == l.job_id,
                forall|k: int| 0 <= k < i ==> is_last(l.occurrences, k),
        {
            proof {
                lemma_position(l.occurrences, l.occurrences[i as int].id);
                lemma_last(l.occurrences, i as int);
            }
            assert(l.occurrences[i as int] == self.occurrences@[i as int]@);
            match self.position_of(self.occurrences[i].id.as_str()) {
                Some(k) => {
                    if k != i {
                        assert(l.occurrences[k as int].id == l.occurrences[i as int].id);
                        return false;
                    }
                },
                None => {
                    return false;
                },
            }
        }
        assert forall|i: int, j: int|
            #![trigger l.occurrences[i], l.occurrences[j]]
            0 <= i < j < l.occurrences.len() implies l.occurrences[i].id
            != l.occurrences[j].id by {
            assert(is_last(l.occurrences, i));
        }
        true
    }

    /// Whether a run of the job is under way.
    pub fn is_locked(&self) -> (r: bool)
        ensures
            r == self@.locked(),
    {
        match &self.job {
            Some(row) => row.locked_at.is_some() || row.lock_owner.is_some(),
            None => false,
        }
    }

    /// Whether an operator gave evidence of the occurrence in its present state.
    pub fn is_settled(&self, o: &OccurrenceRow) -> (r: bool)
        ensures
            r == self@.settled(o@),
    {
        for k in 0..self.reconciliations.len()
            invariant
                forall|j: int|
                    0 <= j < k ==> !((#[trigger] self@.reconciliations[j]).occurrence_id == o@.id
                        && self@.reconciliations[j].occurrence_updated_at == o@.updated_at),
        {
            let rec: &ReconciliationRow = &self.reconciliations[k];
            assert(self@.reconciliations[k as int] == rec@);
            if text::str_eq(rec.occurrence_id.as_str(), o.id.as_str()) && text::str_eq(
                rec.occurrence_updated_at.as_str(),
                o.updated_at.as_str(),
            ) {
                return true;
            }
        }
        false
    }

    /// Asks an occurrence to take a step that the store's transition rule has
    /// judged. Gives whether it was recorded; the ledger stays as it is where it
    /// was not.
    pub fn checkpoint(
        &mut self,
        id: &str,
        execution: &str,
        delivery: &str,
        output: Option<&str>,
        step: Checkpoint,
        now: &str,
    ) -> (ok: bool)
        requires
            old(self)@.well_formed(),
        ensures
            final(self)@.well_formed(),
            match checkpointed(
                old(self)@,
                id@,
                execution@,
                delivery@,
                match output {
                    Some(s) => Some(s@),
                    None => None,
                },
                step,
                now@,
            ) {
                Some(l) => ok && final(self)@ == l,
                None => !ok && final(self)@ == old(self)@,
            },
    {
        let i: usize = match self.position_of(id) {
            Some(i) => i,
            None => {
                return false;
            },
        };
        match step {
            Checkpoint::Refused => false,
            Checkpoint::Kept => true,
            Checkpoint::Moved => {
                let recorded: Option<String> = match output {
                    Some(s) => Some(s.to_owned()),
                    None => tool::copy_opt(&self.occurrences[i].output),
                };
                let row = OccurrenceRow {
                    id: id.to_owned(),
                    execution_state: execution.to_owned(),
                    delivery_state: delivery.to_owned(),
                    output: recorded,
                    updated_at: now.to_owned(),
                };
                let ghost before = self@;
                self.occurrences.set(i, row);
                assert(self@.occurrences =~= before.occurrences.update(i as int, row@));
                true
            },
        }
    }
}

} // verus!
