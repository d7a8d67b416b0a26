//! The state that an operator's evidence is given on: the job, one of its runs,
//! one of its occurrences, and what surrounds them.

use crate::clock::Moment;
use crate::cron::job;
use crate::cron::job::{CronJob, JobView, Schedule};
use crate::cron::store::ledger;
use crate::cron::store::ledger::{
    JobRow, Ledger, LedgerView, OccurrenceRow, OccurrenceView, RunRow, RunView,
};
use crate::cron::store::manual;
use crate::text;
use vstd::prelude::*;
use vstd::string::*;

verus! {

/// The state that an operator's evidence is given on.
pub struct Snapshot<'a> {
    pub job: &'a CronJob,
    pub run: &'a RunRow,
    pub occurrence: &'a OccurrenceRow,
    /// Whether a run of the job is under way.
    pub locked: bool,
    /// Whether the run is the latest one.
    pub latest: bool,
    /// Whether another occurrence is under way or in doubt.
    pub other_uncertain: bool,
}

/// The model of a snapshot.
pub struct SnapshotView {
    pub job: JobView,
    pub run: RunView,
    pub occurrence: OccurrenceView,
    pub locked: bool,
    pub latest: bool,
    pub other_uncertain: bool,
}

impl<'a> View for Snapshot<'a> {
    type V = SnapshotView;

    open spec fn view(&self) -> SnapshotView {
        SnapshotView {
            job: self.job@,
            run: self.run@,
            occurrence: self.occurrence@,
            locked: self.locked,
            latest: self.latest,
            other_uncertain: self.other_uncertain,
        }
    }
}

/// The position of the run with an identifier.
pub open spec fn run_position(runs: Seq<RunView>, id: i64) -> Option<int>
    decreases runs.len(),
{
    if runs.len() == 0 {
        None
    } else if runs.last().id == id {
        Some(runs.len() - 1)
    } else {
        run_position(runs.drop_last(), id)
    }
}

/// Whether a run comes behind another one in the history: it started later, or at
/// the same time with a higher identifier.
pub open spec fn newer(a: RunView, b: RunView) -> bool {
    text::comes_before(b.started_at, a.started_at) || (a.started_at == b.started_at && a.id > b.id)
}

/// Whether no run comes behind the one with an identifier.
pub open spec fn is_latest(runs: Seq<RunView>, id: i64) -> bool {
    exists|k: int|
        0 <= k < runs.len() && (#[trigger] runs[k]).id == id && forall|j: int|
            0 <= j < runs.len() ==> !newer(#[trigger] runs[j], runs[k])
}

/// Whether an occurrence is under way or in doubt.
pub open spec fn unresolved(o: OccurrenceView) -> bool {
    ||| o.execution_state == "claimed"@
    ||| o.execution_state == "running"@
    ||| manual::in_doubt(o)
}

/// Whether an occurrence other than `id` is under way or in doubt.
pub open spec fn others_unresolved(l: LedgerView, id: Seq<char>) -> bool {
    exists|i: int|
        0 <= i < l.occurrences.len() && (#[trigger] l.occurrences[i]).id != id && unresolved(
            l.occurrences[i],
        )
}

/// The state that evidence on a run and an occurrence is given on; nothing where
/// the job, the run or the occurrence is not there.
pub open spec fn snapshot_of(l: LedgerView, run_id: i64, occurrence_id: Seq<char>) -> Option<
    SnapshotView,
> {
    match (l.job, run_position(l.runs, run_id), ledger::position(l.occurrences, occurrence_id)) {
        (Some(row), Some(r), Some(o)) => Some(
            SnapshotView {
                job: row.job,
                run: l.runs[r],
                occurrence: l.occurrences[o],
                locked: l.locked(),
                latest: is_latest(l.runs, run_id),
                other_uncertain: others_unresolved(l, occurrence_id),
            },
        ),
        _ => None,
    }
}

/// The position of the run with an identifier.
fn find_run(l: &Ledger, id: i64) -> (r: Option<usize>)
    ensures
        match r {
            Some(i) => run_position(l@.runs, id) == Some(i as int) && i < l.runs@.len(),
            None => run_position(l@.runs, id) is None,
        },
{
    let ghost all = l@.runs;
    let mut i: usize = l.runs.len();
    assert(all.take(all.len() as int) == all);
    while i > 0
        invariant
            i <= l.runs@.len(),
            all == l@.runs,
            run_position(all, id) == run_position(all.take(i as int), id),
        decreases i,
    {
        assert(all.take(i as int).drop_last() == all.take(i - 1));
        assert(all.take(i as int).last() == l.runs@[i - 1]@);
        i -= 1;
        if l.runs[i].id == id {
            return Some(i);
        }
    }
    None
}

/// Whether a run comes behind another one.
fn run_is_newer(a: &RunRow, b: &RunRow) -> (r: bool)
    ensures
        r == newer(a@, b@),
{
    let x: Vec<char> = text::chars_of(a.started_at.as_str());
    let y: Vec<char> = text::chars_of(b.started_at.as_str());
    text::is_before(y.as_slice(), x.as_slice()) || (text::str_eq(
        a.started_at.as_str(),
        b.started_at.as_str(),
    ) && a.id > b.id)
}

/// A run that is not newer than one that is not newer than a third is not newer
/// than the third; two runs neither of which is newer have one identifier.
proof fn lemma_newer(a: RunView, b: RunView, c: RunView)
    ensures
        !newer(a, a),
        !newer(a, b) && !newer(b, c) ==> !newer(a, c),
        !newer(a, b) && !newer(b, a) ==> a.id == b.id,
{
    text::lemma_order(a.started_at, a.started_at, a.started_at);
    text::lemma_order(a.started_at, b.started_at, c.started_at);
    text::lemma_order(c.started_at, b.started_at, a.started_at);
    text::lemma_order(b.started_at, a.started_at, b.started_at);
    text::lemma_order(a.started_at, c.started_at, b.started_at);
    text::lemma_order(c.started_at, a.started_at, b.started_at);
    text::lemma_order(b.started_at, c.started_at, a.started_at);
}

/// Whether no run comes behind the one with an identifier.
fn run_is_latest(l: &Ledger, id: i64) -> (r: bool)
    ensures
        r == is_latest(l@.runs, id),
{
    let n: usize = l.runs.len();
    if n == 0 {
        return false;
    }
    let mut best: usize = 0;
    proof {
        lemma_newer(l@.runs[0], l@.runs[0], l@.runs[0]);
    }
    for i in 1..n
        invariant
            n == l.runs@.len(),
            best < n,
            i <= n,
            forall|j: int| 0 <= j < i ==> !newer(#[trigger] l@.runs[j], l@.runs[best as int]),
    {
        assert(l@.runs[i as int] == l.runs@[i as int]@);
        assert(l@.runs[best as int] == l.runs@[best as int]@);
        if run_is_newer(&l.runs[i], &l.runs[best]) {
            let ghost was = best as int;
            best = i;
            assert forall|j: int| 0 <= j <= i implies !newer(
                #[trigger] l@.runs[j],
                l@.runs[best as int],
            ) by {
                lemma_newer(l@.runs[best as int], l@.runs[best as int], l@.runs[best as int]);
                if j < i {
                    lemma_later(l@.runs[j], l@.runs[was], l@.runs[best as int]);
                }
            }
        }
    }
    assert(l@.runs[best as int] == l.runs@[best as int]@);
    proof {
        if is_latest(l@.runs, id) {
            let k = choose|k: int|
                0 <= k < l@.runs.len() && (#[trigger] l@.runs[k]).id == id && forall|j: int|
                    0 <= j < l@.runs.len() ==> !newer(#[trigger] l@.runs[j], l@.runs[k]);
            lemma_newer(l@.runs[k], l@.runs[best as int], l@.runs[k]);
        }
    }
    l.runs[best].id == id
}

/// A run that is not newer than another one is not newer than one that is.
proof fn lemma_later(a: RunView, b: RunView, c: RunView)
    requires
        !newer(a, b),
        newer(c, b),
    ensures
        !newer(a, c),
{
    text::lemma_order(a.started_at, b.started_at, c.started_at);
    text::lemma_order(b.started_at, a.started_at, c.started_at);
    text::lemma_order(b.started_at, c.started_at, a.started_at);
    text::lemma_order(c.started_at, b.started_at, a.started_at);
    text::lemma_order(a.started_at, c.started_at, b.started_at);
    text::lemma_order(c.started_at, a.started_at, b.started_at);
}

/// Whether an occurrence other than `id` is under way or in doubt.
fn has_unresolved_others(l: &Ledger, id: &str) -> (r: bool)
    ensures
        r == others_unresolved(l@, id@),
{
    for i in 0..l.occurrences.len()
        invariant
            forall|j: int|
                0 <= j < i ==> !((#[trigger] l@.occurrences[j]).id != id@ && unresolved(
                    l@.occurrences[j],
                )),
    {
        let o: &OccurrenceRow = &l.occurrences[i];
        assert(l@.occurrences[i as int] == o@);
        let execution: &str = o.execution_state.as_str();
        if !text::str_eq(o.id.as_str(), id) && (text::str_eq(execution, "claimed") || text::str_eq(
            execution,
            "running",
        ) || text::str_eq(execution, "possibly_applied") || manual::is_delivery_in_doubt(
            o.delivery_state.as_str(),
        )) {
            return true;
        }
    }
    false
}

/// The state that evidence on a run and an occurrence is given on.
pub fn snapshot<'a>(l: &'a Ledger, run_id: i64, occurrence_id: &str) -> (r: Option<Snapshot<'a>>)
    ensures
        match r {
            Some(s) => snapshot_of(l@, run_id, occurrence_id@) == Some(s@),
            None => snapshot_of(l@, run_id, occurrence_id@) is None,
        },
{
    let row: &JobRow = match &l.job {
        Some(row) => row,
        None => {
            return None;
        },
    };
    let r: usize = match find_run(l, run_id) {
        Some(r) => r,
        None => {
            return None;
        },
    };
    let o: usize = match l.position_of(occurrence_id) {
        Some(o) => o,
        None => {
            return None;
        },
    };
    assert(l@.runs[r as int] == l.runs@[r as int]@);
    assert(l@.occurrences[o as int] == l.occurrences@[o as int]@);
    Some(
        Snapshot {
            job: &row.job,
            run: &l.runs[r],
            occurrence: &l.occurrences[o],
            locked: l.is_locked(),
            latest: run_is_latest(l, run_id),
            other_uncertain: has_unresolved_others(l, occurrence_id),
        },
    )
}

/// A moment as seconds and nanoseconds.
pub open spec fn stamp(m: Option<Moment>) -> Option<(int, int)> {
    match m {
        Some(m) => Some((m.secs as int, m.nanos as int)),
        None => None,
    }
}

/// Whether evidence may be given on a state in which the run ended at `finished`:
/// the job is disabled, idle and in doubt; the run is its latest and failed; the
/// occurrence may have had effects, with nothing to deliver, and is the only one
/// that is open; job, run and occurrence tell the same output and time; and the
/// job has a schedule to go on with.
pub open spec fn eligible(s: SnapshotView, finished: Option<(int, int)>) -> bool {
    &&& !s.job.enabled
    &&& !s.locked
    &&& s.latest
    &&& !s.other_uncertain
    &&& s.job.last_status == Some("uncertain"@)
    &&& s.run.status == "error"@
    &&& s.occurrence.execution_state == "possibly_applied"@
    &&& s.occurrence.delivery_state == "not_requested"@
    &&& s.job.last_output == s.run.output
    &&& s.run.output == s.occurrence.output
    &&& stamp(s.job.last_run) == finished
    &&& !(s.job.schedule is At)
}

/// Whether two optional moments are the same.
fn same_moment(a: Option<Moment>, b: Option<Moment>) -> (r: bool)
    ensures
        r == (stamp(a) == stamp(b)),
{
    match (a, b) {
        (Some(x), Some(y)) => x.secs == y.secs && x.nanos == y.nanos,
        (None, None) => true,
        _ => false,
    }
}

impl<'a> Snapshot<'a> {
    /// Whether evidence may be given on the state, for a run that ended at
    /// `finished`.
    pub fn is_eligible_at(&self, finished: Option<Moment>) -> (r: bool)
        ensures
            r == eligible(self@, stamp(finished)),
    {
        let one_shot: bool = match &self.job.schedule {
            Schedule::At { .. } => true,
            _ => false,
        };
        !self.job.enabled && !self.locked && self.latest && !self.other_uncertain && job::opt_is(
            &self.job.last_status,
            "uncertain",
        ) && text::str_eq(self.run.status.as_str(), "error") && text::str_eq(
            self.occurrence.execution_state.as_str(),
            "possibly_applied",
        ) && text::str_eq(self.occurrence.delivery_state.as_str(), "not_requested")
            && job::same_opt(&self.job.last_output, &self.run.output) && job::same_opt(
            &self.run.output,
            &self.occurrence.output,
        ) && same_moment(self.job.last_run, finished) && !one_shot
    }
}

} // verus!
