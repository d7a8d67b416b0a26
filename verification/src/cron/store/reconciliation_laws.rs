//! What holds of operators' evidence from one call to the next.

use crate::cron::job::JobView;
use crate::cron::store::ledger;
use crate::cron::store::ledger::{JobRowView, LedgerView, OccurrenceView, RunView};
use crate::cron::store::manual;
use crate::cron::store::manual::{ClaimErrorView, ManualAdmissionError};
use crate::cron::store::reconciliation;
use crate::cron::store::reconciliation::{ReconcileError, RequestView, StatusView};
use crate::cron::store::snapshot;
use vstd::prelude::*;
use vstd::string::*;

verus! {

/// What a status offers is granted: evidence on an eligible occurrence, given with
/// the token that the status showed while nothing has changed since, is accepted.
/// Where the status says that the occurrence is not eligible, it is not.
pub proof fn law_shown_state_is_accepted(
    l: LedgerView,
    run_id: i64,
    request: RequestView,
    source: Seq<char>,
    now: Seq<char>,
    job: Seq<char>,
)
    requires
        reconciliation::valid_request(request, source),
        reconciliation::receipt_at(l.reconciliations, run_id) is None,
        reconciliation::status_of(l, run_id, request.occurrence_id, job) matches Ok(s)
            && s.expected_state == Some(request.expected_state),
    ensures
        reconciliation::reconciliation(l, run_id, request, source, now, job) == (
        if reconciliation::status_of(l, run_id, request.occurrence_id, job)->Ok_0.eligible {
            Ok::<_, ReconcileError>(
                reconciliation::granted(l, run_id, request, source, now),
            )
        } else {
            Err(ReconcileError::Rejected)
        }),
{
}

/// Evidence rewrites no history: runs and occurrences stay as they are, and of
/// the job only its last status changes. A disabled job stays disabled, its
/// schedule stays, and its lock stays.
pub proof fn law_evidence_rewrites_no_history(
    l: LedgerView,
    run_id: i64,
    request: RequestView,
    source: Seq<char>,
    now: Seq<char>,
)
    ensures
        ({
            let after = reconciliation::after_grant(l, run_id, request, source, now);
            &&& after.job_id == l.job_id
            &&& after.runs == l.runs
            &&& after.occurrences == l.occurrences
            &&& l.job is None ==> after.job is None
            &&& l.job matches Some(row) ==> after.job is Some && after.job->Some_0.locked_at
                == row.locked_at && after.job->Some_0.lock_owner == row.lock_owner
                && after.job->Some_0.job == (JobView {
                last_status: after.job->Some_0.job.last_status,
                ..row.job
            })
        }),
{
}

/// Once evidence is given, the same request from the same source is answered with
/// the same receipt, whatever the time, and changes nothing; any other request on
/// the run is rejected.
pub proof fn law_evidence_is_given_once(
    l: LedgerView,
    run_id: i64,
    request: RequestView,
    source: Seq<char>,
    now: Seq<char>,
    job: Seq<char>,
    again: RequestView,
    other_source: Seq<char>,
    later: Seq<char>,
    later_job: Seq<char>,
)
    requires
        reconciliation::reconciliation(l, run_id, request, source, now, job) is Ok,
    ensures
        ({
            let after = reconciliation::after_grant(l, run_id, request, source, now);
            let first = reconciliation::reconciliation(l, run_id, request, source, now, job);
            &&& reconciliation::reconciliation(
                after,
                run_id,
                request,
                source,
                later,
                later_job,
            ) == first
            &&& reconciliation::after_grant(after, run_id, request, source, later) == after
            &&& again != request || other_source != source ==> reconciliation::reconciliation(
                after,
                run_id,
                again,
                other_source,
                later,
                later_job,
            ) == Err::<reconciliation::ReceiptView, _>(ReconcileError::Rejected)
        }),
{
    let after = reconciliation::after_grant(l, run_id, request, source, now);
    if reconciliation::receipt_at(l.reconciliations, run_id) is None {
        assert(after.reconciliations.last().run_id == run_id);
    }
}

/// Evidence that was given stays to be seen: whatever has become of the history of
/// runs and occurrences since, and of the job's row, the status of the run on the
/// occurrence of the request shows the receipt that was given, is not eligible,
/// offers no token and allows no repetition. On any other occurrence the status is
/// refused. The job must be there, with its next run at a time in the calendar.
pub proof fn law_given_evidence_outlives_the_history(
    l: LedgerView,
    run_id: i64,
    request: RequestView,
    source: Seq<char>,
    now: Seq<char>,
    job: Seq<char>,
    row: JobRowView,
    runs: Seq<RunView>,
    occurrences: Seq<OccurrenceView>,
    occurrence_id: Seq<char>,
    later_job: Seq<char>,
)
    requires
        reconciliation::reconciliation(l, run_id, request, source, now, job) is Ok,
        row.job.next_run.is_calendar_time(),
    ensures
        ({
            let receipt = reconciliation::reconciliation(l, run_id, request, source, now, job)->Ok_0;
            let since = LedgerView {
                job: Some(row),
                runs,
                occurrences,
                ..reconciliation::after_grant(l, run_id, request, source, now)
            };
            let shown = reconciliation::status_of(since, run_id, occurrence_id, later_job);
            if occurrence_id == request.occurrence_id {
                &&& shown matches Ok(s)
                &&& s.receipt == Some(receipt)
                &&& !s.eligible
                &&& s.expected_state is None
                &&& !s.retry_allowed
            } else {
                shown == Err::<StatusView, _>(ReconcileError::Rejected)
            }
        }),
{
    let after = reconciliation::after_grant(l, run_id, request, source, now);
    if reconciliation::receipt_at(l.reconciliations, run_id) is None {
        assert(after.reconciliations.last().run_id == run_id);
    }
}

/// Neither a status nor a newly granted receipt allows a run to be repeated.
pub proof fn law_evidence_allows_no_repetition(
    l: LedgerView,
    run_id: i64,
    request: RequestView,
    source: Seq<char>,
    now: Seq<char>,
    occurrence_id: Seq<char>,
    job: Seq<char>,
)
    ensures
        !reconciliation::granted(l, run_id, request, source, now).retry_allowed,
        reconciliation::status_of(l, run_id, occurrence_id, job) matches Ok(s) ==> !s.retry_allowed
            && s.enabled == l.job->Some_0.job.enabled,
        forall|expected: JobView, keyed: bool, id: Seq<char>, limit: nat|
            ledger::position(l.occurrences, id) is Some ==> (#[trigger] manual::admitted(
                reconciliation::after_grant(l, run_id, request, source, now),
                expected,
                keyed,
                id,
                limit,
            )) is Err,
{
}

/// Evidence releases exactly the job that it was given on: the occurrence is
/// accounted for, no other one is open, and so a new invocation that saw the job
/// as it now is gets admitted.
pub proof fn law_evidence_releases_the_job(
    l: LedgerView,
    run_id: i64,
    request: RequestView,
    source: Seq<char>,
    now: Seq<char>,
    job: Seq<char>,
    keyed: bool,
    new_id: Seq<char>,
    limit: nat,
)
    requires
        l.well_formed(),
        reconciliation::receipt_at(l.reconciliations, run_id) is None,
        reconciliation::reconciliation(l, run_id, request, source, now, job) is Ok,
        ledger::position(l.occurrences, new_id) is None,
    ensures
        ({
            let after = reconciliation::after_grant(l, run_id, request, source, now);
            &&& !manual::some_in_doubt(after)
            &&& manual::admitted(after, after.job->Some_0.job, keyed, new_id, limit) is Ok
        }),
{
    let after = reconciliation::after_grant(l, run_id, request, source, now);
    let state = snapshot::snapshot_of(l, run_id, request.occurrence_id)->Some_0;
    ledger::lemma_position(l.occurrences, request.occurrence_id);
    let k = after.reconciliations.len() - 1;
    assert(after.reconciliations[k].occurrence_id == request.occurrence_id);
    assert(after.reconciliations[k].occurrence_updated_at == state.occurrence.updated_at);
    assert forall|i: int|
        0 <= i < after.occurrences.len() && manual::in_doubt(
            #[trigger] after.occurrences[i],
        ) implies after.settled(after.occurrences[i]) by {
        assert(after.occurrences[i] == l.occurrences[i]);
        if l.occurrences[i].id != request.occurrence_id {
            assert(snapshot::unresolved(l.occurrences[i]));
            assert(false);
        }
        ledger::lemma_position_of(l, i);
        assert(l.occurrences[i] == state.occurrence);
    }
    reveal_strlit("uncertain");
    reveal_strlit("reconciled_no_external_effect");
    assert("uncertain"@.len() == 9);
    assert("reconciled_no_external_effect"@.len() == 29);
}

/// An occurrence in doubt that changed after the evidence was given is no longer
/// accounted for: new invocations are quarantined again.
pub proof fn law_changed_occurrence_is_in_doubt_again(
    l: LedgerView,
    i: int,
    expected: JobView,
    new_id: Seq<char>,
    limit: nat,
)
    requires
        0 <= i < l.occurrences.len(),
        manual::in_doubt(l.occurrences[i]),
        forall|k: int|
            0 <= k < l.reconciliations.len() && (#[trigger] l.reconciliations[k]).occurrence_id
                == l.occurrences[i].id ==> l.reconciliations[k].occurrence_updated_at
                != l.occurrences[i].updated_at,
        l.job is Some,
        !l.locked(),
        expected.id == l.job_id,
        expected.agent_alias == l.job->Some_0.job.agent_alias,
        ledger::position(l.occurrences, new_id) is None,
    ensures
        manual::admitted(l, expected, true, new_id, limit) == Err::<(), _>(
            ClaimErrorView::Refused(ManualAdmissionError::Quarantined),
        ),
{
    assert(!l.settled(l.occurrences[i]));
}

} // verus!
