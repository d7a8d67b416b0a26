//! What holds of evidence on occurrences: on which state it is given, when it is
//! taken, and what it changes.

use crate::clock;
use crate::clock::Moment;
use crate::cron::dispatch_laws::reads_same;
use crate::cron::job::{CronJob, Schedule};
use crate::cron::store::ledger;
use crate::cron::store::ledger::{Checkpoint, Ledger, OccurrenceRow, RunRow};
use crate::cron::store::manual;
use crate::cron::store::manual::ManualClaim;
use crate::cron::store::manual_end_laws;
use crate::cron::store::reconciliation;
use crate::cron::store::reconciliation::{
    receipt, reconcile_given, reconcile_no_external_effect, reconciliation_status, status_given,
    valid_identity, validate_ids, validate_request, ReconcileError, ReconciliationReceipt,
    ReconciliationRequest, ReconciliationStatus,
};
use crate::cron::store::snapshot;
use crate::cron::store::snapshot::{snapshot, Snapshot};
use crate::cron::store::token;
use crate::digest;
use crate::json;
use crate::text;
use crate::turn::tool;
use vstd::prelude::*;
use vstd::string::*;
use vstd::utf8::*;

verus! {

/// A step that was judged is recorded exactly if the occurrence is there and the
/// step is not refused. Only a step that is taken changes the occurrence, which
/// keeps its output where there is no new one; nothing else changes.
pub proof fn law_steps_are_recorded(
    l: &mut Ledger,
    id: &str,
    execution: &str,
    delivery: &str,
    output: Option<&str>,
    step: Checkpoint,
    now: &str,
    ok: bool,
    i: int,
)
    requires
        old(l)@.well_formed(),
        0 <= i < old(l).occurrences@.len(),
        old(l).occurrences@[i].id@ == id@,
        call_ensures(Ledger::checkpoint, (l, id, execution, delivery, output, step, now), ok),
    ensures
        ok <==> !(step is Refused),
        !(step is Moved) ==> final(l)@ == old(l)@,
        final(l)@.job == old(l)@.job,
        final(l)@.job_id == old(l)@.job_id,
        final(l)@.runs == old(l)@.runs,
        final(l)@.reconciliations == old(l)@.reconciliations,
        final(l)@.occurrences.len() == old(l)@.occurrences.len(),
        step is Moved ==> {
            let o = final(l)@.occurrences[i];
            &&& o.id == id@
            &&& o.execution_state == execution@
            &&& o.delivery_state == delivery@
            &&& o.updated_at == now@
            &&& output matches Some(s) ==> o.output == Some(s@)
            &&& output is None ==> o.output == old(l)@.occurrences[i].output
        },
        forall|j: int|
            0 <= j < old(l)@.occurrences.len() && j != i ==> #[trigger] final(l)@.occurrences[j]
                == old(l)@.occurrences[j],
{
    assert(old(l)@.occurrences[i] == old(l).occurrences@[i]@);
    ledger::lemma_position_of(old(l)@, i);
}

/// An occurrence that is not there takes no step.
pub proof fn law_unknown_occurrences_take_no_step(
    l: &mut Ledger,
    id: &str,
    execution: &str,
    delivery: &str,
    output: Option<&str>,
    step: Checkpoint,
    now: &str,
    ok: bool,
)
    requires
        old(l)@.well_formed(),
        forall|i: int|
            0 <= i < old(l)@.occurrences.len() ==> (#[trigger] old(l)@.occurrences[i]).id != id@,
        call_ensures(Ledger::checkpoint, (l, id, execution, delivery, output, step, now), ok),
    ensures
        !ok,
        final(l)@ == old(l)@,
{
    ledger::lemma_position(old(l)@.occurrences, id@);
}

/// A job is locked exactly if there is a job with a time or an owner of a lock. An
/// occurrence is accounted for exactly if there is evidence on it as it now is.
pub proof fn law_locks_and_evidence(l: &Ledger, o: &OccurrenceRow, locked: bool, settled: bool)
    requires
        call_ensures(Ledger::is_locked, (l,), locked),
        call_ensures(Ledger::is_settled, (l, o), settled),
    ensures
        locked <==> (l.job matches Some(row) && (row.locked_at is Some || row.lock_owner is Some)),
        settled <==> exists|k: int|
            0 <= k < l.reconciliations@.len() && (
            #[trigger] l.reconciliations@[k]).occurrence_id@ == o.id@
                && l.reconciliations@[k].occurrence_updated_at@ == o.updated_at@,
{
    let all = l@.reconciliations;
    assert(all.len() == l.reconciliations@.len());
    assert forall|k: int| 0 <= k < all.len() implies #[trigger] all[k]
        == l.reconciliations@[k]@ by {}
    if settled {
        let k = choose|k: int|
            0 <= k < all.len() && (#[trigger] all[k]).occurrence_id == o@.id
                && all[k].occurrence_updated_at == o@.updated_at;
        assert(l.reconciliations@[k].occurrence_id@ == o.id@);
    } else if exists|k: int|
        0 <= k < l.reconciliations@.len() && (#[trigger] l.reconciliations@[k]).occurrence_id@
            == o.id@ && l.reconciliations@[k].occurrence_updated_at@ == o.updated_at@ {
        let k = choose|k: int|
            0 <= k < l.reconciliations@.len() && (#[trigger] l.reconciliations@[k]).occurrence_id@
                == o.id@ && l.reconciliations@[k].occurrence_updated_at@ == o.updated_at@;
        assert(all[k].occurrence_id == o@.id);
    }
}

/// Whether a run started after another one, or with it under a higher number.
pub open spec fn follows(a: RunRow, b: RunRow) -> bool {
    text::comes_before(b.started_at@, a.started_at@) || (a.started_at@ == b.started_at@ && a.id
        > b.id)
}

/// There is a state to give evidence on exactly if the job, the run and the
/// occurrence are there. It tells of these three, whether the job is locked,
/// whether any run follows, and whether another occurrence is still open.
pub proof fn law_the_state_tells_of_what_is_there<'a>(
    l: &'a Ledger,
    run_id: i64,
    id: &str,
    locked: bool,
    r: Option<Snapshot<'a>>,
)
    requires
        call_ensures(Ledger::is_locked, (l,), locked),
        call_ensures(snapshot, (l, run_id, id), r),
    ensures
        r is Some <==> l.job is Some && (exists|k: int|
            0 <= k < l.runs@.len() && (#[trigger] l.runs@[k]).id == run_id) && (exists|i: int|
            0 <= i < l.occurrences@.len() && (#[trigger] l.occurrences@[i]).id@ == id@),
        r matches Some(s) ==> {
            &&& s.job@ == l.job->Some_0.job@
            &&& exists|k: int|
                0 <= k < l.runs@.len() && (#[trigger] l.runs@[k]).id == run_id && s.run@
                    == l.runs@[k]@
            &&& exists|i: int|
                0 <= i < l.occurrences@.len() && (#[trigger] l.occurrences@[i]).id@ == id@
                    && s.occurrence@ == l.occurrences@[i]@
            &&& s.locked == locked
            &&& s.latest <==> exists|k: int|
                0 <= k < l.runs@.len() && (#[trigger] l.runs@[k]).id == run_id && forall|j: int|
                    0 <= j < l.runs@.len() ==> !follows(#[trigger] l.runs@[j], l.runs@[k])
            &&& s.other_uncertain <==> exists|i: int|
                0 <= i < l.occurrences@.len() && (#[trigger] l.occurrences@[i]).id@ != id@ && (
                l.occurrences@[i].execution_state@ == "claimed"@
                    || l.occurrences@[i].execution_state@ == "running"@
                    || manual_end_laws::open_question(l.occurrences@[i]@))
        },
{
    lemma_there(l, run_id, id@);
    lemma_latest(l, run_id);
    lemma_others(l, id@);
    if let Some(s) = r {
        let k = snapshot::run_position(l@.runs, run_id)->Some_0;
        let i = ledger::position(l@.occurrences, id@)->Some_0;
        assert(l.runs@[k].id == run_id && s.run@ == l.runs@[k]@);
        assert(l.occurrences@[i].id@ == id@ && s.occurrence@ == l.occurrences@[i]@);
    }
}

proof fn lemma_run_position(runs: Seq<ledger::RunView>, id: i64)
    ensures
        match snapshot::run_position(runs, id) {
            Some(k) => 0 <= k < runs.len() && runs[k].id == id,
            None => forall|k: int| 0 <= k < runs.len() ==> (#[trigger] runs[k]).id != id,
        },
    decreases runs.len(),
{
    if runs.len() > 0 && runs.last().id != id {
        let init = runs.drop_last();
        lemma_run_position(init, id);
        assert forall|k: int| 0 <= k < init.len() implies #[trigger] runs[k] == init[k] by {}
    }
}

proof fn lemma_there(l: &Ledger, run_id: i64, id: Seq<char>)
    ensures
        match snapshot::run_position(l@.runs, run_id) {
            Some(k) => 0 <= k < l.runs@.len() && l.runs@[k].id == run_id && l@.runs[k]
                == l.runs@[k]@,
            None => forall|k: int| 0 <= k < l.runs@.len() ==> (#[trigger] l.runs@[k]).id != run_id,
        },
        match ledger::position(l@.occurrences, id) {
            Some(i) => 0 <= i < l.occurrences@.len() && l.occurrences@[i].id@ == id
                && l@.occurrences[i] == l.occurrences@[i]@,
            None => forall|i: int|
                0 <= i < l.occurrences@.len() ==> (#[trigger] l.occurrences@[i]).id@ != id,
        },
{
    lemma_run_position(l@.runs, run_id);
    ledger::lemma_position(l@.occurrences, id);
    assert(l@.runs.len() == l.runs@.len());
    assert(l@.occurrences.len() == l.occurrences@.len());
    assert forall|k: int| 0 <= k < l.runs@.len() implies (#[trigger] l.runs@[k])@
        == l@.runs[k] by {}
    assert forall|i: int| 0 <= i < l.occurrences@.len() implies (#[trigger] l.occurrences@[i])@
        == l@.occurrences[i] by {}
    if snapshot::run_position(l@.runs, run_id) is None {
        assert forall|k: int| 0 <= k < l.runs@.len() implies (#[trigger] l.runs@[k]).id
            != run_id by {
            assert(l@.runs[k].id != run_id);
        }
    }
    if ledger::position(l@.occurrences, id) is None {
        assert forall|i: int| 0 <= i < l.occurrences@.len() implies (
        #[trigger] l.occurrences@[i]).id@ != id by {
            assert(l@.occurrences[i].id != id);
        }
    }
}

proof fn lemma_latest(l: &Ledger, run_id: i64)
    ensures
        snapshot::is_latest(l@.runs, run_id) <==> exists|k: int|
            0 <= k < l.runs@.len() && (#[trigger] l.runs@[k]).id == run_id && forall|j: int|
                0 <= j < l.runs@.len() ==> !follows(#[trigger] l.runs@[j], l.runs@[k]),
{
    assert(l@.runs.len() == l.runs@.len());
    assert forall|k: int| 0 <= k < l.runs@.len() implies (#[trigger] l.runs@[k])@
        == l@.runs[k] by {}
    if snapshot::is_latest(l@.runs, run_id) {
        let k = choose|k: int|
            0 <= k < l@.runs.len() && (#[trigger] l@.runs[k]).id == run_id && forall|j: int|
                0 <= j < l@.runs.len() ==> !snapshot::newer(#[trigger] l@.runs[j], l@.runs[k]);
        assert(l.runs@[k]@ == l@.runs[k]);
        assert forall|j: int| 0 <= j < l.runs@.len() implies !follows(
            #[trigger] l.runs@[j],
            l.runs@[k],
        ) by {
            assert(l.runs@[j]@ == l@.runs[j]);
            assert(!snapshot::newer(l@.runs[j], l@.runs[k]));
        }
        assert(l.runs@[k].id == run_id);
    }
    if exists|k: int|
        0 <= k < l.runs@.len() && (#[trigger] l.runs@[k]).id == run_id && forall|j: int|
            0 <= j < l.runs@.len() ==> !follows(#[trigger] l.runs@[j], l.runs@[k]) {
        let k = choose|k: int|
            0 <= k < l.runs@.len() && (#[trigger] l.runs@[k]).id == run_id && forall|j: int|
                0 <= j < l.runs@.len() ==> !follows(#[trigger] l.runs@[j], l.runs@[k]);
        assert(l.runs@[k]@ == l@.runs[k]);
        assert forall|j: int| 0 <= j < l@.runs.len() implies !snapshot::newer(
            #[trigger] l@.runs[j],
            l@.runs[k],
        ) by {
            assert(l.runs@[j]@ == l@.runs[j]);
            assert(!follows(l.runs@[j], l.runs@[k]));
        }
        assert(l@.runs[k].id == run_id);
    }
}

proof fn lemma_others(l: &Ledger, id: Seq<char>)
    ensures
        snapshot::others_unresolved(l@, id) <==> exists|i: int|
            0 <= i < l.occurrences@.len() && (#[trigger] l.occurrences@[i]).id@ != id && (
            l.occurrences@[i].execution_state@ == "claimed"@
                || l.occurrences@[i].execution_state@ == "running"@
                || manual_end_laws::open_question(l.occurrences@[i]@)),
{
    assert(l@.occurrences.len() == l.occurrences@.len());
    assert forall|i: int| 0 <= i < l.occurrences@.len() implies (#[trigger] l.occurrences@[i])@
        == l@.occurrences[i] by {}
    if snapshot::others_unresolved(l@, id) {
        let i = choose|i: int|
            0 <= i < l@.occurrences.len() && (#[trigger] l@.occurrences[i]).id != id
                && snapshot::unresolved(l@.occurrences[i]);
        assert(l.occurrences@[i]@ == l@.occurrences[i]);
        assert(l.occurrences@[i].id@ != id);
    }
    if exists|i: int|
        0 <= i < l.occurrences@.len() && (#[trigger] l.occurrences@[i]).id@ != id && (
        l.occurrences@[i].execution_state@ == "claimed"@ || l.occurrences@[i].execution_state@
            == "running"@ || manual_end_laws::open_question(l.occurrences@[i]@)) {
        let i = choose|i: int|
            0 <= i < l.occurrences@.len() && (#[trigger] l.occurrences@[i]).id@ != id && (
            l.occurrences@[i].execution_state@ == "claimed"@
                || l.occurrences@[i].execution_state@ == "running"@
                || manual_end_laws::open_question(l.occurrences@[i]@));
        assert(l.occurrences@[i]@ == l@.occurrences[i]);
        assert(snapshot::unresolved(l@.occurrences[i]));
    }
}

/// Evidence may be given exactly on a job that is disabled, idle and uncertain and
/// does not run at one time only, on its last run, which failed, and on the only
/// occurrence that is open, which may have had effects but nothing to deliver,
/// where all three tell of the same output and end.
pub proof fn law_on_which_state_evidence_is_given<'a>(
    s: &Snapshot<'a>,
    finished: Option<Moment>,
    r: bool,
)
    requires
        call_ensures(Snapshot::is_eligible_at, (s, finished), r),
    ensures
        r <==> {
            &&& !s.job.enabled
            &&& !s.locked
            &&& s.latest
            &&& !s.other_uncertain
            &&& s.job.last_status matches Some(t) && t@ == "uncertain"@
            &&& s.run.status@ == "error"@
            &&& s.occurrence.execution_state@ == "possibly_applied"@
            &&& s.occurrence.delivery_state@ == "not_requested"@
            &&& reads_same(s.job.last_output, s.run.output)
            &&& reads_same(s.run.output, s.occurrence.output)
            &&& match (s.job.last_run, finished) {
                (Some(a), Some(b)) => a.secs == b.secs && a.nanos == b.nanos,
                (None, None) => true,
                _ => false,
            }
            &&& !(s.job.schedule is At)
        },
{
    assert(s@.job.last_status == tool::opt(s.job.last_status));
}

/// What identifies a job or an occurrence has 1 to 512 bytes and no control
/// characters; a run has a positive number.
pub proof fn law_what_identifies(job_id: &str, run_id: i64, id: &str, one: bool, all: bool)
    requires
        call_ensures(valid_identity, (id,), one),
        call_ensures(validate_ids, (job_id, run_id, id), all),
    ensures
        one <==> 1 <= text::byte_len(id@) <= 512 && !text::has_control(id@),
        all <==> one && run_id >= 1 && 1 <= text::byte_len(job_id@) <= 512 && !text::has_control(
            job_id@,
        ),
{
}

/// A request has a token of 64 hexadecimal digits, evidence that is not blank and
/// has at most 4096 bytes, and a source of 1 to 256 bytes without control
/// characters.
pub proof fn law_the_form_of_a_request(request: &ReconciliationRequest, source: &str, r: bool)
    requires
        call_ensures(validate_request, (request, source), r),
    ensures
        r <==> {
            &&& text::byte_len(request.expected_state@) == 64
            &&& forall|i: int|
                #![trigger request.expected_state@[i]]
                0 <= i < request.expected_state@.len() ==> {
                    let c = request.expected_state@[i];
                    '0' <= c <= '9' || 'a' <= c <= 'f' || 'A' <= c <= 'F'
                }
            &&& text::trimmed(request.evidence@).len() > 0
            &&& text::byte_len(request.evidence@) <= 4096
            &&& 1 <= text::byte_len(source@) <= 256
            &&& !text::has_control(source@)
        },
{
    let s = request.expected_state@;
    assert(digest::is_hex_digest(s) <==> text::byte_len(s) == 64 && forall|i: int|
        0 <= i < s.len() ==> digest::is_hex_digit(#[trigger] s[i]));
    if forall|i: int|
        #![trigger s[i]]
        0 <= i < s.len() ==> ('0' <= s[i] <= '9' || 'a' <= s[i] <= 'f' || 'A' <= s[i] <= 'F') {
        assert forall|i: int| 0 <= i < s.len() implies digest::is_hex_digit(#[trigger] s[i]) by {}
    }
    if r {
        assert forall|i: int|
            #![trigger s[i]]
            0 <= i < s.len() implies ('0' <= s[i] <= '9' || 'a' <= s[i] <= 'f' || 'A' <= s[i]
            <= 'F') by {
            assert(digest::is_hex_digit(s[i]));
        }
    }
}

/// Whether two receipts read the same.
pub open spec fn same_receipt(a: ReconciliationReceipt, b: ReconciliationReceipt) -> bool {
    &&& a.job_id@ == b.job_id@
    &&& a.run_id == b.run_id
    &&& same_request(a.request, b.request)
    &&& a.source@ == b.source@
    &&& a.reconciled_at@ == b.reconciled_at@
    &&& a.retry_allowed == b.retry_allowed
}

/// Whether two requests read the same.
pub open spec fn same_request(a: ReconciliationRequest, b: ReconciliationRequest) -> bool {
    &&& a.occurrence_id@ == b.occurrence_id@
    &&& a.expected_state@ == b.expected_state@
    &&& a.disposition == b.disposition
    &&& a.evidence@ == b.evidence@
}

/// The evidence on a run is the last that was given on it.
pub proof fn law_evidence_is_found_by_its_run<'a>(
    l: &'a Ledger,
    run_id: i64,
    r: Option<&'a ReconciliationReceipt>,
)
    requires
        call_ensures(receipt, (l, run_id), r),
    ensures
        r is None <==> forall|k: int|
            0 <= k < l.reconciliations@.len() ==> (#[trigger] l.reconciliations@[k]).run_id
                != run_id,
        r matches Some(x) ==> exists|k: int|
            0 <= k < l.reconciliations@.len() && (#[trigger] l.reconciliations@[k]).run_id == run_id
                && same_receipt(*x, l.reconciliations@[k].receipt) && forall|j: int|
                k < j < l.reconciliations@.len() ==> (#[trigger] l.reconciliations@[j]).run_id
                    != run_id,
{
    let all = l@.reconciliations;
    assert(all.len() == l.reconciliations@.len());
    assert forall|k: int| 0 <= k < all.len() implies (#[trigger] l.reconciliations@[k])@
        == all[k] by {}
    lemma_receipt_at(all, run_id);
    if let Some(x) = r {
        let k = choose|k: int|
            0 <= k < all.len() && (#[trigger] all[k]).run_id == run_id && all[k].receipt == x@
                && forall|j: int| k < j < all.len() ==> (#[trigger] all[j]).run_id != run_id;
        assert(l.reconciliations@[k]@ == all[k]);
        assert(x@.request == x.request@);
        assert(same_receipt(*x, l.reconciliations@[k].receipt));
        assert forall|j: int| k < j < l.reconciliations@.len() implies (
        #[trigger] l.reconciliations@[j]).run_id != run_id by {
            assert(all[j].run_id != run_id);
        }
        assert(l.reconciliations@[k].run_id == run_id);
    } else {
        assert forall|k: int| 0 <= k < l.reconciliations@.len() implies (
        #[trigger] l.reconciliations@[k]).run_id != run_id by {
            assert(all[k].run_id != run_id);
        }
    }
}

proof fn lemma_receipt_at(list: Seq<ledger::ReconciliationView>, run_id: i64)
    ensures
        match reconciliation::receipt_at(list, run_id) {
            Some(x) => exists|k: int|
                0 <= k < list.len() && (#[trigger] list[k]).run_id == run_id && list[k].receipt == x
                    && forall|j: int| k < j < list.len() ==> (#[trigger] list[j]).run_id != run_id,
            None => forall|k: int| 0 <= k < list.len() ==> (#[trigger] list[k]).run_id != run_id,
        },
    decreases list.len(),
{
    if list.len() > 0 {
        if list.last().run_id == run_id {
            assert(list[list.len() - 1].run_id == run_id);
        } else {
            let init = list.drop_last();
            lemma_receipt_at(init, run_id);
            assert forall|k: int| 0 <= k < init.len() implies #[trigger] list[k] == init[k] by {}
            if let Some(x) = reconciliation::receipt_at(init, run_id) {
                let k = choose|k: int|
                    0 <= k < init.len() && (#[trigger] init[k]).run_id == run_id && init[k].receipt
                        == x && forall|j: int|
                        k < j < init.len() ==> (#[trigger] init[j]).run_id != run_id;
                assert(list[k].run_id == run_id && list[k].receipt == x);
                assert forall|j: int| k < j < list.len() implies (#[trigger] list[j]).run_id
                    != run_id by {
                    if j < init.len() {
                        assert(init[j].run_id != run_id);
                    }
                }
            }
        }
    }
}

/// Evidence is taken exactly if identifiers and request have their form and either
/// the same was given before, or none was and the state that it names is the one on
/// which it may be given. It is then added, and the job is released from doubt:
/// neither is it enabled, nor does anything else change. Without it nothing changes
/// at all.
pub proof fn law_when_evidence_is_taken(
    l: &mut Ledger,
    run_id: i64,
    request: &ReconciliationRequest,
    source: &str,
    now: &str,
    named: &str,
    finished: Option<Moment>,
    job_id: &str,
    id: &str,
    ids: bool,
    form: bool,
    given: Option<&ReconciliationReceipt>,
    state: Option<Snapshot>,
    eligible: bool,
    r: Result<ReconciliationReceipt, ReconcileError>,
)
    requires
        old(l)@.well_formed(),
        job_id@ == old(l).job_id@,
        id@ == request.occurrence_id@,
        call_ensures(validate_ids, (job_id, run_id, id), ids),
        call_ensures(validate_request, (request, source), form),
        call_ensures(receipt, (&*old(l), run_id), given),
        call_ensures(snapshot, (&*old(l), run_id, id), state),
        state matches Some(s) ==> call_ensures(Snapshot::is_eligible_at, (&s, finished), eligible),
        call_ensures(reconcile_given, (l, run_id, request, source, now, named, finished), r),
    ensures
        r is Ok <==> ids && form && (if given is Some {
            same_request(given->Some_0.request, *request) && given->Some_0.source@ == source@
        } else {
            state is Some && eligible && named@ == request.expected_state@
        }),
        ids && form && given is None && state is None ==> r == Err::<ReconciliationReceipt, _>(
            ReconcileError::Missing,
        ),
        r is Err && !(ids && form && given is None && state is None) ==> r == Err::<
            ReconciliationReceipt,
            _,
        >(ReconcileError::Rejected),
        r is Err || given is Some ==> final(l)@ == old(l)@,
        r is Ok && given is Some ==> same_receipt(r->Ok_0, *given->Some_0),
        r is Ok && given is None ==> {
            let x = r->Ok_0;
            let n = old(l)@.reconciliations.len() as int;
            let row = final(l)@.reconciliations[n];
            let s = state->Some_0;
            &&& x.job_id@ == old(l).job_id@
            &&& x.run_id == run_id
            &&& same_request(x.request, *request)
            &&& x.source@ == source@
            &&& x.reconciled_at@ == now@
            &&& !x.retry_allowed
            &&& final(l)@.reconciliations.len() == n + 1
            &&& final(l)@.reconciliations.drop_last() == old(l)@.reconciliations
            &&& row.run_id == run_id
            &&& row.occurrence_id == request.occurrence_id@
            &&& row.occurrence_updated_at == s.occurrence.updated_at@
            &&& row.receipt == x@
            &&& final(l)@.occurrences == old(l)@.occurrences
            &&& final(l)@.runs == old(l)@.runs
            &&& final(l)@.job_id == old(l)@.job_id
            &&& final(l)@.job matches Some(after) && {
                let before = old(l)@.job->Some_0;
                &&& after.locked_at == before.locked_at
                &&& after.lock_owner == before.lock_owner
                &&& after.job.last_status == Some("reconciled_no_external_effect"@)
                &&& after.job.enabled == before.job.enabled
                &&& after.job.schedule == before.job.schedule
                &&& after.job.next_run == before.job.next_run
                &&& after.job.last_run == before.job.last_run
                &&& after.job.last_output == before.job.last_output
                &&& after.job.id == before.job.id
                &&& after.job.command == before.job.command
                &&& after.job.agent_alias == before.job.agent_alias
                &&& after.job.delivery == before.job.delivery
            }
        },
{
    if let Ok(x) = r {
        assert(x@.request == x.request@);
    }
    if let Some(g) = given {
        assert(g@.request == g.request@);
        assert(same_request(g.request, *request) <==> g@.request == request@);
    } else {
        if r is Ok {
            assert(final(l)@.reconciliations.drop_last() =~= old(l)@.reconciliations);
        }
    }
}

/// Evidence is given on the state as it is: the token is that of the state, and the
/// end is that of its run.
pub proof fn law_evidence_names_the_present_state(
    l: &mut Ledger,
    run_id: i64,
    request: &ReconciliationRequest,
    source: &str,
    now: &str,
    job: &str,
    id: &str,
    state: Snapshot,
    present: String,
    r: Result<ReconciliationReceipt, ReconcileError>,
)
    requires
        old(l)@.well_formed(),
        id@ == request.occurrence_id@,
        call_ensures(snapshot, (&*old(l), run_id, id), Some(state)),
        call_ensures(Snapshot::token, (&state, job), present),
        forall|k: int|
            0 <= k < old(l)@.reconciliations.len() ==> (#[trigger] old(
                l,
            )@.reconciliations[k]).run_id != run_id,
        call_ensures(reconcile_no_external_effect, (l, run_id, request, source, now, job), r),
    ensures
        r is Ok ==> present@ == request.expected_state@,
        r is Ok ==> !state.job.enabled && !state.locked && state.latest && !state.other_uncertain
            && state.occurrence.execution_state@ == "possibly_applied"@
            && state.occurrence.delivery_state@ == "not_requested"@ && state.run.status@ == "error"@,
        r is Ok ==> snapshot::stamp(state.job.last_run) == clock::rfc3339_moment(
            state.run.finished_at@,
        ),
        r is Err ==> final(l)@ == old(l)@,
{
    lemma_receipt_at(old(l)@.reconciliations, run_id);
}

/// A status tells of the state and of the evidence on it. It offers a token, and
/// calls the state eligible, only while there is no evidence; it never allows a
/// repetition.
pub proof fn law_what_a_status_tells(
    l: &Ledger,
    run_id: i64,
    id: &str,
    named: String,
    finished: Option<Moment>,
    next_run: Option<String>,
    job_id: &str,
    ids: bool,
    given: Option<&ReconciliationReceipt>,
    state: Option<Snapshot>,
    eligible: bool,
    r: Result<ReconciliationStatus, ReconcileError>,
)
    requires
        job_id@ == l.job_id@,
        call_ensures(validate_ids, (job_id, run_id, id), ids),
        call_ensures(receipt, (l, run_id), given),
        call_ensures(snapshot, (l, run_id, id), state),
        state matches Some(s) ==> call_ensures(Snapshot::is_eligible_at, (&s, finished), eligible),
        call_ensures(status_given, (l, run_id, id, named, finished, next_run), r),
    ensures
        ({
            let other = given is Some && given->Some_0.request.occurrence_id@ != id@;
            let missing = l.job is None || (given is None && state is None);
            &&& r is Ok <==> ids && !other && !missing && next_run is Some
            &&& !ids || other ==> r == Err::<ReconciliationStatus, _>(ReconcileError::Rejected)
            &&& ids && !other && missing ==> r == Err::<ReconciliationStatus, _>(
                ReconcileError::Missing,
            )
            &&& ids && !other && !missing && next_run is None ==> r == Err::<
                ReconciliationStatus,
                _,
            >(ReconcileError::UnwritableTime)
        }),
        r matches Ok(s) ==> {
            &&& s.job_id@ == l.job_id@
            &&& s.run_id == run_id
            &&& s.occurrence_id@ == id@
            &&& s.expected_state is Some <==> given is None
            &&& s.expected_state matches Some(t) ==> t@ == named@
            &&& s.eligible <==> given is None && eligible
            &&& s.enabled == l.job->Some_0.job.enabled
            &&& s.next_run@ == next_run->Some_0@
            &&& reads_same(s.last_status, l.job->Some_0.job.last_status)
            &&& s.receipt is Some <==> given is Some
            &&& s.receipt matches Some(x) ==> same_receipt(x, *given->Some_0)
            &&& !s.retry_allowed
        },
{
    assert(tool::opt(next_run) is Some <==> next_run is Some);
    if let Ok(s) = r {
        assert(s@.expected_state == tool::opt(s.expected_state));
        assert(s@.last_status == tool::opt(s.last_status));
        assert(s@.receipt is Some <==> s.receipt is Some);
        if let Some(x) = s.receipt {
            assert(s@.receipt == Some(x@));
            assert(x@.request == x.request@);
            assert(given->Some_0@.request == given->Some_0.request@);
        }
    }
}

/// A status that is read offers the token of the present state.
pub proof fn law_a_status_offers_the_present_token(
    l: &Ledger,
    run_id: i64,
    id: &str,
    job: &str,
    state: Snapshot,
    present: String,
    r: Result<ReconciliationStatus, ReconcileError>,
)
    requires
        call_ensures(snapshot, (l, run_id, id), Some(state)),
        call_ensures(Snapshot::token, (&state, job), present),
        call_ensures(reconciliation_status, (l, run_id, id, job), r),
    ensures
        r matches Ok(s) ==> {
            &&& s.job_id@ == l.job_id@
            &&& s.occurrence_id@ == id@
            &&& s.expected_state matches Some(t) ==> t@ == present@
            &&& s.next_run@ == clock::rfc3339_text(
                l.job->Some_0.job.next_run.secs as int,
                l.job->Some_0.job.next_run.nanos as int,
            )
            &&& s.eligible ==> s.expected_state is Some && !s.enabled
        },
{
    if let Ok(s) = r {
        assert(s@.expected_state == tool::opt(s.expected_state));
    }
}

/// A text or nothing, as JSON.
pub open spec fn text_or_null(s: Option<String>) -> Seq<char> {
    match s {
        Some(s) => json::string_json(s@),
        None => "null"@,
    }
}

/// Yes or no, as JSON.
pub open spec fn yes_or_no(b: bool) -> Seq<char> {
    if b {
        "true"@
    } else {
        "false"@
    }
}

/// The token is the digest, in hexadecimal, of the state in its serialized form, in
/// which job, run and occurrence stand one behind the other and then what surrounds
/// them.
pub proof fn law_the_token_is_a_digest<'a>(s: &Snapshot<'a>, job: &str, r: String)
    requires
        call_ensures(Snapshot::token, (s, job), r),
    ensures
        r@.len() == 64,
        ({
            let around = "],\"locked\":"@ + (yes_or_no(s.locked) + (",\"latest\":"@ + (yes_or_no(
                s.latest,
            ) + (",\"other_uncertain\":"@ + (yes_or_no(s.other_uncertain) + "}"@)))));
            let occurrence = json::string_json(s.occurrence.execution_state@) + (","@ + (
            json::string_json(s.occurrence.delivery_state@) + (","@ + (text_or_null(
                s.occurrence.output,
            ) + (","@ + (json::string_json(s.occurrence.updated_at@) + around))))));
            let run = json::string_json(s.run.started_at@) + (","@ + (json::string_json(
                s.run.finished_at@,
            ) + (","@ + (json::string_json(s.run.status@) + (","@ + (text_or_null(s.run.output) + (
            "],\"occurrence\":["@ + occurrence)))))));
            r@ == digest::hex(
                digest::sha256_of(
                    encode_utf8("{\"job\":"@ + (job@ + (",\"run\":["@ + run))),
                ),
            )
        }),
{
    is_ascii_chars_encode_utf8(r@);
    assert(is_ascii_chars(r@));
    assert(tool::opt_json(s@.run.output) == text_or_null(s.run.output));
    assert(tool::opt_json(s@.occurrence.output) == text_or_null(s.occurrence.output));
}

/// An occurrence is found by its identifier, and a claim stands for its own.
pub proof fn law_occurrences_are_found(
    l: &Ledger,
    id: &str,
    r: Option<usize>,
    claim: &ManualClaim,
    name: &str,
)
    requires
        call_ensures(Ledger::position_of, (l, id), r),
        call_ensures(ManualClaim::id, (claim,), name),
    ensures
        r is None <==> forall|i: int|
            0 <= i < l.occurrences@.len() ==> (#[trigger] l.occurrences@[i]).id@ != id@,
        r matches Some(i) ==> i < l.occurrences@.len() && l.occurrences@[i as int].id@ == id@,
        name@ == claim.occurrence_id@,
{
    let all = l@.occurrences;
    ledger::lemma_position(all, id@);
    assert(all.len() == l.occurrences@.len());
    assert forall|i: int| 0 <= i < all.len() implies (#[trigger] l.occurrences@[i])@
        == all[i] by {}
    if r is None {
        assert forall|i: int| 0 <= i < l.occurrences@.len() implies (
        #[trigger] l.occurrences@[i]).id@ != id@ by {
            assert(all[i].id != id@);
        }
    }
}

/// A ledger that was read can be used exactly if its job is filed under its own
/// identifier and no two occurrences share one.
pub proof fn law_which_ledgers_can_be_used(l: &Ledger, r: bool)
    requires
        call_ensures(Ledger::is_well_formed, (l,), r),
    ensures
        r <==> (l.job matches Some(row) ==> row.job.id@ == l.job_id@) && forall|i: int, j: int|
            0 <= i < j < l.occurrences@.len() ==> (#[trigger] l.occurrences@[i]).id@ != (
            #[trigger] l.occurrences@[j]).id@,
{
    let all = l@.occurrences;
    assert(all.len() == l.occurrences@.len());
    assert forall|i: int| 0 <= i < all.len() implies (#[trigger] l.occurrences@[i])@
        == all[i] by {}
    assert forall|i: int| 0 <= i < all.len() implies #[trigger] all[i]
        == l.occurrences@[i]@ by {}
    if forall|i: int, j: int|
        0 <= i < j < l.occurrences@.len() ==> (#[trigger] l.occurrences@[i]).id@ != (
        #[trigger] l.occurrences@[j]).id@ {
        assert forall|i: int, j: int|
            #![trigger all[i], all[j]]
            0 <= i < j < all.len() implies all[i].id != all[j].id by {
            assert(l.occurrences@[i].id@ != l.occurrences@[j].id@);
        }
    }
    if r {
        assert forall|i: int, j: int| 0 <= i < j < l.occurrences@.len() implies (
        #[trigger] l.occurrences@[i]).id@ != (#[trigger] l.occurrences@[j]).id@ by {
            assert(all[i].id != all[j].id);
        }
    }
}

/// Which states of a delivery leave open what went out.
pub proof fn law_deliveries_in_doubt(state: &str, r: bool)
    requires
        call_ensures(manual::is_delivery_in_doubt, (state,), r),
    ensures
        r <==> state@ == "submitting"@ || state@ == "submitted"@ || state@ == "uncertain"@ || state@
            == "possibly_applied"@ || state@ == "partially_applied"@ || state@
            == "reconciliation_required"@,
{
}

} // verus!
