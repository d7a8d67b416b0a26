//! What holds of the claim and the end of an invocation by hand, told by what went
//! in and what came out.

use crate::clock::Moment;
use crate::cron::delivery::occurrence_delivery_state;
use crate::cron::job::CronJob;
use crate::cron::store::ledger;
use crate::cron::store::ledger::{
    Checkpoint, JobRow, JobRowView, Ledger, LedgerView, OccurrenceRow, OccurrenceView, RunRow,
};
use crate::cron::store::manual;
use crate::cron::store::manual::{
    checkpoint_manual_execution, claim_manual_occurrence, claim_manual_run_with_key,
    execution_state_name, finish_manual_run, has_doubt, is_delivery_in_doubt, is_valid_key,
    keyed_occurrence, manual_delivery_name, manual_effect, outcome_named, read_receipt, ClaimError,
    DuplicateManualReceipt, ManualAdmissionError, ManualClaim,
};
use crate::cron::store::manual_laws;
use crate::effect::EffectOutcome;
use crate::text;
use crate::turn::tool;
use vstd::prelude::*;
use vstd::string::*;
use vstd::utf8::*;

verus! {

/// An invocation is confirmed exactly if its execution succeeded and either nothing
/// was to be delivered or the delivery is confirmed. A failed execution, and a
/// delivery of which nobody knows what went out, is left to a person; a delivery
/// that is known not to be complete leaves the invocation partial.
pub proof fn law_only_confirmed_invocations_are_confirmed(
    success: bool,
    delivery: Option<EffectOutcome>,
    r: EffectOutcome,
)
    requires
        call_ensures(manual_effect, (success, delivery), r),
    ensures
        r is Confirmed <==> success && (delivery is None || delivery->Some_0 is Confirmed),
        r is PartiallyApplied <==> success && delivery is Some && (delivery->Some_0 is NotStarted
            || delivery->Some_0 is ConfirmedFailed || delivery->Some_0 is PartiallyApplied),
        r is ReconciliationRequired <==> !success || (delivery is Some && (
        delivery->Some_0 is PossiblyApplied || delivery->Some_0 is ReconciliationRequired)),
{
}

/// The end of an invocation that still holds the lock gives the lock back and is
/// told by the job: when it ended, its output, and its status. Unless everything is
/// confirmed the job is disabled and its status is `uncertain`; a confirmed end
/// leaves it enabled or disabled as it was. The occurrence tells how the execution
/// and the delivery ended, and keeps its output.
pub proof fn law_the_end_is_told_by_the_job(
    l: &mut Ledger,
    claim: &ManualClaim,
    success: bool,
    delivery: Option<EffectOutcome>,
    finished_at: Moment,
    status: &str,
    output: &str,
    allowed: bool,
    now: &str,
    runs: Option<Vec<RunRow>>,
    r: Option<EffectOutcome>,
    row: JobRow,
)
    requires
        old(l)@.well_formed(),
        old(l).job == Some(row),
        row.lock_owner matches Some(owner) && owner@ == claim.occurrence_id@,
        call_ensures(
            finish_manual_run,
            (l, claim, success, delivery, finished_at, status, output, allowed, now, runs),
            r,
        ),
        r is Some,
    ensures
        ({
            let confirmed = success && (delivery is None || delivery->Some_0 is Confirmed);
            &&& r->Some_0 is Confirmed <==> confirmed
            &&& final(l).job matches Some(after) && {
                &&& after.locked_at is None
                &&& after.lock_owner is None
                &&& after.job@.last_run == Some(finished_at)
                &&& after.job@.last_output == Some(output@)
                &&& !confirmed ==> after.job@.last_status == Some("uncertain"@)
                &&& confirmed ==> after.job@.last_status == Some(status@)
                &&& !confirmed ==> !after.job@.enabled
                &&& confirmed ==> after.job@.enabled == row.job@.enabled
                &&& after.job@.next_run == row.job@.next_run
                &&& after.job@.schedule == row.job@.schedule
                &&& after.job@.command == row.job@.command
                &&& after.job@.agent_alias == row.job@.agent_alias
            }
            &&& runs matches Some(history) && final(l)@.runs == ledger::run_views(history@)
            &&& final(l)@.reconciliations == old(l)@.reconciliations
        }),
{
    assert(old(l)@.job == Some(row@));
    assert(manual::owns_lock(old(l)@, claim.occurrence_id@));
    assert(final(l)@.job == ledger::job_row_view(final(l).job));
}

/// An end that is recorded is told by the occurrence: `confirmed` or
/// `possibly_applied` for the execution, and for the delivery `not_requested` or
/// the outcome's own name. Its output stays, and every other occurrence stays as it
/// is.
pub proof fn law_the_end_is_told_by_the_occurrence(
    l: &mut Ledger,
    claim: &ManualClaim,
    success: bool,
    delivery: Option<EffectOutcome>,
    finished_at: Moment,
    status: &str,
    output: &str,
    allowed: bool,
    now: &str,
    runs: Option<Vec<RunRow>>,
    r: Option<EffectOutcome>,
    i: int,
)
    requires
        old(l)@.well_formed(),
        0 <= i < old(l).occurrences@.len(),
        old(l).occurrences@[i].id@ == claim.occurrence_id@,
        call_ensures(
            finish_manual_run,
            (l, claim, success, delivery, finished_at, status, output, allowed, now, runs),
            r,
        ),
    ensures
        final(l)@.occurrences.len() == old(l)@.occurrences.len(),
        r is Some ==> {
            let o = final(l)@.occurrences[i];
            &&& o.id == claim.occurrence_id@
            &&& success ==> o.execution_state == "confirmed"@
            &&& !success ==> o.execution_state == "possibly_applied"@
            &&& delivery is None ==> o.delivery_state == "not_requested"@
            &&& delivery matches Some(d) ==> (match d {
                EffectOutcome::NotStarted => o.delivery_state == "not_started"@,
                EffectOutcome::Confirmed => o.delivery_state == "confirmed"@,
                EffectOutcome::ConfirmedFailed => o.delivery_state == "confirmed_failed"@,
                EffectOutcome::PartiallyApplied => o.delivery_state == "partially_applied"@,
                EffectOutcome::PossiblyApplied => o.delivery_state == "possibly_applied"@,
                EffectOutcome::ReconciliationRequired => o.delivery_state
                    == "reconciliation_required"@,
            })
            &&& o.output == old(l)@.occurrences[i].output
            &&& o.updated_at == now@ || o == old(l)@.occurrences[i]
        },
        forall|j: int|
            0 <= j < old(l)@.occurrences.len() && j != i ==> #[trigger] final(l)@.occurrences[j]
                == old(l)@.occurrences[j],
        r is None ==> final(l)@ == old(l)@,
{
    assert(old(l)@.occurrences[i] == old(l).occurrences@[i]@);
    ledger::lemma_position_of(old(l)@, i);
}

/// An end is recorded exactly if it is that of the ledger's job, its occurrence is
/// there, the transition is allowed or the end already recorded, and, where the job
/// is still locked by it, its run could be added to the history.
pub proof fn law_when_an_end_is_recorded(
    l: &mut Ledger,
    claim: &ManualClaim,
    success: bool,
    delivery: Option<EffectOutcome>,
    finished_at: Moment,
    status: &str,
    output: &str,
    allowed: bool,
    now: &str,
    runs: Option<Vec<RunRow>>,
    r: Option<EffectOutcome>,
    state: &'static str,
)
    requires
        old(l)@.well_formed(),
        call_ensures(
            finish_manual_run,
            (l, claim, success, delivery, finished_at, status, output, allowed, now, runs),
            r,
        ),
        call_ensures(manual_delivery_name, (delivery,), state),
    ensures
        r is Some <==> {
            &&& old(l).job_id@ == claim.job_id@
            &&& exists|i: int|
                0 <= i < old(l)@.occurrences.len() && (#[trigger] old(l)@.occurrences[i]).id
                    == claim.occurrence_id@ && (allowed || (old(l)@.occurrences[i].delivery_state
                    == state@ && (if success {
                    old(l)@.occurrences[i].execution_state == "confirmed"@
                } else {
                    old(l)@.occurrences[i].execution_state == "possibly_applied"@
                })))
            &&& old(l).job is None || old(l)@.job->Some_0.lock_owner != Some(claim.occurrence_id@)
                || runs is Some
        },
{
    ledger::lemma_position(old(l)@.occurrences, claim.occurrence_id@);
    if exists|i: int|
        0 <= i < old(l)@.occurrences.len() && (#[trigger] old(l)@.occurrences[i]).id
            == claim.occurrence_id@ {
        let i = choose|i: int|
            0 <= i < old(l)@.occurrences.len() && (#[trigger] old(l)@.occurrences[i]).id
                == claim.occurrence_id@;
        ledger::lemma_position_of(old(l)@, i);
        assert forall|k: int|
            0 <= k < old(l)@.occurrences.len() && (#[trigger] old(l)@.occurrences[k]).id
                == claim.occurrence_id@ implies k == i by {
            ledger::lemma_position_of(old(l)@, k);
        }
    }
}

/// The end of an invocation that does not hold the lock leaves the job, its history
/// and its evidence alone.
pub proof fn law_a_lost_lock_leaves_the_job_alone(
    l: &mut Ledger,
    claim: &ManualClaim,
    success: bool,
    delivery: Option<EffectOutcome>,
    finished_at: Moment,
    status: &str,
    output: &str,
    allowed: bool,
    now: &str,
    runs: Option<Vec<RunRow>>,
    r: Option<EffectOutcome>,
)
    requires
        old(l)@.well_formed(),
        old(l).job is None || old(l)@.job->Some_0.lock_owner != Some(claim.occurrence_id@),
        call_ensures(
            finish_manual_run,
            (l, claim, success, delivery, finished_at, status, output, allowed, now, runs),
            r,
        ),
    ensures
        final(l)@.job == old(l)@.job,
        final(l)@.runs == old(l)@.runs,
        final(l)@.reconciliations == old(l)@.reconciliations,
{
}

/// An execution is recorded before its result is delivered: as `confirmed` or
/// `possibly_applied`, with its output, and with the delivery under way. Nothing
/// else changes.
pub proof fn law_executions_are_recorded(
    l: &mut Ledger,
    claim: &ManualClaim,
    success: bool,
    output: &str,
    step: Checkpoint,
    now: &str,
    ok: bool,
    i: int,
)
    requires
        old(l)@.well_formed(),
        0 <= i < old(l).occurrences@.len(),
        old(l).occurrences@[i].id@ == claim.occurrence_id@,
        call_ensures(checkpoint_manual_execution, (l, claim, success, output, step, now), ok),
    ensures
        ok <==> old(l).job_id@ == claim.job_id@ && !(step is Refused),
        final(l)@.job == old(l)@.job,
        final(l)@.runs == old(l)@.runs,
        ok && step is Moved ==> {
            let o = final(l)@.occurrences[i];
            &&& o.id == claim.occurrence_id@
            &&& success ==> o.execution_state == "confirmed"@
            &&& !success ==> o.execution_state == "possibly_applied"@
            &&& o.delivery_state == "submitting"@
            &&& o.output == Some(output@)
            &&& o.updated_at == now@
        },
        !ok || step is Kept ==> final(l)@ == old(l)@,
        forall|j: int|
            0 <= j < old(l)@.occurrences.len() && j != i ==> #[trigger] final(l)@.occurrences[j]
                == old(l)@.occurrences[j],
{
    assert(old(l)@.occurrences[i] == old(l).occurrences@[i]@);
    ledger::lemma_position_of(old(l)@, i);
}

/// Whether an occurrence leaves open what it did.
pub open spec fn open_question(o: OccurrenceView) -> bool {
    ||| o.execution_state == "possibly_applied"@
    ||| o.delivery_state == "submitting"@
    ||| o.delivery_state == "submitted"@
    ||| o.delivery_state == "uncertain"@
    ||| o.delivery_state == "possibly_applied"@
    ||| o.delivery_state == "partially_applied"@
    ||| o.delivery_state == "reconciliation_required"@
}

/// A job is in doubt exactly if one of its occurrences leaves open what it did and
/// nobody has given evidence of it in its present state.
pub proof fn law_doubt_is_an_open_question(l: &Ledger, r: bool)
    requires
        call_ensures(has_doubt, (l,), r),
    ensures
        r <==> exists|i: int|
            0 <= i < l@.occurrences.len() && open_question(#[trigger] l@.occurrences[i]) && forall|
                k: int,
            |
                0 <= k < l@.reconciliations.len() ==> !((
                #[trigger] l@.reconciliations[k]).occurrence_id == l@.occurrences[i].id
                    && l@.reconciliations[k].occurrence_updated_at == l@.occurrences[i].updated_at),
{
    assert forall|i: int| 0 <= i < l@.occurrences.len() implies (manual::in_doubt(
        #[trigger] l@.occurrences[i],
    ) <==> open_question(l@.occurrences[i])) by {}
}

/// A claim is given exactly if the job is there and is what its owner saw, is
/// neither locked nor in doubt, and the occurrence is a new one. The job is then
/// locked by the occurrence, which is recorded as running with nothing delivered;
/// nothing else changes. Without a claim nothing changes at all.
pub proof fn law_claims_need_an_idle_undoubted_job(
    l: &mut Ledger,
    expected: &CronJob,
    keyed: bool,
    id: String,
    now: &str,
    limit: usize,
    r: Result<ManualClaim, ClaimError>,
    doubt: bool,
)
    requires
        old(l)@.well_formed(),
        call_ensures(has_doubt, (&*old(l),), doubt),
        call_ensures(claim_manual_occurrence, (l, expected, keyed, id, now, limit), r),
    ensures
        r is Ok <==> {
            &&& old(l)@.job matches Some(row) && row.job == expected@ && row.locked_at is None
                && row.lock_owner is None && row.job.last_status != Some("uncertain"@)
            &&& !doubt
            &&& forall|i: int|
                0 <= i < old(l)@.occurrences.len() ==> (#[trigger] old(l)@.occurrences[i]).id != id@
        },
        r matches Ok(claim) ==> {
            let n = old(l)@.occurrences.len() as int;
            let o = final(l)@.occurrences[n];
            &&& claim.job_id@ == expected@.id
            &&& claim.occurrence_id@ == id@
            &&& final(l)@.job matches Some(row) && row.job == expected@ && row.locked_at == Some(
                now@,
            ) && row.lock_owner == Some(id@)
            &&& final(l)@.occurrences.len() == n + 1
            &&& o.id == id@ && o.execution_state == "running"@ && o.delivery_state
                == "not_started"@ && o.output is None && o.updated_at == now@
            &&& final(l)@.occurrences.drop_last() == old(l)@.occurrences
            &&& final(l)@.runs == old(l)@.runs
            &&& final(l)@.reconciliations == old(l)@.reconciliations
        },
        r is Err ==> final(l)@ == old(l)@,
{
    ledger::lemma_position(old(l)@.occurrences, id@);
    if r is Ok {
        assert(final(l)@.occurrences.drop_last() =~= old(l)@.occurrences);
    }
}

/// Why a claim is refused: another owner and a changed job are told as a change, a
/// lock as a run under way, doubt as a quarantine. Under a request identifier that
/// was used before the earlier invocation is told, unless its output is too long.
pub proof fn law_refusals_name_their_reason(
    l: &mut Ledger,
    expected: &CronJob,
    keyed: bool,
    id: String,
    now: &str,
    limit: usize,
    r: Result<ManualClaim, ClaimError>,
    doubt: bool,
    row: JobRowView,
)
    requires
        old(l)@.well_formed(),
        call_ensures(has_doubt, (&*old(l),), doubt),
        call_ensures(claim_manual_occurrence, (l, expected, keyed, id, now, limit), r),
        old(l)@.job == Some(row),
        row.job.id == expected@.id,
    ensures
        ({
            let used = exists|i: int|
                0 <= i < old(l)@.occurrences.len() && (#[trigger] old(l)@.occurrences[i]).id == id@;
            let locked = row.locked_at is Some || row.lock_owner is Some;
            let in_doubt = row.job.last_status == Some("uncertain"@) || doubt;
            let stranger = row.job.agent_alias != expected@.agent_alias;
            &&& stranger ==> r == Err::<ManualClaim, _>(
                ClaimError::Refused(ManualAdmissionError::Changed),
            )
            &&& !stranger && keyed && used ==> (r matches Err(e) && (e is Duplicate
                || e is Unreadable))
            &&& !stranger && !(keyed && used) && locked ==> r == Err::<ManualClaim, _>(
                ClaimError::Refused(ManualAdmissionError::InFlight),
            )
            &&& !stranger && !(keyed && used) && !locked && in_doubt ==> r == Err::<ManualClaim, _>(
                ClaimError::Refused(ManualAdmissionError::Quarantined),
            )
            &&& !stranger && !(keyed && used) && !locked && !in_doubt && row.job != expected@ ==> r
                == Err::<ManualClaim, _>(ClaimError::Refused(ManualAdmissionError::Changed))
            &&& !stranger && !keyed && used && !locked && !in_doubt && row.job == expected@ ==> (
            r matches Err(e) && e is Taken)
        }),
{
    ledger::lemma_position(old(l)@.occurrences, id@);
}

/// An invocation under a request identifier is the same occurrence each time, and
/// one that has not the form of an identifier is refused as such.
pub proof fn law_request_identifiers_name_one_occurrence(
    l: &mut Ledger,
    expected: &CronJob,
    key: &str,
    now: &str,
    limit: usize,
    r: Result<ManualClaim, ClaimError>,
    valid: bool,
    job_id: &str,
    owner: &str,
    id: String,
)
    requires
        old(l)@.well_formed(),
        job_id@ == expected@.id,
        owner@ == expected@.agent_alias,
        call_ensures(is_valid_key, (key,), valid),
        call_ensures(keyed_occurrence, (job_id, owner, key), id),
        call_ensures(claim_manual_run_with_key, (l, expected, Some(key), now, limit), r),
    ensures
        valid <==> 0 < text::byte_len(key@) <= 128 && forall|i: int|
            0 <= i < key@.len() ==> '!' <= #[trigger] key@[i] <= '~',
        !valid ==> r == Err::<ManualClaim, _>(
            ClaimError::Refused(ManualAdmissionError::InvalidRequestId),
        ) && final(l)@ == old(l)@,
        r matches Ok(claim) ==> claim.occurrence_id@ == id@ && claim.job_id@ == expected@.id,
        r matches Err(ClaimError::Duplicate(d)) ==> d.occurrence_id@ == id@,
        "manual:key:"@.is_prefix_of(id@),
{
    ledger::lemma_position(old(l)@.occurrences, id@);
    if let Err(ClaimError::Duplicate(d)) = r {
        assert(d@.occurrence_id == d.occurrence_id@);
        assert(Err::<(), _>(r->Err_0@) == manual::admitted(
            old(l)@,
            expected@,
            true,
            id@,
            limit as nat,
        ));
    }
    assert forall|i: int| 0 <= i < key@.len() implies (manual::is_graphic(#[trigger] key@[i]) <==> '!'
        <= key@[i] <= '~') by {}
}

/// An invocation without a request identifier is an occurrence of its own, under a
/// name that chance completes. It is claimed as any other: the job is then locked by
/// it, it is recorded as running, and nothing else changes.
pub proof fn law_invocations_without_identifier_are_new(
    l: &mut Ledger,
    expected: &CronJob,
    now: &str,
    limit: usize,
    r: Result<ManualClaim, ClaimError>,
    doubt: bool,
)
    requires
        old(l)@.well_formed(),
        call_ensures(has_doubt, (&*old(l),), doubt),
        call_ensures(claim_manual_run_with_key, (l, expected, None::<&str>, now, limit), r),
    ensures
        r matches Ok(claim) ==> {
            let n = old(l)@.occurrences.len() as int;
            let o = final(l)@.occurrences[n];
            &&& "manual:"@.is_prefix_of(claim.occurrence_id@)
            &&& claim.occurrence_id@.len() == 43
            &&& claim.job_id@ == expected@.id
            &&& forall|i: int|
                0 <= i < n ==> (#[trigger] old(l)@.occurrences[i]).id != claim.occurrence_id@
            &&& !doubt
            &&& old(l)@.job matches Some(row) && row.job == expected@ && row.locked_at is None
                && row.lock_owner is None && row.job.last_status != Some("uncertain"@)
            &&& final(l)@.job matches Some(row) && row.job == expected@ && row.locked_at == Some(
                now@,
            ) && row.lock_owner == Some(claim.occurrence_id@)
            &&& final(l)@.occurrences.len() == n + 1
            &&& o.id == claim.occurrence_id@ && o.execution_state == "running"@ && o.delivery_state
                == "not_started"@ && o.output is None && o.updated_at == now@
            &&& final(l)@.occurrences.drop_last() == old(l)@.occurrences
        },
        r matches Err(e) ==> !(e is Duplicate) && final(l)@ == old(l)@,
        r is Err && !doubt ==> !(old(l)@.job matches Some(row) && row.job == expected@
            && row.locked_at is None && row.lock_owner is None && row.job.last_status != Some(
            "uncertain"@,
        )) || r->Err_0 is Taken,
{
    let suffix = choose|suffix: Seq<char>| #[trigger]
        manual::unkeyed_end(old(l)@, final(l)@, expected@, suffix, now@, limit as nat, r);
    assert(manual::unkeyed_end(old(l)@, final(l)@, expected@, suffix, now@, limit as nat, r));
    let id = "manual:"@ + suffix;
    reveal_strlit("manual:");
    assert(id.subrange(0, 7) =~= "manual:"@);
    ledger::lemma_position(old(l)@.occurrences, id);
    if r is Ok {
        assert(final(l)@.occurrences.drop_last() =~= old(l)@.occurrences);
    }
}

/// The receipt of an earlier invocation tells what its occurrence records: a
/// confirmed execution only where it says `confirmed`, a delivery unless none was
/// asked for, and a confirmed effect only where both are. It is not given where the
/// output is longer than allowed.
pub proof fn law_receipts_tell_the_occurrence(
    o: &OccurrenceRow,
    limit: usize,
    r: Option<DuplicateManualReceipt>,
)
    requires
        call_ensures(read_receipt, (o, limit), r),
    ensures
        r is Some <==> o.output is None || text::byte_len(o.output->Some_0@) <= limit,
        r matches Some(d) ==> {
            &&& d.occurrence_id@ == o.id@
            &&& o.output matches Some(text) ==> d.output@ == text@
            &&& o.output is None ==> d.output@.len() == 0
            &&& o.execution_state@ == "confirmed"@ ==> d.execution is Confirmed
            &&& o.execution_state@ != "confirmed"@ ==> d.execution is PossiblyApplied
            &&& d.delivery is None <==> o.delivery_state@ == "not_requested"@
            &&& d.delivery == Some(EffectOutcome::Confirmed) <==> o.delivery_state@ == "confirmed"@
            &&& d.effect is Confirmed <==> o.execution_state@ == "confirmed"@ && (
            o.delivery_state@ == "not_requested"@ || o.delivery_state@ == "confirmed"@)
        },
{
    reveal_strlit("");
    text::lemma_byte_len_ascii(""@);
    reveal_strlit("not_requested");
    reveal_strlit("not_started");
    reveal_strlit("confirmed");
    reveal_strlit("confirmed_failed");
    reveal_strlit("partially_applied");
    reveal_strlit("possibly_applied");
    assert("not_requested"@[0] == 'n' && "not_requested"@[4] == 'r');
    assert("not_started"@[0] == 'n' && "not_started"@[4] == 's');
    assert("confirmed"@[0] == 'c' && "confirmed"@.len() == 9);
    assert("confirmed_failed"@[0] == 'c' && "confirmed_failed"@.len() == 16);
    assert("partially_applied"@[0] == 'p' && "partially_applied"@[1] == 'a');
    assert("possibly_applied"@[0] == 'p' && "possibly_applied"@[1] == 'o');
    if let Some(d) = r {
        assert(d@.output == d.output@);
    }
}

/// The names in the ledger are read back as the outcomes that they were written
/// for, and an unknown name is left to a person.
pub proof fn law_outcome_names_are_read_back(
    o: EffectOutcome,
    name: &'static str,
    read: EffectOutcome,
    other: &str,
    told: EffectOutcome,
)
    requires
        call_ensures(occurrence_delivery_state, (Some(o),), name),
        call_ensures(outcome_named, (name,), read),
        call_ensures(outcome_named, (other,), told),
        other@ != "not_started"@,
        other@ != "confirmed"@,
        other@ != "confirmed_failed"@,
        other@ != "partially_applied"@,
        other@ != "possibly_applied"@,
    ensures
        read == o,
        told is ReconciliationRequired,
{
    manual_laws::lemma_outcome_names(o);
}

/// How ends are written down.
pub proof fn law_ends_have_names(
    success: bool,
    execution: &'static str,
    delivery: Option<EffectOutcome>,
    name: &'static str,
    without: &'static str,
)
    requires
        call_ensures(execution_state_name, (success,), execution),
        call_ensures(manual_delivery_name, (delivery,), name),
        call_ensures(occurrence_delivery_state, (None::<EffectOutcome>,), without),
    ensures
        success ==> execution@ == "confirmed"@,
        !success ==> execution@ == "possibly_applied"@,
        without@ == "not_started"@,
        delivery is None ==> name@ == "not_requested"@,
        delivery == Some(EffectOutcome::NotStarted) ==> name@ == "not_started"@,
        delivery == Some(EffectOutcome::Confirmed) ==> name@ == "confirmed"@,
        delivery == Some(EffectOutcome::ConfirmedFailed) ==> name@ == "confirmed_failed"@,
        delivery == Some(EffectOutcome::PartiallyApplied) ==> name@ == "partially_applied"@,
        delivery == Some(EffectOutcome::PossiblyApplied) ==> name@ == "possibly_applied"@,
        delivery == Some(EffectOutcome::ReconciliationRequired) ==> name@
            == "reconciliation_required"@,
{
}

/// What is shown of a refusal and of an earlier invocation.
pub proof fn law_refusals_are_shown(
    e: ManualAdmissionError,
    shown: String,
    d: &DuplicateManualReceipt,
    told: String,
)
    requires
        call_ensures(ManualAdmissionError::message, (e,), shown),
        call_ensures(DuplicateManualReceipt::message, (d,), told),
    ensures
        e is Quarantined ==> shown@ == "manual cron admission refused: "@ + "Quarantined"@,
        e is InFlight ==> shown@ == "manual cron admission refused: "@ + "InFlight"@,
        e is Changed ==> shown@ == "manual cron admission refused: "@ + "Changed"@,
        e is InvalidRequestId ==> shown@ == "manual cron admission refused: "@
            + "InvalidRequestId"@,
        told@ == "manual occurrence already admitted: "@ + d.occurrence_id@,
{
}

} // verus!
