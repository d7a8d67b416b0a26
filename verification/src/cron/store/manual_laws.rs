//! What holds of invocations by hand from one call to the next.

use crate::cron::delivery;
use crate::cron::job::JobView;
use crate::cron::store::ledger;
use crate::cron::store::ledger::{Checkpoint, LedgerView, OccurrenceView, RunView};
use crate::cron::store::manual;
use crate::cron::store::manual::{ClaimErrorView, FinishView, ManualAdmissionError};
use crate::effect::EffectOutcome;
use crate::json;
use vstd::prelude::*;
use vstd::string::*;
use vstd::utf8::*;

verus! {

/// While a claim is open nobody else is admitted, under whatever identifier and
/// whatever they saw of the job.
pub proof fn law_claim_excludes_competitors(
    l: LedgerView,
    expected: JobView,
    keyed: bool,
    id: Seq<char>,
    limit: nat,
    now: Seq<char>,
    other: JobView,
    other_keyed: bool,
    other_id: Seq<char>,
    other_limit: nat,
)
    requires
        l.well_formed(),
        manual::admitted(l, expected, keyed, id, limit) is Ok,
    ensures
        manual::admitted(
            manual::claimed(l, id, now),
            other,
            other_keyed,
            other_id,
            other_limit,
        ) is Err,
{
}

/// An occurrence that is in the ledger is never admitted again. Under its request
/// identifier, and from its owner, the answer is what became of it.
pub proof fn law_admission_happens_once(
    l: LedgerView,
    expected: JobView,
    keyed: bool,
    id: Seq<char>,
    limit: nat,
)
    requires
        l.well_formed(),
        ledger::position(l.occurrences, id) is Some,
    ensures
        manual::admitted(l, expected, keyed, id, limit) is Err,
        keyed && l.job is Some && l.job_id == expected.id && l.job->Some_0.job.agent_alias
            == expected.agent_alias ==> match manual::admitted(l, expected, keyed, id, limit) {
            Err(ClaimErrorView::Duplicate(d)) => d.occurrence_id == id,
            Err(ClaimErrorView::Unreadable) => true,
            _ => false,
        },
{
    ledger::lemma_position(l.occurrences, id);
}

/// A receipt is shown to nobody but the owner of the job.
pub proof fn law_receipts_stay_with_the_owner(
    l: LedgerView,
    expected: JobView,
    keyed: bool,
    id: Seq<char>,
    limit: nat,
)
    requires
        l.job matches Some(row) && row.job.agent_alias != expected.agent_alias,
    ensures
        !(manual::admitted(l, expected, keyed, id, limit) matches Err(ClaimErrorView::Duplicate(_))),
        manual::admitted(l, expected, keyed, id, limit) is Err,
{
}

/// The occurrences of a ledger are found under their identifiers after one of
/// them takes a step.
proof fn lemma_step_keeps_occurrences(
    l: LedgerView,
    id: Seq<char>,
    execution: Seq<char>,
    delivery: Seq<char>,
    output: Option<Seq<char>>,
    step: Checkpoint,
    now: Seq<char>,
    any: Seq<char>,
)
    requires
        ledger::position(l.occurrences, any) is Some,
        ledger::checkpointed(l, id, execution, delivery, output, step, now) is Some,
    ensures
        ({
            let after = ledger::checkpointed(l, id, execution, delivery, output, step, now)->Some_0;
            ledger::position(after.occurrences, any) is Some
        }),
{
    let after = ledger::checkpointed(l, id, execution, delivery, output, step, now)->Some_0;
    ledger::lemma_position(l.occurrences, any);
    ledger::lemma_position(l.occurrences, id);
    ledger::lemma_position(after.occurrences, any);
    let k = ledger::position(l.occurrences, any)->Some_0;
    assert(after.occurrences[k].id == any);
}

/// No occurrence is ever lost: whatever a claim, a recorded execution or a
/// recorded end does to the ledger, each identifier in it stays in it.
pub proof fn law_occurrences_are_kept(
    l: LedgerView,
    job: Seq<char>,
    id: Seq<char>,
    f: FinishView,
    output: Seq<char>,
    step: Checkpoint,
    allowed: bool,
    now: Seq<char>,
    runs: Option<Seq<RunView>>,
    any: Seq<char>,
)
    requires
        ledger::position(l.occurrences, any) is Some,
    ensures
        ledger::position(manual::claimed(l, id, now).occurrences, any) is Some,
        manual::executed(l, job, id, f.success, output, step, now) matches Some(after)
            ==> ledger::position(after.occurrences, any) is Some,
        manual::finished(l, job, id, f, allowed, now, runs) matches Some(after) ==> ledger::position(
            after.occurrences,
            any,
        ) is Some,
{
    let pushed = manual::claimed(l, id, now).occurrences;
    assert(pushed.drop_last() =~= l.occurrences);
    if manual::executed(l, job, id, f.success, output, step, now) is Some {
        lemma_step_keeps_occurrences(
            l,
            id,
            manual::execution_state(f.success),
            "submitting"@,
            Some(output),
            step,
            now,
            any,
        );
    }
    if manual::finished(l, job, id, f, allowed, now, runs) is Some {
        lemma_step_keeps_occurrences(
            l,
            id,
            manual::execution_state(f.success),
            manual::manual_delivery_state(f.delivery),
            None,
            manual::end_step(l, id, f, allowed),
            now,
            any,
        );
    }
}

/// An invocation by hand leaves the job's definition and its next scheduled run
/// alone: only what tells of the last run, and whether the job is enabled, can
/// change, and it never becomes enabled.
pub proof fn law_schedule_is_untouched(
    l: LedgerView,
    job: Seq<char>,
    id: Seq<char>,
    f: FinishView,
    output: Seq<char>,
    step: Checkpoint,
    allowed: bool,
    now: Seq<char>,
    runs: Option<Seq<RunView>>,
)
    requires
        l.job is Some,
    ensures
        manual::claimed(l, id, now).job->Some_0.job == l.job->Some_0.job,
        manual::executed(l, job, id, f.success, output, step, now) matches Some(after)
            ==> after.job == l.job,
        manual::finished(l, job, id, f, allowed, now, runs) matches Some(after) ==> after.job is Some
            && ({
            let was = l.job->Some_0.job;
            let is = after.job->Some_0.job;
            &&& is == (JobView {
                last_run: is.last_run,
                last_status: is.last_status,
                last_output: is.last_output,
                enabled: is.enabled,
                ..was
            })
            &&& is.enabled ==> was.enabled
        }),
{
}

/// The end of an invocation that no longer holds the lock changes nothing but its
/// own occurrence: a lock that another invocation took stays.
pub proof fn law_late_end_keeps_other_locks(
    l: LedgerView,
    job: Seq<char>,
    id: Seq<char>,
    f: FinishView,
    allowed: bool,
    now: Seq<char>,
    runs: Option<Seq<RunView>>,
)
    requires
        !manual::owns_lock(l, id),
        manual::finished(l, job, id, f, allowed, now, runs) is Some,
    ensures
        ({
            let after = manual::finished(l, job, id, f, allowed, now, runs)->Some_0;
            &&& after.job == l.job
            &&& after.runs == l.runs
            &&& after.reconciliations == l.reconciliations
            &&& forall|i: int|
                0 <= i < l.occurrences.len() && l.occurrences[i].id != id ==> (
                #[trigger] after.occurrences[i]) == l.occurrences[i]
        }),
{
    ledger::lemma_position(l.occurrences, id);
}

/// An invocation that ended in doubt disables the job and bars every further
/// invocation: a new one is quarantined.
pub proof fn law_doubt_bars_new_invocations(
    l: LedgerView,
    job: Seq<char>,
    id: Seq<char>,
    f: FinishView,
    allowed: bool,
    now: Seq<char>,
    runs: Option<Seq<RunView>>,
    expected: JobView,
    keyed: bool,
    new_id: Seq<char>,
    limit: nat,
)
    requires
        manual::owns_lock(l, id),
        manual::effect_of(f.success, f.delivery) != EffectOutcome::Confirmed,
        manual::finished(l, job, id, f, allowed, now, runs) is Some,
        expected.id == l.job_id,
        expected.agent_alias == l.job->Some_0.job.agent_alias,
        ledger::position(l.occurrences, new_id) is None,
    ensures
        ({
            let after = manual::finished(l, job, id, f, allowed, now, runs)->Some_0;
            &&& !after.job->Some_0.job.enabled
            &&& after.job->Some_0.job.last_status == Some("uncertain"@)
            &&& manual::admitted(after, expected, keyed, new_id, limit) == Err::<(), _>(
                ClaimErrorView::Refused(ManualAdmissionError::Quarantined),
            )
        }),
{
    let after = manual::finished(l, job, id, f, allowed, now, runs)->Some_0;
    ledger::lemma_position(l.occurrences, id);
    ledger::lemma_position(l.occurrences, new_id);
    ledger::lemma_position(after.occurrences, new_id);
    if let Some(k) = ledger::position(after.occurrences, new_id) {
        assert(after.occurrences[k].id == l.occurrences[k].id);
    }
}

/// The names of the outcomes are told apart when they are read back.
pub proof fn lemma_outcome_names(o: EffectOutcome)
    ensures
        manual::named_outcome(delivery::outcome_name(o)) == o,
        delivery::outcome_name(o) != "not_requested"@,
{
    reveal_strlit("not_requested");
    reveal_strlit("not_started");
    reveal_strlit("confirmed");
    reveal_strlit("confirmed_failed");
    reveal_strlit("partially_applied");
    reveal_strlit("possibly_applied");
    reveal_strlit("reconciliation_required");
    assert("not_requested"@[0] == 'n' && "not_requested"@[4] == 'r');
    assert("not_started"@[0] == 'n' && "not_started"@[4] == 's');
    assert("confirmed"@[0] == 'c' && "confirmed"@.len() == 9);
    assert("confirmed_failed"@[0] == 'c' && "confirmed_failed"@.len() == 16);
    assert("partially_applied"@[0] == 'p' && "partially_applied"@[1] == 'a');
    assert("possibly_applied"@[0] == 'p' && "possibly_applied"@[1] == 'o');
    assert("reconciliation_required"@[0] == 'r');
}

/// The two ways in which an execution is recorded differ.
proof fn lemma_execution_names()
    ensures
        "confirmed"@ != "possibly_applied"@,
{
    reveal_strlit("confirmed");
    reveal_strlit("possibly_applied");
    assert("confirmed"@[0] == 'c');
    assert("possibly_applied"@[0] == 'p');
}

/// A repeated request reads back exactly what the end of the invocation recorded:
/// how it was delivered, whether anything was to be delivered at all, and what it
/// came to as a whole.
pub proof fn law_receipt_tells_the_recorded_end(
    l: LedgerView,
    job: Seq<char>,
    id: Seq<char>,
    f: FinishView,
    allowed: bool,
    now: Seq<char>,
    runs: Option<Seq<RunView>>,
    limit: nat,
)
    requires
        manual::finished(l, job, id, f, allowed, now, runs) is Some,
    ensures
        ({
            let after = manual::finished(l, job, id, f, allowed, now, runs)->Some_0;
            let i = ledger::position(l.occurrences, id)->Some_0;
            manual::receipt_of(after.occurrences[i], limit) matches Some(d) ==> {
                &&& d.occurrence_id == id
                &&& d.delivery == f.delivery
                &&& d.effect == manual::effect_of(f.success, f.delivery)
                &&& d.execution == (if f.success {
                    EffectOutcome::Confirmed
                } else {
                    EffectOutcome::PossiblyApplied
                })
                &&& l.occurrences[i].output matches Some(s) ==> d.output == s
            }
        }),
{
    ledger::lemma_position(l.occurrences, id);
    lemma_execution_names();
    match f.delivery {
        Some(o) => {
            lemma_outcome_names(o);
        },
        None => {},
    }
}

/// Recording the same end again changes nothing. Since the end was recorded, the
/// job may have been left alone, deleted, or replaced and locked by another
/// invocation, and other occurrences, runs and evidence may have come and gone: as
/// long as the occurrence itself was left alone, the end is recorded as before,
/// whatever the transition rule says. No run is added to the history, and no lock
/// and no occurrence changes.
pub proof fn law_end_is_recorded_once(
    l: LedgerView,
    job: Seq<char>,
    id: Seq<char>,
    f: FinishView,
    allowed: bool,
    now: Seq<char>,
    runs: Option<Seq<RunView>>,
    since: LedgerView,
    allowed_again: bool,
    later: Seq<char>,
    more_runs: Option<Seq<RunView>>,
)
    requires
        manual::finished(l, job, id, f, allowed, now, runs) is Some,
        ({
            let after = manual::finished(l, job, id, f, allowed, now, runs)->Some_0;
            &&& since.job_id == after.job_id
            &&& since.job == after.job || !manual::owns_lock(since, id)
            &&& ledger::position(since.occurrences, id) matches Some(k) && since.occurrences[k]
                == after.occurrences[ledger::position(after.occurrences, id)->Some_0]
        }),
    ensures
        manual::finished(since, job, id, f, allowed_again, later, more_runs) == Some(since),
{
    let after = manual::finished(l, job, id, f, allowed, now, runs)->Some_0;
    let i = ledger::position(l.occurrences, id)->Some_0;
    ledger::lemma_position(l.occurrences, id);
    ledger::lemma_position(after.occurrences, id);
    lemma_same_position(l.occurrences, after.occurrences, id);
    assert(manual::ended_as(after.occurrences[i], f));
}

/// Occurrences that have the same identifiers are found at the same position.
proof fn lemma_same_position(a: Seq<OccurrenceView>, b: Seq<OccurrenceView>, id: Seq<char>)
    requires
        a.len() == b.len(),
        forall|i: int| 0 <= i < a.len() ==> (#[trigger] a[i]).id == b[i].id,
    ensures
        ledger::position(a, id) == ledger::position(b, id),
    decreases a.len(),
{
    if a.len() > 0 {
        assert(a[a.len() - 1].id == b[b.len() - 1].id);
        assert forall|i: int| 0 <= i < a.drop_last().len() implies (
        #[trigger] a.drop_last()[i]).id == b.drop_last()[i].id by {
            assert(a[i].id == b[i].id);
        }
        lemma_same_position(a.drop_last(), b.drop_last(), id);
    }
}

/// The identity of an invocation is the digest of a text that tells the job, its
/// owner and the request identifier apart: another job, another owner or another
/// request identifier gives another text.
pub proof fn law_identity_covers_the_owner(
    job: Seq<char>,
    owner: Seq<char>,
    key: Seq<char>,
    other_job: Seq<char>,
    other_owner: Seq<char>,
    other_key: Seq<char>,
)
    requires
        encode_utf8(json::array_json(seq![job, owner, key])) == encode_utf8(
            json::array_json(seq![other_job, other_owner, other_key]),
        ),
    ensures
        job == other_job,
        owner == other_owner,
        key == other_key,
{
    let a = seq![job, owner, key];
    let b = seq![other_job, other_owner, other_key];
    encode_utf8_decode_utf8(json::array_json(a));
    encode_utf8_decode_utf8(json::array_json(b));
    json::law_array_is_faithful(a, b);
    assert(a[0] == b[0] && a[1] == b[1] && a[2] == b[2]);
}

} // verus!
