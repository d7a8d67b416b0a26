//! Invocations by hand. They share the occurrence ledger and the lock of the job
//! with scheduled runs; each is an occurrence of its own and uses up no
//! scheduled time.

use crate::clock::Moment;
use crate::cron::delivery;
use crate::cron::job;
use crate::cron::job::{CronJob, JobView};
use crate::cron::store::ledger;
use crate::cron::store::ledger::{
    Checkpoint, JobRowView, Ledger, LedgerView, OccurrenceRow, OccurrenceView, RunRow, RunView,
};
use crate::digest;
use crate::effect::EffectOutcome;
use crate::json;
use crate::text;
use vstd::prelude::*;
use vstd::string::*;
use vstd::utf8::*;

verus! {

/// The right to run a job once by hand.
#[derive(Clone, Debug)]
pub struct ManualClaim {
    pub job_id: String,
    pub occurrence_id: String,
}

impl ManualClaim {
    /// The occurrence that the claim stands for.
    pub fn id(&self) -> (r: &str)
        ensures
            r@ == self.occurrence_id@,
    {
        self.occurrence_id.as_str()
    }
}

/// Why an invocation is not admitted.
#[derive(Clone, Copy, Debug, PartialEq, Eq, Structural)]
pub enum ManualAdmissionError {
    /// An earlier run may have had effects that nobody has accounted for.
    Quarantined,
    /// Another run is under way.
    InFlight,
    /// The job is not what the caller saw.
    Changed,
    /// The request identifier has not the form of one.
    InvalidRequestId,
}

impl ManualAdmissionError {
    /// What is shown of the error.
    pub open spec fn shown(self) -> Seq<char> {
        "manual cron admission refused: "@ + match self {
            ManualAdmissionError::Quarantined => "Quarantined"@,
            ManualAdmissionError::InFlight => "InFlight"@,
            ManualAdmissionError::Changed => "Changed"@,
            ManualAdmissionError::InvalidRequestId => "InvalidRequestId"@,
        }
    }

    /// What is shown of the error.
    pub fn message(self) -> (s: String)
        ensures
            s@ == self.shown(),
    {
        let mut s: String = "manual cron admission refused: ".to_owned();
        match self {
            ManualAdmissionError::Quarantined => s.append("Quarantined"),
            ManualAdmissionError::InFlight => s.append("InFlight"),
            ManualAdmissionError::Changed => s.append("Changed"),
            ManualAdmissionError::InvalidRequestId => s.append("InvalidRequestId"),
        }
        s
    }
}

/// What an earlier invocation under the same request identifier came to.
#[derive(Clone, Debug)]
pub struct DuplicateManualReceipt {
    pub occurrence_id: String,
    pub execution: EffectOutcome,
    pub delivery: Option<EffectOutcome>,
    pub effect: EffectOutcome,
    pub output: String,
}

impl DuplicateManualReceipt {
    /// What is shown of the receipt where it is reported as an error.
    pub fn message(&self) -> (s: String)
        ensures
            s@ == "manual occurrence already admitted: "@ + self.occurrence_id@,
    {
        let mut s: String = "manual occurrence already admitted: ".to_owned();
        s.append(self.occurrence_id.as_str());
        s
    }
}

/// Why no claim is given.
pub enum ClaimError {
    /// There is no such job.
    NoJob,
    /// The receipt of the earlier invocation is too large to be read.
    Unreadable,
    /// The occurrence identifier is taken.
    Taken,
    /// The invocation is not admitted.
    Refused(ManualAdmissionError),
    /// The invocation was admitted before.
    Duplicate(DuplicateManualReceipt),
}

/// The model of a receipt.
pub struct DuplicateView {
    pub occurrence_id: Seq<char>,
    pub execution: EffectOutcome,
    pub delivery: Option<EffectOutcome>,
    pub effect: EffectOutcome,
    pub output: Seq<char>,
}

/// The model of why no claim is given.
pub enum ClaimErrorView {
    NoJob,
    Unreadable,
    Taken,
    Refused(ManualAdmissionError),
    Duplicate(DuplicateView),
}

impl View for DuplicateManualReceipt {
    type V = DuplicateView;

    open spec fn view(&self) -> DuplicateView {
        DuplicateView {
            occurrence_id: self.occurrence_id@,
            execution: self.execution,
            delivery: self.delivery,
            effect: self.effect,
            output: self.output@,
        }
    }
}

impl View for ClaimError {
    type V = ClaimErrorView;

    open spec fn view(&self) -> ClaimErrorView {
        match *self {
            ClaimError::NoJob => ClaimErrorView::NoJob,
            ClaimError::Unreadable => ClaimErrorView::Unreadable,
            ClaimError::Taken => ClaimErrorView::Taken,
            ClaimError::Refused(e) => ClaimErrorView::Refused(e),
            ClaimError::Duplicate(d) => ClaimErrorView::Duplicate(d@),
        }
    }
}

/// Whether a character is a visible ASCII character.
pub open spec fn is_graphic(c: char) -> bool {
    '!' <= c <= '~'
}

/// Whether a text has the form of a request identifier: 1 to 128 bytes, all of
/// them visible ASCII characters.
pub open spec fn valid_key(key: Seq<char>) -> bool {
    &&& 0 < text::byte_len(key) <= 128
    &&& forall|i: int| 0 <= i < key.len() ==> is_graphic(#[trigger] key[i])
}

/// Whether a text has the form of a request identifier.
pub fn is_valid_key(key: &str) -> (r: bool)
    ensures
        r == valid_key(key@),
{
    let n: usize = text::len_bytes(key);
    if n == 0 || n > 128 {
        return false;
    }
    for c in it: key.chars()
        invariant
            it.seq() == key@,
            forall|i: int| 0 <= i < it.index() ==> is_graphic(#[trigger] key@[i]),
    {
        if c < '!' || c > '~' {
            assert(!is_graphic(key@[it.index() as int]));
            return false;
        }
    }
    true
}

/// The occurrence that a request identifier stands for. The owner of the job is
/// part of it: after the job changed hands the same identifier stands for another
/// occurrence.
pub open spec fn keyed_id(job_id: Seq<char>, owner: Seq<char>, key: Seq<char>) -> Seq<char> {
    "manual:key:"@ + digest::hex(
        digest::sha256_of(encode_utf8(json::array_json(seq![job_id, owner, key]))),
    )
}

/// The occurrence that a request identifier stands for.
pub fn keyed_occurrence(job_id: &str, owner: &str, key: &str) -> (r: String)
    ensures
        r@ == keyed_id(job_id@, owner@, key@),
{
    let parts: [&str; 3] = [job_id, owner, key];
    assert(text::views(parts@) =~= seq![job_id@, owner@, key@]);
    let identity: String = json::array_text(&parts);
    let sum: Vec<u8> = digest::sha256(identity.as_str().as_bytes());
    let mut r: String = "manual:key:".to_owned();
    r.append(digest::hex_text(sum.as_slice()).as_str());
    r
}

/// The outcome that a name in the ledger stands for; one that only a person can
/// settle where the name is unknown.
pub open spec fn named_outcome(name: Seq<char>) -> EffectOutcome {
    if name == "not_started"@ {
        EffectOutcome::NotStarted
    } else if name == "confirmed"@ {
        EffectOutcome::Confirmed
    } else if name == "confirmed_failed"@ {
        EffectOutcome::ConfirmedFailed
    } else if name == "partially_applied"@ {
        EffectOutcome::PartiallyApplied
    } else if name == "possibly_applied"@ {
        EffectOutcome::PossiblyApplied
    } else {
        EffectOutcome::ReconciliationRequired
    }
}

/// The outcome that a name in the ledger stands for.
pub fn outcome_named(name: &str) -> (r: EffectOutcome)
    ensures
        r == named_outcome(name@),
{
    if text::str_eq(name, "not_started") {
        EffectOutcome::NotStarted
    } else if text::str_eq(name, "confirmed") {
        EffectOutcome::Confirmed
    } else if text::str_eq(name, "confirmed_failed") {
        EffectOutcome::ConfirmedFailed
    } else if text::str_eq(name, "partially_applied") {
        EffectOutcome::PartiallyApplied
    } else if text::str_eq(name, "possibly_applied") {
        EffectOutcome::PossiblyApplied
    } else {
        EffectOutcome::ReconciliationRequired
    }
}

/// What an invocation came to as a whole. A failed execution may have had
/// effects. After a successful one the invocation is confirmed if nothing was to
/// be delivered or the delivery is confirmed; it is partial where the delivery is
/// known not to be complete.
pub open spec fn effect_of(execution_success: bool, delivery: Option<EffectOutcome>) -> EffectOutcome {
    if !execution_success {
        EffectOutcome::ReconciliationRequired
    } else {
        match delivery {
            None => EffectOutcome::Confirmed,
            Some(EffectOutcome::Confirmed) => EffectOutcome::Confirmed,
            Some(EffectOutcome::NotStarted) => EffectOutcome::PartiallyApplied,
            Some(EffectOutcome::ConfirmedFailed) => EffectOutcome::PartiallyApplied,
            Some(EffectOutcome::PartiallyApplied) => EffectOutcome::PartiallyApplied,
            Some(EffectOutcome::PossiblyApplied) => EffectOutcome::ReconciliationRequired,
            Some(EffectOutcome::ReconciliationRequired) => EffectOutcome::ReconciliationRequired,
        }
    }
}

/// What an invocation came to as a whole.
pub fn manual_effect(execution_success: bool, delivery: Option<EffectOutcome>) -> (r: EffectOutcome)
    ensures
        r == effect_of(execution_success, delivery),
{
    if !execution_success {
        return EffectOutcome::ReconciliationRequired;
    }
    match delivery {
        None => EffectOutcome::Confirmed,
        Some(EffectOutcome::Confirmed) => EffectOutcome::Confirmed,
        Some(EffectOutcome::NotStarted) => EffectOutcome::PartiallyApplied,
        Some(EffectOutcome::ConfirmedFailed) => EffectOutcome::PartiallyApplied,
        Some(EffectOutcome::PartiallyApplied) => EffectOutcome::PartiallyApplied,
        Some(EffectOutcome::PossiblyApplied) => EffectOutcome::ReconciliationRequired,
        Some(EffectOutcome::ReconciliationRequired) => EffectOutcome::ReconciliationRequired,
    }
}

/// Whether a delivery state leaves open what went out.
pub open spec fn delivery_in_doubt(state: Seq<char>) -> bool {
    ||| state == "submitting"@
    ||| state == "submitted"@
    ||| state == "uncertain"@
    ||| state == "possibly_applied"@
    ||| state == "partially_applied"@
    ||| state == "reconciliation_required"@
}

/// Whether a delivery state leaves open what went out.
pub fn is_delivery_in_doubt(state: &str) -> (r: bool)
    ensures
        r == delivery_in_doubt(state@),
{
    text::str_eq(state, "submitting") || text::str_eq(state, "submitted") || text::str_eq(
        state,
        "uncertain",
    ) || text::str_eq(state, "possibly_applied") || text::str_eq(state, "partially_applied")
        || text::str_eq(state, "reconciliation_required")
}

/// Whether an occurrence may have had effects that nobody has accounted for.
pub open spec fn in_doubt(o: OccurrenceView) -> bool {
    o.execution_state == "possibly_applied"@ || delivery_in_doubt(o.delivery_state)
}

/// Whether some occurrence of the job is in doubt, apart from those that an
/// operator has accounted for in their present state.
pub open spec fn some_in_doubt(l: LedgerView) -> bool {
    exists|i: int|
        0 <= i < l.occurrences.len() && in_doubt(#[trigger] l.occurrences[i]) && !l.settled(
            l.occurrences[i],
        )
}

/// Whether some occurrence of the job is in doubt.
pub fn has_doubt(l: &Ledger) -> (r: bool)
    ensures
        r == some_in_doubt(l@),
{
    for i in 0..l.occurrences.len()
        invariant
            forall|j: int|
                0 <= j < i ==> !(in_doubt(#[trigger] l@.occurrences[j]) && !l@.settled(
                    l@.occurrences[j],
                )),
    {
        let o: &OccurrenceRow = &l.occurrences[i];
        assert(l@.occurrences[i as int] == o@);
        if (text::str_eq(o.execution_state.as_str(), "possibly_applied") || is_delivery_in_doubt(
            o.delivery_state.as_str(),
        )) && !l.is_settled(o) {
            return true;
        }
    }
    false
}

/// The receipt of an earlier invocation; nothing where its output has more than
/// `limit` bytes.
pub open spec fn receipt_of(o: OccurrenceView, limit: nat) -> Option<DuplicateView> {
    let output = match o.output {
        Some(s) => s,
        None => ""@,
    };
    let execution = if o.execution_state == "confirmed"@ {
        EffectOutcome::Confirmed
    } else {
        EffectOutcome::PossiblyApplied
    };
    let delivery = if o.delivery_state == "not_requested"@ {
        None
    } else {
        Some(named_outcome(o.delivery_state))
    };
    if text::byte_len(output) > limit {
        None
    } else {
        Some(
            DuplicateView {
                occurrence_id: o.id,
                execution,
                delivery,
                effect: effect_of(execution == EffectOutcome::Confirmed, delivery),
                output,
            },
        )
    }
}

/// The receipt of an earlier invocation.
pub fn read_receipt(o: &OccurrenceRow, limit: usize) -> (r: Option<DuplicateManualReceipt>)
    ensures
        match r {
            Some(d) => receipt_of(o@, limit as nat) == Some(d@),
            None => receipt_of(o@, limit as nat) is None,
        },
{
    let output: &str = match &o.output {
        Some(s) => s.as_str(),
        None => "",
    };
    if text::len_bytes(output) > limit {
        return None;
    }
    let confirmed: bool = text::str_eq(o.execution_state.as_str(), "confirmed");
    let execution: EffectOutcome = if confirmed {
        EffectOutcome::Confirmed
    } else {
        EffectOutcome::PossiblyApplied
    };
    let delivery: Option<EffectOutcome> = if text::str_eq(
        o.delivery_state.as_str(),
        "not_requested",
    ) {
        None
    } else {
        Some(outcome_named(o.delivery_state.as_str()))
    };
    Some(
        DuplicateManualReceipt {
            occurrence_id: o.id.as_str().to_owned(),
            execution,
            delivery,
            effect: manual_effect(confirmed, delivery),
            output: output.to_owned(),
        },
    )
}

/// Whether an invocation is admitted as occurrence `id`, and if not, why. The
/// owner is looked at first: an earlier receipt is shown to no other. Then, for
/// an invocation under a request identifier, comes the receipt of an earlier
/// one; then the lock; then the doubt that earlier runs left; then whether the
/// job still is what the caller saw.
pub open spec fn admitted(
    l: LedgerView,
    expected: JobView,
    keyed: bool,
    id: Seq<char>,
    limit: nat,
) -> Result<(), ClaimErrorView> {
    if l.job is None || l.job_id != expected.id {
        Err(ClaimErrorView::NoJob)
    } else {
        let row = l.job->Some_0;
        let earlier = ledger::position(l.occurrences, id);
        if row.job.agent_alias != expected.agent_alias {
            Err(ClaimErrorView::Refused(ManualAdmissionError::Changed))
        } else if keyed && earlier is Some {
            match receipt_of(l.occurrences[earlier->Some_0], limit) {
                Some(d) => Err(ClaimErrorView::Duplicate(d)),
                None => Err(ClaimErrorView::Unreadable),
            }
        } else if l.locked() {
            Err(ClaimErrorView::Refused(ManualAdmissionError::InFlight))
        } else if row.job.last_status == Some("uncertain"@) || some_in_doubt(l) {
            Err(ClaimErrorView::Refused(ManualAdmissionError::Quarantined))
        } else if row.job != expected {
            Err(ClaimErrorView::Refused(ManualAdmissionError::Changed))
        } else if earlier is Some {
            Err(ClaimErrorView::Taken)
        } else {
            Ok(())
        }
    }
}

/// The ledger once occurrence `id` is claimed at time `now`: the job is locked by
/// it, and it is recorded as running with nothing delivered.
pub open spec fn claimed(l: LedgerView, id: Seq<char>, now: Seq<char>) -> LedgerView {
    LedgerView {
        job: match l.job {
            Some(row) => Some(
                JobRowView { job: row.job, locked_at: Some(now), lock_owner: Some(id) },
            ),
            None => None,
        },
        occurrences: l.occurrences.push(
            OccurrenceView {
                id,
                execution_state: "running"@,
                delivery_state: "not_started"@,
                output: None,
                updated_at: now,
            },
        ),
        ..l
    }
}

/// Claims the job for occurrence `occurrence_id`, or says why not. The ledger is
/// left as it is where the claim is not given.
pub fn claim_manual_occurrence(
    l: &mut Ledger,
    expected: &CronJob,
    keyed: bool,
    occurrence_id: String,
    now: &str,
    limit: usize,
) -> (r: Result<ManualClaim, ClaimError>)
    requires
        old(l)@.well_formed(),
    ensures
        final(l)@.well_formed(),
        match r {
            Ok(claim) => {
                &&& admitted(old(l)@, expected@, keyed, occurrence_id@, limit as nat) is Ok
                &&& claim.job_id@ == expected@.id
                &&& claim.occurrence_id@ == occurrence_id@
                &&& final(l)@ == claimed(old(l)@, occurrence_id@, now@)
            },
            Err(e) => {
                &&& admitted(old(l)@, expected@, keyed, occurrence_id@, limit as nat) == Err::<
                    (),
                    _,
                >(e@)
                &&& final(l)@ == old(l)@
            },
        },
{
    if !text::str_eq(l.job_id.as_str(), expected.id.as_str()) {
        return Err(ClaimError::NoJob);
    }
    let current: &CronJob = match &l.job {
        Some(row) => &row.job,
        None => {
            return Err(ClaimError::NoJob);
        },
    };
    if !text::str_eq(current.agent_alias.as_str(), expected.agent_alias.as_str()) {
        return Err(ClaimError::Refused(ManualAdmissionError::Changed));
    }
    let earlier: Option<usize> = l.position_of(occurrence_id.as_str());
    if keyed {
        if let Some(i) = earlier {
            assert(l@.occurrences[i as int] == l.occurrences@[i as int]@);
            return match read_receipt(&l.occurrences[i], limit) {
                Some(d) => Err(ClaimError::Duplicate(d)),
                None => Err(ClaimError::Unreadable),
            };
        }
    }
    if l.is_locked() {
        return Err(ClaimError::Refused(ManualAdmissionError::InFlight));
    }
    if job::opt_is(&current.last_status, "uncertain") || has_doubt(l) {
        return Err(ClaimError::Refused(ManualAdmissionError::Quarantined));
    }
    if !job::same_job(current, expected) {
        return Err(ClaimError::Refused(ManualAdmissionError::Changed));
    }
    if earlier.is_some() {
        return Err(ClaimError::Taken);
    }
    let ghost before = l@;
    proof {
        ledger::lemma_position(before.occurrences, occurrence_id@);
    }
    match &mut l.job {
        Some(row) => {
            row.locked_at = Some(now.to_owned());
            row.lock_owner = Some(occurrence_id.as_str().to_owned());
        },
        None => {},
    }
    let row = OccurrenceRow {
        id: occurrence_id.as_str().to_owned(),
        execution_state: "running".to_owned(),
        delivery_state: "not_started".to_owned(),
        output: None,
        updated_at: now.to_owned(),
    };
    l.occurrences.push(row);
    assert(l@.occurrences =~= before.occurrences.push(row@));
    Ok(ManualClaim { job_id: expected.id.as_str().to_owned(), occurrence_id })
}

/// Claims the job for one invocation by hand. Under a request identifier the
/// invocation is the same occurrence each time, so it is admitted at most once;
/// without one it gets a random identifier.
pub fn claim_manual_run_with_key(
    l: &mut Ledger,
    expected: &CronJob,
    request_id: Option<&str>,
    now: &str,
    limit: usize,
) -> (r: Result<ManualClaim, ClaimError>)
    requires
        old(l)@.well_formed(),
    ensures
        final(l)@.well_formed(),
        r is Err ==> final(l)@ == old(l)@,
        match request_id {
            Some(key) => if !valid_key(key@) {
                r matches Err(e) && e@ == ClaimErrorView::Refused(
                    ManualAdmissionError::InvalidRequestId,
                )
            } else {
                let id = keyed_id(expected@.id, expected@.agent_alias, key@);
                match r {
                    Ok(claim) => {
                        &&& admitted(old(l)@, expected@, true, id, limit as nat) is Ok
                        &&& claim.job_id@ == expected@.id
                        &&& claim.occurrence_id@ == id
                        &&& final(l)@ == claimed(old(l)@, id, now@)
                    },
                    Err(e) => admitted(old(l)@, expected@, true, id, limit as nat) == Err::<(), _>(
                        e@,
                    ),
                }
            },
            None => exists|suffix: Seq<char>| #[trigger]
                unkeyed_end(old(l)@, final(l)@, expected@, suffix, now@, limit as nat, r),
        },
{
    match request_id {
        Some(key) => {
            if !is_valid_key(key) {
                return Err(ClaimError::Refused(ManualAdmissionError::InvalidRequestId));
            }
            let id: String = keyed_occurrence(
                expected.id.as_str(),
                expected.agent_alias.as_str(),
                key,
            );
            claim_manual_occurrence(l, expected, true, id, now, limit)
        },
        None => {
            let suffix: String = digest::random_uuid();
            let mut id: String = "manual:".to_owned();
            id.append(suffix.as_str());
            let ghost before = l@;
            let r = claim_manual_occurrence(l, expected, false, id, now, limit);
            assert(unkeyed_end(before, l@, expected@, suffix@, now@, limit as nat, r));
            r
        },
    }
}

/// What a claim without a request identifier comes to, for the identifier that
/// chance gave it.
pub open spec fn unkeyed_end(
    before: LedgerView,
    after: LedgerView,
    expected: JobView,
    suffix: Seq<char>,
    now: Seq<char>,
    limit: nat,
    r: Result<ManualClaim, ClaimError>,
) -> bool {
    let id = "manual:"@ + suffix;
    &&& suffix.len() == 36
    &&& match r {
        Ok(claim) => {
            &&& admitted(before, expected, false, id, limit) is Ok
            &&& claim.job_id@ == expected.id
            &&& claim.occurrence_id@ == id
            &&& after == claimed(before, id, now)
        },
        Err(e) => admitted(before, expected, false, id, limit) == Err::<(), _>(e@),
    }
}

/// How an execution is recorded.
pub open spec fn execution_state(success: bool) -> Seq<char> {
    if success {
        "confirmed"@
    } else {
        "possibly_applied"@
    }
}

/// How an execution is recorded.
pub fn execution_state_name(success: bool) -> (s: &'static str)
    ensures
        s@ == execution_state(success),
{
    if success {
        "confirmed"
    } else {
        "possibly_applied"
    }
}

/// The ledger once an execution is recorded, before its result is delivered;
/// nothing where it cannot be.
pub open spec fn executed(
    l: LedgerView,
    claim_job: Seq<char>,
    claim_id: Seq<char>,
    success: bool,
    output: Seq<char>,
    step: Checkpoint,
    now: Seq<char>,
) -> Option<LedgerView> {
    if l.job_id != claim_job {
        None
    } else {
        ledger::checkpointed(
            l,
            claim_id,
            execution_state(success),
            "submitting"@,
            Some(output),
            step,
            now,
        )
    }
}

/// Records an execution before its result is delivered. Gives whether it was
/// recorded.
pub fn checkpoint_manual_execution(
    l: &mut Ledger,
    claim: &ManualClaim,
    success: bool,
    output: &str,
    step: Checkpoint,
    now: &str,
) -> (ok: bool)
    requires
        old(l)@.well_formed(),
    ensures
        final(l)@.well_formed(),
        match executed(
            old(l)@,
            claim.job_id@,
            claim.occurrence_id@,
            success,
            output@,
            step,
            now@,
        ) {
            Some(after) => ok && final(l)@ == after,
            None => !ok && final(l)@ == old(l)@,
        },
{
    if !text::str_eq(l.job_id.as_str(), claim.job_id.as_str()) {
        return false;
    }
    l.checkpoint(
        claim.occurrence_id.as_str(),
        execution_state_name(success),
        "submitting",
        Some(output),
        step,
        now,
    )
}

/// How the delivery of an invocation is recorded.
pub open spec fn manual_delivery_state(delivery: Option<EffectOutcome>) -> Seq<char> {
    match delivery {
        None => "not_requested"@,
        Some(o) => delivery::delivery_state(Some(o)),
    }
}

/// What is recorded when an invocation ends.
pub struct FinishView {
    pub success: bool,
    pub delivery: Option<EffectOutcome>,
    pub finished_at: Moment,
    pub status: Seq<char>,
    /// The output as the job row and the history keep it.
    pub output: Seq<char>,
}

/// The job row once an invocation has ended: unlocked, with its last run. A run
/// that is not confirmed throughout disables the job and leaves it in doubt.
pub open spec fn finished_row(row: JobRowView, f: FinishView) -> JobRowView {
    let confirmed = effect_of(f.success, f.delivery) == EffectOutcome::Confirmed;
    JobRowView {
        job: JobView {
            last_run: Some(f.finished_at),
            last_status: Some(
                if confirmed {
                    f.status
                } else {
                    "uncertain"@
                },
            ),
            last_output: Some(f.output),
            enabled: row.job.enabled && confirmed,
            ..row.job
        },
        locked_at: None,
        lock_owner: None,
    }
}

/// Whether the job is locked by an occurrence.
pub open spec fn owns_lock(l: LedgerView, id: Seq<char>) -> bool {
    l.job matches Some(row) && row.lock_owner == Some(id)
}

/// Whether an occurrence has already ended in the given way.
pub open spec fn ended_as(o: OccurrenceView, f: FinishView) -> bool {
    &&& o.execution_state == execution_state(f.success)
    &&& o.delivery_state == manual_delivery_state(f.delivery)
}

/// The step that the end of an invocation is to its occurrence. One that has
/// already ended in this way is kept as it is; of any other the store's
/// transition rule says whether it may take the step.
pub open spec fn end_step(l: LedgerView, id: Seq<char>, f: FinishView, allowed: bool) -> Checkpoint {
    match ledger::position(l.occurrences, id) {
        Some(i) => if ended_as(l.occurrences[i], f) {
            Checkpoint::Kept
        } else if allowed {
            Checkpoint::Moved
        } else {
            Checkpoint::Refused
        },
        None => Checkpoint::Refused,
    }
}

/// The ledger once an invocation has ended; nothing where that cannot be recorded
/// as a whole. History and job row change only if the job is still locked by this
/// invocation. `runs` is the history with the run in it.
pub open spec fn finished(
    l: LedgerView,
    claim_job: Seq<char>,
    claim_id: Seq<char>,
    f: FinishView,
    allowed: bool,
    now: Seq<char>,
    runs: Option<Seq<RunView>>,
) -> Option<LedgerView> {
    if l.job_id != claim_job {
        None
    } else {
        match ledger::checkpointed(
            l,
            claim_id,
            execution_state(f.success),
            manual_delivery_state(f.delivery),
            None,
            end_step(l, claim_id, f, allowed),
            now,
        ) {
            None => None,
            Some(after) => if !owns_lock(l, claim_id) {
                Some(after)
            } else {
                match runs {
                    None => None,
                    Some(history) => Some(
                        LedgerView {
                            job: Some(finished_row(l.job->Some_0, f)),
                            runs: history,
                            ..after
                        },
                    ),
                }
            },
        }
    }
}

/// How the delivery of an invocation is recorded.
pub fn manual_delivery_name(delivery: Option<EffectOutcome>) -> (s: &'static str)
    ensures
        s@ == manual_delivery_state(delivery),
{
    match delivery {
        None => "not_requested",
        Some(o) => delivery::occurrence_delivery_state(Some(o)),
    }
}

/// The step that the end of an invocation is to its occurrence.
fn step_of_end(
    l: &Ledger,
    id: &str,
    success: bool,
    delivery: Option<EffectOutcome>,
    allowed: bool,
) -> (step: Checkpoint)
    ensures
        forall|f: FinishView|
            f.success == success && f.delivery == delivery ==> step == #[trigger] end_step(
                l@,
                id@,
                f,
                allowed,
            ),
{
    match l.position_of(id) {
        Some(i) => {
            assert(l@.occurrences[i as int] == l.occurrences@[i as int]@);
            if text::str_eq(
                l.occurrences[i].execution_state.as_str(),
                execution_state_name(success),
            ) && text::str_eq(
                l.occurrences[i].delivery_state.as_str(),
                manual_delivery_name(delivery),
            ) {
                Checkpoint::Kept
            } else if allowed {
                Checkpoint::Moved
            } else {
                Checkpoint::Refused
            }
        },
        None => Checkpoint::Refused,
    }
}

/// Records the end of an invocation: its receipt, its history and the release of
/// the lock, all or nothing. `allowed` is what the store's transition rule says of
/// the step; an end that is already recorded is no step, and stays recorded.
/// `runs` is the run history with this run in it, if the store could add it. Gives
/// what the invocation came to as a whole.
pub fn finish_manual_run(
    l: &mut Ledger,
    claim: &ManualClaim,
    execution_success: bool,
    delivery: Option<EffectOutcome>,
    finished_at: Moment,
    status: &str,
    output: &str,
    allowed: bool,
    now: &str,
    runs: Option<Vec<RunRow>>,
) -> (r: Option<EffectOutcome>)
    requires
        old(l)@.well_formed(),
    ensures
        final(l)@.well_formed(),
        match finished(
            old(l)@,
            claim.job_id@,
            claim.occurrence_id@,
            (FinishView {
                success: execution_success,
                delivery,
                finished_at,
                status: status@,
                output: output@,
            }),
            allowed,
            now@,
            match runs {
                Some(v) => Some(ledger::run_views(v@)),
                None => None,
            },
        ) {
            Some(after) => r == Some(effect_of(execution_success, delivery)) && final(l)@ == after,
            None => r is None && final(l)@ == old(l)@,
        },
{
    if !text::str_eq(l.job_id.as_str(), claim.job_id.as_str()) {
        return None;
    }
    let owns: bool = match &l.job {
        Some(row) => job::opt_is(&row.lock_owner, claim.occurrence_id.as_str()),
        None => false,
    };
    if owns && runs.is_none() {
        return None;
    }
    let state: &str = manual_delivery_name(delivery);
    let effect: EffectOutcome = manual_effect(execution_success, delivery);
    let ghost before = l@;
    let step: Checkpoint = step_of_end(
        l,
        claim.occurrence_id.as_str(),
        execution_success,
        delivery,
        allowed,
    );
    if !l.checkpoint(
        claim.occurrence_id.as_str(),
        execution_state_name(execution_success),
        state,
        None,
        step,
        now,
    ) {
        return None;
    }
    if owns {
        let confirmed: bool = effect == EffectOutcome::Confirmed;
        let last_status: String = if confirmed {
            status.to_owned()
        } else {
            "uncertain".to_owned()
        };
        match runs {
            Some(history) => {
                l.runs = history;
            },
            None => {},
        }
        match &mut l.job {
            Some(row) => {
                row.locked_at = None;
                row.lock_owner = None;
                row.job.last_run = Some(finished_at);
                row.job.last_status = Some(last_status);
                row.job.last_output = Some(output.to_owned());
                if !confirmed {
                    row.job.enabled = false;
                }
            },
            None => {},
        }
    }
    Some(effect)
}

} // verus!
