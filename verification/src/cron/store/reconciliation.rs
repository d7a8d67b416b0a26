//! Operators' evidence on occurrences that ended in doubt.

use crate::clock;
use crate::clock::Moment;
use crate::cron::job::JobView;
use crate::cron::store::ledger::{
    JobRow, JobRowView, Ledger, LedgerView, ReconciliationRow, ReconciliationView,
};
use crate::cron::store::snapshot;
use crate::cron::store::token;
use crate::digest;
use crate::text;
use crate::turn::tool;
use vstd::prelude::*;
use vstd::string::*;

verus! {

/// What an operator says became of an occurrence.
#[derive(Clone, Copy, Debug, PartialEq, Eq, Structural)]
pub enum ReconciliationDisposition {
    NoExternalEffect,
}

/// What an operator asks for.
#[derive(Clone, Debug)]
pub struct ReconciliationRequest {
    pub occurrence_id: String,
    pub expected_state: String,
    pub disposition: ReconciliationDisposition,
    /// The operator's own assertion, never inferred from an agent's output.
    pub evidence: String,
}

/// What is kept of an operator's evidence.
#[derive(Clone, Debug)]
pub struct ReconciliationReceipt {
    pub job_id: String,
    pub run_id: i64,
    pub request: ReconciliationRequest,
    /// Set by the operator's transport, not by the request.
    pub source: String,
    pub reconciled_at: String,
    pub retry_allowed: bool,
}

/// The model of a request.
pub struct RequestView {
    pub occurrence_id: Seq<char>,
    pub expected_state: Seq<char>,
    pub disposition: ReconciliationDisposition,
    pub evidence: Seq<char>,
}

/// The model of a receipt.
pub struct ReceiptView {
    pub job_id: Seq<char>,
    pub run_id: i64,
    pub request: RequestView,
    pub source: Seq<char>,
    pub reconciled_at: Seq<char>,
    pub retry_allowed: bool,
}

impl View for ReconciliationRequest {
    type V = RequestView;

    open spec fn view(&self) -> RequestView {
        RequestView {
            occurrence_id: self.occurrence_id@,
            expected_state: self.expected_state@,
            disposition: self.disposition,
            evidence: self.evidence@,
        }
    }
}

impl View for ReconciliationReceipt {
    type V = ReceiptView;

    open spec fn view(&self) -> ReceiptView {
        ReceiptView {
            job_id: self.job_id@,
            run_id: self.run_id,
            request: self.request@,
            source: self.source@,
            reconciled_at: self.reconciled_at@,
            retry_allowed: self.retry_allowed,
        }
    }
}

/// What is shown of an occurrence and the evidence on it.
#[derive(Clone, Debug)]
pub struct ReconciliationStatus {
    pub job_id: String,
    pub run_id: i64,
    pub occurrence_id: String,
    /// The token of the present state; none once evidence was given.
    pub expected_state: Option<String>,
    pub eligible: bool,
    pub enabled: bool,
    pub next_run: String,
    pub last_status: Option<String>,
    pub receipt: Option<ReconciliationReceipt>,
    /// Never set: neither a status nor a receipt allows a run to be repeated.
    pub retry_allowed: bool,
}

/// The model of a status.
pub struct StatusView {
    pub job_id: Seq<char>,
    pub run_id: i64,
    pub occurrence_id: Seq<char>,
    pub expected_state: Option<Seq<char>>,
    pub eligible: bool,
    pub enabled: bool,
    pub next_run: Seq<char>,
    pub last_status: Option<Seq<char>>,
    pub receipt: Option<ReceiptView>,
    pub retry_allowed: bool,
}

impl View for ReconciliationStatus {
    type V = StatusView;

    open spec fn view(&self) -> StatusView {
        StatusView {
            job_id: self.job_id@,
            run_id: self.run_id,
            occurrence_id: self.occurrence_id@,
            expected_state: tool::opt(self.expected_state),
            eligible: self.eligible,
            enabled: self.enabled,
            next_run: self.next_run@,
            last_status: tool::opt(self.last_status),
            receipt: match self.receipt {
                Some(r) => Some(r@),
                None => None,
            },
            retry_allowed: self.retry_allowed,
        }
    }
}

/// Why there is no status, or no receipt.
#[derive(Clone, Copy, Debug, PartialEq, Eq, Structural)]
pub enum ReconcileError {
    /// The request is not granted.
    Rejected,
    /// The job, the run or the occurrence is not there.
    Missing,
    /// The job's next run is at no time that can be written.
    UnwritableTime,
}

/// Whether a text can identify a job or an occurrence: 1 to 512 bytes, without
/// control characters.
pub open spec fn is_identity(s: Seq<char>) -> bool {
    0 < text::byte_len(s) <= 512 && !text::has_control(s)
}

/// Whether a text can identify a job or an occurrence.
pub fn valid_identity(s: &str) -> (r: bool)
    ensures
        r == is_identity(s@),
{
    let n: usize = text::len_bytes(s);
    n > 0 && n <= 512 && !text::contains_control(s)
}

/// Whether the three identifiers can identify a job, a run and an occurrence.
pub open spec fn valid_ids(job_id: Seq<char>, run_id: i64, occurrence_id: Seq<char>) -> bool {
    is_identity(job_id) && run_id > 0 && is_identity(occurrence_id)
}

/// Whether the three identifiers can identify a job, a run and an occurrence.
pub fn validate_ids(job_id: &str, run_id: i64, occurrence_id: &str) -> (r: bool)
    ensures
        r == valid_ids(job_id@, run_id, occurrence_id@),
{
    valid_identity(job_id) && run_id > 0 && valid_identity(occurrence_id)
}

/// Whether a request has the form of one: a token of 64 hexadecimal digits,
/// evidence that is not blank and has at most 4096 bytes, and a source of 1 to
/// 256 bytes without control characters.
pub open spec fn valid_request(request: RequestView, source: Seq<char>) -> bool {
    &&& digest::is_hex_digest(request.expected_state)
    &&& text::trimmed(request.evidence).len() > 0
    &&& text::byte_len(request.evidence) <= 4096
    &&& 0 < text::byte_len(source) <= 256
    &&& !text::has_control(source)
}

/// Whether a text consists of hexadecimal digits.
fn all_hex(s: &str) -> (r: bool)
    ensures
        r == forall|i: int| 0 <= i < s@.len() ==> digest::is_hex_digit(#[trigger] s@[i]),
{
    for c in it: s.chars()
        invariant
            it.seq() == s@,
            forall|i: int| 0 <= i < it.index() ==> digest::is_hex_digit(#[trigger] s@[i]),
    {
        if !(c >= '0' && c <= '9' || c >= 'a' && c <= 'f' || c >= 'A' && c <= 'F') {
            assert(!digest::is_hex_digit(s@[it.index() as int]));
            return false;
        }
    }
    true
}

/// Whether a request has the form of one.
pub fn validate_request(request: &ReconciliationRequest, source: &str) -> (r: bool)
    ensures
        r == valid_request(request@, source@),
{
    let all: Vec<char> = text::chars_of(request.evidence.as_str());
    let n: usize = text::len_bytes(source);
    text::len_bytes(request.expected_state.as_str()) == 64 && all_hex(
        request.expected_state.as_str(),
    ) && text::trim(all.as_slice()).len() > 0 && text::len_bytes(request.evidence.as_str()) <= 4096
        && n > 0 && n <= 256 && !text::contains_control(source)
}

/// The evidence on a run.
pub open spec fn receipt_at(list: Seq<ReconciliationView>, run_id: i64) -> Option<ReceiptView>
    decreases list.len(),
{
    if list.len() == 0 {
        None
    } else if list.last().run_id == run_id {
        Some(list.last().receipt)
    } else {
        receipt_at(list.drop_last(), run_id)
    }
}

/// A copy of a request.
fn copy_request(r: &ReconciliationRequest) -> (c: ReconciliationRequest)
    ensures
        c@ == r@,
{
    ReconciliationRequest {
        occurrence_id: r.occurrence_id.as_str().to_owned(),
        expected_state: r.expected_state.as_str().to_owned(),
        disposition: r.disposition,
        evidence: r.evidence.as_str().to_owned(),
    }
}

/// A copy of a receipt.
fn copy_receipt(r: &ReconciliationReceipt) -> (c: ReconciliationReceipt)
    ensures
        c@ == r@,
{
    ReconciliationReceipt {
        job_id: r.job_id.as_str().to_owned(),
        run_id: r.run_id,
        request: copy_request(&r.request),
        source: r.source.as_str().to_owned(),
        reconciled_at: r.reconciled_at.as_str().to_owned(),
        retry_allowed: r.retry_allowed,
    }
}

/// The evidence on a run.
pub fn receipt<'a>(l: &'a Ledger, run_id: i64) -> (r: Option<&'a ReconciliationReceipt>)
    ensures
        match r {
            Some(x) => receipt_at(l@.reconciliations, run_id) == Some(x@),
            None => receipt_at(l@.reconciliations, run_id) is None,
        },
{
    let ghost all = l@.reconciliations;
    let mut i: usize = l.reconciliations.len();
    assert(all.take(all.len() as int) == all);
    while i > 0
        invariant
            i <= l.reconciliations@.len(),
            all == l@.reconciliations,
            receipt_at(all, run_id) == receipt_at(all.take(i as int), run_id),
        decreases i,
    {
        assert(all.take(i as int).drop_last() == all.take(i - 1));
        assert(all.take(i as int).last() == l.reconciliations@[i - 1]@);
        i -= 1;
        if l.reconciliations[i].run_id == run_id {
            return Some(&l.reconciliations[i].receipt);
        }
    }
    None
}

/// What is shown of an occurrence and the evidence on it, for the token of its
/// present state, the time at which its run ended, and the job's next run.
/// Evidence that was given is shown even when the history no longer holds the
/// run.
pub open spec fn status_with(
    l: LedgerView,
    run_id: i64,
    occurrence_id: Seq<char>,
    token: Seq<char>,
    finished: Option<(int, int)>,
    next_run: Option<Seq<char>>,
) -> Result<StatusView, ReconcileError> {
    let given = receipt_at(l.reconciliations, run_id);
    let state = snapshot::snapshot_of(l, run_id, occurrence_id);
    if !valid_ids(l.job_id, run_id, occurrence_id) {
        Err(ReconcileError::Rejected)
    } else if given matches Some(r) && r.request.occurrence_id != occurrence_id {
        Err(ReconcileError::Rejected)
    } else if l.job is None || (given is None && state is None) {
        Err(ReconcileError::Missing)
    } else if next_run is None {
        Err(ReconcileError::UnwritableTime)
    } else {
        Ok(
            StatusView {
                job_id: l.job_id,
                run_id,
                occurrence_id,
                expected_state: match given {
                    Some(_) => None,
                    None => Some(token),
                },
                eligible: given is None && snapshot::eligible(state->Some_0, finished),
                enabled: l.job->Some_0.job.enabled,
                next_run: next_run->Some_0,
                last_status: l.job->Some_0.job.last_status,
                receipt: given,
                retry_allowed: false,
            },
        )
    }
}

/// What is shown of an occurrence and the evidence on it. `job` is the present job
/// in its serialized form, by which the state is told.
pub open spec fn status_of(
    l: LedgerView,
    run_id: i64,
    occurrence_id: Seq<char>,
    job: Seq<char>,
) -> Result<StatusView, ReconcileError> {
    let state = snapshot::snapshot_of(l, run_id, occurrence_id)->Some_0;
    let next_run = l.job->Some_0.job.next_run;
    status_with(
        l,
        run_id,
        occurrence_id,
        token::token_of(state, job),
        clock::rfc3339_moment(state.run.finished_at),
        clock::written(next_run),
    )
}

/// What is shown of an occurrence and the evidence on it, for the token of its
/// present state, the time at which its run ended, and the job's next run.
pub fn status_given(
    l: &Ledger,
    run_id: i64,
    occurrence_id: &str,
    token: String,
    finished: Option<Moment>,
    next_run: Option<String>,
) -> (r: Result<ReconciliationStatus, ReconcileError>)
    ensures
        match r {
            Ok(s) => status_with(
                l@,
                run_id,
                occurrence_id@,
                token@,
                snapshot::stamp(finished),
                tool::opt(next_run),
            ) == Ok::<_, ReconcileError>(s@),
            Err(e) => status_with(
                l@,
                run_id,
                occurrence_id@,
                token@,
                snapshot::stamp(finished),
                tool::opt(next_run),
            ) == Err::<StatusView, _>(e),
        },
{
    if !validate_ids(l.job_id.as_str(), run_id, occurrence_id) {
        return Err(ReconcileError::Rejected);
    }
    let given: Option<&ReconciliationReceipt> = receipt(l, run_id);
    if let Some(r) = given {
        if !text::str_eq(r.request.occurrence_id.as_str(), occurrence_id) {
            return Err(ReconcileError::Rejected);
        }
    }
    let row: &JobRow = match &l.job {
        Some(row) => row,
        None => {
            return Err(ReconcileError::Missing);
        },
    };
    let (expected_state, eligible): (Option<String>, bool) = match given {
        Some(_) => (None, false),
        None => match snapshot::snapshot(l, run_id, occurrence_id) {
            Some(s) => (Some(token), s.is_eligible_at(finished)),
            None => {
                return Err(ReconcileError::Missing);
            },
        },
    };
    match next_run {
        Some(next_run) => Ok(
            ReconciliationStatus {
                job_id: l.job_id.as_str().to_owned(),
                run_id,
                occurrence_id: occurrence_id.to_owned(),
                expected_state,
                eligible,
                enabled: row.job.enabled,
                next_run,
                last_status: tool::copy_opt(&row.job.last_status),
                receipt: match given {
                    Some(r) => Some(copy_receipt(r)),
                    None => None,
                },
                retry_allowed: false,
            },
        ),
        None => Err(ReconcileError::UnwritableTime),
    }
}

/// What is shown of an occurrence and the evidence on it. `job` is the present job
/// in its serialized form; where there is no job it is not looked at.
pub fn reconciliation_status(l: &Ledger, run_id: i64, occurrence_id: &str, job: &str) -> (r: Result<
    ReconciliationStatus,
    ReconcileError,
>)
    ensures
        match r {
            Ok(s) => status_of(l@, run_id, occurrence_id@, job@) == Ok::<_, ReconcileError>(s@),
            Err(e) => status_of(l@, run_id, occurrence_id@, job@) == Err::<StatusView, _>(e),
        },
        r matches Ok(s) ==> (s.expected_state matches Some(token) ==> digest::is_hex_digest(
            token@,
        )),
{
    let (token, finished): (String, Option<Moment>) = match snapshot::snapshot(
        l,
        run_id,
        occurrence_id,
    ) {
        Some(s) => (s.token(job), clock::parse_rfc3339(s.run.finished_at.as_str())),
        None => (String::new(), None),
    };
    let next_run: Option<String> = match &l.job {
        Some(row) => clock::moment_text(row.job.next_run),
        None => None,
    };
    let ghost shown = token@;
    let r = status_given(l, run_id, occurrence_id, token, finished, next_run);
    assert(r matches Ok(s) ==> s@.expected_state == tool::opt(s.expected_state));
    assert(r matches Ok(s) ==> (s@.expected_state is Some ==> s@.expected_state == Some(shown)));
    r
}

/// The receipt that a request is granted with.
pub open spec fn granted(
    l: LedgerView,
    run_id: i64,
    request: RequestView,
    source: Seq<char>,
    now: Seq<char>,
) -> ReceiptView {
    ReceiptView {
        job_id: l.job_id,
        run_id,
        request,
        source,
        reconciled_at: now,
        retry_allowed: false,
    }
}

/// The ledger once a request is granted: the evidence is added, and the job is no
/// longer in doubt. Runs and occurrences stay as they are, and so does the rest
/// of the job; it is not enabled.
pub open spec fn reconciled(
    l: LedgerView,
    run_id: i64,
    request: RequestView,
    source: Seq<char>,
    now: Seq<char>,
    occurrence_updated_at: Seq<char>,
) -> LedgerView {
    LedgerView {
        job: match l.job {
            Some(row) => Some(
                JobRowView {
                    job: JobView {
                        last_status: Some("reconciled_no_external_effect"@),
                        ..row.job
                    },
                    ..row
                },
            ),
            None => None,
        },
        reconciliations: l.reconciliations.push(
            ReconciliationView {
                run_id,
                occurrence_id: request.occurrence_id,
                occurrence_updated_at,
                receipt: granted(l, run_id, request, source, now),
            },
        ),
        ..l
    }
}

/// Whether a request is granted, and if not, why, for the token of the present
/// state and the time at which its run ended. The same request from the same
/// source is granted again with the receipt that it has; another one on the same
/// run is not.
pub open spec fn decision(
    l: LedgerView,
    run_id: i64,
    request: RequestView,
    source: Seq<char>,
    now: Seq<char>,
    token: Seq<char>,
    finished: Option<(int, int)>,
) -> Result<ReceiptView, ReconcileError> {
    if !valid_ids(l.job_id, run_id, request.occurrence_id) || !valid_request(request, source) {
        Err(ReconcileError::Rejected)
    } else {
        match receipt_at(l.reconciliations, run_id) {
            Some(r) => if r.request == request && r.source == source {
                Ok(r)
            } else {
                Err(ReconcileError::Rejected)
            },
            None => match snapshot::snapshot_of(l, run_id, request.occurrence_id) {
                None => Err(ReconcileError::Missing),
                Some(s) => if snapshot::eligible(s, finished) && token == request.expected_state {
                    Ok(granted(l, run_id, request, source, now))
                } else {
                    Err(ReconcileError::Rejected)
                },
            },
        }
    }
}

/// Whether a request is granted on the ledger as it is, and if not, why. `job` is
/// the present job in its serialized form.
pub open spec fn reconciliation(
    l: LedgerView,
    run_id: i64,
    request: RequestView,
    source: Seq<char>,
    now: Seq<char>,
    job: Seq<char>,
) -> Result<ReceiptView, ReconcileError> {
    let state = snapshot::snapshot_of(l, run_id, request.occurrence_id)->Some_0;
    decision(
        l,
        run_id,
        request,
        source,
        now,
        token::token_of(state, job),
        clock::rfc3339_moment(state.run.finished_at),
    )
}

/// The ledger after a request that is granted.
pub open spec fn after_grant(
    l: LedgerView,
    run_id: i64,
    request: RequestView,
    source: Seq<char>,
    now: Seq<char>,
) -> LedgerView {
    if receipt_at(l.reconciliations, run_id) is Some {
        l
    } else {
        let state = snapshot::snapshot_of(l, run_id, request.occurrence_id)->Some_0;
        reconciled(l, run_id, request, source, now, state.occurrence.updated_at)
    }
}

/// Whether two requests are the same.
fn same_request(a: &ReconciliationRequest, b: &ReconciliationRequest) -> (r: bool)
    ensures
        r == (a@ == b@),
{
    text::str_eq(a.occurrence_id.as_str(), b.occurrence_id.as_str()) && text::str_eq(
        a.expected_state.as_str(),
        b.expected_state.as_str(),
    ) && a.disposition == b.disposition && text::str_eq(a.evidence.as_str(), b.evidence.as_str())
}

/// Takes an operator's evidence that an occurrence had no effect, if the token is
/// the one that the operator names and evidence may be given on the state. The
/// evidence and the release of the job come together or not at all.
pub fn reconcile_given(
    l: &mut Ledger,
    run_id: i64,
    request: &ReconciliationRequest,
    source: &str,
    now: &str,
    token: &str,
    finished: Option<Moment>,
) -> (r: Result<ReconciliationReceipt, ReconcileError>)
    requires
        old(l)@.well_formed(),
    ensures
        final(l)@.well_formed(),
        match r {
            Ok(x) => {
                &&& decision(
                    old(l)@,
                    run_id,
                    request@,
                    source@,
                    now@,
                    token@,
                    snapshot::stamp(finished),
                ) == Ok::<_, ReconcileError>(x@)
                &&& final(l)@ == after_grant(old(l)@, run_id, request@, source@, now@)
            },
            Err(e) => {
                &&& decision(
                    old(l)@,
                    run_id,
                    request@,
                    source@,
                    now@,
                    token@,
                    snapshot::stamp(finished),
                ) == Err::<ReceiptView, _>(e)
                &&& final(l)@ == old(l)@
            },
        },
{
    if !validate_ids(l.job_id.as_str(), run_id, request.occurrence_id.as_str())
        || !validate_request(request, source) {
        return Err(ReconcileError::Rejected);
    }
    if let Some(given) = receipt(l, run_id) {
        if same_request(&given.request, request) && text::str_eq(given.source.as_str(), source) {
            return Ok(copy_receipt(given));
        }
        return Err(ReconcileError::Rejected);
    }
    let updated_at: String = match snapshot::snapshot(l, run_id, request.occurrence_id.as_str()) {
        Some(s) => {
            if !s.is_eligible_at(finished) || !text::str_eq(
                token,
                request.expected_state.as_str(),
            ) {
                return Err(ReconcileError::Rejected);
            }
            s.occurrence.updated_at.as_str().to_owned()
        },
        None => {
            return Err(ReconcileError::Missing);
        },
    };
    let given = ReconciliationReceipt {
        job_id: l.job_id.as_str().to_owned(),
        run_id,
        request: copy_request(request),
        source: source.to_owned(),
        reconciled_at: now.to_owned(),
        retry_allowed: false,
    };
    let row = ReconciliationRow {
        run_id,
        occurrence_id: request.occurrence_id.as_str().to_owned(),
        occurrence_updated_at: updated_at,
        receipt: copy_receipt(&given),
    };
    let ghost before = l@;
    l.reconciliations.push(row);
    assert(l@.reconciliations =~= before.reconciliations.push(row@));
    match &mut l.job {
        Some(job_row) => {
            job_row.job.last_status = Some("reconciled_no_external_effect".to_owned());
        },
        None => {},
    }
    Ok(given)
}

/// Takes an operator's evidence that an occurrence had no effect, if the state is
/// the one that the operator looked at and evidence may be given on it. `job` is the
/// present job in its serialized form; where there is no job it is not looked at.
pub fn reconcile_no_external_effect(
    l: &mut Ledger,
    run_id: i64,
    request: &ReconciliationRequest,
    source: &str,
    now: &str,
    job: &str,
) -> (r: Result<ReconciliationReceipt, ReconcileError>)
    requires
        old(l)@.well_formed(),
    ensures
        final(l)@.well_formed(),
        match r {
            Ok(x) => {
                &&& reconciliation(old(l)@, run_id, request@, source@, now@, job@) == Ok::<
                    _,
                    ReconcileError,
                >(x@)
                &&& final(l)@ == after_grant(old(l)@, run_id, request@, source@, now@)
            },
            Err(e) => {
                &&& reconciliation(old(l)@, run_id, request@, source@, now@, job@) == Err::<
                    ReceiptView,
                    _,
                >(e)
                &&& final(l)@ == old(l)@
            },
        },
{
    let (token, finished): (String, Option<Moment>) = match snapshot::snapshot(
        l,
        run_id,
        request.occurrence_id.as_str(),
    ) {
        Some(s) => (s.token(job), clock::parse_rfc3339(s.run.finished_at.as_str())),
        None => (String::new(), None),
    };
    reconcile_given(l, run_id, request, source, now, token.as_str(), finished)
}

} // verus!
