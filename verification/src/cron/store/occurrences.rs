//! Bounded, read-only pages of the occurrence ledger.

use crate::clock;
use crate::cron::delivery;
use crate::cron::store::reconciliation;
use crate::effect::EffectOutcome;
use crate::text;
use crate::turn::tool;
use vstd::prelude::*;
use vstd::string::*;
use vstd::utf8::*;

verus! {

/// The most bytes of an output that a page shows.
pub const OUTPUT_BYTES: usize = 8192;

/// The most bytes that an encoded page has.
pub const PAGE_BYTES: usize = 65536;

/// Which occurrences of a job are asked for.
#[derive(Clone, Debug)]
pub struct OccurrenceQuery {
    pub occurrence_id: Option<String>,
    pub before: Option<String>,
    pub limit: Option<u32>,
    pub include_output: bool,
}

impl Default for OccurrenceQuery {
    fn default() -> (q: Self)
        ensures
            q.occurrence_id is None,
            q.before is None,
            q.limit is None,
            !q.include_output,
    {
        OccurrenceQuery { occurrence_id: None, before: None, limit: None, include_output: false }
    }
}

/// What is shown of one occurrence.
#[derive(Clone, Debug)]
pub struct OccurrenceReceipt {
    pub occurrence_id: String,
    pub execution_state: String,
    pub delivery_state: String,
    pub execution_outcome: EffectOutcome,
    pub delivery_outcome: Option<EffectOutcome>,
    pub updated_at: String,
    /// Never set: reading a receipt allows nothing to be repeated.
    pub retry_allowed: bool,
    pub output: Option<String>,
    pub output_bytes: u64,
    pub output_truncated: bool,
}

/// A page of occurrences.
#[derive(Clone, Debug)]
pub struct OccurrencePage {
    pub storage_present: bool,
    pub occurrences: Vec<OccurrenceReceipt>,
    pub next_before: Option<String>,
}

/// Why no page is given.
#[derive(Clone, Copy, Debug, PartialEq, Eq, Structural)]
pub enum OccurrenceReadError {
    InvalidQuery,
    StorageUnavailable,
}

impl OccurrenceReadError {
    /// The key of the text that is shown of the error.
    pub fn message_key(self) -> (s: &'static str)
        ensures
            s@ == (match self {
                OccurrenceReadError::InvalidQuery => "cron-occurrences-invalid-query"@,
                OccurrenceReadError::StorageUnavailable => "cron-occurrences-storage-unavailable"@,
            }),
    {
        match self {
            OccurrenceReadError::InvalidQuery => "cron-occurrences-invalid-query",
            OccurrenceReadError::StorageUnavailable => "cron-occurrences-storage-unavailable",
        }
    }
}

/// A row as the store hands it out. A text is missing where the row has none, or
/// one that is too long to be shown.
pub struct RawOccurrence {
    pub occurrence_id: Option<String>,
    pub execution_state: Option<String>,
    pub delivery_state: Option<String>,
    pub updated_at: Option<String>,
    /// The first bytes of the output, where they were asked for.
    pub output: Option<Vec<u8>>,
    /// The size of the whole output.
    pub output_bytes: u64,
}

/// What the storage gave.
pub enum Storage {
    /// There is none.
    Absent,
    /// It cannot be read.
    Unavailable,
    /// The rows that the query selects, in the order of the query; nothing in the
    /// place of one that could not be read or decoded.
    Rows(Vec<Option<RawOccurrence>>),
}

/// The model of a query.
pub struct QueryView {
    pub occurrence_id: Option<Seq<char>>,
    pub before: Option<Seq<char>>,
    pub limit: Option<u32>,
    pub include_output: bool,
}

/// The model of a receipt.
pub struct ReceiptView {
    pub occurrence_id: Seq<char>,
    pub execution_state: Seq<char>,
    pub delivery_state: Seq<char>,
    pub execution_outcome: EffectOutcome,
    pub delivery_outcome: Option<EffectOutcome>,
    pub updated_at: Seq<char>,
    pub retry_allowed: bool,
    pub output: Option<Seq<char>>,
    pub output_bytes: u64,
    pub output_truncated: bool,
}

/// The model of a page.
pub struct PageView {
    pub storage_present: bool,
    pub occurrences: Seq<ReceiptView>,
    pub next_before: Option<Seq<char>>,
}

/// The model of a row.
pub struct RawView {
    pub occurrence_id: Option<Seq<char>>,
    pub execution_state: Option<Seq<char>>,
    pub delivery_state: Option<Seq<char>>,
    pub updated_at: Option<Seq<char>>,
    pub output: Option<Seq<u8>>,
    pub output_bytes: u64,
}

impl View for OccurrenceQuery {
    type V = QueryView;

    open spec fn view(&self) -> QueryView {
        QueryView {
            occurrence_id: tool::opt(self.occurrence_id),
            before: tool::opt(self.before),
            limit: self.limit,
            include_output: self.include_output,
        }
    }
}

impl View for OccurrenceReceipt {
    type V = ReceiptView;

    open spec fn view(&self) -> ReceiptView {
        ReceiptView {
            occurrence_id: self.occurrence_id@,
            execution_state: self.execution_state@,
            delivery_state: self.delivery_state@,
            execution_outcome: self.execution_outcome,
            delivery_outcome: self.delivery_outcome,
            updated_at: self.updated_at@,
            retry_allowed: self.retry_allowed,
            output: tool::opt(self.output),
            output_bytes: self.output_bytes,
            output_truncated: self.output_truncated,
        }
    }
}

/// The receipts of a list.
pub open spec fn receipt_views(list: Seq<OccurrenceReceipt>) -> Seq<ReceiptView> {
    list.map_values(|r: OccurrenceReceipt| r@)
}

impl View for OccurrencePage {
    type V = PageView;

    open spec fn view(&self) -> PageView {
        PageView {
            storage_present: self.storage_present,
            occurrences: receipt_views(self.occurrences@),
            next_before: tool::opt(self.next_before),
        }
    }
}

impl View for RawOccurrence {
    type V = RawView;

    open spec fn view(&self) -> RawView {
        RawView {
            occurrence_id: tool::opt(self.occurrence_id),
            execution_state: tool::opt(self.execution_state),
            delivery_state: tool::opt(self.delivery_state),
            updated_at: tool::opt(self.updated_at),
            output: match self.output {
                Some(b) => Some(b@),
                None => None,
            },
            output_bytes: self.output_bytes,
        }
    }
}

/// The number of occurrences that a query asks for.
pub open spec fn limit_of(q: QueryView) -> nat {
    match q.limit {
        Some(n) => n as nat,
        None => 20,
    }
}

/// Whether a query can be answered: the identifiers are ones, it asks for 1 to
/// 100 occurrences, and not for a single one and a page at once.
pub open spec fn valid_query(job_id: Seq<char>, q: QueryView) -> bool {
    &&& reconciliation::is_identity(job_id)
    &&& 1 <= limit_of(q) <= 100
    &&& q.occurrence_id matches Some(id) ==> reconciliation::is_identity(id)
    &&& q.before matches Some(id) ==> reconciliation::is_identity(id)
    &&& !(q.occurrence_id is Some && q.before is Some)
}

/// Whether an optional identifier, where it is there, is one.
fn valid_opt_identity(s: &Option<String>) -> (r: bool)
    ensures
        r == (tool::opt(*s) matches Some(id) ==> reconciliation::is_identity(id)),
{
    match s {
        Some(id) => reconciliation::valid_identity(id.as_str()),
        None => true,
    }
}

impl OccurrenceQuery {
    /// The number of occurrences that the query asks for, if it can be answered.
    pub fn validate(&self, job_id: &str) -> (r: Result<usize, OccurrenceReadError>)
        ensures
            match r {
                Ok(n) => valid_query(job_id@, self@) && n == limit_of(self@),
                Err(e) => !valid_query(job_id@, self@) && e == OccurrenceReadError::InvalidQuery,
            },
    {
        let limit: u32 = match self.limit {
            Some(n) => n,
            None => 20,
        };
        if !reconciliation::valid_identity(job_id) || limit < 1 || limit > 100
            || !valid_opt_identity(&self.occurrence_id) || !valid_opt_identity(&self.before) || (
        self.occurrence_id.is_some() && self.before.is_some()) {
            return Err(OccurrenceReadError::InvalidQuery);
        }
        Ok(limit as usize)
    }
}

/// The part of the statement that selects the rows of a query.
pub open spec fn selector(q: QueryView) -> Seq<char> {
    if q.occurrence_id is Some {
        "AND scheduled_at = ?2"@
    } else if q.before is Some {
        "AND scheduled_at < ?2"@
    } else {
        ""@
    }
}

/// The statement that reads the rows of a query. Each of its shapes walks the
/// primary key from the end: the job, then the occurrence.
pub fn query_sql(q: &OccurrenceQuery) -> (s: String)
    ensures
        s@
            == "SELECT CASE WHEN length(CAST(scheduled_at AS BLOB)) <= 512 THEN scheduled_at END,\n         CASE WHEN length(CAST(execution_state AS BLOB)) <= 64 THEN execution_state END,\n         CASE WHEN length(CAST(delivery_state AS BLOB)) <= 64 THEN delivery_state END,\n         CASE WHEN length(CAST(updated_at AS BLOB)) <= 64 THEN updated_at END,\n         CASE WHEN ?4 THEN substr(CAST(output AS BLOB), 1, ?5) END,\n         coalesce(length(CAST(output AS BLOB)), 0)\n         FROM cron_occurrences WHERE job_id = ?1 "@
            + selector(q@) + "\n         ORDER BY scheduled_at DESC LIMIT ?3"@,
{
    let mut s: String =
        "SELECT CASE WHEN length(CAST(scheduled_at AS BLOB)) <= 512 THEN scheduled_at END,\n         CASE WHEN length(CAST(execution_state AS BLOB)) <= 64 THEN execution_state END,\n         CASE WHEN length(CAST(delivery_state AS BLOB)) <= 64 THEN delivery_state END,\n         CASE WHEN length(CAST(updated_at AS BLOB)) <= 64 THEN updated_at END,\n         CASE WHEN ?4 THEN substr(CAST(output AS BLOB), 1, ?5) END,\n         coalesce(length(CAST(output AS BLOB)), 0)\n         FROM cron_occurrences WHERE job_id = ?1 ".to_owned();
    if q.occurrence_id.is_some() {
        s.append("AND scheduled_at = ?2");
    } else if q.before.is_some() {
        s.append("AND scheduled_at < ?2");
    } else {
        s.append("");
    }
    s.append("\n         ORDER BY scheduled_at DESC LIMIT ?3");
    s
}

/// What a state of execution stands for. Only `confirmed` is a confirmation, and
/// what is unknown is left to a person.
pub open spec fn execution_meaning(state: Seq<char>) -> EffectOutcome {
    if state == "confirmed"@ {
        EffectOutcome::Confirmed
    } else if state == "not_started"@ || state == "skipped"@ {
        EffectOutcome::NotStarted
    } else if state == "claimed"@ || state == "running"@ || state == "possibly_applied"@ {
        EffectOutcome::PossiblyApplied
    } else {
        EffectOutcome::ReconciliationRequired
    }
}

/// What a state of execution stands for.
pub fn execution_outcome(state: &str) -> (r: EffectOutcome)
    ensures
        r == execution_meaning(state@),
{
    if text::str_eq(state, "confirmed") {
        EffectOutcome::Confirmed
    } else if text::str_eq(state, "not_started") || text::str_eq(state, "skipped") {
        EffectOutcome::NotStarted
    } else if text::str_eq(state, "claimed") || text::str_eq(state, "running") || text::str_eq(
        state,
        "possibly_applied",
    ) {
        EffectOutcome::PossiblyApplied
    } else {
        EffectOutcome::ReconciliationRequired
    }
}

/// What a state of delivery stands for: nothing where nothing was to be
/// delivered.
pub open spec fn delivery_meaning(state: Seq<char>) -> Option<EffectOutcome> {
    if state == "not_requested"@ {
        None
    } else if state == "not_started"@ {
        Some(EffectOutcome::NotStarted)
    } else if state == "confirmed"@ {
        Some(EffectOutcome::Confirmed)
    } else if state == "confirmed_failed"@ {
        Some(EffectOutcome::ConfirmedFailed)
    } else if state == "partially_applied"@ {
        Some(EffectOutcome::PartiallyApplied)
    } else if state == "possibly_applied"@ {
        Some(EffectOutcome::PossiblyApplied)
    } else {
        Some(EffectOutcome::ReconciliationRequired)
    }
}

/// What a state of delivery stands for.
pub fn delivery_outcome(state: &str) -> (r: Option<EffectOutcome>)
    ensures
        r == delivery_meaning(state@),
{
    if text::str_eq(state, "not_requested") {
        None
    } else if text::str_eq(state, "not_started") {
        Some(EffectOutcome::NotStarted)
    } else if text::str_eq(state, "confirmed") {
        Some(EffectOutcome::Confirmed)
    } else if text::str_eq(state, "confirmed_failed") {
        Some(EffectOutcome::ConfirmedFailed)
    } else if text::str_eq(state, "partially_applied") {
        Some(EffectOutcome::PartiallyApplied)
    } else if text::str_eq(state, "possibly_applied") {
        Some(EffectOutcome::PossiblyApplied)
    } else {
        Some(EffectOutcome::ReconciliationRequired)
    }
}

/// What bytes are as UTF-8.
pub enum Utf8Check {
    /// They are UTF-8.
    Valid,
    /// They end inside a character that starts behind the first `valid_up_to`
    /// bytes.
    Cut { valid_up_to: usize },
    /// They are not UTF-8.
    Broken,
}

/// The model of `Utf8Check`.
pub enum Utf8View {
    Valid,
    Cut { valid_up_to: nat },
    Broken,
}

impl View for Utf8Check {
    type V = Utf8View;

    open spec fn view(&self) -> Utf8View {
        match *self {
            Utf8Check::Valid => Utf8View::Valid,
            Utf8Check::Cut { valid_up_to } => Utf8View::Cut { valid_up_to: valid_up_to as nat },
            Utf8Check::Broken => Utf8View::Broken,
        }
    }
}

/// What `std::str::from_utf8` finds bytes to be.
pub uninterp spec fn utf8_check_of(bytes: Seq<u8>) -> Utf8View;

/// `std::str::from_utf8` and what its error tells: the bytes are valid; or their
/// end was reached inside a character, 1 to 3 bytes behind the longest valid
/// part; or they are not UTF-8 for another reason. Which of the two failures it
/// is, is left to the name.
#[verifier::external_body]
fn check_utf8(bytes: &[u8]) -> (r: Utf8Check)
    ensures
        r@ == utf8_check_of(bytes@),
        r is Valid <==> valid_utf8(bytes@),
        r matches Utf8Check::Cut { valid_up_to } ==> valid_up_to < bytes@.len() <= valid_up_to + 3
            && valid_utf8(bytes@.take(valid_up_to as int)),
{
    match std::str::from_utf8(bytes) {
        Ok(_) => Utf8Check::Valid,
        Err(e) => match e.error_len() {
            None => Utf8Check::Cut { valid_up_to: e.valid_up_to() },
            Some(_) => Utf8Check::Broken,
        },
    }
}

/// The part of an output that is shown, given what its first bytes are as UTF-8
/// and how many bytes it has in all: a character that the bound cut in two is
/// left off. Nothing where the bytes are no text.
pub open spec fn shown_output(check: Utf8View, bytes: Seq<u8>, total: u64) -> Option<Seq<char>> {
    let kept = match check {
        Utf8View::Valid => Some(bytes),
        Utf8View::Cut { valid_up_to } => if total > bytes.len() && valid_up_to <= bytes.len() {
            Some(bytes.take(valid_up_to as int))
        } else {
            None
        },
        Utf8View::Broken => None,
    };
    match kept {
        Some(b) => if valid_utf8(b) {
            Some(decode_utf8(b))
        } else {
            None
        },
        None => None,
    }
}

/// The part of an output that is shown.
pub fn read_output(check: Utf8Check, bytes: Vec<u8>, total: u64) -> (r: Option<String>)
    ensures
        tool::opt(r) == shown_output(check@, bytes@, total),
{
    match check {
        Utf8Check::Valid => text::from_utf8(bytes),
        Utf8Check::Cut { valid_up_to } => {
            if total > bytes.len() as u64 && valid_up_to <= bytes.len() {
                let mut kept: Vec<u8> = bytes;
                kept.truncate(valid_up_to);
                assert(kept@ =~= bytes@.take(valid_up_to as int));
                text::from_utf8(kept)
            } else {
                None
            }
        },
        Utf8Check::Broken => None,
    }
}

/// The receipt of a row, given whether its time can be read and what the bytes of
/// its output are as UTF-8; nothing where the row cannot be shown.
pub open spec fn receipt_with(row: RawView, dated: bool, check: Utf8View) -> Option<ReceiptView> {
    match (row.occurrence_id, row.execution_state, row.delivery_state, row.updated_at) {
        (Some(id), Some(execution), Some(delivery), Some(updated_at)) => {
            let output = match row.output {
                Some(b) => shown_output(check, b, row.output_bytes),
                None => None,
            };
            if !reconciliation::is_identity(id) || !dated || (row.output is Some && output is None) {
                None
            } else {
                Some(
                    ReceiptView {
                        occurrence_id: id,
                        execution_state: execution,
                        delivery_state: delivery,
                        execution_outcome: execution_meaning(execution),
                        delivery_outcome: delivery_meaning(delivery),
                        updated_at,
                        retry_allowed: false,
                        output,
                        output_bytes: row.output_bytes,
                        output_truncated: output matches Some(s) && text::byte_len(s)
                            < row.output_bytes,
                    },
                )
            }
        },
        _ => None,
    }
}

/// The receipt of a row.
pub open spec fn receipt_of(row: RawView) -> Option<ReceiptView> {
    receipt_with(
        row,
        clock::rfc3339_moment(row.updated_at->Some_0) is Some,
        utf8_check_of(row.output->Some_0),
    )
}

/// A receipt, if there is one.
pub open spec fn opt_receipt(r: Option<OccurrenceReceipt>) -> Option<ReceiptView> {
    match r {
        Some(x) => Some(x@),
        None => None,
    }
}

/// The receipt of a row, given whether its time can be read and what the bytes of
/// its output are as UTF-8.
pub fn receipt_given(row: RawOccurrence, dated: bool, check: Utf8Check) -> (r: Option<
    OccurrenceReceipt,
>)
    ensures
        opt_receipt(r) == receipt_with(row@, dated, check@),
{
    match (row.occurrence_id, row.execution_state, row.delivery_state, row.updated_at) {
        (Some(id), Some(execution), Some(delivery), Some(updated_at)) => {
            if !reconciliation::valid_identity(id.as_str()) || !dated {
                return None;
            }
            let output: Option<String> = match row.output {
                Some(b) => match read_output(check, b, row.output_bytes) {
                    Some(s) => Some(s),
                    None => {
                        return None;
                    },
                },
                None => None,
            };
            let output_truncated: bool = match &output {
                Some(s) => (text::len_bytes(s.as_str()) as u64) < row.output_bytes,
                None => false,
            };
            Some(
                OccurrenceReceipt {
                    execution_outcome: execution_outcome(execution.as_str()),
                    delivery_outcome: delivery_outcome(delivery.as_str()),
                    occurrence_id: id,
                    execution_state: execution,
                    delivery_state: delivery,
                    updated_at,
                    retry_allowed: false,
                    output,
                    output_bytes: row.output_bytes,
                    output_truncated,
                },
            )
        },
        _ => None,
    }
}

/// The receipt of a row.
pub fn read_receipt(row: RawOccurrence) -> (r: Option<OccurrenceReceipt>)
    ensures
        opt_receipt(r) == receipt_of(row@),
{
    let dated: bool = match &row.updated_at {
        Some(t) => clock::parse_rfc3339(t.as_str()).is_some(),
        None => false,
    };
    let check: Utf8Check = match &row.output {
        Some(b) => check_utf8(b.as_slice()),
        None => Utf8Check::Valid,
    };
    receipt_given(row, dated, check)
}

} // verus!
