//! What holds of reading the occurrence ledger: queries, rows and pages.

use crate::clock;
use crate::cron::dispatch_laws::reads_same;
use crate::cron::store::occurrences;
use crate::cron::store::occurrences::{
    delivery_outcome, execution_outcome, query_sql, read_output, read_receipt, receipt_given,
    OccurrencePage, OccurrenceQuery, OccurrenceReadError, OccurrenceReceipt, RawOccurrence,
    ReceiptView, Storage, Utf8Check,
};
use crate::cron::store::page;
use crate::cron::store::page::{page_given, read_occurrences, read_page, receipt_text};
use crate::cron::store::reconciliation;
use crate::effect::EffectOutcome;
use crate::json;
use crate::text;
use crate::turn::tool;
use vstd::prelude::*;
use vstd::string::*;
use vstd::utf8::*;

verus! {

/// Whether a text can identify a job or an occurrence.
pub open spec fn identifies(s: Seq<char>) -> bool {
    1 <= text::byte_len(s) <= 512 && !text::has_control(s)
}

/// A query can be answered exactly if it asks for 1 to 100 occurrences, of which
/// there are 20 if it does not say, with identifiers that are ones, and not for one
/// occurrence and a page at once.
pub proof fn law_which_queries_are_answered(
    q: &OccurrenceQuery,
    job_id: &str,
    r: Result<usize, OccurrenceReadError>,
)
    requires
        call_ensures(OccurrenceQuery::validate, (q, job_id), r),
    ensures
        ({
            let limit: int = match q.limit {
                Some(n) => n as int,
                None => 20,
            };
            &&& r is Ok <==> {
                &&& identifies(job_id@)
                &&& 1 <= limit <= 100
                &&& q.occurrence_id matches Some(id) ==> identifies(id@)
                &&& q.before matches Some(id) ==> identifies(id@)
                &&& q.occurrence_id is None || q.before is None
            }
            &&& r matches Ok(n) ==> n == limit
            &&& r is Err ==> r == Err::<usize, _>(OccurrenceReadError::InvalidQuery)
        }),
{
    assert(q@.occurrence_id == tool::opt(q.occurrence_id));
    assert(q@.before == tool::opt(q.before));
}

/// What is shown of a failed reading, and what a query asks for that says nothing.
pub proof fn law_failed_readings_have_a_text(
    e: OccurrenceReadError,
    s: &'static str,
    q: OccurrenceQuery,
)
    requires
        call_ensures(OccurrenceReadError::message_key, (e,), s),
        call_ensures(OccurrenceQuery::default, (), q),
    ensures
        e is InvalidQuery ==> s@ == "cron-occurrences-invalid-query"@,
        e is StorageUnavailable ==> s@ == "cron-occurrences-storage-unavailable"@,
        q.occurrence_id is None,
        q.before is None,
        q.limit is None,
        !q.include_output,
{
}

/// The statement for a single occurrence asks for equality, the one for a page for
/// what comes before; both differ from the plain one in nothing else.
pub proof fn law_statements_differ_in_their_selection(
    a: &OccurrenceQuery,
    b: &OccurrenceQuery,
    c: &OccurrenceQuery,
    one: String,
    next: String,
    all: String,
)
    requires
        a.occurrence_id is Some,
        b.occurrence_id is None,
        b.before is Some,
        c.occurrence_id is None,
        c.before is None,
        call_ensures(query_sql, (a,), one),
        call_ensures(query_sql, (b,), next),
        call_ensures(query_sql, (c,), all),
    ensures
        exists|head: Seq<char>, tail: Seq<char>|
            one@ == #[trigger] (head + "AND scheduled_at = ?2"@ + tail) && next@ == head
                + "AND scheduled_at < ?2"@ + tail && all@ == head + tail && tail
                == "\n         ORDER BY scheduled_at DESC LIMIT ?3"@,
{
    reveal_strlit("");
    let head =
        "SELECT CASE WHEN length(CAST(scheduled_at AS BLOB)) <= 512 THEN scheduled_at END,\n         CASE WHEN length(CAST(execution_state AS BLOB)) <= 64 THEN execution_state END,\n         CASE WHEN length(CAST(delivery_state AS BLOB)) <= 64 THEN delivery_state END,\n         CASE WHEN length(CAST(updated_at AS BLOB)) <= 64 THEN updated_at END,\n         CASE WHEN ?4 THEN substr(CAST(output AS BLOB), 1, ?5) END,\n         coalesce(length(CAST(output AS BLOB)), 0)\n         FROM cron_occurrences WHERE job_id = ?1 "@;
    let tail = "\n         ORDER BY scheduled_at DESC LIMIT ?3"@;
    assert(head + ""@ + tail =~= head + tail);
    assert(one@ == head + "AND scheduled_at = ?2"@ + tail);
}

/// What the names of states in the ledger stand for. A name that is not one of them
/// stands for something that only a person can tell.
pub proof fn law_what_states_stand_for(
    state: &str,
    execution: EffectOutcome,
    delivery: Option<EffectOutcome>,
)
    requires
        call_ensures(execution_outcome, (state,), execution),
        call_ensures(delivery_outcome, (state,), delivery),
    ensures
        state@ == "confirmed"@ ==> execution is Confirmed && delivery == Some(
            EffectOutcome::Confirmed,
        ),
        execution is Confirmed ==> state@ == "confirmed"@,
        execution is NotStarted ==> state@ == "not_started"@ || state@ == "skipped"@,
        state@ == "not_started"@ || state@ == "skipped"@ ==> execution is NotStarted,
        execution is PossiblyApplied ==> state@ == "claimed"@ || state@ == "running"@ || state@
            == "possibly_applied"@,
        state@ == "claimed"@ || state@ == "running"@ || state@ == "possibly_applied"@
            ==> execution is PossiblyApplied,
        !(execution is ConfirmedFailed) && !(execution is PartiallyApplied),
        delivery is None <==> state@ == "not_requested"@,
        delivery == Some(EffectOutcome::NotStarted) <==> state@ == "not_started"@,
        delivery == Some(EffectOutcome::Confirmed) <==> state@ == "confirmed"@,
        delivery == Some(EffectOutcome::ConfirmedFailed) <==> state@ == "confirmed_failed"@,
        delivery == Some(EffectOutcome::PartiallyApplied) <==> state@ == "partially_applied"@,
        delivery == Some(EffectOutcome::PossiblyApplied) <==> state@ == "possibly_applied"@,
{
    reveal_strlit("confirmed");
    reveal_strlit("not_started");
    reveal_strlit("skipped");
    reveal_strlit("claimed");
    reveal_strlit("running");
    reveal_strlit("possibly_applied");
    reveal_strlit("not_requested");
    reveal_strlit("confirmed_failed");
    reveal_strlit("partially_applied");
    assert("confirmed"@.len() == 9 && "confirmed"@[0] == 'c');
    assert("not_started"@.len() == 11 && "not_started"@[0] == 'n');
    assert("skipped"@.len() == 7 && "skipped"@[0] == 's');
    assert("claimed"@.len() == 7 && "claimed"@[0] == 'c');
    assert("running"@.len() == 7 && "running"@[0] == 'r');
    assert("possibly_applied"@.len() == 16 && "possibly_applied"@[0] == 'p');
    assert("not_requested"@.len() == 13 && "not_requested"@[0] == 'n');
    assert("confirmed_failed"@.len() == 16 && "confirmed_failed"@[0] == 'c');
    assert("partially_applied"@.len() == 17 && "partially_applied"@[0] == 'p');
}

/// An output is shown as far as its bytes are text. A character that was cut off is
/// left out, but only where there is more of the output than the bytes at hand.
pub proof fn law_what_is_shown_of_an_output(
    check: Utf8Check,
    bytes: Vec<u8>,
    total: u64,
    r: Option<String>,
)
    requires
        call_ensures(read_output, (check, bytes, total), r),
    ensures
        check is Broken ==> r is None,
        check is Valid ==> (r is Some <==> valid_utf8(bytes@)) && (r matches Some(s) ==> s@
            == decode_utf8(bytes@)),
        check matches Utf8Check::Cut { valid_up_to } ==> {
            let kept = bytes@.take(valid_up_to as int);
            &&& r is Some <==> total > bytes@.len() && valid_up_to <= bytes@.len() && valid_utf8(
                kept,
            )
            &&& r matches Some(s) ==> s@ == decode_utf8(kept)
        },
{
    assert(tool::opt(r) is Some <==> r is Some);
}

/// A row is shown exactly if it has an identifier that is one, both states and a
/// time that can be read, and an output, if it comes with one, that is text. What is
/// shown is what the row says; it never allows a repetition.
pub proof fn law_what_is_shown_of_a_row(
    row: RawOccurrence,
    dated: bool,
    check: Utf8Check,
    execution_text: &str,
    delivery_text: &str,
    execution: EffectOutcome,
    delivery: Option<EffectOutcome>,
    bytes: Vec<u8>,
    output: Option<String>,
    r: Option<OccurrenceReceipt>,
)
    requires
        row.execution_state is Some ==> execution_text@ == row.execution_state->Some_0@,
        row.delivery_state is Some ==> delivery_text@ == row.delivery_state->Some_0@,
        call_ensures(execution_outcome, (execution_text,), execution),
        call_ensures(delivery_outcome, (delivery_text,), delivery),
        row.output is Some ==> bytes@ == row.output->Some_0@,
        call_ensures(read_output, (check, bytes, row.output_bytes), output),
        call_ensures(receipt_given, (row, dated, check), r),
    ensures
        r is Some <==> {
            &&& row.occurrence_id matches Some(id) && identifies(id@)
            &&& row.execution_state is Some
            &&& row.delivery_state is Some
            &&& row.updated_at is Some
            &&& dated
            &&& row.output is Some ==> output is Some
        },
        r matches Some(x) ==> {
            &&& x.occurrence_id@ == row.occurrence_id->Some_0@
            &&& x.execution_state@ == row.execution_state->Some_0@
            &&& x.delivery_state@ == row.delivery_state->Some_0@
            &&& x.execution_outcome == execution
            &&& x.delivery_outcome == delivery
            &&& x.updated_at@ == row.updated_at->Some_0@
            &&& !x.retry_allowed
            &&& x.output is Some <==> row.output is Some
            &&& x.output matches Some(s) ==> s@ == output->Some_0@
            &&& x.output_bytes == row.output_bytes
            &&& x.output_truncated <==> (x.output matches Some(s) && text::byte_len(s@)
                < row.output_bytes)
        },
{
    let v = row@;
    assert(v.occurrence_id == tool::opt(row.occurrence_id));
    assert(v.execution_state == tool::opt(row.execution_state));
    assert(v.delivery_state == tool::opt(row.delivery_state));
    assert(v.updated_at == tool::opt(row.updated_at));
    assert(tool::opt(output) is Some <==> output is Some);
    if let Some(x) = r {
        assert(x@.output == tool::opt(x.output));
    }
}

/// A row is read with the time that it names and the bytes that it has.
pub proof fn law_rows_are_read_with_their_own_time(
    row: RawOccurrence,
    r: Option<OccurrenceReceipt>,
)
    requires
        call_ensures(read_receipt, (row,), r),
    ensures
        r matches Some(x) ==> {
            &&& row.updated_at matches Some(t) && clock::rfc3339_moment(t@) is Some && x.updated_at@
                == t@
            &&& row.occurrence_id matches Some(id) && x.occurrence_id@ == id@
            &&& row.execution_state matches Some(e) && x.execution_state@ == e@
            &&& row.delivery_state matches Some(d) && x.delivery_state@ == d@
            &&& !x.retry_allowed
            &&& x.output is Some <==> row.output is Some
        },
        row.output is None ==> (r is Some <==> {
            &&& row.occurrence_id matches Some(id) && identifies(id@)
            &&& row.execution_state is Some
            &&& row.delivery_state is Some
            &&& row.updated_at matches Some(t) && clock::rfc3339_moment(t@) is Some
        }),
{
    let v = row@;
    assert(v.occurrence_id == tool::opt(row.occurrence_id));
    assert(v.execution_state == tool::opt(row.execution_state));
    assert(v.delivery_state == tool::opt(row.delivery_state));
    assert(v.updated_at == tool::opt(row.updated_at));
    if let Some(x) = r {
        assert(x@.output == tool::opt(x.output));
    }
}

/// The name of an outcome between quotation marks.
pub open spec fn quoted(o: EffectOutcome) -> Seq<char> {
    match o {
        EffectOutcome::NotStarted => json::string_json("not_started"@),
        EffectOutcome::Confirmed => json::string_json("confirmed"@),
        EffectOutcome::ConfirmedFailed => json::string_json("confirmed_failed"@),
        EffectOutcome::PartiallyApplied => json::string_json("partially_applied"@),
        EffectOutcome::PossiblyApplied => json::string_json("possibly_applied"@),
        EffectOutcome::ReconciliationRequired => json::string_json("reconciliation_required"@),
    }
}

/// A truth value as it is written.
pub open spec fn truth(b: bool) -> Seq<char> {
    if b {
        "true"@
    } else {
        "false"@
    }
}

/// A receipt is written with all its fields, in their order; an output that is not
/// shown is left out.
pub proof fn law_receipts_are_written_in_full(r: &OccurrenceReceipt, out: String)
    requires
        call_ensures(receipt_text, (r,), out),
    ensures
        out@ == "{\"occurrence_id\":"@ + json::string_json(r.occurrence_id@)
            + ",\"execution_state\":"@ + json::string_json(r.execution_state@)
            + ",\"delivery_state\":"@ + json::string_json(r.delivery_state@)
            + ",\"execution_outcome\":"@ + quoted(r.execution_outcome) + ",\"delivery_outcome\":"@
            + (match r.delivery_outcome {
            Some(o) => quoted(o),
            None => "null"@,
        }) + ",\"updated_at\":"@ + json::string_json(r.updated_at@) + ",\"retry_allowed\":"@
            + truth(r.retry_allowed) + (match r.output {
            Some(s) => ",\"output\":"@ + json::string_json(s@),
            None => ""@,
        }) + ",\"output_bytes\":"@ + text::decimal(r.output_bytes as nat)
            + ",\"output_truncated\":"@ + truth(r.output_truncated) + "}"@,
{
    assert(r@.output == tool::opt(r.output));
    assert(page::outcome_json(r.execution_outcome) == quoted(r.execution_outcome));
    assert(page::opt_outcome_json(r.delivery_outcome) == (match r.delivery_outcome {
        Some(o) => quoted(o),
        None => "null"@,
    }));
    assert(tool::bool_json(r.retry_allowed) == truth(r.retry_allowed));
    assert(tool::bool_json(r.output_truncated) == truth(r.output_truncated));
    assert((match r@.output {
        Some(s) => ",\"output\":"@ + json::string_json(s),
        None => ""@,
    }) == (match r.output {
        Some(s) => ",\"output\":"@ + json::string_json(s@),
        None => ""@,
    }));
}

/// A page with these receipts and the place at which the next one would go on, as
/// it is written.
#[verifier::opaque]
pub open spec fn written_page(shown: Seq<ReceiptView>, cursor: Seq<char>) -> Seq<char> {
    "{\"storage_present\":"@ + "true"@ + ",\"occurrences\":["@ + page::receipts_json(shown)
        + "],\"next_before\":"@ + json::string_json(cursor) + "}"@
}

/// Receipts on a page stand one behind the other with a comma between each two.
pub proof fn law_receipts_are_separated_by_commas(list: Seq<ReceiptView>, r: ReceiptView)
    ensures
        page::receipts_json(seq![r]) == page::receipt_json(r),
        list.len() > 0 ==> page::receipts_json(list.push(r)) == page::receipts_json(list)
            + seq![','] + page::receipt_json(r),
        page::receipts_json(Seq::empty()).len() == 0,
{
    assert(list.push(r).drop_last() =~= list);
    assert(seq![r][0] == r);
}

/// Whether what is shown ends where it has to: with the rows, at the limit, at the
/// one that was asked for, or before a row that would make the page too long.
spec fn ends_where_it_must(
    rows: Seq<Option<ReceiptView>>,
    exact: bool,
    limit: nat,
    before: nat,
    all: Seq<ReceiptView>,
    next: Option<Seq<char>>,
) -> bool {
    let n = all.len() - before;
    &&& before <= all.len() <= limit
    &&& 0 <= n <= rows.len()
    &&& forall|i: int| 0 <= i < n ==> #[trigger] rows[i] == Some(all[before + i])
    &&& n == rows.len() || all.len() == limit || (exact && n == 1) || (rows[n] is Some
        && text::byte_len(
        written_page(all.push(rows[n]->Some_0), rows[n]->Some_0.occurrence_id),
    ) > 65536)
    &&& exact && before == 0 ==> n <= 1 && next is None
    &&& !exact ==> (next is Some <==> n < rows.len())
    &&& next is Some ==> all.len() > 0 && next == Some(all.last().occurrence_id)
    &&& forall|i: int|
        0 <= i < n ==> text::byte_len(
            written_page(
                all.take(before + i + 1),
                (#[trigger] all[before + i]).occurrence_id,
            ),
        ) <= 65536
}

/// Whether a row that the page comes to keeps it from being shown.
spec fn has_bad_row(
    rows: Seq<Option<ReceiptView>>,
    limit: nat,
    before: nat,
) -> bool {
    exists|k: int|
        0 <= k < rows.len() && before + k < limit && (#[trigger] rows[k] is None || (before + k == 0
            && text::byte_len(
            written_page(seq![rows[k]->Some_0], rows[k]->Some_0.occurrence_id),
        ) > 65536)) && forall|j: int| 0 <= j < k ==> (#[trigger] rows[j]) is Some
}

proof fn lemma_fits(shown: Seq<ReceiptView>, r: ReceiptView)
    ensures
        page::fits(shown, r) <==> text::byte_len(written_page(shown.push(r), r.occurrence_id))
            <= 65536,
{
    reveal(written_page);
}

#[verifier::spinoff_prover]
#[verifier::rlimit(60)]
proof fn lemma_filled(
    rows: Seq<Option<ReceiptView>>,
    exact: bool,
    limit: nat,
    shown: Seq<ReceiptView>,
)
    requires
        shown.len() <= limit,
        limit >= 1,
        exact ==> shown.len() == 0,
    ensures
        match page::filled(rows, exact, limit, shown) {
            Some((all, next)) => ends_where_it_must(rows, exact, limit, shown.len(), all, next)
                && all.take(shown.len() as int) == shown,
            None => has_bad_row(rows, limit, shown.len()),
        },
    decreases rows.len(),
{
    assert(shown.take(shown.len() as int) =~= shown);
    if rows.len() > 0 && shown.len() < limit {
        match rows[0] {
            None => {
                assert(has_bad_row(rows, limit, shown.len()));
            },
            Some(r) => {
                let more = shown.push(r);
                assert(more.last() == r);
                lemma_fits(shown, r);
                assert(more.take(shown.len() as int) =~= shown);
                assert(more.take(more.len() as int) =~= more);
                if !page::fits(shown, r) {
                    if shown.len() == 0 {
                        assert(more =~= seq![r]);
                        assert(rows[0] == Some(r));
                    }
                } else if exact {
                    assert(more[0] == r);
                } else {
                    let rest = rows.drop_first();
                    lemma_filled(rest, exact, limit, more);
                    assert forall|i: int| 0 <= i < rest.len() implies #[trigger] rest[i] == rows[i
                        + 1] by {}
                    match page::filled(rest, exact, limit, more) {
                        Some((all, next)) => {
                            let before = shown.len();
                            assert(all.take(before as int) =~= all.take(more.len() as int).take(
                                before as int,
                            ));
                            assert(all[before as int] == r) by {
                                assert(all.take(more.len() as int)[before as int] == r);
                            }
                            assert forall|i: int| 0 <= i < all.len() - before implies
                                #[trigger] rows[i] == Some(all[before + i]) by {
                                if i > 0 {
                                    assert(rest[i - 1] == Some(all[more.len() + (i - 1)]));
                                }
                            }
                            assert forall|i: int| 0 <= i < all.len() - before implies
                                text::byte_len(
                                written_page(
                                    all.take(before + i + 1),
                                    (#[trigger] all[before + i]).occurrence_id,
                                ),
                            ) <= 65536 by {
                                if i == 0 {
                                    assert(all.take(before + 1int) =~= more);
                                } else {
                                    assert(all[more.len() + (i - 1)] == all[before + i]);
                                }
                            }
                        },
                        None => {
                            let k = choose|k: int|
                                0 <= k < rest.len() && more.len() + k < limit && (
                                #[trigger] rest[k] is None || (more.len() + k == 0
                                    && text::byte_len(
                                    written_page(
                                        seq![rest[k]->Some_0],
                                        rest[k]->Some_0.occurrence_id,
                                    ),
                                ) > 65536)) && forall|j: int|
                                    0 <= j < k ==> (#[trigger] rest[j]) is Some;
                            assert(rows[k + 1] is None);
                            assert forall|j: int| 0 <= j < k + 1 implies (
                            #[trigger] rows[j]) is Some by {
                                if j > 0 {
                                    assert(rest[j - 1] is Some);
                                }
                            }
                        },
                    }
                }
            },
        }
    }
}

/// A page shows the first receipts, in their order and none left out, at most as
/// many as were asked for. It ends early only where the next one would make it
/// longer than 65536 bytes. It goes on behind the last one shown exactly if there
/// are more, unless a single one was asked for.
pub proof fn law_pages_show_what_fits(
    receipts: Vec<Option<OccurrenceReceipt>>,
    exact: bool,
    limit: usize,
    p: OccurrencePage,
)
    requires
        limit >= 1,
        call_ensures(page_given, (receipts, exact, limit), Some(p)),
    ensures
        ({
            let n = p.occurrences@.len() as int;
            let shown = p.occurrences@.map_values(|r: OccurrenceReceipt| r@);
            &&& p.storage_present
            &&& n <= limit
            &&& n <= receipts@.len()
            &&& forall|i: int|
                0 <= i < n ==> (#[trigger] receipts@[i]) is Some && receipts@[i]->Some_0@
                    == p.occurrences@[i]@
            &&& n == receipts@.len() || n == limit || (exact && n == 1) || (receipts@[n] is Some
                && text::byte_len(
                written_page(
                    shown.push(receipts@[n]->Some_0@),
                    receipts@[n]->Some_0.occurrence_id@,
                ),
            ) > 65536)
            &&& exact ==> n <= 1 && p.next_before is None
            &&& !exact ==> (p.next_before is Some <==> n < receipts@.len())
            &&& p.next_before matches Some(id) ==> n > 0 && id@ == p.occurrences@[n
                - 1].occurrence_id@
            &&& forall|i: int|
                0 <= i < n ==> text::byte_len(
                    written_page(
                        shown.take(i + 1),
                        (#[trigger] p.occurrences@[i]).occurrence_id@,
                    ),
                ) <= 65536
        }),
{
    let rows = page::opt_receipts(receipts@);
    assert(rows.len() == receipts@.len());
    lemma_filled(rows, exact, limit as nat, Seq::empty());
    let shown = p.occurrences@.map_values(|r: OccurrenceReceipt| r@);
    assert(shown =~= occurrences::receipt_views(p.occurrences@));
    assert(p@.next_before == tool::opt(p.next_before));
    let n = p.occurrences@.len() as int;
    assert(shown.len() == n);
    assert forall|i: int| 0 <= i < n implies (#[trigger] receipts@[i]) is Some
        && receipts@[i]->Some_0@ == p.occurrences@[i]@ by {
        assert(rows[i] == Some(shown[0nat + i]));
        assert(shown[i] == p.occurrences@[i]@);
    }
    if n < receipts@.len() {
        assert(rows[n] == occurrences::opt_receipt(receipts@[n]));
    }
    if n > 0 {
        assert(shown.last() == p.occurrences@[n - 1]@);
    }
    assert forall|i: int| 0 <= i < n implies text::byte_len(
        written_page(shown.take(i + 1), (#[trigger] p.occurrences@[i]).occurrence_id@),
    ) <= 65536 by {
        assert(shown[0nat + i] == p.occurrences@[i]@);
        assert(0nat + i + 1 == i + 1);
    }
}

/// There is no page exactly where a receipt is missing that the page comes to, or
/// where the first one is too long for a page of its own.
pub proof fn law_when_there_is_no_page(
    receipts: Vec<Option<OccurrenceReceipt>>,
    exact: bool,
    limit: usize,
)
    requires
        limit >= 1,
        call_ensures(page_given, (receipts, exact, limit), None::<OccurrencePage>),
    ensures
        exists|k: int|
            0 <= k < receipts@.len() && k < limit && (#[trigger] receipts@[k] is None || (k == 0
                && text::byte_len(
                written_page(
                    seq![receipts@[k]->Some_0@],
                    receipts@[k]->Some_0.occurrence_id@,
                ),
            ) > 65536)) && forall|j: int| 0 <= j < k ==> (#[trigger] receipts@[j]) is Some,
{
    let rows = page::opt_receipts(receipts@);
    assert(rows.len() == receipts@.len());
    assert forall|k: int| 0 <= k < rows.len() implies #[trigger] rows[k]
        == occurrences::opt_receipt(receipts@[k]) by {}
    lemma_filled(rows, exact, limit as nat, Seq::empty());
    let k = choose|k: int|
        0 <= k < rows.len() && 0nat + k < limit as nat && (#[trigger] rows[k] is None || (0nat + k
            == 0 && text::byte_len(
            written_page(seq![rows[k]->Some_0], rows[k]->Some_0.occurrence_id),
        ) > 65536)) && forall|j: int| 0 <= j < k ==> (#[trigger] rows[j]) is Some;
    assert(rows[k] == occurrences::opt_receipt(receipts@[k]));
    assert(receipts@[k] is None || k == 0);
    assert forall|j: int| 0 <= j < k implies (#[trigger] receipts@[j]) is Some by {
        assert(rows[j] is Some);
    }
}

/// Rows are shown as their receipts are: a row that could not be read, or has no
/// receipt, counts as a missing one.
pub proof fn law_rows_are_shown_as_their_receipts(
    rows: Vec<Option<RawOccurrence>>,
    receipts: Vec<Option<OccurrenceReceipt>>,
    exact: bool,
    limit: usize,
    r: Option<OccurrencePage>,
    s: Option<OccurrencePage>,
)
    requires
        receipts@.len() == rows@.len(),
        forall|i: int|
            0 <= i < rows@.len() ==> (match #[trigger] rows@[i] {
                Some(row) => call_ensures(read_receipt, (row,), receipts@[i]),
                None => receipts@[i] is None,
            }),
        call_ensures(read_page, (rows, exact, limit), r),
        call_ensures(page_given, (receipts, exact, limit), s),
    ensures
        r is Some <==> s is Some,
        r is Some ==> r->Some_0@ == s->Some_0@,
{
    let a = page::receipts_of(rows@);
    let b = page::opt_receipts(receipts@);
    assert(a.len() == b.len());
    assert forall|i: int| 0 <= i < a.len() implies a[i] == b[i] by {
        assert(a[i] == page::row_receipt(rows@[i]));
        assert(b[i] == occurrences::opt_receipt(receipts@[i]));
    }
    assert(a =~= b);
}

/// A query is answered exactly if it can be and the storage can be read. Where there
/// is no storage the answer is empty and says so; otherwise it is a page of as many
/// rows as were asked for.
pub proof fn law_what_a_query_is_answered_with(
    job_id: &str,
    q: &OccurrenceQuery,
    storage: Storage,
    valid: Result<usize, OccurrenceReadError>,
    rows: Vec<Option<RawOccurrence>>,
    limit: usize,
    shown: Option<OccurrencePage>,
    r: Result<OccurrencePage, OccurrenceReadError>,
)
    requires
        call_ensures(OccurrenceQuery::validate, (q, job_id), valid),
        valid is Ok ==> limit == valid->Ok_0,
        storage matches Storage::Rows(v) ==> v == rows,
        call_ensures(read_page, (rows, q.occurrence_id is Some, limit), shown),
        call_ensures(read_occurrences, (job_id, q, storage), r),
    ensures
        valid is Err ==> r == Err::<OccurrencePage, _>(OccurrenceReadError::InvalidQuery),
        valid is Ok ==> {
            &&& storage is Absent ==> (r matches Ok(p) && !p.storage_present && p.occurrences@.len()
                == 0 && p.next_before is None)
            &&& storage is Unavailable ==> r == Err::<OccurrencePage, _>(
                OccurrenceReadError::StorageUnavailable,
            )
            &&& storage is Rows && shown is None ==> r == Err::<OccurrencePage, _>(
                OccurrenceReadError::StorageUnavailable,
            )
            &&& storage is Rows && shown is Some ==> (r matches Ok(p) && p@ == shown->Some_0@)
        },
{
    assert(q@.occurrence_id is Some <==> q.occurrence_id is Some);
    if let Ok(p) = r {
        assert(p@.occurrences.len() == p.occurrences@.len());
        assert(p@.next_before == tool::opt(p.next_before));
    }
}

} // verus!
