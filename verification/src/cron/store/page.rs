//! How many occurrences fit on a page, and where the next page goes on.

use crate::cron::delivery;
use crate::cron::store::occurrences;
use crate::cron::store::occurrences::{
    OccurrencePage, OccurrenceQuery, OccurrenceReadError, OccurrenceReceipt, PageView, QueryView,
    RawOccurrence, ReceiptView, Storage, PAGE_BYTES,
};
use crate::effect::EffectOutcome;
use crate::json;
use crate::text;
use crate::turn::tool;
use vstd::prelude::*;
use vstd::string::*;

verus! {

/// An outcome as a JSON string.
pub open spec fn outcome_json(o: EffectOutcome) -> Seq<char> {
    json::string_json(delivery::outcome_name(o))
}

/// An optional outcome as JSON.
pub open spec fn opt_outcome_json(o: Option<EffectOutcome>) -> Seq<char> {
    match o {
        Some(x) => outcome_json(x),
        None => "null"@,
    }
}

/// A receipt as a JSON object. An output that is not shown has no field.
pub open spec fn receipt_json(r: ReceiptView) -> Seq<char> {
    "{\"occurrence_id\":"@ + json::string_json(r.occurrence_id) + ",\"execution_state\":"@
        + json::string_json(r.execution_state) + ",\"delivery_state\":"@ + json::string_json(
        r.delivery_state,
    ) + ",\"execution_outcome\":"@ + outcome_json(r.execution_outcome) + ",\"delivery_outcome\":"@
        + opt_outcome_json(r.delivery_outcome) + ",\"updated_at\":"@ + json::string_json(
        r.updated_at,
    ) + ",\"retry_allowed\":"@ + tool::bool_json(r.retry_allowed) + (match r.output {
        Some(s) => ",\"output\":"@ + json::string_json(s),
        None => ""@,
    }) + ",\"output_bytes\":"@ + text::decimal(r.output_bytes as nat) + ",\"output_truncated\":"@
        + tool::bool_json(r.output_truncated) + "}"@
}

/// Receipts as JSON objects, each after the first preceded by a comma.
pub open spec fn receipts_json(list: Seq<ReceiptView>) -> Seq<char>
    decreases list.len(),
{
    if list.len() == 0 {
        Seq::empty()
    } else if list.len() == 1 {
        receipt_json(list[0])
    } else {
        receipts_json(list.drop_last()) + seq![','] + receipt_json(list.last())
    }
}

/// A page as a JSON object.
pub open spec fn page_json(p: PageView) -> Seq<char> {
    "{\"storage_present\":"@ + tool::bool_json(p.storage_present) + ",\"occurrences\":["@
        + receipts_json(p.occurrences) + "],\"next_before\":"@ + tool::opt_json(p.next_before)
        + "}"@
}

/// The name of an outcome.
fn name_of(o: EffectOutcome) -> (s: &'static str)
    ensures
        s@ == delivery::outcome_name(o),
{
    delivery::occurrence_delivery_state(Some(o))
}

/// A receipt as a JSON object.
pub fn receipt_text(r: &OccurrenceReceipt) -> (out: String)
    ensures
        out@ == receipt_json(r@),
{
    let mut out: String = "{\"occurrence_id\":".to_owned();
    out.append(json::string_text(r.occurrence_id.as_str()).as_str());
    out.append(",\"execution_state\":");
    out.append(json::string_text(r.execution_state.as_str()).as_str());
    out.append(",\"delivery_state\":");
    out.append(json::string_text(r.delivery_state.as_str()).as_str());
    out.append(",\"execution_outcome\":");
    out.append(json::string_text(name_of(r.execution_outcome)).as_str());
    out.append(",\"delivery_outcome\":");
    match r.delivery_outcome {
        Some(o) => out.append(json::string_text(name_of(o)).as_str()),
        None => out.append("null"),
    }
    out.append(",\"updated_at\":");
    out.append(json::string_text(r.updated_at.as_str()).as_str());
    out.append(",\"retry_allowed\":");
    tool::push_bool(&mut out, r.retry_allowed);
    let ghost head = out@;
    match &r.output {
        Some(s) => {
            out.append(",\"output\":");
            out.append(json::string_text(s.as_str()).as_str());
            assert(out@ =~= head + (",\"output\":"@ + json::string_json(s@)));
        },
        None => {
            out.append("");
        },
    }
    out.append(",\"output_bytes\":");
    out.append(text::decimal_of(r.output_bytes).as_str());
    out.append(",\"output_truncated\":");
    tool::push_bool(&mut out, r.output_truncated);
    out.append("}");
    out
}

/// Whether another receipt still fits on a page: the page with it, and with the
/// place at which the next one would go on, has at most `PAGE_BYTES` bytes.
pub open spec fn fits(shown: Seq<ReceiptView>, r: ReceiptView) -> bool {
    text::byte_len(
        page_json(
            PageView {
                storage_present: true,
                occurrences: shown.push(r),
                next_before: Some(r.occurrence_id),
            },
        ),
    ) <= PAGE_BYTES
}

/// Where the next page goes on: behind the last occurrence shown.
pub open spec fn cursor(shown: Seq<ReceiptView>) -> Option<Seq<char>> {
    if shown.len() == 0 {
        None
    } else {
        Some(shown.last().occurrence_id)
    }
}

/// What a page shows of the remaining rows, behind what it already shows. It ends
/// where there are no more rows, where it holds `limit` occurrences, or where the
/// next one does not fit; a single occurrence that is asked for needs no second
/// page. A row that cannot be shown, if the page gets to it, fails the page; so
/// does one that does not fit on a page of its own.
pub open spec fn filled(
    rows: Seq<Option<ReceiptView>>,
    exact: bool,
    limit: nat,
    shown: Seq<ReceiptView>,
) -> Option<(Seq<ReceiptView>, Option<Seq<char>>)>
    decreases rows.len(),
{
    if rows.len() == 0 {
        Some((shown, None))
    } else if shown.len() == limit {
        Some((shown, cursor(shown)))
    } else {
        match rows[0] {
            None => None,
            Some(r) => if !fits(shown, r) {
                if shown.len() == 0 {
                    None
                } else {
                    Some((shown, cursor(shown)))
                }
            } else if exact {
                Some((shown.push(r), None))
            } else {
                filled(rows.drop_first(), exact, limit, shown.push(r))
            },
        }
    }
}

/// The receipts of a list, where there are any.
pub open spec fn opt_receipts(list: Seq<Option<OccurrenceReceipt>>) -> Seq<Option<ReceiptView>> {
    list.map_values(|r: Option<OccurrenceReceipt>| occurrences::opt_receipt(r))
}

/// Receipts behind one another in JSON grow by the last one.
proof fn lemma_receipts_push(list: Seq<ReceiptView>, r: ReceiptView)
    ensures
        receipts_json(list.push(r)) == (if list.len() == 0 {
            receipt_json(r)
        } else {
            receipts_json(list) + seq![','] + receipt_json(r)
        }),
{
    assert(list.push(r).drop_last() =~= list);
}

/// The page that shows receipts read from rows, in their order.
pub fn page_given(receipts: Vec<Option<OccurrenceReceipt>>, exact: bool, limit: usize) -> (r:
    Option<OccurrencePage>)
    ensures
        match filled(opt_receipts(receipts@), exact, limit as nat, Seq::empty()) {
            Some((shown, next)) => r matches Some(p) && p@ == (PageView {
                storage_present: true,
                occurrences: shown,
                next_before: next,
            }),
            None => r is None,
        },
{
    let ghost whole = filled(opt_receipts(receipts@), exact, limit as nat, Seq::empty());
    let mut rest: Vec<Option<OccurrenceReceipt>> = receipts;
    let mut shown: Vec<OccurrenceReceipt> = Vec::new();
    // The shown receipts as they stand between the brackets of the page.
    let mut body: String = String::new();
    let mut next: Option<String> = None;
    assert(occurrences::receipt_views(shown@) =~= Seq::empty());
    while rest.len() > 0
        invariant
            whole == filled(opt_receipts(receipts@), exact, limit as nat, Seq::empty()),
            filled(
                opt_receipts(rest@),
                exact,
                limit as nat,
                occurrences::receipt_views(shown@),
            ) == whole,
            tool::opt(next) == cursor(occurrences::receipt_views(shown@)),
            body@ == receipts_json(occurrences::receipt_views(shown@)),
        decreases rest@.len(),
    {
        let ghost views = occurrences::receipt_views(shown@);
        if shown.len() == limit {
            return Some(OccurrencePage { storage_present: true, occurrences: shown, next_before: next });
        }
        let ghost before = opt_receipts(rest@);
        let first: Option<OccurrenceReceipt> = rest.remove(0);
        assert(before[0] == occurrences::opt_receipt(first));
        assert(opt_receipts(rest@) =~= before.drop_first());
        let receipt: OccurrenceReceipt = match first {
            Some(x) => x,
            None => {
                return None;
            },
        };
        let mut longer: String = body.as_str().to_owned();
        if shown.len() > 0 {
            longer.push(',');
        }
        longer.append(receipt_text(&receipt).as_str());
        proof {
            lemma_receipts_push(views, receipt@);
            if views.len() == 0 {
                assert(longer@ =~= receipt_json(receipt@));
            } else {
                assert(longer@ =~= receipts_json(views) + seq![','] + receipt_json(receipt@));
            }
        }
        let mut encoded: String = "{\"storage_present\":".to_owned();
        tool::push_bool(&mut encoded, true);
        encoded.append(",\"occurrences\":[");
        encoded.append(longer.as_str());
        encoded.append("],\"next_before\":");
        encoded.append(json::string_text(receipt.occurrence_id.as_str()).as_str());
        encoded.append("}");
        assert(encoded@ == page_json(
            PageView {
                storage_present: true,
                occurrences: views.push(receipt@),
                next_before: Some(receipt@.occurrence_id),
            },
        ));
        if text::len_bytes(encoded.as_str()) > PAGE_BYTES {
            if shown.len() == 0 {
                return None;
            }
            return Some(OccurrencePage { storage_present: true, occurrences: shown, next_before: next });
        }
        let id: String = receipt.occurrence_id.as_str().to_owned();
        let ghost last = receipt@;
        shown.push(receipt);
        assert(occurrences::receipt_views(shown@) =~= views.push(last));
        if exact {
            return Some(OccurrencePage { storage_present: true, occurrences: shown, next_before: None });
        }
        next = Some(id);
        body = longer;
    }
    assert(opt_receipts(rest@).len() == 0);
    Some(OccurrencePage { storage_present: true, occurrences: shown, next_before: None })
}

/// The receipt of a row; none of one that could not be read.
pub open spec fn row_receipt(row: Option<RawOccurrence>) -> Option<ReceiptView> {
    match row {
        Some(r) => occurrences::receipt_of(r@),
        None => None,
    }
}

/// The receipts of rows.
pub open spec fn receipts_of(rows: Seq<Option<RawOccurrence>>) -> Seq<Option<ReceiptView>> {
    rows.map_values(|r: Option<RawOccurrence>| row_receipt(r))
}

/// The page that shows rows, in their order. A row that could not be read fails the
/// page only where the page comes to it.
pub fn read_page(rows: Vec<Option<RawOccurrence>>, exact: bool, limit: usize) -> (r: Option<
    OccurrencePage,
>)
    ensures
        match filled(receipts_of(rows@), exact, limit as nat, Seq::empty()) {
            Some((shown, next)) => r matches Some(p) && p@ == (PageView {
                storage_present: true,
                occurrences: shown,
                next_before: next,
            }),
            None => r is None,
        },
{
    let ghost all = rows@;
    let mut rest: Vec<Option<RawOccurrence>> = rows;
    let mut receipts: Vec<Option<OccurrenceReceipt>> = Vec::new();
    assert(opt_receipts(receipts@) + receipts_of(rest@) =~= receipts_of(all));
    while rest.len() > 0
        invariant
            opt_receipts(receipts@) + receipts_of(rest@) == receipts_of(all),
        decreases rest@.len(),
    {
        let ghost had = receipts@;
        let ghost left = rest@;
        let row: Option<RawOccurrence> = rest.remove(0);
        let receipt: Option<OccurrenceReceipt> = match row {
            Some(row) => occurrences::read_receipt(row),
            None => None,
        };
        receipts.push(receipt);
        assert(receipts_of(left)[0] == occurrences::opt_receipt(receipt));
        assert(opt_receipts(receipts@) =~= opt_receipts(had).push(receipts_of(left)[0]));
        assert(receipts_of(rest@) =~= receipts_of(left).drop_first());
        assert(opt_receipts(receipts@) + receipts_of(rest@) =~= opt_receipts(had) + receipts_of(
            left,
        ));
    }
    assert(opt_receipts(receipts@) =~= receipts_of(all));
    page_given(receipts, exact, limit)
}

/// What a query is answered with, given what the storage gave for it.
pub open spec fn answer(job_id: Seq<char>, q: QueryView, storage: Storage) -> Result<
    PageView,
    OccurrenceReadError,
> {
    if !occurrences::valid_query(job_id, q) {
        Err(OccurrenceReadError::InvalidQuery)
    } else {
        match storage {
            Storage::Absent => Ok(
                PageView { storage_present: false, occurrences: Seq::empty(), next_before: None },
            ),
            Storage::Unavailable => Err(OccurrenceReadError::StorageUnavailable),
            Storage::Rows(rows) => match filled(
                receipts_of(rows@),
                q.occurrence_id is Some,
                occurrences::limit_of(q),
                Seq::empty(),
            ) {
                Some((shown, next)) => Ok(
                    PageView { storage_present: true, occurrences: shown, next_before: next },
                ),
                None => Err(OccurrenceReadError::StorageUnavailable),
            },
        }
    }
}

/// What a query is answered with, given what the storage gave for it.
pub fn read_occurrences(job_id: &str, query: &OccurrenceQuery, storage: Storage) -> (r: Result<
    OccurrencePage,
    OccurrenceReadError,
>)
    ensures
        match r {
            Ok(p) => answer(job_id@, query@, storage) == Ok::<_, OccurrenceReadError>(p@),
            Err(e) => answer(job_id@, query@, storage) == Err::<PageView, _>(e),
        },
{
    let limit: usize = match query.validate(job_id) {
        Ok(n) => n,
        Err(e) => {
            return Err(e);
        },
    };
    match storage {
        Storage::Absent => {
            let none: Vec<OccurrenceReceipt> = Vec::new();
            assert(occurrences::receipt_views(none@) =~= Seq::empty());
            Ok(OccurrencePage { storage_present: false, occurrences: none, next_before: None })
        },
        Storage::Unavailable => Err(OccurrenceReadError::StorageUnavailable),
        Storage::Rows(rows) => match read_page(rows, query.occurrence_id.is_some(), limit) {
            Some(p) => Ok(p),
            None => Err(OccurrenceReadError::StorageUnavailable),
        },
    }
}

} // verus!
