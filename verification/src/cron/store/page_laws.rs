//! What holds of the pages that show the occurrence ledger.

use crate::cron::store::occurrences;
use crate::cron::store::occurrences::{PageView, RawView, ReceiptView, Utf8View, PAGE_BYTES};
use crate::cron::store::page;
use crate::effect::EffectOutcome;
use crate::json;
use crate::text;
use crate::turn::tool;
use vstd::prelude::*;
use vstd::string::*;

verus! {

/// Only the state `confirmed` is shown as a confirmation, and no receipt allows
/// anything to be repeated.
pub proof fn law_unknown_states_never_confirm(row: RawView, dated: bool, check: Utf8View)
    ensures
        occurrences::receipt_with(row, dated, check) matches Some(r) ==> {
            &&& r.execution_outcome == EffectOutcome::Confirmed <==> r.execution_state
                == "confirmed"@
            &&& r.delivery_outcome == Some(EffectOutcome::Confirmed) <==> r.delivery_state
                == "confirmed"@
            &&& !r.retry_allowed
            &&& r.output is None ==> !r.output_truncated
        },
{
    reveal_strlit("confirmed");
    reveal_strlit("not_requested");
    reveal_strlit("not_started");
    assert("confirmed"@[0] == 'c');
    assert("not_requested"@[0] == 'n');
    assert("not_started"@[0] == 'n');
}

/// The page goes on from what it already shows.
proof fn lemma_filled(
    rows: Seq<Option<ReceiptView>>,
    exact: bool,
    limit: nat,
    shown: Seq<ReceiptView>,
)
    requires
        shown.len() <= limit,
        1 <= limit,
        page::filled(rows, exact, limit, shown) is Some,
        shown.len() > 0 ==> text::byte_len(
            page::page_json(
                PageView {
                    storage_present: true,
                    occurrences: shown,
                    next_before: page::cursor(shown),
                },
            ),
        ) <= PAGE_BYTES,
    ensures
        ({
            let (all, next) = page::filled(rows, exact, limit, shown)->Some_0;
            &&& shown.len() <= all.len() <= limit
            &&& all.len() <= shown.len() + rows.len()
            &&& forall|i: int| 0 <= i < shown.len() ==> all[i] == shown[i]
            &&& forall|i: int|
                shown.len() <= i < all.len() ==> rows[i - shown.len()] == Some(#[trigger] all[i])
            &&& next is None ==> exact || all.len() == shown.len() + rows.len()
            &&& next is Some ==> next == page::cursor(all) && all.len() > 0 && all.len()
                < shown.len() + rows.len()
            &&& all.len() > 0 ==> text::byte_len(
                page::page_json(
                    PageView {
                        storage_present: true,
                        occurrences: all,
                        next_before: page::cursor(all),
                    },
                ),
            ) <= PAGE_BYTES
        }),
    decreases rows.len(),
{
    if rows.len() > 0 && shown.len() < limit {
        let r = rows[0]->Some_0;
        if page::fits(shown, r) {
            let more = shown.push(r);
            assert(more.last() == r);
            if !exact {
                lemma_filled(rows.drop_first(), exact, limit, more);
                let (all, next) = page::filled(rows, exact, limit, shown)->Some_0;
                assert forall|i: int| shown.len() <= i < all.len() implies rows[i - shown.len()]
                    == Some(#[trigger] all[i]) by {
                    if i == shown.len() {
                        assert(all[i] == more[i]);
                    } else {
                        assert(rows.drop_first()[i - more.len()] == rows[i - shown.len()]);
                    }
                }
                assert forall|i: int| 0 <= i < shown.len() implies all[i] == shown[i] by {
                    assert(more[i] == shown[i]);
                }
            }
        }
    }
}

/// A page shows the first rows, in their order, at most as many as were asked
/// for. It has a cursor exactly where rows are left over, unless a single
/// occurrence was asked for; the cursor is the last occurrence shown, so every
/// page gets ahead. The page with its cursor has at most `PAGE_BYTES` bytes; so
/// has one without a cursor, unless its last identifier is a single character.
pub proof fn law_pages_are_bounded_and_get_ahead(
    rows: Seq<Option<ReceiptView>>,
    exact: bool,
    limit: nat,
)
    requires
        1 <= limit,
        page::filled(rows, exact, limit, Seq::empty()) is Some,
    ensures
        ({
            let (shown, next) = page::filled(rows, exact, limit, Seq::empty())->Some_0;
            let p = PageView { storage_present: true, occurrences: shown, next_before: next };
            &&& shown.len() <= limit
            &&& shown.len() <= rows.len()
            &&& forall|i: int| 0 <= i < shown.len() ==> rows[i] == Some(#[trigger] shown[i])
            &&& next is None ==> exact || shown.len() == rows.len()
            &&& next is Some ==> shown.len() > 0 && next == Some(shown.last().occurrence_id)
                && shown.len() < rows.len()
            &&& next is Some ==> text::byte_len(page::page_json(p)) <= PAGE_BYTES
            &&& shown.len() > 0 && shown.last().occurrence_id.len() >= 2 ==> text::byte_len(
                page::page_json(p),
            ) <= PAGE_BYTES
        }),
{
    lemma_filled(rows, exact, limit, Seq::empty());
    let (shown, next) = page::filled(rows, exact, limit, Seq::empty())->Some_0;
    if shown.len() > 0 && next is None && shown.last().occurrence_id.len() >= 2 {
        lemma_cursor_is_longer(shown);
    }
}

/// A string is written with at least as many bytes as it has characters.
proof fn lemma_escaped_len(s: Seq<char>)
    ensures
        text::byte_len(json::escaped(s)) >= s.len(),
    decreases s.len(),
{
    if s.len() > 0 {
        lemma_escaped_len(s.drop_last());
        text::lemma_byte_len_concat(json::escaped(s.drop_last()), json::escaped_char(s.last()));
        lemma_some_bytes(json::escaped_char(s.last()));
    }
}

/// A text that is not empty has bytes.
proof fn lemma_some_bytes(s: Seq<char>)
    requires
        s.len() > 0,
    ensures
        text::byte_len(s) > 0,
{
    vstd::utf8::encode_utf8_first_scalar(s);
}

/// A page without a cursor is no longer than the same page with one, where the
/// cursor has at least two characters.
proof fn lemma_cursor_is_longer(shown: Seq<ReceiptView>)
    requires
        shown.len() > 0,
        shown.last().occurrence_id.len() >= 2,
    ensures
        text::byte_len(
            page::page_json(
                PageView { storage_present: true, occurrences: shown, next_before: None },
            ),
        ) <= text::byte_len(
            page::page_json(
                PageView {
                    storage_present: true,
                    occurrences: shown,
                    next_before: page::cursor(shown),
                },
            ),
        ),
{
    let id = shown.last().occurrence_id;
    let head = "{\"storage_present\":"@ + tool::bool_json(true) + ",\"occurrences\":["@
        + page::receipts_json(shown) + "],\"next_before\":"@;
    text::lemma_byte_len_concat(head + "null"@, "}"@);
    text::lemma_byte_len_concat(head, "null"@);
    text::lemma_byte_len_concat(head + json::string_json(id), "}"@);
    text::lemma_byte_len_concat(head, json::string_json(id));
    reveal_strlit("null");
    assert(vstd::utf8::is_ascii_chars("null"@));
    text::lemma_byte_len_ascii("null"@);
    text::lemma_byte_len_concat(seq!['"'] + json::escaped(id), seq!['"']);
    text::lemma_byte_len_concat(seq!['"'], json::escaped(id));
    lemma_some_bytes(seq!['"']);
    lemma_escaped_len(id);
}

/// Whether identifiers stand in descending order, none of them twice.
pub open spec fn descending(ids: Seq<Seq<char>>) -> bool {
    forall|i: int, j: int|
        #![trigger ids[i], ids[j]]
        0 <= i < j < ids.len() ==> text::comes_before(ids[j], ids[i])
}

/// The identifiers that come before a cursor.
pub open spec fn behind(ids: Seq<Seq<char>>, cursor: Seq<char>) -> Seq<Seq<char>> {
    ids.filter(|id: Seq<char>| text::comes_before(id, cursor))
}

/// A cursor goes on exactly behind what was shown: of the identifiers in
/// descending order, those that come before the last one shown are the ones not
/// shown yet. So pages that follow one another repeat nothing and leave nothing
/// out.
pub proof fn law_cursor_neither_repeats_nor_skips(ids: Seq<Seq<char>>, k: int)
    requires
        descending(ids),
        0 < k <= ids.len(),
    ensures
        behind(ids, ids[k - 1]) == ids.skip(k),
{
    let cursor = ids[k - 1];
    let p = |id: Seq<char>| text::comes_before(id, cursor);
    assert forall|i: int| 0 <= i < ids.len() implies p(#[trigger] ids[i]) == (i >= k) by {
        if i < k - 1 {
            assert(text::comes_before(ids[k - 1], ids[i]));
        }
        text::lemma_order(ids[i], cursor, cursor);
        text::lemma_order(cursor, cursor, cursor);
    }
    lemma_filter_behind(ids, p, k);
}

/// What holds exactly from a position on filters out what stands before it.
proof fn lemma_filter_behind(ids: Seq<Seq<char>>, p: spec_fn(Seq<char>) -> bool, k: int)
    requires
        0 <= k <= ids.len(),
        forall|i: int| 0 <= i < ids.len() ==> p(#[trigger] ids[i]) == (i >= k),
    ensures
        ids.filter(p) == ids.skip(k),
    decreases ids.len(),
{
    reveal(Seq::filter);
    if ids.len() > 0 {
        let init = ids.drop_last();
        assert forall|i: int| 0 <= i < init.len() implies p(#[trigger] init[i]) == (i >= k) by {
            assert(init[i] == ids[i]);
        }
        if k < ids.len() {
            lemma_filter_behind(init, p, k);
            assert(ids.skip(k) =~= init.skip(k).push(ids.last()));
        } else {
            lemma_filter_behind(init, p, k - 1);
            assert(init.skip(k - 1) =~= Seq::empty());
            assert(ids.skip(k) =~= Seq::empty());
        }
    } else {
        assert(ids.skip(k) =~= Seq::empty());
    }
}

} // verus!
