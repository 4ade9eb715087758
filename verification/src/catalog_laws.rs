//! What holds of the catalog operations taken together.

use crate::catalog::{
    by_id, by_path, has_id, is_listing, key, lemma_by_id_rows, lemma_by_path_rows,
    lemma_listing_remove, lemma_ranks_asymmetric, mentions, page, page_start, ranks_before,
    save_outcome, search_result, selected, stored, total_size, update_outcome, CatalogStore,
};
use crate::error::Failure;
use crate::record::RecordView;
use crate::text::lex_lt;
use vstd::prelude::*;
use vstd::utf8::encode_utf8;

verus! {

/// A row of a well-formed catalog is the one that its path leads to.
pub proof fn lemma_row_found_by_path(store: CatalogStore, id: i64)
    requires
        store.wf(),
        store@.contains_key(id),
    ensures
        store@[id].id == Some(id),
        by_path(store.listing(), store@[id].file_path) == Some(store@[id]),
{
    let rows = store.listing();
    lemma_by_id_rows(rows, store.last_id());
    let i = choose|i: int| has_id(rows, i, id);
    assert(has_id(rows, i, id));
    lemma_by_path_rows(rows, store.last_id(), i);
}

/// Saving the same path twice: the second call returns the identity that the
/// first returned; the row keeps its identity, its path and the creation time
/// of the first call; its update time is that of the second call; every other
/// field is the one of the second record. Where the clock has advanced
/// between the calls, so has the update time.
pub proof fn lemma_save_same_path_twice(
    start: CatalogStore,
    middle: CatalogStore,
    end: CatalogStore,
    first: RecordView,
    second: RecordView,
    now1: Seq<char>,
    now2: Seq<char>,
    r1: Result<i64, Failure>,
    r2: Result<i64, Failure>,
)
    requires
        start.wf(),
        save_outcome(start, middle, first, now1, r1),
        save_outcome(middle, end, second, now2, r2),
        first.file_path == second.file_path,
        r1 is Ok,
        second.file_size >= 0,
        second.page_count >= 0,
    ensures
        r2 is Ok,
        r2->Ok_0 == r1->Ok_0,
        end@.contains_key(r1->Ok_0),
        end@[r1->Ok_0] == (RecordView {
            id: Some(r1->Ok_0),
            file_path: first.file_path,
            created_at: middle@[r1->Ok_0].created_at,
            updated_at: now2,
            ..second
        }),
        lex_lt(encode_utf8(now1), encode_utf8(now2)) ==> lex_lt(
            encode_utf8(middle@[r1->Ok_0].updated_at),
            encode_utf8(end@[r1->Ok_0].updated_at),
        ),
        end@.dom() == middle@.dom(),
{
    let id = r1->Ok_0;
    assert(middle@.contains_key(id) && middle@[id].file_path == first.file_path && middle@[id].id
        == Some(id) && middle@[id].updated_at == now1) by {
        match by_path(start.listing(), first.file_path) {
            Some(existing) => {
                lemma_row_found_by_path(start, id);
            },
            None => {},
        }
    }
    lemma_row_found_by_path(middle, id);
    assert(end@.dom() =~= middle@.dom());
}

/// A search without a page returns exactly the rows of the catalog that pass
/// the filters: with a text filter, those that mention it in the title, the
/// file name or the tags, and no row where none of the three does.
pub proof fn lemma_search_finds_what_matches(
    store: CatalogStore,
    text: Option<Seq<char>>,
    document_type: Option<Seq<char>>,
    r: RecordView,
)
    requires
        store.wf(),
    ensures
        search_result(store.listing(), text, document_type, None, None).contains(r) <==> (
        store.listing().contains(r) && selected(r, text, document_type)),
        text matches Some(t) ==> (search_result(store.listing(), text, None, None, None).contains(r)
            <==> store.listing().contains(r) && mentions(r, t)),
{
    lemma_filter_membership(store.listing(), text, document_type, r);
    lemma_filter_membership(store.listing(), text, None, r);
}

/// Filtering keeps exactly the rows that pass.
pub proof fn lemma_filter_membership(
    rows: Seq<RecordView>,
    text: Option<Seq<char>>,
    document_type: Option<Seq<char>>,
    r: RecordView,
)
    ensures
        search_result(rows, text, document_type, None, None).contains(r) <==> (rows.contains(r)
            && selected(r, text, document_type)),
{
    let keep = |x: RecordView| selected(x, text, document_type);
    let hits = rows.filter(keep);
    assert(search_result(rows, text, document_type, None, None) =~= hits);
    if hits.contains(r) {
        let k = choose|k: int| 0 <= k < hits.len() && hits[k] == r;
        rows.lemma_filter_pred(keep, k);
        rows.lemma_filter_contains_rev(keep, r);
    }
    if rows.contains(r) && selected(r, text, document_type) {
        let i = choose|i: int| 0 <= i < rows.len() && rows[i] == r;
        rows.lemma_filter_contains(keep, i);
    }
}

/// With a type filter, every row that a search returns has that document
/// type, whatever the text filter and the page: a row of another type, or of
/// none, is left out even where it mentions the text.
pub proof fn lemma_search_respects_type(
    store: CatalogStore,
    text: Option<Seq<char>>,
    wanted: Seq<char>,
    limit: Option<i64>,
    offset: Option<i64>,
    r: RecordView,
)
    requires
        store.wf(),
        search_result(store.listing(), text, Some(wanted), limit, offset).contains(r),
    ensures
        r.document_type == Some(wanted),
        store.listing().contains(r),
        selected(r, text, None),
{
    let keep = |x: RecordView| selected(x, text, Some(wanted));
    let hits = store.listing().filter(keep);
    let shown = page(hits, limit, offset);
    let k = choose|k: int| 0 <= k < shown.len() && shown[k] == r;
    assert(hits.contains(r)) by {
        let from = page_start(hits.len() as int, offset);
        assert(hits[from + k] == r);
    }
    lemma_filter_membership(store.listing(), text, Some(wanted), r);
    assert(search_result(store.listing(), text, Some(wanted), None, None) =~= hits);
}

/// A page is a stretch of the full result: with a limit and an offset that
/// are not negative, row `k` of the page is row `offset + k` of the search
/// without a page, and the page has `limit` rows or as many as are left.
pub proof fn lemma_page_is_a_stretch(
    store: CatalogStore,
    text: Option<Seq<char>>,
    document_type: Option<Seq<char>>,
    limit: i64,
    offset: i64,
)
    requires
        limit >= 0,
        offset >= 0,
    ensures
        ({
            let all = search_result(store.listing(), text, document_type, None, None);
            let shown = search_result(
                store.listing(),
                text,
                document_type,
                Some(limit),
                Some(offset),
            );
            &&& shown.len() == if offset >= all.len() {
                0
            } else if offset + limit >= all.len() {
                all.len() - offset
            } else {
                limit as int
            }
            &&& forall|k: int| 0 <= k < shown.len() ==> shown[k] == all[offset + k]
        }),
{
    let keep = |x: RecordView| selected(x, text, document_type);
    let hits = store.listing().filter(keep);
    assert(search_result(store.listing(), text, document_type, None, None) =~= hits);
}

/// The rows of a search stand in ranking order: of two rows, the one that
/// was updated later comes first.
pub proof fn lemma_search_is_ranked(
    store: CatalogStore,
    text: Option<Seq<char>>,
    document_type: Option<Seq<char>>,
    limit: Option<i64>,
    offset: Option<i64>,
    i: int,
    j: int,
)
    requires
        store.wf(),
        0 <= i < j < search_result(store.listing(), text, document_type, limit, offset).len(),
    ensures
        ranks_before(
            search_result(store.listing(), text, document_type, limit, offset)[i],
            search_result(store.listing(), text, document_type, limit, offset)[j],
        ),
{
    let rows = store.listing();
    let keep = |x: RecordView| selected(x, text, document_type);
    let hits = rows.filter(keep);
    let from = page_start(hits.len() as int, offset);
    lemma_filter_keeps_order(rows, store.last_id(), keep, from + i, from + j);
}

/// Filtering a listing keeps the ranking order.
proof fn lemma_filter_keeps_order(
    rows: Seq<RecordView>,
    last_id: int,
    keep: spec_fn(RecordView) -> bool,
    i: int,
    j: int,
)
    requires
        is_listing(rows, last_id),
        0 <= i < j < rows.filter(keep).len(),
    ensures
        ranks_before(rows.filter(keep)[i], rows.filter(keep)[j]),
    decreases rows.len(),
{
    reveal(Seq::filter);
    let hits = rows.filter(keep);
    let front = rows.drop_last();
    assert(is_listing(front, last_id)) by {
        assert forall|k: int| 0 <= k < front.len() implies stored(#[trigger] front[k], last_id) by {
            assert(stored(rows[k], last_id));
        }
        assert forall|a: int, b: int|
            #![trigger front[a], front[b]]
            0 <= a < b < front.len() implies {
            &&& key(front[a]) != key(front[b])
            &&& front[a].file_path != front[b].file_path
            &&& ranks_before(front[a], front[b])
        } by {
            assert(ranks_before(rows[a], rows[b]));
        }
    }
    if keep(rows.last()) && j == hits.len() - 1 {
        let sub = front.filter(keep);
        front.lemma_filter_contains_rev(keep, sub[i]);
        let a = choose|a: int| 0 <= a < front.len() && front[a] == sub[i];
        assert(ranks_before(rows[a], rows[rows.len() - 1]));
    } else {
        lemma_filter_keeps_order(front, last_id, keep, i, j);
    }
}

/// After a row is deleted, it is not found: where `after` is a catalog from
/// which `id` was removed, no row stands under `id`.
pub proof fn lemma_deleted_is_not_found(before: CatalogStore, after: CatalogStore, id: i64)
    requires
        after@ == before@.remove(id),
    ensures
        !after@.contains_key(id),
{
}

/// An update changes no identity, no path and no creation time, and leaves
/// every other row as it was.
pub proof fn lemma_update_keeps_identity(
    before: CatalogStore,
    after: CatalogStore,
    id: i64,
    doc: RecordView,
    now: Seq<char>,
    r: Result<(), Failure>,
    other: i64,
)
    requires
        before.wf(),
        update_outcome(before, after, id, doc, now, r),
        before@.contains_key(other),
    ensures
        after@.contains_key(other),
        after@[other].id == before@[other].id,
        after@[other].file_path == before@[other].file_path,
        after@[other].created_at == before@[other].created_at,
        other != id ==> after@[other] == before@[other],
{
}

/// The figures of a catalog without rows are zero: it counts no document,
/// and its sizes add up to nothing.
pub proof fn lemma_empty_catalog_totals(store: CatalogStore)
    requires
        store@ == Map::<i64, RecordView>::empty(),
        store.wf(),
    ensures
        store.listing().len() == 0,
        total_size(store.listing()) == 0,
{
    let rows = store.listing();
    lemma_by_id_rows(rows, store.last_id());
    if rows.len() > 0 {
        assert(store@.contains_key(key(rows[0])));
    }
}

/// A listing is fixed by its rows: two listings that hold the same rows under
/// the same identities hold them in the same order.
pub proof fn lemma_listing_is_fixed_by_rows(a: Seq<RecordView>, b: Seq<RecordView>, last_id: int)
    requires
        is_listing(a, last_id),
        is_listing(b, last_id),
        by_id(a) == by_id(b),
    ensures
        a == b,
    decreases a.len(),
{
    lemma_by_id_rows(a, last_id);
    lemma_by_id_rows(b, last_id);
    if a.len() == 0 {
        if b.len() > 0 {
            assert(stored(b[0], last_id));
            assert(by_id(b).contains_key(key(b[0])));
            let i = choose|i: int| has_id(a, i, key(b[0]));
            assert(has_id(a, i, key(b[0])));
        }
        assert(a =~= b);
    } else {
        assert(stored(a[0], last_id));
        assert(by_id(b).contains_key(key(a[0])));
        let j = choose|j: int| has_id(b, j, key(a[0]));
        assert(has_id(b, j, key(a[0])));
        assert(b[j] == a[0]);
        assert(stored(b[0], last_id));
        assert(by_id(a).contains_key(key(b[0])));
        let i = choose|i: int| has_id(a, i, key(b[0]));
        assert(has_id(a, i, key(b[0])));
        assert(a[i] == b[0]);
        if j > 0 {
            assert(ranks_before(b[0], b[j]));
            if i > 0 {
                assert(ranks_before(a[0], a[i]));
                lemma_ranks_asymmetric(a[0], a[i]);
            } else {
                assert(key(b[0]) != key(b[j]));
            }
        }
        assert(a[0] == b[0]);
        lemma_listing_remove(a, last_id, 0);
        lemma_listing_remove(b, last_id, 0);
        lemma_listing_is_fixed_by_rows(a.remove(0), b.remove(0), last_id);
        assert(a =~= seq![a[0]] + a.remove(0));
        assert(b =~= seq![b[0]] + b.remove(0));
    }
}

/// What a search returns is fixed by the rows of the catalog: two catalogs
/// that hold the same rows under the same identities answer every search
/// alike.
pub proof fn lemma_search_is_fixed_by_rows(
    a: CatalogStore,
    b: CatalogStore,
    text: Option<Seq<char>>,
    document_type: Option<Seq<char>>,
    limit: Option<i64>,
    offset: Option<i64>,
)
    requires
        a.wf(),
        b.wf(),
        a@ == b@,
    ensures
        a.listing() == b.listing(),
        search_result(a.listing(), text, document_type, limit, offset) == search_result(
            b.listing(),
            text,
            document_type,
            limit,
            offset,
        ),
{
    let last = if a.last_id() >= b.last_id() {
        a.last_id()
    } else {
        b.last_id()
    };
    lemma_listing_holds_later(a.listing(), a.last_id(), last);
    lemma_listing_holds_later(b.listing(), b.last_id(), last);
    lemma_listing_is_fixed_by_rows(a.listing(), b.listing(), last);
}

/// A listing stays one when more identities have been handed out.
proof fn lemma_listing_holds_later(rows: Seq<RecordView>, last_id: int, later: int)
    requires
        is_listing(rows, last_id),
        last_id <= later <= i64::MAX,
    ensures
        is_listing(rows, later),
{
    assert forall|i: int| 0 <= i < rows.len() implies stored(#[trigger] rows[i], later) by {
        assert(stored(rows[i], last_id));
    }
}

} // verus!
