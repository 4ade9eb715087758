//! The catalog: one row per managed document, found by identity or by path,
//! listed with the most recently updated row first.

use crate::clock::current_timestamp;
use crate::error::{ErrorKind, Failure};
use crate::record::{copy_optional, optional_text, DocumentRecord, RecordView};
use crate::text::{
    bytes_equal, bytes_less, contains_bytes, lemma_lex_connected, lemma_lex_irreflexive,
    lemma_lex_transitive, lex_lt, occurs_in,
};
use vstd::prelude::*;
use vstd::utf8::encode_utf8;

verus! {

/// The identity of a stored row.
pub open spec fn key(r: RecordView) -> i64 {
    match r.id {
        Some(k) => k,
        None => 0,
    }
}

/// The order of a listing: a later `updated_at` comes first, compared as
/// UTF-8 text; among rows updated at the same instant the older identity
/// comes first.
pub open spec fn ranks_before(x: RecordView, y: RecordView) -> bool {
    ||| lex_lt(encode_utf8(y.updated_at), encode_utf8(x.updated_at))
    ||| (encode_utf8(x.updated_at) == encode_utf8(y.updated_at) && key(x) < key(y))
}

/// What the store accepts as sizes: the byte count and the page count are
/// not negative.
pub open spec fn storable(r: RecordView) -> bool {
    r.file_size >= 0 && r.page_count >= 0
}

/// A row as the store keeps it: it has an identity that the store has
/// handed out, and sizes that are not negative.
pub open spec fn stored(r: RecordView, last_id: int) -> bool {
    &&& r.id is Some
    &&& 1 <= key(r) <= last_id
    &&& storable(r)
}

/// The invariant of a listing: every row is a stored row, no identity and no
/// path occurs twice, and the rows stand in ranking order.
pub open spec fn is_listing(rows: Seq<RecordView>, last_id: int) -> bool {
    &&& rows.len() <= last_id <= i64::MAX
    &&& forall|i: int| 0 <= i < rows.len() ==> stored(#[trigger] rows[i], last_id)
    &&& forall|i: int, j: int|
        #![trigger rows[i], rows[j]]
        0 <= i < j < rows.len() ==> {
            &&& key(rows[i]) != key(rows[j])
            &&& rows[i].file_path != rows[j].file_path
            &&& ranks_before(rows[i], rows[j])
        }
}

/// Whether row `i` of `rows` has identity `id`.
pub open spec fn has_id(rows: Seq<RecordView>, i: int, id: i64) -> bool {
    0 <= i < rows.len() && rows[i].id == Some(id)
}

/// Whether row `i` of `rows` has path `path`.
pub open spec fn has_path(rows: Seq<RecordView>, i: int, path: Seq<char>) -> bool {
    0 <= i < rows.len() && rows[i].file_path == path
}

/// The rows of a listing by identity.
pub open spec fn by_id(rows: Seq<RecordView>) -> Map<i64, RecordView> {
    Map::new(
        |id: i64| exists|i: int| has_id(rows, i, id),
        |id: i64| rows[choose|i: int| has_id(rows, i, id)],
    )
}

/// The row with the given path, if the listing has one.
pub open spec fn by_path(rows: Seq<RecordView>, path: Seq<char>) -> Option<RecordView> {
    if exists|i: int| has_path(rows, i, path) {
        Some(rows[choose|i: int| has_path(rows, i, path)])
    } else {
        None
    }
}

/// Ranking is transitive.
pub proof fn lemma_ranks_transitive(x: RecordView, y: RecordView, z: RecordView)
    requires
        ranks_before(x, y),
        ranks_before(y, z),
    ensures
        ranks_before(x, z),
{
    let (a, b, c) = (encode_utf8(x.updated_at), encode_utf8(y.updated_at), encode_utf8(z.updated_at));
    if lex_lt(b, a) && lex_lt(c, b) {
        lemma_lex_transitive(c, b, a);
    }
}

/// Two rows with different identities are ranked one way or the other.
pub proof fn lemma_ranks_connected(x: RecordView, y: RecordView)
    requires
        key(x) != key(y),
    ensures
        ranks_before(x, y) || ranks_before(y, x),
{
    lemma_lex_connected(encode_utf8(x.updated_at), encode_utf8(y.updated_at));
}

/// No two rows rank before each other.
pub proof fn lemma_ranks_asymmetric(x: RecordView, y: RecordView)
    requires
        ranks_before(x, y),
    ensures
        !ranks_before(y, x),
{
    let (a, b) = (encode_utf8(x.updated_at), encode_utf8(y.updated_at));
    if lex_lt(b, a) && lex_lt(a, b) {
        lemma_lex_transitive(a, b, a);
    }
    lemma_lex_irreflexive(a);
}

/// Every row of a listing is found under its identity.
pub proof fn lemma_by_id_rows(rows: Seq<RecordView>, last_id: int)
    requires
        is_listing(rows, last_id),
    ensures
        forall|i: int|
            0 <= i < rows.len() ==> by_id(rows).contains_key(key(#[trigger] rows[i])) && by_id(
                rows,
            )[key(rows[i])] == rows[i],
        forall|id: i64| #[trigger]
            by_id(rows).contains_key(id) ==> has_id(rows, choose|i: int| has_id(rows, i, id), id),
{
    assert forall|i: int| 0 <= i < rows.len() implies by_id(rows).contains_key(
        key(#[trigger] rows[i]),
    ) && by_id(rows)[key(rows[i])] == rows[i] by {
        let id = key(rows[i]);
        assert(stored(rows[i], last_id));
        assert(has_id(rows, i, id));
        let j = choose|j: int| has_id(rows, j, id);
        assert(has_id(rows, j, id));
        if i < j {
            assert(key(rows[i]) != key(rows[j]));
        } else if j < i {
            assert(key(rows[j]) != key(rows[i]));
        }
    }
}

/// A row with a path is the only one with it.
pub proof fn lemma_by_path_rows(rows: Seq<RecordView>, last_id: int, i: int)
    requires
        is_listing(rows, last_id),
        0 <= i < rows.len(),
    ensures
        by_path(rows, rows[i].file_path) == Some(rows[i]),
{
    let path = rows[i].file_path;
    assert(has_path(rows, i, path));
    let j = choose|j: int| has_path(rows, j, path);
    assert(has_path(rows, j, path));
    if i < j {
        assert(rows[i].file_path != rows[j].file_path);
    } else if j < i {
        assert(rows[j].file_path != rows[i].file_path);
    }
}

/// Taking a row out of a listing leaves a listing, with that identity gone.
pub proof fn lemma_listing_remove(rows: Seq<RecordView>, last_id: int, at: int)
    requires
        is_listing(rows, last_id),
        0 <= at < rows.len(),
    ensures
        is_listing(rows.remove(at), last_id),
        by_id(rows.remove(at)) == by_id(rows).remove(key(rows[at])),
        forall|k: int|
            0 <= k < rows.len() - 1 ==> (#[trigger] rows.remove(at)[k]).file_path
                != rows[at].file_path && key(rows.remove(at)[k]) != key(rows[at]),
{
    let rest = rows.remove(at);
    assert forall|k: int| 0 <= k < rest.len() implies rest[k] == rows[if k < at {
        k
    } else {
        k + 1
    }] by {}
    assert forall|k: int| 0 <= k < rest.len() implies stored(#[trigger] rest[k], last_id) by {
        assert(stored(rows[if k < at { k } else { k + 1 }], last_id));
    }
    assert forall|i: int, j: int|
        #![trigger rest[i], rest[j]]
        0 <= i < j < rest.len() implies {
        &&& key(rest[i]) != key(rest[j])
        &&& rest[i].file_path != rest[j].file_path
        &&& ranks_before(rest[i], rest[j])
    } by {
        let (a, b) = (if i < at { i } else { i + 1 }, if j < at { j } else { j + 1 });
        assert(ranks_before(rows[a], rows[b]) && key(rows[a]) != key(rows[b]));
    }
    assert forall|k: int| 0 <= k < rows.len() - 1 implies (#[trigger] rest[k]).file_path
        != rows[at].file_path && key(rest[k]) != key(rows[at]) by {
        let a = if k < at { k } else { k + 1 };
        if a < at {
            assert(key(rows[a]) != key(rows[at]));
        } else {
            assert(key(rows[at]) != key(rows[a]));
        }
    }
    lemma_by_id_rows(rows, last_id);
    lemma_by_id_rows(rest, last_id);
    let gone = key(rows[at]);
    assert forall|id: i64| by_id(rest).contains_key(id) <==> by_id(rows).remove(
        gone,
    ).contains_key(id) by {
        if by_id(rest).contains_key(id) {
            let k = choose|k: int| has_id(rest, k, id);
            assert(has_id(rows, if k < at { k } else { k + 1 }, id));
            assert(key(rest[k]) != gone);
        }
        if by_id(rows).remove(gone).contains_key(id) {
            let a = choose|a: int| has_id(rows, a, id);
            assert(a != at);
            assert(has_id(rest, if a < at { a } else { a - 1 }, id));
        }
    }
    assert forall|id: i64| by_id(rest).contains_key(id) implies by_id(rest)[id] == by_id(
        rows,
    ).remove(gone)[id] by {
        let k = choose|k: int| has_id(rest, k, id);
        let a = if k < at { k } else { k + 1 };
        assert(rest[k] == rows[a]);
        assert(key(rows[a]) == id);
    }
    assert(by_id(rest) =~= by_id(rows).remove(gone));
}

/// Putting a row into a listing at its rank gives a listing, with that row
/// under its identity.
pub proof fn lemma_listing_insert(rows: Seq<RecordView>, last_id: int, at: int, row: RecordView)
    requires
        is_listing(rows, last_id),
        rows.len() < last_id,
        stored(row, last_id),
        0 <= at <= rows.len(),
        forall|k: int|
            0 <= k < rows.len() ==> key(#[trigger] rows[k]) != key(row) && rows[k].file_path
                != row.file_path,
        forall|k: int| 0 <= k < at ==> ranks_before(#[trigger] rows[k], row),
        forall|k: int| at <= k < rows.len() ==> ranks_before(row, #[trigger] rows[k]),
    ensures
        is_listing(rows.insert(at, row), last_id),
        by_id(rows.insert(at, row)) == by_id(rows).insert(key(row), row),
{
    let more = rows.insert(at, row);
    assert forall|k: int| 0 <= k < more.len() implies stored(#[trigger] more[k], last_id) by {
        if k != at {
            assert(stored(rows[if k < at { k } else { k - 1 }], last_id));
        }
    }
    assert forall|i: int, j: int|
        #![trigger more[i], more[j]]
        0 <= i < j < more.len() implies {
        &&& key(more[i]) != key(more[j])
        &&& more[i].file_path != more[j].file_path
        &&& ranks_before(more[i], more[j])
    } by {
        if i == at {
            assert(ranks_before(row, rows[j - 1]));
        } else if j == at {
            assert(ranks_before(rows[i], row));
        } else {
            let (a, b) = (if i < at { i } else { i - 1 }, if j < at { j } else { j - 1 });
            assert(ranks_before(rows[a], rows[b]) && key(rows[a]) != key(rows[b]));
        }
    }
    lemma_by_id_rows(rows, last_id);
    lemma_by_id_rows(more, last_id);
    let added = key(row);
    assert(more[at] == row);
    assert forall|id: i64| by_id(more).contains_key(id) <==> by_id(rows).insert(
        added,
        row,
    ).contains_key(id) by {
        if by_id(more).contains_key(id) {
            let k = choose|k: int| has_id(more, k, id);
            if k != at {
                assert(has_id(rows, if k < at { k } else { k - 1 }, id));
            }
        }
        if by_id(rows).contains_key(id) {
            let a = choose|a: int| has_id(rows, a, id);
            assert(has_id(more, if a < at { a } else { a + 1 }, id));
        }
        if id == added {
            assert(has_id(more, at, id));
        }
    }
    assert forall|id: i64| by_id(more).contains_key(id) implies by_id(more)[id] == by_id(
        rows,
    ).insert(added, row)[id] by {
        let k = choose|k: int| has_id(more, k, id);
        if k != at {
            let a = if k < at { k } else { k - 1 };
            assert(more[k] == rows[a]);
            assert(key(rows[a]) == id);
        }
    }
    assert(by_id(more) =~= by_id(rows).insert(added, row));
}

/// The row that takes the place of `existing` when `doc` is saved over it at
/// `now`: identity, path and creation time stay, everything else is new.
pub open spec fn revised(existing: RecordView, doc: RecordView, now: Seq<char>) -> RecordView {
    RecordView {
        id: existing.id,
        file_path: existing.file_path,
        created_at: existing.created_at,
        updated_at: now,
        ..doc
    }
}

/// The row that `doc` becomes when it enters the catalog under `id` at `now`.
pub open spec fn admitted(doc: RecordView, id: i64, now: Seq<char>) -> RecordView {
    RecordView { id: Some(id), created_at: now, updated_at: now, ..doc }
}

/// The catalog of document records.
pub struct CatalogStore {
    rows: Vec<DocumentRecord>,
    last_id: i64,
}

impl View for CatalogStore {
    type V = Map<i64, RecordView>;

    /// The rows by identity.
    open spec fn view(&self) -> Map<i64, RecordView> {
        by_id(self.listing())
    }
}

impl CatalogStore {
    /// The rows, the most recently updated first.
    pub closed spec fn listing(&self) -> Seq<RecordView> {
        self.rows.deep_view()
    }

    /// The largest identity handed out so far; 0 before the first.
    pub closed spec fn last_id(&self) -> int {
        self.last_id as int
    }

    /// The invariant of the store.
    pub open spec fn wf(&self) -> bool {
        is_listing(self.listing(), self.last_id())
    }

    /// An empty catalog.
    pub fn new() -> (store: CatalogStore)
        ensures
            store.wf(),
            store.listing() == Seq::<RecordView>::empty(),
            store.last_id() == 0,
            store@ == Map::<i64, RecordView>::empty(),
    {
        let store = CatalogStore { rows: Vec::new(), last_id: 0 };
        assert(store.listing() =~= Seq::<RecordView>::empty());
        assert(store@ =~= Map::<i64, RecordView>::empty());
        store
    }

    /// The number of rows.
    pub fn len(&self) -> (n: usize)
        ensures
            n == self.listing().len(),
    {
        self.rows.len()
    }
}

fn key_of(r: &DocumentRecord) -> (k: i64)
    ensures
        k == key(r@),
{
    match r.id {
        Some(k) => k,
        None => 0,
    }
}

fn ranked_before(x: &DocumentRecord, y: &DocumentRecord) -> (r: bool)
    ensures
        r == ranks_before(x@, y@),
{
    let a = x.updated_at.as_str().as_bytes();
    let b = y.updated_at.as_str().as_bytes();
    if bytes_less(b, a) {
        true
    } else if bytes_equal(a, b) {
        key_of(x) < key_of(y)
    } else {
        false
    }
}

fn position_of_id(rows: &Vec<DocumentRecord>, id: i64) -> (r: Option<usize>)
    ensures
        match r {
            Some(i) => has_id(rows.deep_view(), i as int, id),
            None => forall|i: int| !has_id(rows.deep_view(), i, id),
        },
{
    let mut i: usize = 0;
    while i < rows.len()
        invariant
            i <= rows.len(),
            forall|j: int| 0 <= j < i ==> !has_id(rows.deep_view(), j, id),
        decreases rows.len() - i,
    {
        match rows[i].id {
            Some(k) => {
                if k == id {
                    return Some(i);
                }
            },
            None => {},
        }
        i += 1;
    }
    None
}

fn position_of_path(rows: &Vec<DocumentRecord>, path: &String) -> (r: Option<usize>)
    ensures
        match r {
            Some(i) => has_path(rows.deep_view(), i as int, path@),
            None => forall|i: int| !has_path(rows.deep_view(), i, path@),
        },
{
    let mut i: usize = 0;
    while i < rows.len()
        invariant
            i <= rows.len(),
            forall|j: int| 0 <= j < i ==> !has_path(rows.deep_view(), j, path@),
        decreases rows.len() - i,
    {
        if rows[i].file_path == *path {
            return Some(i);
        }
        i += 1;
    }
    None
}

/// The rank that `row` takes among `rows`.
fn rank_position(rows: &Vec<DocumentRecord>, row: &DocumentRecord, Ghost(last_id): Ghost<int>) -> (at:
    usize)
    requires
        is_listing(rows.deep_view(), last_id),
        forall|k: int| 0 <= k < rows.len() ==> key(#[trigger] rows.deep_view()[k]) != key(row@),
    ensures
        at <= rows.len(),
        forall|k: int| 0 <= k < at ==> ranks_before(#[trigger] rows.deep_view()[k], row@),
        forall|k: int| at <= k < rows.len() ==> ranks_before(row@, #[trigger] rows.deep_view()[k]),
{
    let ghost listing = rows.deep_view();
    let mut at: usize = 0;
    while at < rows.len() && ranked_before(&rows[at], row)
        invariant
            at <= rows.len(),
            listing == rows.deep_view(),
            forall|k: int| 0 <= k < at ==> ranks_before(#[trigger] listing[k], row@),
        decreases rows.len() - at,
    {
        at += 1;
    }
    proof {
        if at < rows.len() {
            assert(!ranks_before(listing[at as int], row@));
            lemma_ranks_connected(listing[at as int], row@);
            assert forall|k: int| at <= k < rows.len() implies ranks_before(
                row@,
                #[trigger] listing[k],
            ) by {
                if at < k {
                    assert(ranks_before(listing[at as int], listing[k]));
                    lemma_ranks_transitive(row@, listing[at as int], listing[k]);
                }
            }
        }
    }
    at
}

fn is_storable(doc: &DocumentRecord) -> (r: bool)
    ensures
        r == storable(doc@),
{
    doc.file_size >= 0 && doc.page_count >= 0
}

/// The row that is kept for `doc`: the given identity and times, the rest
/// copied from `doc`.
fn row_for(doc: &DocumentRecord, id: i64, file_path: String, created_at: String, now: &str) -> (row:
    DocumentRecord)
    ensures
        row@ == (RecordView {
            id: Some(id),
            file_path: file_path@,
            created_at: created_at@,
            updated_at: now@,
            ..doc@
        }),
{
    DocumentRecord {
        id: Some(id),
        title: doc.title.clone(),
        file_path,
        file_name: doc.file_name.clone(),
        file_size: doc.file_size,
        page_count: doc.page_count,
        archive_serial: copy_optional(&doc.archive_serial),
        date_created: doc.date_created.clone(),
        correspondent: copy_optional(&doc.correspondent),
        document_type: copy_optional(&doc.document_type),
        storage_path: doc.storage_path.clone(),
        tags: doc.tags.clone(),
        notes: copy_optional(&doc.notes),
        created_at,
        updated_at: now.to_owned(),
    }
}

/// Takes row `at` out of the store and puts `row` in at its rank.
fn replace_row(store: &mut CatalogStore, at: usize, row: DocumentRecord)
    requires
        old(store).wf(),
        at < old(store).listing().len(),
        row@.id == old(store).listing()[at as int].id,
        row@.file_path == old(store).listing()[at as int].file_path,
        storable(row@),
    ensures
        final(store).wf(),
        final(store).last_id() == old(store).last_id(),
        final(store)@ == old(store)@.insert(key(row@), row@),
{
    let ghost before = store.listing();
    let ghost last_id = store.last_id();
    let ghost rest = before.remove(at as int);
    proof {
        lemma_listing_remove(before, last_id, at as int);
        assert(stored(before[at as int], last_id));
    }
    let _ = store.rows.remove(at);
    assert(store.rows.deep_view() =~= rest);
    let to = rank_position(&store.rows, &row, Ghost(last_id));
    proof {
        lemma_listing_insert(rest, last_id, to as int, row@);
        assert(by_id(before).remove(key(row@)).insert(key(row@), row@) =~= by_id(before).insert(
            key(row@),
            row@,
        ));
    }
    let ghost shown = row@;
    store.rows.insert(to, row);
    assert(store.rows.deep_view() =~= rest.insert(to as int, shown));
}

/// What saving `doc` at the time `now` does to a catalog and returns.
pub open spec fn save_outcome(
    before: CatalogStore,
    after: CatalogStore,
    doc: RecordView,
    now: Seq<char>,
    r: Result<i64, Failure>,
) -> bool {
    &&& after.wf()
    &&& match r {
        Ok(id) => match by_path(before.listing(), doc.file_path) {
            Some(existing) => {
                &&& id == key(existing)
                &&& before@.contains_key(id)
                &&& before@[id] == existing
                &&& after.last_id() == before.last_id()
                &&& after@ == before@.insert(id, revised(existing, doc, now))
            },
            None => {
                &&& id == before.last_id() + 1
                &&& after.last_id() == id
                &&& after@ == before@.insert(id, admitted(doc, id, now))
            },
        },
        Err(e) => {
            &&& e.kind == ErrorKind::ConstraintViolation
            &&& e.message@ == (if storable(doc) {
                "No identity is left for a new document"@
            } else {
                "File size and page count must not be negative"@
            })
            &&& after.listing() == before.listing()
            &&& after.last_id() == before.last_id()
        },
    }
    &&& r is Err <==> !storable(doc) || (by_path(before.listing(), doc.file_path) is None
        && before.last_id() == i64::MAX)
}

/// What overwriting the row `id` by `doc` at the time `now` does to a catalog
/// and returns.
pub open spec fn update_outcome(
    before: CatalogStore,
    after: CatalogStore,
    id: i64,
    doc: RecordView,
    now: Seq<char>,
    r: Result<(), Failure>,
) -> bool {
    &&& after.wf()
    &&& after.last_id() == before.last_id()
    &&& r is Err <==> !storable(doc)
    &&& match r {
        Ok(_) => if before@.contains_key(id) {
            after@ == before@.insert(id, revised(before@[id], doc, now))
        } else {
            after.listing() == before.listing()
        },
        Err(e) => {
            &&& e.kind == ErrorKind::ConstraintViolation
            &&& e.message@ == "File size and page count must not be negative"@
            &&& after.listing() == before.listing()
        },
    }
}

/// Saves `doc` at the time `now`: a row with the same path is replaced in
/// place, keeping its identity and creation time; otherwise the record enters
/// the catalog under the next identity. Returns the identity of the row.
///
/// A record with a negative size is refused, and so is a new record once the
/// identities are used up; the catalog is then unchanged.
pub fn save_document_at(store: &mut CatalogStore, doc: &DocumentRecord, now: &str) -> (r: Result<
    i64,
    Failure,
>)
    requires
        old(store).wf(),
    ensures
        save_outcome(*old(store), *final(store), doc@, now@, r),
{
    if !is_storable(doc) {
        return Err(
            Failure::new(
                ErrorKind::ConstraintViolation,
                "File size and page count must not be negative",
            ),
        );
    }
    let ghost before = store.listing();
    let ghost last_id = store.last_id();
    match position_of_path(&store.rows, &doc.file_path) {
        Some(at) => {
            proof {
                lemma_by_path_rows(before, last_id, at as int);
                lemma_by_id_rows(before, last_id);
                assert(stored(before[at as int], last_id));
            }
            let id = key_of(&store.rows[at]);
            let row = row_for(
                doc,
                id,
                store.rows[at].file_path.clone(),
                store.rows[at].created_at.clone(),
                now,
            );
            assert(row@ == revised(before[at as int], doc@, now@));
            replace_row(store, at, row);
            Ok(id)
        },
        None => {
            if store.last_id == i64::MAX {
                return Err(
                    Failure::new(
                        ErrorKind::ConstraintViolation,
                        "No identity is left for a new document",
                    ),
                );
            }
            let id = store.last_id + 1;
            let row = row_for(doc, id, doc.file_path.clone(), now.to_owned(), now);
            assert(row@ == admitted(doc@, id, now@));
            proof {
                assert forall|k: int| 0 <= k < before.len() implies stored(
                    #[trigger] before[k],
                    last_id + 1,
                ) by {
                    assert(stored(before[k], last_id));
                }
                assert(is_listing(before, last_id + 1));
                assert forall|k: int| 0 <= k < before.len() implies key(#[trigger] before[k])
                    != key(row@) && before[k].file_path != row@.file_path by {
                    assert(stored(before[k], last_id));
                    assert(!has_path(before, k, doc@.file_path));
                }
            }
            let to = rank_position(&store.rows, &row, Ghost(last_id + 1));
            proof {
                lemma_listing_insert(before, last_id + 1, to as int, row@);
            }
            let ghost shown = row@;
            store.rows.insert(to, row);
            store.last_id = id;
            assert(store.rows.deep_view() =~= before.insert(to as int, shown));
            Ok(id)
        },
    }
}

/// The record with the given identity.
pub fn get_document_by_id(store: &CatalogStore, id: i64) -> (r: Result<DocumentRecord, Failure>)
    requires
        store.wf(),
    ensures
        match r {
            Ok(doc) => store@.contains_key(id) && doc@ == store@[id],
            Err(e) => !store@.contains_key(id) && e.kind == ErrorKind::NotFound && e.message@
                == "Document not found"@,
        },
{
    proof {
        lemma_by_id_rows(store.listing(), store.last_id());
    }
    match position_of_id(&store.rows, id) {
        Some(at) => {
            assert(stored(store.listing()[at as int], store.last_id()));
            Ok(store.rows[at].clone())
        },
        None => {
            assert(!store@.contains_key(id)) by {
                if store@.contains_key(id) {
                    let i = choose|i: int| has_id(store.listing(), i, id);
                    assert(has_id(store.listing(), i, id));
                }
            }
            Err(Failure::new(ErrorKind::NotFound, "Document not found"))
        },
    }
}

/// Overwrites the row with the given identity by `doc` at the time `now`,
/// keeping its identity, path and creation time. Where the catalog has no
/// such row, nothing changes and the call succeeds.
///
/// A record with a negative size is refused and the catalog is unchanged.
pub fn update_document_at(store: &mut CatalogStore, id: i64, doc: &DocumentRecord, now: &str) -> (r:
    Result<(), Failure>)
    requires
        old(store).wf(),
    ensures
        update_outcome(*old(store), *final(store), id, doc@, now@, r),
{
    if !is_storable(doc) {
        return Err(
            Failure::new(
                ErrorKind::ConstraintViolation,
                "File size and page count must not be negative",
            ),
        );
    }
    let ghost before = store.listing();
    proof {
        lemma_by_id_rows(before, store.last_id());
    }
    match position_of_id(&store.rows, id) {
        Some(at) => {
            assert(stored(before[at as int], store.last_id()));
            let row = row_for(
                doc,
                id,
                store.rows[at].file_path.clone(),
                store.rows[at].created_at.clone(),
                now,
            );
            assert(row@ == revised(before[at as int], doc@, now@));
            replace_row(store, at, row);
        },
        None => {
            assert(!store@.contains_key(id)) by {
                if store@.contains_key(id) {
                    let i = choose|i: int| has_id(before, i, id);
                    assert(has_id(before, i, id));
                }
            }
        },
    }
    Ok(())
}

/// Removes the row with the given identity. Where the catalog has no such
/// row, nothing changes.
pub fn delete_document(store: &mut CatalogStore, id: i64)
    requires
        old(store).wf(),
    ensures
        final(store).wf(),
        final(store).last_id() == old(store).last_id(),
        final(store)@ == old(store)@.remove(id),
        !old(store)@.contains_key(id) ==> final(store).listing() == old(store).listing(),
{
    let ghost before = store.listing();
    proof {
        lemma_by_id_rows(before, store.last_id());
    }
    match position_of_id(&store.rows, id) {
        Some(at) => {
            proof {
                lemma_listing_remove(before, store.last_id(), at as int);
                assert(stored(before[at as int], store.last_id()));
            }
            let _ = store.rows.remove(at);
            assert(store.rows.deep_view() =~= before.remove(at as int));
        },
        None => {
            assert(!store@.contains_key(id)) by {
                if store@.contains_key(id) {
                    let i = choose|i: int| has_id(before, i, id);
                    assert(has_id(before, i, id));
                }
            }
            assert(store@ =~= store@.remove(id));
        },
    }
}

/// Whether the title, the file name or the tags of `r` contain `needle`,
/// ASCII letters compared without regard to case.
pub open spec fn mentions(r: RecordView, needle: Seq<char>) -> bool {
    let n = encode_utf8(needle);
    ||| occurs_in(encode_utf8(r.title), n, true)
    ||| occurs_in(encode_utf8(r.file_name), n, true)
    ||| occurs_in(encode_utf8(r.tags), n, true)
}

/// Whether `r` passes both filters: the text filter, where there is one, must
/// be mentioned, and the type filter, where there is one, must be the
/// document type exactly.
pub open spec fn selected(
    r: RecordView,
    text: Option<Seq<char>>,
    document_type: Option<Seq<char>>,
) -> bool {
    &&& text matches Some(t) ==> mentions(r, t)
    &&& document_type matches Some(d) ==> r.document_type == Some(d)
}

/// Where a page starts among `len` rows: at the offset, a negative one
/// counting as none, and never past the end.
pub open spec fn page_start(len: int, offset: Option<i64>) -> int {
    match offset {
        Some(o) => if o <= 0 {
            0
        } else if o >= len {
            len
        } else {
            o as int
        },
        None => 0,
    }
}

/// Where a page ends among `len` rows: `limit` rows after its start, a
/// negative limit counting as none, and never past the end.
pub open spec fn page_end(len: int, limit: Option<i64>, offset: Option<i64>) -> int {
    let start = page_start(len, offset);
    match limit {
        Some(l) => if l < 0 || start + l >= len {
            len
        } else {
            start + l
        },
        None => len,
    }
}

/// The page of `rows` that `limit` and `offset` cut out.
pub open spec fn page(rows: Seq<RecordView>, limit: Option<i64>, offset: Option<i64>) -> Seq<
    RecordView,
> {
    rows.subrange(
        page_start(rows.len() as int, offset),
        page_end(rows.len() as int, limit, offset),
    )
}

/// What a search returns: the rows of the listing that pass the filters, in
/// the order of the listing, cut to the page.
pub open spec fn search_result(
    listing: Seq<RecordView>,
    text: Option<Seq<char>>,
    document_type: Option<Seq<char>>,
    limit: Option<i64>,
    offset: Option<i64>,
) -> Seq<RecordView> {
    page(listing.filter(|r: RecordView| selected(r, text, document_type)), limit, offset)
}

fn is_selected(r: &DocumentRecord, text: &Option<String>, document_type: &Option<String>) -> (b:
    bool)
    ensures
        b == selected(r@, optional_text(*text), optional_text(*document_type)),
{
    let text_ok = match text {
        Some(t) => {
            let needle = t.as_str().as_bytes();
            contains_bytes(r.title.as_str().as_bytes(), needle, true) || contains_bytes(
                r.file_name.as_str().as_bytes(),
                needle,
                true,
            ) || contains_bytes(r.tags.as_str().as_bytes(), needle, true)
        },
        None => true,
    };
    let type_ok = match document_type {
        Some(d) => match &r.document_type {
            Some(own) => *own == *d,
            None => false,
        },
        None => true,
    };
    text_ok && type_ok
}

/// The positions of the rows that pass the filters, in order.
fn selected_positions(
    rows: &Vec<DocumentRecord>,
    text: &Option<String>,
    document_type: &Option<String>,
) -> (picked: Vec<usize>)
    ensures
        picked.len() == rows.deep_view().filter(
            |r: RecordView| selected(r, optional_text(*text), optional_text(*document_type)),
        ).len(),
        forall|k: int|
            0 <= k < picked.len() ==> (#[trigger] picked[k]) < rows.len() && rows.deep_view()[picked[k] as int]
                == rows.deep_view().filter(
                |r: RecordView| selected(r, optional_text(*text), optional_text(*document_type)),
            )[k],
{
    let ghost listing = rows.deep_view();
    let ghost keep = |r: RecordView| selected(r, optional_text(*text), optional_text(*document_type));
    let mut picked: Vec<usize> = Vec::new();
    let mut i: usize = 0;
    proof {
        assert(listing.take(0) =~= Seq::<RecordView>::empty());
        reveal(Seq::filter);
    }
    while i < rows.len()
        invariant
            i <= rows.len(),
            listing == rows.deep_view(),
            keep == |r: RecordView| selected(r, optional_text(*text), optional_text(*document_type)),
            picked.len() == listing.take(i as int).filter(keep).len(),
            forall|k: int|
                0 <= k < picked.len() ==> (#[trigger] picked[k]) < i && listing[picked[k] as int]
                    == listing.take(i as int).filter(keep)[k],
        decreases rows.len() - i,
    {
        proof {
            assert(listing.take(i + 1) =~= listing.take(i as int).push(listing[i as int]));
            listing.take(i as int).lemma_filter_push(listing[i as int], keep);
        }
        if is_selected(&rows[i], text, document_type) {
            picked.push(i);
        }
        i += 1;
    }
    proof {
        assert(listing.take(i as int) =~= listing);
    }
    picked
}

/// Lists the rows that pass the filters, the most recently updated first.
///
/// `search`, where given, must occur in the title, the file name or the tags,
/// ASCII letters compared without regard to case; `document_type`, where
/// given, must equal the document type. `offset` rows are then skipped and at
/// most `limit` returned; a negative `offset` skips none and a negative
/// `limit` returns all.
pub fn get_documents(
    store: &CatalogStore,
    search: Option<String>,
    document_type: Option<String>,
    limit: Option<i64>,
    offset: Option<i64>,
) -> (found: Vec<DocumentRecord>)
    ensures
        found.deep_view() == search_result(
            store.listing(),
            optional_text(search),
            optional_text(document_type),
            limit,
            offset,
        ),
{
    let picked = selected_positions(&store.rows, &search, &document_type);
    let ghost listing = store.listing();
    let ghost hits = listing.filter(
        |r: RecordView| selected(r, optional_text(search), optional_text(document_type)),
    );
    let count: usize = picked.len();
    let start: usize = match offset {
        Some(o) => if o <= 0 {
            0
        } else if o as u64 >= count as u64 {
            count
        } else {
            o as usize
        },
        None => 0,
    };
    let end: usize = match limit {
        Some(l) => if l < 0 || l as u64 >= (count - start) as u64 {
            count
        } else {
            start + l as usize
        },
        None => count,
    };
    assert(start == page_start(hits.len() as int, offset));
    assert(end == page_end(hits.len() as int, limit, offset));
    let mut found: Vec<DocumentRecord> = Vec::new();
    let mut k: usize = start;
    while k < end
        invariant
            start <= k <= end <= count,
            count == picked.len() == hits.len(),
            listing == store.rows.deep_view(),
            forall|j: int|
                0 <= j < picked.len() ==> (#[trigger] picked[j]) < store.rows.len()
                    && listing[picked[j] as int] == hits[j],
            found.deep_view() == hits.subrange(start as int, k as int),
        decreases end - k,
    {
        let ghost so_far = found.deep_view();
        found.push(store.rows[picked[k]].clone());
        assert(found.deep_view() =~= so_far.push(hits[k as int]));
        assert(hits.subrange(start as int, k + 1) =~= hits.subrange(start as int, k as int).push(
            hits[k as int],
        ));
        k += 1;
    }
    found
}

/// The aggregate figures of a catalog.
#[derive(Clone, Copy, Debug, PartialEq, Eq)]
pub struct CatalogStats {
    pub total_documents: i64,
    pub total_size_bytes: i64,
}

/// The sum of the byte counts of `rows`.
pub open spec fn total_size(rows: Seq<RecordView>) -> int
    decreases rows.len(),
{
    if rows.len() == 0 {
        0
    } else {
        total_size(rows.drop_last()) + rows.last().file_size
    }
}

/// Counts the documents and adds up their sizes. Fails where the sum does not
/// fit the 64-bit figure that reports it.
pub fn get_stats(store: &CatalogStore) -> (r: Result<CatalogStats, Failure>)
    requires
        store.wf(),
    ensures
        match r {
            Ok(stats) => {
                &&& stats.total_documents == store.listing().len()
                &&& stats.total_size_bytes == total_size(store.listing())
            },
            Err(e) => e.kind == ErrorKind::ConstraintViolation && e.message@
                == "The total size is out of range"@,
        },
        r is Err <==> total_size(store.listing()) > i64::MAX,
{
    let ghost listing = store.listing();
    let mut sum: i128 = 0;
    let mut i: usize = 0;
    proof {
        assert(listing.take(0) =~= Seq::<RecordView>::empty());
    }
    while i < store.rows.len()
        invariant
            i <= store.rows.len(),
            listing == store.rows.deep_view(),
            is_listing(listing, store.last_id()),
            sum == total_size(listing.take(i as int)),
            0 <= sum <= i * i64::MAX,
        decreases store.rows.len() - i,
    {
        proof {
            assert(listing.take(i + 1).drop_last() =~= listing.take(i as int));
            assert(stored(listing[i as int], store.last_id()));
        }
        sum = sum + store.rows[i].file_size as i128;
        i += 1;
    }
    proof {
        assert(listing.take(i as int) =~= listing);
    }
    if sum > i64::MAX as i128 {
        Err(Failure::new(ErrorKind::ConstraintViolation, "The total size is out of range"))
    } else {
        Ok(CatalogStats { total_documents: store.rows.len() as i64, total_size_bytes: sum as i64 })
    }
}

/// Saves `doc` at the current time; see [`save_document_at`].
pub fn save_document(store: &mut CatalogStore, doc: &DocumentRecord) -> (r: Result<i64, Failure>)
    requires
        old(store).wf(),
    ensures
        exists|now: Seq<char>| save_outcome(*old(store), *final(store), doc@, now, r),
{
    let now = current_timestamp();
    save_document_at(store, doc, now.as_str())
}

/// Overwrites the row `id` by `doc` at the current time; see
/// [`update_document_at`].
pub fn update_document(store: &mut CatalogStore, id: i64, doc: &DocumentRecord) -> (r: Result<
    (),
    Failure,
>)
    requires
        old(store).wf(),
    ensures
        exists|now: Seq<char>| update_outcome(*old(store), *final(store), id, doc@, now, r),
{
    let now = current_timestamp();
    update_document_at(store, id, doc, now.as_str())
}

/// The largest identity among `rows`; 0 where there is none above 0.
pub open spec fn largest_id(rows: Seq<RecordView>) -> int
    decreases rows.len(),
{
    if rows.len() == 0 {
        0
    } else if key(rows.last()) > largest_id(rows.drop_last()) {
        key(rows.last()) as int
    } else {
        largest_id(rows.drop_last())
    }
}

/// The largest identity that a catalog with these rows has handed out, as
/// far as can be told: the count that was kept of it, where one was kept, or
/// the largest identity among the rows, whichever is larger.
pub fn identity_counter(rows: &Vec<DocumentRecord>, counted: Option<i64>) -> (last_id: i64)
    ensures
        last_id == (match counted {
            Some(count) if count > largest_id(rows.deep_view()) => count as int,
            _ => largest_id(rows.deep_view()),
        }),
{
    let ghost given = rows.deep_view();
    let mut largest: i64 = 0;
    let mut i: usize = 0;
    proof {
        assert(given.take(0) =~= Seq::<RecordView>::empty());
    }
    while i < rows.len()
        invariant
            i <= rows.len(),
            given == rows.deep_view(),
            largest == largest_id(given.take(i as int)),
        decreases rows.len() - i,
    {
        proof {
            assert(given.take(i + 1).drop_last() =~= given.take(i as int));
        }
        let id = key_of(&rows[i]);
        if id > largest {
            largest = id;
        }
        i += 1;
    }
    proof {
        assert(given.take(i as int) =~= given);
    }
    match counted {
        Some(count) => if count > largest {
            count
        } else {
            largest
        },
        None => largest,
    }
}

/// Whether `rows`, in any order, can be the rows of a catalog whose largest
/// identity handed out is `last_id`.
pub open spec fn restorable(rows: Seq<RecordView>, last_id: int) -> bool {
    &&& rows.len() <= last_id <= i64::MAX
    &&& forall|i: int| 0 <= i < rows.len() ==> stored(#[trigger] rows[i], last_id)
    &&& forall|i: int, j: int|
        #![trigger rows[i], rows[j]]
        0 <= i < j < rows.len() ==> key(rows[i]) != key(rows[j]) && rows[i].file_path
            != rows[j].file_path
}

/// Builds a catalog from rows that were stored before, in any order, and the
/// largest identity handed out so far. Fails where the rows cannot be those
/// of a catalog.
pub fn restore(rows: &Vec<DocumentRecord>, last_id: i64) -> (r: Result<CatalogStore, Failure>)
    ensures
        r is Ok <==> restorable(rows.deep_view(), last_id as int),
        match r {
            Ok(store) => {
                &&& store.wf()
                &&& store.last_id() == last_id
                &&& store.listing().len() == rows.len()
                &&& forall|i: int|
                    0 <= i < rows.len() ==> store@.contains_key(
                        key(#[trigger] rows.deep_view()[i]),
                    ) && store@[key(rows.deep_view()[i])] == rows.deep_view()[i]
                &&& forall|id: i64| #[trigger]
                    store@.contains_key(id) ==> exists|i: int| has_id(rows.deep_view(), i, id)
            },
            Err(e) => e.kind == ErrorKind::ConstraintViolation,
        },
{
    let ghost given = rows.deep_view();
    if last_id < 0 || rows.len() as u64 > last_id as u64 {
        return Err(
            Failure::new(ErrorKind::ConstraintViolation, "More rows than identities handed out"),
        );
    }
    let mut store = CatalogStore { rows: Vec::new(), last_id };
    assert(store.listing() =~= Seq::<RecordView>::empty());
    let mut i: usize = 0;
    while i < rows.len()
        invariant
            i <= rows.len() <= last_id,
            given == rows.deep_view(),
            store.wf(),
            store.last_id() == last_id,
            store.listing().len() == i,
            restorable(given.take(i as int), last_id as int),
            forall|j: int|
                0 <= j < i ==> store@.contains_key(key(#[trigger] given[j])) && store@[key(
                    given[j],
                )] == given[j],
            forall|id: i64| #[trigger]
                store@.contains_key(id) ==> exists|j: int| j < i && has_id(given, j, id),
        decreases rows.len() - i,
    {
        let ghost listing = store.listing();
        let row = &rows[i];
        proof {
            lemma_by_id_rows(listing, last_id as int);
        }
        let known = match row.id {
            Some(k) => 1 <= k && k <= last_id,
            None => false,
        };
        if !known || !is_storable(row) {
            assert(!stored(given[i as int], last_id as int));
            return Err(
                Failure::new(ErrorKind::ConstraintViolation, "A row is not a stored row"),
            );
        }
        let id = key_of(row);
        match position_of_id(&store.rows, id) {
            Some(at) => {
                proof {
                    assert(stored(listing[at as int], last_id as int));
                    assert(store@.contains_key(id));
                    let j = choose|j: int| j < i && has_id(given, j, id);
                    assert(key(given[j]) == key(given[i as int]));
                }
                return Err(
                    Failure::new(ErrorKind::ConstraintViolation, "An identity occurs twice"),
                );
            },
            None => {},
        }
        match position_of_path(&store.rows, &row.file_path) {
            Some(at) => {
                proof {
                    assert(stored(listing[at as int], last_id as int));
                    let other = key(listing[at as int]);
                    assert(store@.contains_key(other) && store@[other] == listing[at as int]);
                    let j = choose|j: int| j < i && has_id(given, j, other);
                    assert(store@[key(given[j])] == given[j]);
                    assert(given[j].file_path == given[i as int].file_path);
                }
                return Err(Failure::new(ErrorKind::ConstraintViolation, "A path occurs twice"));
            },
            None => {},
        }
        proof {
            assert forall|k: int| 0 <= k < listing.len() implies key(#[trigger] listing[k]) != key(
                row@,
            ) && listing[k].file_path != row@.file_path by {
                assert(stored(listing[k], last_id as int));
                assert(!has_id(listing, k, id));
                assert(!has_path(listing, k, row@.file_path));
            }
        }
        let to = rank_position(&store.rows, row, Ghost(last_id as int));
        proof {
            lemma_listing_insert(listing, last_id as int, to as int, row@);
            let next = given.take(i + 1);
            assert forall|a: int, b: int|
                #![trigger next[a], next[b]]
                0 <= a < b < next.len() implies key(next[a]) != key(next[b]) && next[a].file_path
                != next[b].file_path by {
                if b < i {
                    assert(key(given.take(i as int)[a]) != key(given.take(i as int)[b]));
                } else {
                    let ka = key(given[a]);
                    assert(store@.contains_key(ka) && store@[ka] == given[a]);
                    let at = choose|at: int| has_id(listing, at, ka);
                    assert(has_id(listing, at, ka));
                    assert(listing[at] == given[a]);
                }
            }
            assert forall|k: int| 0 <= k < next.len() implies stored(
                #[trigger] next[k],
                last_id as int,
            ) by {
                if k < i {
                    assert(stored(given.take(i as int)[k], last_id as int));
                }
            }
        }
        let ghost shown = row@;
        let ghost before = store@;
        store.rows.insert(to, row.clone());
        assert(store.rows.deep_view() =~= listing.insert(to as int, shown));
        proof {
            assert(store@ == before.insert(id, shown));
            assert forall|other: i64| #[trigger] store@.contains_key(other) implies exists|j: int|
                j < i + 1 && has_id(given, j, other) by {
                if other == id {
                    assert(has_id(given, i as int, other));
                } else {
                    assert(before.contains_key(other));
                    let j = choose|j: int| j < i && has_id(given, j, other);
                    assert(j < i + 1 && has_id(given, j, other));
                }
            }
        }
        i += 1;
    }
    proof {
        assert(given.take(i as int) =~= given);
        assert forall|id: i64| #[trigger] store@.contains_key(id) implies exists|j: int|
            has_id(given, j, id) by {
            let j = choose|j: int| j < i && has_id(given, j, id);
            assert(has_id(given, j, id));
        }
    }
    Ok(store)
}

impl CatalogStore {
    /// The rows in the order of the listing, copied out.
    pub fn rows(&self) -> (out: Vec<DocumentRecord>)
        ensures
            out.deep_view() == self.listing(),
    {
        let mut out: Vec<DocumentRecord> = Vec::new();
        let mut i: usize = 0;
        while i < self.rows.len()
            invariant
                i <= self.rows.len(),
                out.deep_view() == self.rows.deep_view().take(i as int),
            decreases self.rows.len() - i,
        {
            let ghost so_far = out.deep_view();
            out.push(self.rows[i].clone());
            assert(out.deep_view() =~= so_far.push(self.rows.deep_view()[i as int]));
            assert(self.rows.deep_view().take(i + 1) =~= self.rows.deep_view().take(
                i as int,
            ).push(self.rows.deep_view()[i as int]));
            i += 1;
        }
        assert(self.rows.deep_view().take(i as int) =~= self.rows.deep_view());
        out
    }

    /// The largest identity handed out so far; 0 before the first.
    pub fn latest_id(&self) -> (id: i64)
        ensures
            id == self.last_id(),
    {
        self.last_id
    }
}

} // verus!
