use document_manager::catalog::{
    delete_document, get_document_by_id, get_documents, get_stats, identity_counter, restore,
    save_document, save_document_at, update_document, update_document_at, CatalogStats,
    CatalogStore,
};
use document_manager::error::ErrorKind;
use document_manager::record::DocumentRecord;

fn record(path: &str, title: &str, file_name: &str, tags: &str, kind: Option<&str>) -> DocumentRecord {
    DocumentRecord {
        id: None,
        title: title.to_string(),
        file_path: path.to_string(),
        file_name: file_name.to_string(),
        file_size: 100,
        page_count: 3,
        archive_serial: None,
        date_created: "2024-01-01".to_string(),
        correspondent: None,
        document_type: kind.map(|k| k.to_string()),
        storage_path: "Default".to_string(),
        tags: tags.to_string(),
        notes: None,
        created_at: String::new(),
        updated_at: String::new(),
    }
}

fn plain(path: &str) -> DocumentRecord {
    record(path, "Title", "file.pdf", "[]", None)
}

fn titles(found: &[DocumentRecord]) -> Vec<String> {
    found.iter().map(|d| d.title.clone()).collect()
}

#[test]
fn new_catalog_is_empty() {
    let store = CatalogStore::new();
    assert_eq!(store.len(), 0);
    assert_eq!(store.latest_id(), 0);
    assert!(store.rows().is_empty());
}

#[test]
fn stats_of_empty_catalog_are_zero() {
    let store = CatalogStore::new();
    assert_eq!(
        get_stats(&store).unwrap(),
        CatalogStats { total_documents: 0, total_size_bytes: 0 }
    );
}

#[test]
fn first_save_assigns_identity_one_and_both_times() {
    let mut store = CatalogStore::new();
    let id = save_document_at(&mut store, &plain("/a.pdf"), "2024-05-01T10:00:00+00:00").unwrap();
    assert_eq!(id, 1);
    let row = get_document_by_id(&store, 1).unwrap();
    assert_eq!(row.id, Some(1));
    assert_eq!(row.file_path, "/a.pdf");
    assert_eq!(row.created_at, "2024-05-01T10:00:00+00:00");
    assert_eq!(row.updated_at, "2024-05-01T10:00:00+00:00");
}

#[test]
fn save_ignores_identity_and_times_of_the_caller() {
    let mut store = CatalogStore::new();
    let mut doc = plain("/a.pdf");
    doc.id = Some(77);
    doc.created_at = "yesterday".to_string();
    doc.updated_at = "yesterday".to_string();
    let id = save_document_at(&mut store, &doc, "t1").unwrap();
    assert_eq!(id, 1);
    let row = get_document_by_id(&store, 1).unwrap();
    assert_eq!(row.id, Some(1));
    assert_eq!(row.created_at, "t1");
    assert_eq!(row.updated_at, "t1");
    assert!(get_document_by_id(&store, 77).is_err());
}

#[test]
fn saving_the_same_path_twice_updates_in_place() {
    let mut store = CatalogStore::new();
    let first = record("/a.pdf", "Old", "old.pdf", "[\"x\"]", Some("invoice"));
    let id1 = save_document_at(&mut store, &first, "2024-05-01T10:00:00+00:00").unwrap();
    let mut second = record("/a.pdf", "New", "new.pdf", "[\"y\"]", Some("letter"));
    second.file_size = 555;
    second.page_count = 9;
    second.archive_serial = Some("A-1".to_string());
    second.date_created = "2024-02-02".to_string();
    second.correspondent = Some("ACME".to_string());
    second.storage_path = "Archive".to_string();
    second.notes = Some("note".to_string());
    let id2 = save_document_at(&mut store, &second, "2024-05-02T10:00:00+00:00").unwrap();
    assert_eq!(id1, id2);
    assert_eq!(store.len(), 1);
    let row = get_document_by_id(&store, id1).unwrap();
    assert_eq!(row.created_at, "2024-05-01T10:00:00+00:00");
    assert_eq!(row.updated_at, "2024-05-02T10:00:00+00:00");
    assert!(row.updated_at > row.created_at);
    assert_eq!(row.title, "New");
    assert_eq!(row.file_name, "new.pdf");
    assert_eq!(row.file_size, 555);
    assert_eq!(row.page_count, 9);
    assert_eq!(row.archive_serial, Some("A-1".to_string()));
    assert_eq!(row.date_created, "2024-02-02");
    assert_eq!(row.correspondent, Some("ACME".to_string()));
    assert_eq!(row.document_type, Some("letter".to_string()));
    assert_eq!(row.storage_path, "Archive");
    assert_eq!(row.tags, "[\"y\"]");
    assert_eq!(row.notes, Some("note".to_string()));
    assert_eq!(row.file_path, "/a.pdf");
    assert_eq!(row.id, Some(id1));
}

#[test]
fn identities_are_not_reused_after_delete() {
    let mut store = CatalogStore::new();
    assert_eq!(save_document_at(&mut store, &plain("/a.pdf"), "t1").unwrap(), 1);
    assert_eq!(save_document_at(&mut store, &plain("/b.pdf"), "t2").unwrap(), 2);
    delete_document(&mut store, 2);
    assert_eq!(save_document_at(&mut store, &plain("/c.pdf"), "t3").unwrap(), 3);
    assert_eq!(store.latest_id(), 3);
}

#[test]
fn save_refuses_negative_sizes() {
    let mut store = CatalogStore::new();
    let mut doc = plain("/a.pdf");
    doc.file_size = -1;
    let e = save_document_at(&mut store, &doc, "t1").unwrap_err();
    assert_eq!(e.kind, ErrorKind::ConstraintViolation);
    let mut doc = plain("/a.pdf");
    doc.page_count = -1;
    let e = save_document_at(&mut store, &doc, "t1").unwrap_err();
    assert_eq!(e.kind, ErrorKind::ConstraintViolation);
    assert_eq!(store.len(), 0);
    assert_eq!(store.latest_id(), 0);
}

#[test]
fn save_refuses_a_new_record_when_identities_are_used_up() {
    let mut first = plain("/a.pdf");
    first.id = Some(i64::MAX);
    first.created_at = "t0".to_string();
    first.updated_at = "t0".to_string();
    let mut store = restore(&vec![first], i64::MAX).unwrap();
    let e = save_document_at(&mut store, &plain("/b.pdf"), "t1").unwrap_err();
    assert_eq!(e.kind, ErrorKind::ConstraintViolation);
    assert_eq!(store.len(), 1);
    assert_eq!(save_document_at(&mut store, &plain("/a.pdf"), "t1").unwrap(), i64::MAX);
}

#[test]
fn find_by_id_of_absent_row_is_not_found() {
    let store = CatalogStore::new();
    let e = get_document_by_id(&store, 1).unwrap_err();
    assert_eq!(e.kind, ErrorKind::NotFound);
}

#[test]
fn delete_then_find_is_not_found() {
    let mut store = CatalogStore::new();
    let id = save_document_at(&mut store, &plain("/a.pdf"), "t1").unwrap();
    let other = save_document_at(&mut store, &plain("/b.pdf"), "t2").unwrap();
    delete_document(&mut store, id);
    assert_eq!(get_document_by_id(&store, id).unwrap_err().kind, ErrorKind::NotFound);
    assert!(get_document_by_id(&store, other).is_ok());
    assert_eq!(store.len(), 1);
}

#[test]
fn delete_of_absent_row_changes_nothing() {
    let mut store = CatalogStore::new();
    save_document_at(&mut store, &plain("/a.pdf"), "t1").unwrap();
    let before = store.rows();
    delete_document(&mut store, 42);
    delete_document(&mut store, 42);
    assert_eq!(store.rows(), before);
}

#[test]
fn update_overwrites_all_but_identity_path_and_creation_time() {
    let mut store = CatalogStore::new();
    let id = save_document_at(&mut store, &record("/a.pdf", "Old", "old.pdf", "[]", None), "t1")
        .unwrap();
    let mut change = record("/elsewhere.pdf", "New", "new.pdf", "[\"z\"]", Some("memo"));
    change.id = Some(99);
    change.created_at = "never".to_string();
    change.file_size = 7;
    update_document_at(&mut store, id, &change, "t2").unwrap();
    let row = get_document_by_id(&store, id).unwrap();
    assert_eq!(row.id, Some(id));
    assert_eq!(row.file_path, "/a.pdf");
    assert_eq!(row.created_at, "t1");
    assert_eq!(row.updated_at, "t2");
    assert_eq!(row.title, "New");
    assert_eq!(row.file_name, "new.pdf");
    assert_eq!(row.tags, "[\"z\"]");
    assert_eq!(row.document_type, Some("memo".to_string()));
    assert_eq!(row.file_size, 7);
}

#[test]
fn update_of_absent_row_changes_nothing_and_succeeds() {
    let mut store = CatalogStore::new();
    save_document_at(&mut store, &plain("/a.pdf"), "t1").unwrap();
    let before = store.rows();
    assert!(update_document_at(&mut store, 42, &plain("/b.pdf"), "t2").is_ok());
    assert_eq!(store.rows(), before);
}

#[test]
fn update_refuses_negative_sizes() {
    let mut store = CatalogStore::new();
    let id = save_document_at(&mut store, &plain("/a.pdf"), "t1").unwrap();
    let mut change = plain("/a.pdf");
    change.page_count = -5;
    let e = update_document_at(&mut store, id, &change, "t2").unwrap_err();
    assert_eq!(e.kind, ErrorKind::ConstraintViolation);
    assert_eq!(get_document_by_id(&store, id).unwrap().updated_at, "t1");
}

fn five() -> CatalogStore {
    let mut store = CatalogStore::new();
    for (n, time) in ["t1", "t2", "t3", "t4", "t5"].iter().enumerate() {
        let title = format!("Doc {}", n + 1);
        let path = format!("/{}.pdf", n + 1);
        save_document_at(&mut store, &record(&path, &title, "f.pdf", "[]", None), time).unwrap();
    }
    store
}

#[test]
fn search_lists_most_recently_updated_first() {
    let store = five();
    let found = get_documents(&store, None, None, None, None);
    assert_eq!(titles(&found), vec!["Doc 5", "Doc 4", "Doc 3", "Doc 2", "Doc 1"]);
}

#[test]
fn update_moves_a_row_to_the_front() {
    let mut store = five();
    update_document_at(&mut store, 2, &record("/2.pdf", "Doc 2", "f.pdf", "[]", None), "t9").unwrap();
    let found = get_documents(&store, None, None, None, None);
    assert_eq!(titles(&found), vec!["Doc 2", "Doc 5", "Doc 4", "Doc 3", "Doc 1"]);
}

#[test]
fn rows_updated_at_the_same_time_are_listed_by_identity() {
    let mut store = CatalogStore::new();
    save_document_at(&mut store, &record("/a", "A", "f", "[]", None), "t1").unwrap();
    save_document_at(&mut store, &record("/b", "B", "f", "[]", None), "t1").unwrap();
    save_document_at(&mut store, &record("/c", "C", "f", "[]", None), "t0").unwrap();
    let found = get_documents(&store, None, None, None, None);
    assert_eq!(titles(&found), vec!["A", "B", "C"]);
}

#[test]
fn pagination_limit_two_offset_two_of_five() {
    let store = five();
    let found = get_documents(&store, None, None, Some(2), Some(2));
    assert_eq!(titles(&found), vec!["Doc 3", "Doc 2"]);
}

#[test]
fn pagination_edges() {
    let store = five();
    assert_eq!(get_documents(&store, None, None, Some(0), None).len(), 0);
    assert_eq!(get_documents(&store, None, None, Some(10), Some(4)).len(), 1);
    assert_eq!(get_documents(&store, None, None, Some(2), Some(5)).len(), 0);
    assert_eq!(get_documents(&store, None, None, Some(2), Some(50)).len(), 0);
    assert_eq!(get_documents(&store, None, None, Some(-1), None).len(), 5);
    assert_eq!(get_documents(&store, None, None, None, Some(-3)).len(), 5);
    assert_eq!(titles(&get_documents(&store, None, None, None, Some(3))), vec!["Doc 2", "Doc 1"]);
    assert_eq!(get_documents(&store, None, None, Some(i64::MAX), Some(i64::MAX)).len(), 0);
}

#[test]
fn search_text_matches_title_file_name_or_tags_without_case() {
    let mut store = CatalogStore::new();
    save_document_at(&mut store, &record("/1", "An ABC book", "x.pdf", "[]", None), "t1").unwrap();
    save_document_at(&mut store, &record("/2", "Other", "myAbC.pdf", "[]", None), "t2").unwrap();
    save_document_at(&mut store, &record("/3", "Third", "y.pdf", "[\"xabcx\"]", None), "t3").unwrap();
    save_document_at(&mut store, &record("/4", "ab c", "a-b-c.pdf", "[\"ab\",\"c\"]", None), "t4")
        .unwrap();
    let mut hidden = record("/5", "None", "n.pdf", "[]", Some("abc"));
    hidden.notes = Some("abc".to_string());
    hidden.correspondent = Some("abc".to_string());
    hidden.file_path = "/abc/5".to_string();
    save_document_at(&mut store, &hidden, "t5").unwrap();
    let found = get_documents(&store, Some("abc".to_string()), None, None, None);
    assert_eq!(titles(&found), vec!["Third", "Other", "An ABC book"]);
    let found = get_documents(&store, Some("ABC".to_string()), None, None, None);
    assert_eq!(found.len(), 3);
}

#[test]
fn search_with_empty_text_matches_every_row() {
    let store = five();
    assert_eq!(get_documents(&store, Some(String::new()), None, None, None).len(), 5);
}

#[test]
fn search_text_is_taken_literally() {
    let mut store = CatalogStore::new();
    save_document_at(&mut store, &record("/1", "100% sure", "x.pdf", "[]", None), "t1").unwrap();
    save_document_at(&mut store, &record("/2", "a_b", "y.pdf", "[]", None), "t2").unwrap();
    save_document_at(&mut store, &record("/3", "axb", "z.pdf", "[]", None), "t3").unwrap();
    assert_eq!(titles(&get_documents(&store, Some("%".to_string()), None, None, None)), vec!["100% sure"]);
    assert_eq!(titles(&get_documents(&store, Some("a_b".to_string()), None, None, None)), vec!["a_b"]);
}

#[test]
fn search_folds_only_ascii_letters() {
    let mut store = CatalogStore::new();
    save_document_at(&mut store, &record("/1", "ÄRGER", "x.pdf", "[]", None), "t1").unwrap();
    assert_eq!(get_documents(&store, Some("ärger".to_string()), None, None, None).len(), 0);
    assert_eq!(get_documents(&store, Some("Ärger".to_string()), None, None, None).len(), 1);
}

#[test]
fn type_filter_excludes_other_types_even_when_text_matches() {
    let mut store = CatalogStore::new();
    save_document_at(&mut store, &record("/1", "abc one", "x", "[]", Some("invoice")), "t1").unwrap();
    save_document_at(&mut store, &record("/2", "abc two", "x", "[]", Some("letter")), "t2").unwrap();
    save_document_at(&mut store, &record("/3", "abc three", "x", "[]", None), "t3").unwrap();
    save_document_at(&mut store, &record("/4", "other", "x", "[]", Some("invoice")), "t4").unwrap();
    save_document_at(&mut store, &record("/5", "abc five", "x", "[]", Some("Invoice")), "t5").unwrap();
    let found = get_documents(&store, Some("abc".to_string()), Some("invoice".to_string()), None, None);
    assert_eq!(titles(&found), vec!["abc one"]);
    let found = get_documents(&store, None, Some("invoice".to_string()), None, None);
    assert_eq!(titles(&found), vec!["other", "abc one"]);
}

#[test]
fn stats_count_rows_and_add_sizes() {
    let mut store = CatalogStore::new();
    let mut a = plain("/a");
    a.file_size = 1000;
    let mut b = plain("/b");
    b.file_size = 234;
    let mut c = plain("/c");
    c.file_size = 0;
    save_document_at(&mut store, &a, "t1").unwrap();
    save_document_at(&mut store, &b, "t2").unwrap();
    save_document_at(&mut store, &c, "t3").unwrap();
    assert_eq!(
        get_stats(&store).unwrap(),
        CatalogStats { total_documents: 3, total_size_bytes: 1234 }
    );
}

#[test]
fn stats_fail_when_the_sum_is_out_of_range() {
    let mut store = CatalogStore::new();
    let mut a = plain("/a");
    a.file_size = i64::MAX;
    let mut b = plain("/b");
    b.file_size = 1;
    save_document_at(&mut store, &a, "t1").unwrap();
    assert_eq!(get_stats(&store).unwrap().total_size_bytes, i64::MAX);
    save_document_at(&mut store, &b, "t2").unwrap();
    assert_eq!(get_stats(&store).unwrap_err().kind, ErrorKind::ConstraintViolation);
}

#[test]
fn save_document_stamps_the_current_time() {
    let mut store = CatalogStore::new();
    let before = chrono::Utc::now();
    let id = save_document(&mut store, &plain("/a.pdf")).unwrap();
    let after = chrono::Utc::now();
    let row = get_document_by_id(&store, id).unwrap();
    assert_eq!(row.created_at, row.updated_at);
    let stamped = chrono::DateTime::parse_from_rfc3339(&row.created_at).unwrap();
    assert!(before <= stamped && stamped <= after);
    assert!(row.created_at.ends_with("+00:00"));
}

#[test]
fn update_document_stamps_the_current_time_and_keeps_creation() {
    let mut store = CatalogStore::new();
    let id = save_document_at(&mut store, &plain("/a.pdf"), "2000-01-01T00:00:00+00:00").unwrap();
    update_document(&mut store, id, &record("/a.pdf", "New", "f", "[]", None)).unwrap();
    let row = get_document_by_id(&store, id).unwrap();
    assert_eq!(row.created_at, "2000-01-01T00:00:00+00:00");
    assert!(chrono::DateTime::parse_from_rfc3339(&row.updated_at).is_ok());
    assert!(row.updated_at > row.created_at);
    assert_eq!(row.title, "New");
}

fn stored(id: i64, path: &str, updated: &str) -> DocumentRecord {
    let mut doc = plain(path);
    doc.id = Some(id);
    doc.created_at = "t0".to_string();
    doc.updated_at = updated.to_string();
    doc
}

#[test]
fn restore_keeps_rows_and_ranks_them() {
    let rows = vec![stored(4, "/a", "t1"), stored(2, "/b", "t3"), stored(7, "/c", "t2")];
    let store = restore(&rows, 9).unwrap();
    assert_eq!(store.latest_id(), 9);
    let listed: Vec<Option<i64>> = store.rows().iter().map(|d| d.id).collect();
    assert_eq!(listed, vec![Some(2), Some(7), Some(4)]);
    assert_eq!(get_document_by_id(&store, 7).unwrap(), rows[2]);
    let mut store = store;
    assert_eq!(save_document_at(&mut store, &plain("/d"), "t4").unwrap(), 10);
}

#[test]
fn restore_refuses_what_is_no_catalog() {
    let kind = |rows: Vec<DocumentRecord>, last: i64| restore(&rows, last).err().map(|e| e.kind);
    let bad = Some(ErrorKind::ConstraintViolation);
    assert_eq!(kind(vec![stored(1, "/a", "t"), stored(1, "/b", "t")], 5), bad);
    assert_eq!(kind(vec![stored(1, "/a", "t"), stored(2, "/a", "t")], 5), bad);
    assert_eq!(kind(vec![stored(6, "/a", "t")], 5), bad);
    assert_eq!(kind(vec![stored(0, "/a", "t")], 5), bad);
    assert_eq!(kind(vec![plain("/a")], 5), bad);
    assert_eq!(kind(vec![], -1), bad);
    let mut negative = stored(1, "/a", "t");
    negative.file_size = -1;
    assert_eq!(kind(vec![negative], 5), bad);
    assert_eq!(kind(vec![], 0), None);
}

#[test]
fn identity_counter_is_the_larger_of_count_and_rows() {
    let rows = vec![stored(4, "/a", "t1"), stored(9, "/b", "t3"), stored(7, "/c", "t2")];
    assert_eq!(identity_counter(&rows, None), 9);
    assert_eq!(identity_counter(&rows, Some(5)), 9);
    assert_eq!(identity_counter(&rows, Some(12)), 12);
    assert_eq!(identity_counter(&vec![], None), 0);
    assert_eq!(identity_counter(&vec![], Some(3)), 3);
    assert_eq!(identity_counter(&vec![], Some(-3)), 0);
    assert_eq!(identity_counter(&vec![plain("/a"), stored(-5, "/b", "t")], None), 0);
}
