//! The metadata kept for one managed document.

use vstd::prelude::*;

verus! {

/// One row of the catalog.
///
/// `id`, `created_at` and `updated_at` are assigned by the store; what a
/// caller writes there is ignored when the record is saved.
#[derive(Debug, PartialEq, Eq)]
pub struct DocumentRecord {
    pub id: Option<i64>,
    pub title: String,
    pub file_path: String,
    pub file_name: String,
    pub file_size: i64,
    pub page_count: i32,
    pub archive_serial: Option<String>,
    pub date_created: String,
    pub correspondent: Option<String>,
    pub document_type: Option<String>,
    pub storage_path: String,
    pub tags: String,
    pub notes: Option<String>,
    pub created_at: String,
    pub updated_at: String,
}

/// A record as a mathematical value: every text as its sequence of characters.
pub struct RecordView {
    pub id: Option<i64>,
    pub title: Seq<char>,
    pub file_path: Seq<char>,
    pub file_name: Seq<char>,
    pub file_size: i64,
    pub page_count: i32,
    pub archive_serial: Option<Seq<char>>,
    pub date_created: Seq<char>,
    pub correspondent: Option<Seq<char>>,
    pub document_type: Option<Seq<char>>,
    pub storage_path: Seq<char>,
    pub tags: Seq<char>,
    pub notes: Option<Seq<char>>,
    pub created_at: Seq<char>,
    pub updated_at: Seq<char>,
}

/// The characters of an optional text.
pub open spec fn optional_text(text: Option<String>) -> Option<Seq<char>> {
    match text {
        Some(s) => Some(s@),
        None => None,
    }
}

/// Copies an optional text.
pub(crate) fn copy_optional(text: &Option<String>) -> (r: Option<String>)
    ensures
        optional_text(r) == optional_text(*text),
{
    match text {
        Some(s) => Some(s.clone()),
        None => None,
    }
}

impl View for DocumentRecord {
    type V = RecordView;

    open spec fn view(&self) -> RecordView {
        RecordView {
            id: self.id,
            title: self.title@,
            file_path: self.file_path@,
            file_name: self.file_name@,
            file_size: self.file_size,
            page_count: self.page_count,
            archive_serial: optional_text(self.archive_serial),
            date_created: self.date_created@,
            correspondent: optional_text(self.correspondent),
            document_type: optional_text(self.document_type),
            storage_path: self.storage_path@,
            tags: self.tags@,
            notes: optional_text(self.notes),
            created_at: self.created_at@,
            updated_at: self.updated_at@,
        }
    }
}

impl DeepView for DocumentRecord {
    type V = RecordView;

    open spec fn deep_view(&self) -> RecordView {
        self@
    }
}

impl Clone for DocumentRecord {
    fn clone(&self) -> (r: Self)
        ensures
            r@ == self@,
    {
        DocumentRecord {
            id: self.id,
            title: self.title.clone(),
            file_path: self.file_path.clone(),
            file_name: self.file_name.clone(),
            file_size: self.file_size,
            page_count: self.page_count,
            archive_serial: copy_optional(&self.archive_serial),
            date_created: self.date_created.clone(),
            correspondent: copy_optional(&self.correspondent),
            document_type: copy_optional(&self.document_type),
            storage_path: self.storage_path.clone(),
            tags: self.tags.clone(),
            notes: copy_optional(&self.notes),
            created_at: self.created_at.clone(),
            updated_at: self.updated_at.clone(),
        }
    }
}

} // verus!
