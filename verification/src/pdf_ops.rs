//! The few facts about a document that are shown beside its name.

use crate::error::{ErrorKind, Failure};
use vstd::prelude::*;

verus! {

/// What is known of a document.
#[derive(Debug, PartialEq, Eq)]
pub struct PDFInfo {
    pub page_count: u32,
    pub title: Option<String>,
    pub author: Option<String>,
    pub subject: Option<String>,
    pub creator: Option<String>,
    pub producer: Option<String>,
    pub creation_date: Option<String>,
    pub modification_date: Option<String>,
    pub file_name: String,
}

/// Loads a document from its bytes with `lopdf::Document::load_mem` and
/// counts its pages with `Document::get_pages`; an error is handed on as its
/// message. Nothing is claimed of the outcome: the parser may read the
/// objects of a large document on several threads.
#[verifier::external_body]
pub(crate) fn count_pages(bytes: &[u8]) -> (r: Result<usize, String>) {
    match lopdf::Document::load_mem(bytes) {
        Ok(document) => Ok(document.get_pages().len()),
        Err(e) => Err(e.to_string()),
    }
}

/// The last part of a path, as `std::path::Path::file_name` gives it, where
/// there is one and it is text. Nothing is claimed of it: what parts a path
/// has depends on the system.
#[verifier::external_body]
pub(crate) fn path_file_name(path: &str) -> (r: Option<String>) {
    match std::path::Path::new(path).file_name() {
        Some(name) => match name.to_str() {
            Some(text) => Some(text.to_string()),
            None => None,
        },
        None => None,
    }
}

/// Whether `info` is what is reported of a document with `pages` pages
/// under the file name `file_name`: the page count, cut to 32 bits; the file
/// name, or `unknown.pdf` where there is none; and no other fact.
pub open spec fn describes(info: PDFInfo, pages: usize, file_name: Option<String>) -> bool {
    &&& info.page_count == (pages as int) % 0x1_0000_0000
    &&& info.file_name@ == match file_name {
        Some(name) => name@,
        None => "unknown.pdf"@,
    }
    &&& info.title is None
    &&& info.author is None
    &&& info.subject is None
    &&& info.creator is None
    &&& info.producer is None
    &&& info.creation_date is None
    &&& info.modification_date is None
}

/// Puts together what is reported of a document, from the outcome of
/// loading it and from the file name of its path.
pub fn describe_pdf(loaded: Result<usize, String>, file_name: Option<String>) -> (r: Result<
    PDFInfo,
    Failure,
>)
    ensures
        match loaded {
            Ok(pages) => r matches Ok(info) && describes(info, pages, file_name),
            Err(reason) => r matches Err(e) && e.kind == ErrorKind::InvalidFormat && e.message@
                == "Failed to load PDF: "@ + reason@,
        },
{
    match loaded {
        Ok(pages) => {
            let page_count: u32 = ((pages as u64) % 0x1_0000_0000u64) as u32;
            let file_name = match file_name {
                Some(name) => name,
                None => "unknown.pdf".to_owned(),
            };
            Ok(
                PDFInfo {
                    page_count,
                    title: None,
                    author: None,
                    subject: None,
                    creator: None,
                    producer: None,
                    creation_date: None,
                    modification_date: None,
                    file_name,
                },
            )
        },
        Err(reason) => Err(
            Failure::with_detail(
                ErrorKind::InvalidFormat,
                "Failed to load PDF: ",
                reason.as_str(),
            ),
        ),
    }
}

/// What is known of the document with the given bytes that lies at the given
/// path. Whether the bytes load as a document, how many pages it has and
/// what the file name is, is for the outside to say; see [`describe_pdf`] for
/// what is made of it.
pub fn get_pdf_info(bytes: &[u8], pdf_path: &str) -> (r: Result<PDFInfo, Failure>)
    ensures
        match r {
            Ok(info) => exists|pages: usize, file_name: Option<String>|
                describes(info, pages, file_name),
            Err(e) => e.kind == ErrorKind::InvalidFormat,
        },
{
    let loaded = count_pages(bytes);
    let file_name = path_file_name(pdf_path);
    let ghost name = file_name;
    let ghost outcome = loaded;
    let r = describe_pdf(loaded, file_name);
    proof {
        if r is Ok {
            assert(describes(r->Ok_0, outcome->Ok_0, name));
        }
    }
    r
}

} // verus!
