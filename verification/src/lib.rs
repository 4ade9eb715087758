//! Core of a desktop document manager: a searchable catalog of document
//! metadata and the decision logic for handing work to external processing
//! tools.

pub mod catalog;
pub mod catalog_laws;
mod clock;
pub mod compression_laws;
pub mod dispatch;
pub mod dispatch_laws;
pub mod error;
pub mod json;
pub mod operations;
pub mod pdf_compress;
pub mod pdf_ops;
pub mod pdf_security;
pub mod record;
pub mod text;

pub use record::DocumentRecord;
