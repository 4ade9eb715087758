//! What the leading bytes of a file tell: whether it carries the PDF
//! signature, which version it names, and whether it seems encrypted.
//!
//! Nothing here parses a document. The caller reads the leading bytes and
//! hands them over.

use crate::error::{ErrorKind, Failure};
use crate::text::{contains_bytes, decoded, lossy_text, occurs_in, trim, trimmed};
use vstd::prelude::*;
use vstd::slice::slice_subrange;

verus! {

/// How many leading bytes hold the signature and the version.
pub const HEADER_LENGTH: usize = 8;

/// How many leading bytes are searched for signs of encryption.
pub const SCAN_LENGTH: usize = 8192;

/// The signature that a PDF file starts with: `%PDF-`.
pub open spec fn magic() -> Seq<u8> {
    seq![0x25u8, 0x50u8, 0x44u8, 0x46u8, 0x2du8]
}

/// The name that introduces the encryption dictionary: `/Encrypt`.
pub open spec fn encrypt_marker() -> Seq<u8> {
    seq![0x2fu8, 0x45u8, 0x6eu8, 0x63u8, 0x72u8, 0x79u8, 0x70u8, 0x74u8]
}

/// Whether `bytes` hold a whole header that starts with the signature.
pub open spec fn has_signature(bytes: Seq<u8>) -> bool {
    bytes.len() >= HEADER_LENGTH && bytes.subrange(0, 5) == magic()
}

/// The version that a header names: what follows the signature within the
/// header, as text, without the white space around it.
pub open spec fn header_version(bytes: Seq<u8>) -> Seq<char> {
    trimmed(decoded(bytes.subrange(5, HEADER_LENGTH as int)))
}

/// Whether the marker of encryption occurs in the part of `bytes` that is
/// searched.
pub open spec fn seems_encrypted(bytes: Seq<u8>) -> bool {
    occurs_in(
        bytes.take(if bytes.len() < SCAN_LENGTH { bytes.len() as int } else { SCAN_LENGTH as int }),
        encrypt_marker(),
        false,
    )
}

/// The settings under which a document is to be encrypted.
#[derive(Debug, PartialEq, Eq)]
pub struct EncryptionParams {
    pub user_password: String,
    pub owner_password: Option<String>,
    pub allow_printing: bool,
    pub allow_copy: bool,
    pub allow_modification: bool,
    /// The key length in bits: 40, 128 or 256.
    pub encryption_level: u8,
}

/// What a reader may do with a document.
#[derive(Clone, Copy, Debug, PartialEq, Eq)]
pub struct PDFPermissions {
    pub can_print: bool,
    pub can_copy: bool,
    pub can_modify: bool,
    pub can_annotate: bool,
}

impl Default for PDFPermissions {
    /// Everything is allowed.
    fn default() -> (r: Self)
        ensures
            r.can_print && r.can_copy && r.can_modify && r.can_annotate,
    {
        PDFPermissions { can_print: true, can_copy: true, can_modify: true, can_annotate: true }
    }
}

/// What the leading bytes of a document say of its protection.
#[derive(Clone, Copy, Debug, PartialEq, Eq)]
pub struct PDFSecurityInfo {
    pub is_encrypted: bool,
    pub has_user_password: bool,
    pub has_owner_password: bool,
    pub permissions: PDFPermissions,
}

fn starts_with_magic(bytes: &[u8]) -> (r: bool)
    ensures
        r == has_signature(bytes@),
{
    if bytes.len() < HEADER_LENGTH {
        return false;
    }
    let r = bytes[0] == 0x25 && bytes[1] == 0x50 && bytes[2] == 0x44 && bytes[3] == 0x46
        && bytes[4] == 0x2d;
    proof {
        let lead = bytes@.subrange(0, 5);
        if r {
            assert(lead =~= magic());
        } else {
            assert(lead[0] == bytes@[0] && lead[1] == bytes@[1] && lead[2] == bytes@[2] && lead[3]
                == bytes@[3] && lead[4] == bytes@[4]);
        }
    }
    r
}

/// Accepts the leading bytes of a file that starts with the PDF signature.
///
/// `header` is what could be read of the first [`HEADER_LENGTH`] bytes of the
/// file; more bytes may follow and are not looked at. A file too short for a
/// header is refused like one with another signature.
pub fn validate_pdf(header: &[u8]) -> (r: Result<bool, Failure>)
    ensures
        r is Ok <==> has_signature(header@),
        match r {
            Ok(valid) => valid,
            Err(e) => e.kind == ErrorKind::InvalidFormat && e.message@ == (if header@.len()
                < HEADER_LENGTH {
                "Failed to read header"@
            } else {
                "Invalid PDF file: Missing PDF header"@
            }),
        },
{
    if starts_with_magic(header) {
        Ok(true)
    } else if header.len() < HEADER_LENGTH {
        Err(Failure::new(ErrorKind::InvalidFormat, "Failed to read header"))
    } else {
        Err(Failure::new(ErrorKind::InvalidFormat, "Invalid PDF file: Missing PDF header"))
    }
}

/// The version that the header of a PDF file names, such as `1.7`.
///
/// `header` is what could be read of the first [`HEADER_LENGTH`] bytes of the
/// file; more bytes may follow and are not looked at.
pub fn get_pdf_version(header: &[u8]) -> (r: Result<String, Failure>)
    ensures
        r is Ok <==> has_signature(header@),
        match r {
            Ok(version) => version@ == header_version(header@),
            Err(e) => e.kind == ErrorKind::InvalidFormat && e.message@ == (if header@.len()
                < HEADER_LENGTH {
                "Failed to read header"@
            } else {
                "Could not determine PDF version"@
            }),
        },
{
    if starts_with_magic(header) {
        let rest = slice_subrange(header, 5, HEADER_LENGTH);
        let text = lossy_text(rest);
        Ok(trim(text.as_str()))
    } else if header.len() < HEADER_LENGTH {
        Err(Failure::new(ErrorKind::InvalidFormat, "Failed to read header"))
    } else {
        Err(Failure::new(ErrorKind::InvalidFormat, "Could not determine PDF version"))
    }
}

/// Looks for the marker of encryption among the first [`SCAN_LENGTH`] bytes
/// of a file.
///
/// This is a test for the presence of a name, not a reading of the document:
/// where the marker is found, both passwords are reported as set, and the
/// permissions are reported as open in every case.
pub fn get_security_info(leading: &[u8]) -> (info: PDFSecurityInfo)
    ensures
        info.is_encrypted == seems_encrypted(leading@),
        info.has_user_password == info.is_encrypted,
        info.has_owner_password == info.is_encrypted,
        info.permissions.can_print,
        info.permissions.can_copy,
        info.permissions.can_modify,
        info.permissions.can_annotate,
{
    let end: usize = if leading.len() < SCAN_LENGTH {
        leading.len()
    } else {
        SCAN_LENGTH
    };
    let searched = slice_subrange(leading, 0, end);
    let marker: [u8; 8] = [0x2f, 0x45, 0x6e, 0x63, 0x72, 0x79, 0x70, 0x74];
    assert(marker@ =~= encrypt_marker());
    assert(searched@ =~= leading@.take(end as int));
    let is_encrypted = contains_bytes(searched, marker.as_slice(), false);
    PDFSecurityInfo {
        is_encrypted,
        has_user_password: is_encrypted,
        has_owner_password: is_encrypted,
        permissions: PDFPermissions::default(),
    }
}

} // verus!
