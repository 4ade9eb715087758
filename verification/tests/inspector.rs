use document_manager::error::ErrorKind;
use document_manager::pdf_security::{
    get_pdf_version, get_security_info, validate_pdf, EncryptionParams, PDFPermissions,
    HEADER_LENGTH, SCAN_LENGTH,
};

#[test]
fn validate_accepts_pdf_header() {
    assert_eq!(validate_pdf(b"%PDF-1.7\n%\xe2\xe3\xcf\xd3\n1 0 obj"), Ok(true));
    assert_eq!(validate_pdf(b"%PDF-1.4"), Ok(true));
}

#[test]
fn validate_rejects_other_bytes() {
    let e = validate_pdf(b"NOTAPDF!").unwrap_err();
    assert_eq!(e.kind, ErrorKind::InvalidFormat);
    assert_eq!(validate_pdf(b"%PDf-1.7").unwrap_err().kind, ErrorKind::InvalidFormat);
    assert_eq!(validate_pdf(b" %PDF-1.7").unwrap_err().kind, ErrorKind::InvalidFormat);
}

#[test]
fn validate_rejects_a_header_that_is_too_short() {
    assert_eq!(validate_pdf(b"").unwrap_err().kind, ErrorKind::InvalidFormat);
    assert_eq!(validate_pdf(b"%PDF-").unwrap_err().kind, ErrorKind::InvalidFormat);
    assert_eq!(validate_pdf(b"%PDF-1.").unwrap_err().kind, ErrorKind::InvalidFormat);
    assert_eq!(HEADER_LENGTH, 8);
}

#[test]
fn version_of_pdf_1_4() {
    assert_eq!(get_pdf_version(b"%PDF-1.4").unwrap(), "1.4");
}

#[test]
fn version_reads_only_the_header_and_trims() {
    assert_eq!(get_pdf_version(b"%PDF-1.7\n%more").unwrap(), "1.7");
    assert_eq!(get_pdf_version(b"%PDF-2\r\n1 0 obj").unwrap(), "2");
    assert_eq!(get_pdf_version(b"%PDF- 1 rest").unwrap(), "1");
    assert_eq!(get_pdf_version(b"%PDF-   rest").unwrap(), "");
    assert_eq!(get_pdf_version(b"%PDF-1\xc2\xa0").unwrap(), "1");
    assert_eq!(get_pdf_version(b"%PDF-1 2").unwrap(), "1 2");
}

#[test]
fn version_replaces_what_is_no_text() {
    assert_eq!(get_pdf_version(b"%PDF-\xff1 ").unwrap(), "\u{fffd}1");
}

#[test]
fn version_rejects_other_bytes() {
    assert_eq!(get_pdf_version(b"NOTAPDF!").unwrap_err().kind, ErrorKind::InvalidFormat);
    assert_eq!(get_pdf_version(b"%PDF-1").unwrap_err().kind, ErrorKind::InvalidFormat);
}

#[test]
fn security_info_without_marker_is_open() {
    let info = get_security_info(b"%PDF-1.7\n1 0 obj << /Type /Catalog >>");
    assert!(!info.is_encrypted);
    assert!(!info.has_user_password);
    assert!(!info.has_owner_password);
    assert_eq!(info.permissions, PDFPermissions::default());
}

#[test]
fn security_info_with_marker_reports_both_passwords() {
    let info = get_security_info(b"%PDF-1.7\ntrailer << /Encrypt 5 0 R >>");
    assert!(info.is_encrypted);
    assert!(info.has_user_password);
    assert!(info.has_owner_password);
    assert!(info.permissions.can_print);
    assert!(info.permissions.can_copy);
    assert!(info.permissions.can_modify);
    assert!(info.permissions.can_annotate);
}

#[test]
fn security_marker_is_case_sensitive() {
    assert!(!get_security_info(b"/encrypt /ENCRYPT /Encryp t").is_encrypted);
    assert!(!get_security_info(b"").is_encrypted);
    assert!(get_security_info(b"/Encrypt").is_encrypted);
}

#[test]
fn security_scan_stops_after_its_budget() {
    assert_eq!(SCAN_LENGTH, 8192);
    let mut bytes = vec![b' '; SCAN_LENGTH - 8];
    bytes.extend_from_slice(b"/Encrypt");
    assert!(get_security_info(&bytes).is_encrypted);
    let mut bytes = vec![b' '; SCAN_LENGTH - 7];
    bytes.extend_from_slice(b"/Encrypt");
    assert!(!get_security_info(&bytes).is_encrypted);
    let mut bytes = vec![b' '; SCAN_LENGTH + 100];
    bytes.extend_from_slice(b"/Encrypt");
    assert!(!get_security_info(&bytes).is_encrypted);
}

#[test]
fn default_permissions_allow_everything() {
    let p = PDFPermissions::default();
    assert!(p.can_print && p.can_copy && p.can_modify && p.can_annotate);
}

#[test]
fn encryption_params_hold_their_fields() {
    let params = EncryptionParams {
        user_password: "u".to_string(),
        owner_password: None,
        allow_printing: true,
        allow_copy: false,
        allow_modification: false,
        encryption_level: 128,
    };
    assert_eq!(params.encryption_level, 128);
    assert_eq!(params.user_password, "u");
}
