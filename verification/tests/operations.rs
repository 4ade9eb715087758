use document_manager::dispatch::DispatchRequest;
use document_manager::error::{ErrorKind, Failure};
use document_manager::json::Envelope;
use document_manager::operations::{
    add_watermark, compress_pdf, decrypt_pdf, delete_pages, encrypt_pdf, get_pdf_page_image,
    get_pdf_thumbnails, images_to_pdf, judge_envelope, merge_pdfs, ocr_pdf, pdf_to_images,
    pdf_to_word, read_envelope, reorder_outcome, reorder_pdf_pages, request_with_encoded,
    rotate_pages, rotate_pages_encoded, split_pdf, update_pdf_text, word_to_pdf,
};
use document_manager::pdf_ops::{describe_pdf, get_pdf_info};
use std::collections::HashMap;

fn request(script: &str, args: &[&str]) -> DispatchRequest {
    DispatchRequest { script: script.to_string(), args: args.iter().map(|a| a.to_string()).collect() }
}

#[test]
fn ocr_request_encodes_pages_or_null() {
    assert_eq!(
        ocr_pdf("a.pdf", "eng+deu", &Some(vec![1, 2, 30]), "text").unwrap(),
        request("ocr_processor.py", &["ocr_pdf", "a.pdf", "eng+deu", "[1,2,30]", "text"])
    );
    assert_eq!(
        ocr_pdf("a.pdf", "eng", &None, "pdf").unwrap(),
        request("ocr_processor.py", &["ocr_pdf", "a.pdf", "eng", "null", "pdf"])
    );
}

#[test]
fn merge_request_encodes_paths_as_json_strings() {
    let paths = vec!["a \"b\".pdf".to_string(), "c\\d.pdf".to_string(), "é\n.pdf".to_string()];
    assert_eq!(
        merge_pdfs(&paths, "out.pdf").unwrap(),
        request("pdf_editor.py", &["merge", "[\"a \\\"b\\\".pdf\",\"c\\\\d.pdf\",\"é\\n.pdf\"]", "out.pdf"])
    );
    assert_eq!(
        merge_pdfs(&vec![], "out.pdf").unwrap(),
        request("pdf_editor.py", &["merge", "[]", "out.pdf"])
    );
}

#[test]
fn page_list_requests() {
    assert_eq!(
        split_pdf("in.pdf", "outdir", &vec![3, 1]).unwrap(),
        request("pdf_editor.py", &["split", "in.pdf", "outdir", "[3,1]"])
    );
    assert_eq!(
        delete_pages("in.pdf", "out.pdf", &vec![]).unwrap(),
        request("pdf_editor.py", &["delete", "in.pdf", "out.pdf", "[]"])
    );
    assert_eq!(
        reorder_pdf_pages("in.pdf", "out.pdf", &vec![0, 4294967295, 7]).unwrap(),
        request("pdf_editor.py", &["reorder", "in.pdf", "out.pdf", "[0,4294967295,7]"])
    );
}

#[test]
fn rotate_request_encodes_the_map() {
    let mut rotations = HashMap::new();
    rotations.insert(1u32, -90i32);
    assert_eq!(
        rotate_pages("in.pdf", "out.pdf", &rotations).unwrap(),
        request("pdf_editor.py", &["rotate", "in.pdf", "out.pdf", "{\"1\":-90}"])
    );
    rotations.insert(2, 180);
    let req = rotate_pages("in.pdf", "out.pdf", &rotations).unwrap();
    assert!(req.args[3] == "{\"1\":-90,\"2\":180}" || req.args[3] == "{\"2\":180,\"1\":-90}");
    assert_eq!(
        rotate_pages("in.pdf", "out.pdf", &HashMap::new()).unwrap(),
        request("pdf_editor.py", &["rotate", "in.pdf", "out.pdf", "{}"])
    );
}

#[test]
fn failure_to_encode_is_a_serialization_error() {
    assert_eq!(
        rotate_pages_encoded("in.pdf", "out.pdf", Err("key must be a string".to_string())),
        Err(Failure {
            kind: ErrorKind::SerializationError,
            message: "JSON error: key must be a string".to_string()
        })
    );
    assert_eq!(
        request_with_encoded("s.py", "op", vec!["a".to_string()], Ok("[1]".to_string()), vec!["z".to_string()]),
        Ok(request("s.py", &["op", "a", "[1]", "z"]))
    );
    assert_eq!(
        request_with_encoded("s.py", "op", vec![], Err("no".to_string()), vec![]).unwrap_err().kind,
        ErrorKind::SerializationError
    );
}

#[test]
fn plain_requests() {
    assert_eq!(
        compress_pdf("in.pdf", "out.pdf", 75),
        request("pdf_editor.py", &["compress", "in.pdf", "out.pdf", "75"])
    );
    assert_eq!(
        add_watermark("in.pdf", "out.pdf", "DRAFT", "center"),
        request("pdf_editor.py", &["watermark", "in.pdf", "out.pdf", "DRAFT", "center"])
    );
    assert_eq!(
        encrypt_pdf("in.pdf", "out.pdf", "secret"),
        request("pdf_editor.py", &["encrypt", "in.pdf", "out.pdf", "secret"])
    );
    assert_eq!(
        decrypt_pdf("in.pdf", "out.pdf", "secret"),
        request("pdf_editor.py", &["decrypt", "in.pdf", "out.pdf", "secret"])
    );
    assert_eq!(
        pdf_to_word("in.pdf", "out.docx"),
        request("pdf_converter.py", &["pdf_to_word", "in.pdf", "out.docx"])
    );
    assert_eq!(
        pdf_to_images("in.pdf", "outdir", "png", 300),
        request("pdf_converter.py", &["pdf_to_images", "in.pdf", "outdir", "png", "300"])
    );
    assert_eq!(
        images_to_pdf(&vec!["1.png".to_string(), "2.png".to_string()], "out.pdf").unwrap(),
        request("pdf_converter.py", &["images_to_pdf", "[\"1.png\",\"2.png\"]", "out.pdf"])
    );
    assert_eq!(
        word_to_pdf("in.docx", "out.pdf"),
        request("pdf_converter.py", &["word_to_pdf", "in.docx", "out.pdf"])
    );
    assert_eq!(
        get_pdf_thumbnails("in.pdf"),
        request("pdf_converter.py", &["get_thumbnails", "in.pdf"])
    );
    assert_eq!(
        get_pdf_page_image("in.pdf", 0, "1.5"),
        request("pdf_converter.py", &["get_page_image", "in.pdf", "0", "1.5"])
    );
    assert_eq!(
        update_pdf_text("in.pdf", "out.pdf", "old", "new"),
        request("pdf_text_editor.py", &["smart_replace", "in.pdf", "out.pdf", "old", "new"])
    );
}

#[test]
fn envelope_with_error_type_is_a_failure_despite_exit_zero() {
    assert_eq!(
        reorder_outcome("{\"type\":\"error\",\"message\":\"page 9 is missing\"}"),
        Err(Failure { kind: ErrorKind::ExecutionFailure, message: "page 9 is missing".to_string() })
    );
    assert_eq!(
        reorder_outcome("{\"type\":\"error\"}"),
        Err(Failure { kind: ErrorKind::ExecutionFailure, message: "Unknown error".to_string() })
    );
    assert_eq!(
        reorder_outcome("{\"type\":\"error\",\"message\":5}"),
        Err(Failure { kind: ErrorKind::ExecutionFailure, message: "Unknown error".to_string() })
    );
}

#[test]
fn envelope_without_error_type_is_success() {
    assert_eq!(reorder_outcome("{\"type\":\"success\",\"message\":\"done\"}"), Ok(()));
    assert_eq!(reorder_outcome("{\"message\":\"error\"}"), Ok(()));
    assert_eq!(reorder_outcome("{\"type\":\"Error\"}"), Ok(()));
    assert_eq!(reorder_outcome("{\"type\":[\"error\"]}"), Ok(()));
    assert_eq!(reorder_outcome("[\"type\",\"error\"]"), Ok(()));
    assert_eq!(reorder_outcome("\"error\""), Ok(()));
    assert_eq!(reorder_outcome("null"), Ok(()));
}

#[test]
fn output_that_is_no_json_is_a_serialization_error() {
    assert_eq!(reorder_outcome("").unwrap_err().kind, ErrorKind::SerializationError);
    assert_eq!(reorder_outcome("done").unwrap_err().kind, ErrorKind::SerializationError);
    assert_eq!(reorder_outcome("{\"type\":\"error\"").unwrap_err().kind, ErrorKind::SerializationError);
    assert!(reorder_outcome("{").unwrap_err().message.starts_with("Parse error: "));
}

#[test]
fn judge_envelope_by_its_parts() {
    let env = |kind: Option<&str>, message: Option<&str>| {
        Ok(Envelope { kind: kind.map(|s| s.to_string()), message: message.map(|s| s.to_string()) })
    };
    assert_eq!(judge_envelope(&env(None, None)), Ok(()));
    assert_eq!(judge_envelope(&env(Some("ok"), Some("m"))), Ok(()));
    assert_eq!(
        judge_envelope(&env(Some("error"), Some("m"))),
        Err(Failure { kind: ErrorKind::ExecutionFailure, message: "m".to_string() })
    );
    assert_eq!(
        judge_envelope(&Err("eof".to_string())),
        Err(Failure { kind: ErrorKind::SerializationError, message: "Parse error: eof".to_string() })
    );
}

fn small_pdf(pages: usize) -> Vec<u8> {
    let mut objects: Vec<String> = Vec::new();
    objects.push("<< /Type /Catalog /Pages 2 0 R >>".to_string());
    let kids: Vec<String> = (0..pages).map(|i| format!("{} 0 R", i + 3)).collect();
    objects.push(format!("<< /Type /Pages /Kids [{}] /Count {} >>", kids.join(" "), pages));
    for _ in 0..pages {
        objects.push("<< /Type /Page /Parent 2 0 R /MediaBox [0 0 200 200] >>".to_string());
    }
    let mut out = String::from("%PDF-1.4\n");
    let mut offsets = Vec::new();
    for (i, body) in objects.iter().enumerate() {
        offsets.push(out.len());
        out.push_str(&format!("{} 0 obj\n{}\nendobj\n", i + 1, body));
    }
    let xref = out.len();
    out.push_str(&format!("xref\n0 {}\n0000000000 65535 f \n", objects.len() + 1));
    for offset in offsets {
        out.push_str(&format!("{:010} 00000 n \n", offset));
    }
    out.push_str(&format!(
        "trailer\n<< /Size {} /Root 1 0 R >>\nstartxref\n{}\n%%EOF\n",
        objects.len() + 1,
        xref
    ));
    out.into_bytes()
}

#[test]
fn pdf_info_counts_pages_and_names_the_file() {
    let info = get_pdf_info(&small_pdf(3), "/home/user/docs/report.pdf").unwrap();
    assert_eq!(info.page_count, 3);
    assert_eq!(info.file_name, "report.pdf");
    assert_eq!(info.title, None);
    assert_eq!(info.author, None);
    assert_eq!(info.subject, None);
    assert_eq!(info.creator, None);
    assert_eq!(info.producer, None);
    assert_eq!(info.creation_date, None);
    assert_eq!(info.modification_date, None);
    assert_eq!(get_pdf_info(&small_pdf(1), "x.pdf").unwrap().page_count, 1);
}

#[test]
fn pdf_info_without_file_name_says_unknown() {
    let info = get_pdf_info(&small_pdf(1), "..").unwrap();
    assert_eq!(info.file_name, "unknown.pdf");
}

#[test]
fn pdf_info_of_what_is_no_document_fails() {
    let e = get_pdf_info(b"NOTAPDF!", "x.pdf").unwrap_err();
    assert_eq!(e.kind, ErrorKind::InvalidFormat);
    assert!(e.message.starts_with("Failed to load PDF: "));
}

#[test]
fn describe_pdf_cuts_the_page_count_to_32_bits() {
    let info = describe_pdf(Ok(5), Some("a.pdf".to_string())).unwrap();
    assert_eq!((info.page_count, info.file_name.as_str()), (5, "a.pdf"));
    let info = describe_pdf(Ok(u32::MAX as usize), None).unwrap();
    assert_eq!((info.page_count, info.file_name.as_str()), (u32::MAX, "unknown.pdf"));
    if usize::BITS > 32 {
        let info = describe_pdf(Ok((1usize << 32) + 7), None).unwrap();
        assert_eq!(info.page_count, 7);
    }
    let e = describe_pdf(Err("broken".to_string()), None).unwrap_err();
    assert_eq!(e, Failure { kind: ErrorKind::InvalidFormat, message: "Failed to load PDF: broken".to_string() });
}

#[test]
fn read_envelope_picks_type_and_message() {
    assert_eq!(
        read_envelope("{\"type\":\"error\",\"message\":\"bad page\",\"extra\":1}"),
        Ok(Envelope { kind: Some("error".to_string()), message: Some("bad page".to_string()) })
    );
    assert_eq!(read_envelope("{\"type\":7}"), Ok(Envelope { kind: None, message: None }));
    assert_eq!(read_envelope("[]"), Ok(Envelope { kind: None, message: None }));
    assert!(read_envelope("{").is_err());
}

#[test]
fn reorder_of_pages_3_1_2_and_an_error_envelope() {
    assert_eq!(
        reorder_pdf_pages("in.pdf", "out.pdf", &vec![3, 1, 2]),
        Ok(request("pdf_editor.py", &["reorder", "in.pdf", "out.pdf", "[3,1,2]"]))
    );
    assert_eq!(
        reorder_outcome("{\"type\":\"error\",\"message\":\"bad page\"}"),
        Err(Failure { kind: ErrorKind::ExecutionFailure, message: "bad page".to_string() })
    );
}
