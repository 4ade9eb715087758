//! The named operations of the processing tools, each as the request that
//! the gateway carries out, and the reading of a result that comes back in
//! an envelope.

use crate::dispatch::{DispatchRequest, RequestView};
use crate::error::{ErrorKind, Failure};
use crate::json::{
    encode_number_map, encode_numbers, encode_texts, member, number_list, parse_json,
    parsed_members, string_member, text_list, Envelope,
};
use crate::record::optional_text;
use crate::text::{decimal, decimal_text, text_equal};
use std::collections::HashMap;
use vstd::prelude::*;

verus! {

/// The request for `operation` of `script` with the arguments `rest`.
pub open spec fn request_of(script: Seq<char>, operation: Seq<char>, rest: Seq<Seq<char>>) -> RequestView {
    RequestView { script, args: seq![operation] + rest }
}

fn request(script: &str, operation: &str, rest: Vec<String>) -> (r: DispatchRequest)
    ensures
        r@ == request_of(script@, operation@, rest.deep_view()),
{
    let mut args: Vec<String> = Vec::new();
    args.push(operation.to_owned());
    let mut rest = rest;
    let ghost tail = rest.deep_view();
    args.append(&mut rest);
    assert(args.deep_view() =~= seq![operation@] + tail);
    DispatchRequest { script: script.to_owned(), args }
}

/// What becomes of a request one of whose arguments had to be encoded: the
/// request with the encoded text between the arguments before and after it,
/// or the failure to encode.
pub open spec fn encoded_request(
    script: Seq<char>,
    operation: Seq<char>,
    before: Seq<Seq<char>>,
    encoded: Result<String, String>,
    after: Seq<Seq<char>>,
) -> Result<RequestView, (ErrorKind, Seq<char>)> {
    match encoded {
        Ok(text) => Ok(request_of(script, operation, before + seq![text@] + after)),
        Err(reason) => Err((ErrorKind::SerializationError, "JSON error: "@ + reason@)),
    }
}

/// Builds a request one of whose arguments had to be encoded; see
/// [`encoded_request`].
pub fn request_with_encoded(
    script: &str,
    operation: &str,
    before: Vec<String>,
    encoded: Result<String, String>,
    after: Vec<String>,
) -> (r: Result<DispatchRequest, Failure>)
    ensures
        match r {
            Ok(req) => encoded_request(
                script@,
                operation@,
                before.deep_view(),
                encoded,
                after.deep_view(),
            ) == Ok::<RequestView, (ErrorKind, Seq<char>)>(req@),
            Err(e) => encoded_request(
                script@,
                operation@,
                before.deep_view(),
                encoded,
                after.deep_view(),
            ) == Err::<RequestView, (ErrorKind, Seq<char>)>((e.kind, e.message@)),
        },
{
    match encoded {
        Ok(text) => {
            let mut rest = before;
            let mut after = after;
            let ghost head = rest.deep_view();
            let ghost tail = after.deep_view();
            let ghost shown = text@;
            rest.push(text);
            rest.append(&mut after);
            assert(rest.deep_view() =~= head + seq![shown] + tail);
            Ok(request(script, operation, rest))
        },
        Err(reason) => Err(
            Failure::with_detail(ErrorKind::SerializationError, "JSON error: ", reason.as_str()),
        ),
    }
}

fn one(a: &str) -> (r: Vec<String>)
    ensures
        r.deep_view() == seq![a@],
{
    let mut r: Vec<String> = Vec::new();
    r.push(a.to_owned());
    assert(r.deep_view() =~= seq![a@]);
    r
}

fn two(a: &str, b: &str) -> (r: Vec<String>)
    ensures
        r.deep_view() == seq![a@, b@],
{
    let mut r: Vec<String> = Vec::new();
    r.push(a.to_owned());
    r.push(b.to_owned());
    assert(r.deep_view() =~= seq![a@, b@]);
    r
}

fn three(a: &str, b: &str, c: &str) -> (r: Vec<String>)
    ensures
        r.deep_view() == seq![a@, b@, c@],
{
    let mut r: Vec<String> = Vec::new();
    r.push(a.to_owned());
    r.push(b.to_owned());
    r.push(c.to_owned());
    assert(r.deep_view() =~= seq![a@, b@, c@]);
    r
}

fn four(a: &str, b: &str, c: &str, d: &str) -> (r: Vec<String>)
    ensures
        r.deep_view() == seq![a@, b@, c@, d@],
{
    let mut r: Vec<String> = Vec::new();
    r.push(a.to_owned());
    r.push(b.to_owned());
    r.push(c.to_owned());
    r.push(d.to_owned());
    assert(r.deep_view() =~= seq![a@, b@, c@, d@]);
    r
}

/// How a choice of pages is written: the list of their numbers, or `null`
/// for all pages.
pub open spec fn page_choice(pages: Option<Vec<u32>>) -> Seq<char> {
    match pages {
        Some(p) => number_list(p@),
        None => "null"@,
    }
}

/// Text recognition on a document, on the given pages or on all of them.
pub fn ocr_pdf(pdf_path: &str, languages: &str, pages: &Option<Vec<u32>>, output_format: &str) -> (r:
    Result<DispatchRequest, Failure>)
    ensures
        r matches Ok(req) && req@ == request_of(
            "ocr_processor.py"@,
            "ocr_pdf"@,
            seq![pdf_path@, languages@, page_choice(*pages), output_format@],
        ),
{
    let encoded = match pages {
        Some(p) => encode_numbers(p),
        None => Ok("null".to_owned()),
    };
    let ghost given = encoded;
    let r = request_with_encoded(
        "ocr_processor.py",
        "ocr_pdf",
        two(pdf_path, languages),
        encoded,
        one(output_format),
    );
    proof {
        {
            let mid = page_choice(*pages);
            assert(given is Ok && given->Ok_0@ == mid);
            assert(seq![pdf_path@, languages@] + seq![mid] + seq![output_format@] =~= seq![
                pdf_path@,
                languages@,
                mid,
                output_format@,
            ]);
        }
    }
    r
}

/// Several documents made one.
pub fn merge_pdfs(input_paths: &Vec<String>, output_path: &str) -> (r: Result<
    DispatchRequest,
    Failure,
>)
    ensures
        r matches Ok(req) && req@ == request_of(
            "pdf_editor.py"@,
            "merge"@,
            seq![text_list(input_paths.deep_view()), output_path@],
        ),
{
    let r = request_with_encoded(
        "pdf_editor.py",
        "merge",
        Vec::new(),
        encode_texts(input_paths),
        one(output_path),
    );
    proof {
        let mid = text_list(input_paths.deep_view());
        assert(Seq::<Seq<char>>::empty() + seq![mid] + seq![output_path@] =~= seq![
            mid,
            output_path@,
        ]);
    }
    r
}

/// The request of an operation of the editor on a document, with a list of
/// page numbers as its last argument.
fn paged(operation: &str, input_path: &str, output_path: &str, pages: &Vec<u32>) -> (r: Result<
    DispatchRequest,
    Failure,
>)
    ensures
        r matches Ok(req) && req@ == request_of(
            "pdf_editor.py"@,
            operation@,
            seq![input_path@, output_path@, number_list(pages@)],
        ),
{
    let r = request_with_encoded(
        "pdf_editor.py",
        operation,
        two(input_path, output_path),
        encode_numbers(pages),
        Vec::new(),
    );
    proof {
        let mid = number_list(pages@);
        assert(seq![input_path@, output_path@] + seq![mid] + Seq::<Seq<char>>::empty() =~= seq![
            input_path@,
            output_path@,
            mid,
        ]);
    }
    r
}

/// The given pages of a document, each as a document of its own.
pub fn split_pdf(input_path: &str, output_dir: &str, pages: &Vec<u32>) -> (r: Result<
    DispatchRequest,
    Failure,
>)
    ensures
        r matches Ok(req) && req@ == request_of(
            "pdf_editor.py"@,
            "split"@,
            seq![input_path@, output_dir@, number_list(pages@)],
        ),
{
    paged("split", input_path, output_dir, pages)
}

/// A document without the given pages.
pub fn delete_pages(input_path: &str, output_path: &str, pages: &Vec<u32>) -> (r: Result<
    DispatchRequest,
    Failure,
>)
    ensures
        r matches Ok(req) && req@ == request_of(
            "pdf_editor.py"@,
            "delete"@,
            seq![input_path@, output_path@, number_list(pages@)],
        ),
{
    paged("delete", input_path, output_path, pages)
}

/// A document with its pages in the given order.
pub fn reorder_pdf_pages(input_path: &str, output_path: &str, page_order: &Vec<u32>) -> (r: Result<
    DispatchRequest,
    Failure,
>)
    ensures
        r matches Ok(req) && req@ == request_of(
            "pdf_editor.py"@,
            "reorder"@,
            seq![input_path@, output_path@, number_list(page_order@)],
        ),
{
    paged("reorder", input_path, output_path, page_order)
}

/// What becomes of a rotation once its map of pages to angles was encoded.
pub fn rotate_pages_encoded(input_path: &str, output_path: &str, encoded: Result<String, String>) -> (r:
    Result<DispatchRequest, Failure>)
    ensures
        match encoded {
            Ok(text) => r matches Ok(req) && req@ == request_of(
                "pdf_editor.py"@,
                "rotate"@,
                seq![input_path@, output_path@, text@],
            ),
            Err(reason) => r matches Err(e) && e.kind == ErrorKind::SerializationError
                && e.message@ == "JSON error: "@ + reason@,
        },
{
    let ghost given = encoded;
    let r = request_with_encoded(
        "pdf_editor.py",
        "rotate",
        two(input_path, output_path),
        encoded,
        Vec::new(),
    );
    proof {
        if let Ok(text) = given {
            assert(seq![input_path@, output_path@] + seq![text@] + Seq::<Seq<char>>::empty()
                =~= seq![input_path@, output_path@, text@]);
        }
    }
    r
}

/// A document with pages turned, each by the angle that the map gives it.
///
/// The map is handed on as a JSON object. The order of its members is the
/// order in which the map is walked, so the text is not fixed by the map.
pub fn rotate_pages(input_path: &str, output_path: &str, rotations: &HashMap<u32, i32>) -> (r:
    Result<DispatchRequest, Failure>)
    ensures
        r matches Ok(req) && exists|text: Seq<char>|
            req@ == request_of(
                "pdf_editor.py"@,
                "rotate"@,
                seq![input_path@, output_path@, text],
            ),
{
    rotate_pages_encoded(input_path, output_path, encode_number_map(rotations))
}

/// A smaller document, by a quality from 0 to 100.
pub fn compress_pdf(input_path: &str, output_path: &str, quality: u32) -> (r: DispatchRequest)
    ensures
        r@ == request_of(
            "pdf_editor.py"@,
            "compress"@,
            seq![input_path@, output_path@, decimal(quality as nat)],
        ),
{
    let quality = decimal_text(quality as u64);
    request("pdf_editor.py", "compress", three(input_path, output_path, quality.as_str()))
}

/// A document with a text laid over its pages.
pub fn add_watermark(input_path: &str, output_path: &str, watermark_text: &str, position: &str) -> (r:
    DispatchRequest)
    ensures
        r@ == request_of(
            "pdf_editor.py"@,
            "watermark"@,
            seq![input_path@, output_path@, watermark_text@, position@],
        ),
{
    request("pdf_editor.py", "watermark", four(input_path, output_path, watermark_text, position))
}

/// A document locked with a password.
pub fn encrypt_pdf(input_path: &str, output_path: &str, password: &str) -> (r: DispatchRequest)
    ensures
        r@ == request_of(
            "pdf_editor.py"@,
            "encrypt"@,
            seq![input_path@, output_path@, password@],
        ),
{
    request("pdf_editor.py", "encrypt", three(input_path, output_path, password))
}

/// A document unlocked with its password.
pub fn decrypt_pdf(input_path: &str, output_path: &str, password: &str) -> (r: DispatchRequest)
    ensures
        r@ == request_of(
            "pdf_editor.py"@,
            "decrypt"@,
            seq![input_path@, output_path@, password@],
        ),
{
    request("pdf_editor.py", "decrypt", three(input_path, output_path, password))
}

/// A document as a word processor file.
pub fn pdf_to_word(input_path: &str, output_path: &str) -> (r: DispatchRequest)
    ensures
        r@ == request_of("pdf_converter.py"@, "pdf_to_word"@, seq![input_path@, output_path@]),
{
    request("pdf_converter.py", "pdf_to_word", two(input_path, output_path))
}

/// The pages of a document as images.
pub fn pdf_to_images(input_path: &str, output_dir: &str, format: &str, dpi: u32) -> (r:
    DispatchRequest)
    ensures
        r@ == request_of(
            "pdf_converter.py"@,
            "pdf_to_images"@,
            seq![input_path@, output_dir@, format@, decimal(dpi as nat)],
        ),
{
    let dpi = decimal_text(dpi as u64);
    request("pdf_converter.py", "pdf_to_images", four(input_path, output_dir, format, dpi.as_str()))
}

/// Images made one document.
pub fn images_to_pdf(image_paths: &Vec<String>, output_path: &str) -> (r: Result<
    DispatchRequest,
    Failure,
>)
    ensures
        r matches Ok(req) && req@ == request_of(
            "pdf_converter.py"@,
            "images_to_pdf"@,
            seq![text_list(image_paths.deep_view()), output_path@],
        ),
{
    let r = request_with_encoded(
        "pdf_converter.py",
        "images_to_pdf",
        Vec::new(),
        encode_texts(image_paths),
        one(output_path),
    );
    proof {
        let mid = text_list(image_paths.deep_view());
        assert(Seq::<Seq<char>>::empty() + seq![mid] + seq![output_path@] =~= seq![
            mid,
            output_path@,
        ]);
    }
    r
}

/// A word processor file as a document.
pub fn word_to_pdf(input_path: &str, output_path: &str) -> (r: DispatchRequest)
    ensures
        r@ == request_of("pdf_converter.py"@, "word_to_pdf"@, seq![input_path@, output_path@]),
{
    request("pdf_converter.py", "word_to_pdf", two(input_path, output_path))
}

/// Small images of the pages of a document.
pub fn get_pdf_thumbnails(pdf_path: &str) -> (r: DispatchRequest)
    ensures
        r@ == request_of("pdf_converter.py"@, "get_thumbnails"@, seq![pdf_path@]),
{
    request("pdf_converter.py", "get_thumbnails", one(pdf_path))
}

/// One page of a document as an image. `scale` is the factor of
/// magnification, written out by the caller.
pub fn get_pdf_page_image(pdf_path: &str, page_number: u32, scale: &str) -> (r: DispatchRequest)
    ensures
        r@ == request_of(
            "pdf_converter.py"@,
            "get_page_image"@,
            seq![pdf_path@, decimal(page_number as nat), scale@],
        ),
{
    let page = decimal_text(page_number as u64);
    request("pdf_converter.py", "get_page_image", three(pdf_path, page.as_str(), scale))
}

/// A document with one text replaced by another.
pub fn update_pdf_text(input_path: &str, output_path: &str, old_content: &str, new_content: &str) -> (r:
    DispatchRequest)
    ensures
        r@ == request_of(
            "pdf_text_editor.py"@,
            "smart_replace"@,
            seq![input_path@, output_path@, old_content@, new_content@],
        ),
{
    request(
        "pdf_text_editor.py",
        "smart_replace",
        four(input_path, output_path, old_content, new_content),
    )
}

/// What an envelope says of the operation that wrote it: a failure to read
/// it where there is none; the failure that it reports where its type is
/// `error`, under its message, or under `Unknown error` where it has none;
/// and success otherwise.
pub open spec fn envelope_verdict(parsed: Result<Envelope, String>) -> Result<
    (),
    (ErrorKind, Seq<char>),
> {
    match parsed {
        Err(reason) => Err((ErrorKind::SerializationError, "Parse error: "@ + reason@)),
        Ok(envelope) => if optional_text(envelope.kind) == Some("error"@) {
            Err(
                (
                    ErrorKind::ExecutionFailure,
                    match envelope.message {
                        Some(message) => message@,
                        None => "Unknown error"@,
                    },
                ),
            )
        } else {
            Ok(())
        },
    }
}

/// Judges an envelope that was parsed; see [`envelope_verdict`].
pub fn judge_envelope(parsed: &Result<Envelope, String>) -> (r: Result<(), Failure>)
    ensures
        match r {
            Ok(_) => envelope_verdict(*parsed) is Ok,
            Err(e) => envelope_verdict(*parsed) == Err::<(), (ErrorKind, Seq<char>)>(
                (e.kind, e.message@),
            ),
        },
{
    match parsed {
        Err(reason) => Err(
            Failure::with_detail(ErrorKind::SerializationError, "Parse error: ", reason.as_str()),
        ),
        Ok(envelope) => {
            let reports_error = match &envelope.kind {
                Some(kind) => text_equal(kind.as_str(), "error"),
                None => false,
            };
            if reports_error {
                match &envelope.message {
                    Some(message) => Err(
                        Failure::new(ErrorKind::ExecutionFailure, message.as_str()),
                    ),
                    None => Err(Failure::new(ErrorKind::ExecutionFailure, "Unknown error")),
                }
            } else {
                Ok(())
            }
        },
    }
}

/// Reads the envelope that a text holds: its members `type` and `message`,
/// each where the text is a JSON object that has it as a string. Fails where
/// the text is no JSON.
pub fn read_envelope(text: &str) -> (r: Result<Envelope, String>)
    ensures
        match r {
            Ok(envelope) => parsed_members(text@) matches Some(members) && optional_text(
                envelope.kind,
            ) == member(members, "type"@) && optional_text(envelope.message) == member(
                members,
                "message"@,
            ),
            Err(_) => parsed_members(text@) is None,
        },
{
    match parse_json(text) {
        Ok(value) => Ok(
            Envelope {
                kind: string_member(&value, "type"),
                message: string_member(&value, "message"),
            },
        ),
        Err(reason) => Err(reason),
    }
}

/// Reads the output of an operation that answers in an envelope, and says
/// whether the operation went well. An operation may end well as a process
/// and still report an error in its envelope.
pub fn reorder_outcome(output: &str) -> (r: Result<(), Failure>)
    ensures
        match parsed_members(output@) {
            None => r matches Err(e) && e.kind == ErrorKind::SerializationError,
            Some(members) => if member(members, "type"@) == Some("error"@) {
                r matches Err(e) && e.kind == ErrorKind::ExecutionFailure && e.message@ == (
                match member(members, "message"@) {
                    Some(text) => text,
                    None => "Unknown error"@,
                })
            } else {
                r is Ok
            },
        },
{
    let parsed = read_envelope(output);
    judge_envelope(&parsed)
}

} // verus!
