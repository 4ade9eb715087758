//! The closed set of failures that every operation of the library reports.

use vstd::prelude::*;

verus! {

/// What went wrong, as a tag that callers can branch on.
#[derive(Clone, Copy, Debug, PartialEq, Eq, Structural)]
pub enum ErrorKind {
    /// A record or a file is absent.
    NotFound,
    /// The leading bytes of a file are not the expected signature.
    InvalidFormat,
    /// An external tool could not be located or started.
    ToolUnavailable,
    /// An external tool ran and reported failure.
    ExecutionFailure,
    /// A structured payload could not be encoded or decoded.
    SerializationError,
    /// A value breaks a rule of the store, or an input is empty where it may
    /// not be.
    ConstraintViolation,
}

/// A classified failure with a message for people.
#[derive(Debug, PartialEq, Eq)]
pub struct Failure {
    pub kind: ErrorKind,
    pub message: String,
}

/// A failure as a mathematical value.
pub struct FailureView {
    pub kind: ErrorKind,
    pub message: Seq<char>,
}

impl View for Failure {
    type V = FailureView;

    open spec fn view(&self) -> FailureView {
        FailureView { kind: self.kind, message: self.message@ }
    }
}

/// The result of an operation that gives a text, as a mathematical value.
pub open spec fn text_result(r: Result<String, Failure>) -> Result<Seq<char>, FailureView> {
    match r {
        Ok(text) => Ok(text@),
        Err(e) => Err(e@),
    }
}

impl Failure {
    /// A failure of the given kind with the given message.
    pub fn new(kind: ErrorKind, message: &str) -> (r: Failure)
        ensures
            r.kind == kind,
            r.message@ == message@,
    {
        Failure { kind, message: message.to_owned() }
    }

    /// A failure of the given kind whose message is `lead` followed by
    /// `detail`.
    pub fn with_detail(kind: ErrorKind, lead: &str, detail: &str) -> (r: Failure)
        ensures
            r.kind == kind,
            r.message@ == lead@ + detail@,
    {
        let mut message = lead.to_owned();
        message.append(detail);
        Failure { kind, message }
    }
}

impl Clone for Failure {
    fn clone(&self) -> (r: Self)
        ensures
            r.kind == self.kind,
            r.message@ == self.message@,
    {
        Failure { kind: self.kind, message: self.message.clone() }
    }
}

} // verus!
