//! The failures that the library reports.
use vstd::prelude::*;

verus! {

/// An error envelope sent by the remote side: `{"error": ..., "stacktrace": ...}`.
#[derive(Debug)]
pub struct ApiErrorResponse {
    pub error: String,
    pub stacktrace: Option<String>,
}

/// Every failure this library returns.
#[derive(Debug)]
pub enum AlgorithmiaError {
    /// A handler entry point does not take this shape of input.
    UnsupportedInput,
    /// The declared content type (named here) does not fit the payload.
    MismatchedContentType(String),
    /// The payload has another content type than the one asked for: expected, actual.
    UnexpectedContentType(String, String),
    /// A resource of another kind than expected: expected, actual.
    UnexpectedDataType(String, String),
    /// The server declared a content type outside the known ones.
    InvalidContentType(String),
    /// A field that the wire format requires is absent.
    MissingField(String),
    /// A payload does not decode; the text says what was being decoded.
    DecodeJson(String),
    /// A binary result is not valid base64.
    DecodeBase64,
    /// The path has no parent or no last segment.
    InvalidPath(String),
    /// The remote resource does not exist.
    NotFound(String),
    /// The remote side reported an error.
    Api(ApiErrorResponse),
    /// The remote side answered with this status and no error envelope.
    Status(u16),
    /// The transport failed; the text says during what.
    Http(String),
    /// Reading a body or a file failed; the text says during what.
    Io(String),
}

/// What an `AlgorithmiaError` is, with texts as character sequences.
pub enum ErrorView {
    UnsupportedInput,
    MismatchedContentType(Seq<char>),
    UnexpectedContentType(Seq<char>, Seq<char>),
    UnexpectedDataType(Seq<char>, Seq<char>),
    InvalidContentType(Seq<char>),
    MissingField(Seq<char>),
    DecodeJson(Seq<char>),
    DecodeBase64,
    InvalidPath(Seq<char>),
    NotFound(Seq<char>),
    Api(Seq<char>, Option<Seq<char>>),
    Status(u16),
    Http(Seq<char>),
    Io(Seq<char>),
}

pub open spec fn opt_text(s: Option<String>) -> Option<Seq<char>> {
    match s {
        Some(t) => Some(t@),
        None => None,
    }
}

impl View for AlgorithmiaError {
    type V = ErrorView;

    open spec fn view(&self) -> ErrorView {
        match self {
            AlgorithmiaError::UnsupportedInput => ErrorView::UnsupportedInput,
            AlgorithmiaError::MismatchedContentType(e) => ErrorView::MismatchedContentType(e@),
            AlgorithmiaError::UnexpectedContentType(e, a) => ErrorView::UnexpectedContentType(e@, a@),
            AlgorithmiaError::UnexpectedDataType(e, a) => ErrorView::UnexpectedDataType(e@, a@),
            AlgorithmiaError::InvalidContentType(a) => ErrorView::InvalidContentType(a@),
            AlgorithmiaError::MissingField(f) => ErrorView::MissingField(f@),
            AlgorithmiaError::DecodeJson(c) => ErrorView::DecodeJson(c@),
            AlgorithmiaError::DecodeBase64 => ErrorView::DecodeBase64,
            AlgorithmiaError::InvalidPath(p) => ErrorView::InvalidPath(p@),
            AlgorithmiaError::NotFound(p) => ErrorView::NotFound(p@),
            AlgorithmiaError::Api(e) => ErrorView::Api(e.error@, opt_text(e.stacktrace)),
            AlgorithmiaError::Status(s) => ErrorView::Status(*s),
            AlgorithmiaError::Http(c) => ErrorView::Http(c@),
            AlgorithmiaError::Io(c) => ErrorView::Io(c@),
        }
    }
}

impl AlgorithmiaError {
    /// Whether this is the failure that lets a handler try another input shape.
    pub fn is_unsupported_input(&self) -> (r: bool)
        ensures
            r == (self@ is UnsupportedInput),
    {
        match self {
            AlgorithmiaError::UnsupportedInput => true,
            _ => false,
        }
    }
}

} // verus!
