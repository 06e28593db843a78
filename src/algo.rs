//! Payloads sent to and received from remote algorithms, the handler
//! protocol that dispatches them, and the response envelope decoder.
use vstd::prelude::*;

use crate::error::{opt_text, AlgorithmiaError, ApiErrorResponse, ErrorView};
use crate::json::{Json, JsonView};
use crate::text::{has_prefix, same_text, starts_with};
use crate::Service;

verus! {

/// Input to an algorithm: text, raw bytes or a JSON value.
#[derive(Debug)]
pub enum AlgoInput {
    /// Sent with `Content-Type: text/plain`.
    Text(String),
    /// Sent with `Content-Type: application/octet-stream`.
    Binary(Vec<u8>),
    /// Sent with `Content-Type: application/json`.
    Json(Json),
}

/// Output of an algorithm, shaped by the response's `content_type`.
#[derive(Debug)]
pub enum AlgoOutput {
    /// The result when `content_type` is `text`.
    Text(String),
    /// The result when `content_type` is `json` (or `void`, as null).
    Json(Json),
    /// The result when `content_type` is `binary`.
    Binary(Vec<u8>),
}

/// What a payload is, for input and output alike.
pub enum Payload {
    Text(Seq<char>),
    Binary(Seq<u8>),
    Structured(JsonView),
}

impl View for AlgoInput {
    type V = Payload;

    open spec fn view(&self) -> Payload {
        match self {
            AlgoInput::Text(t) => Payload::Text(t@),
            AlgoInput::Binary(b) => Payload::Binary(b@),
            AlgoInput::Json(j) => Payload::Structured(j@),
        }
    }
}

impl View for AlgoOutput {
    type V = Payload;

    open spec fn view(&self) -> Payload {
        match self {
            AlgoOutput::Text(t) => Payload::Text(t@),
            AlgoOutput::Binary(b) => Payload::Binary(b@),
            AlgoOutput::Json(j) => Payload::Structured(j@),
        }
    }
}

impl Payload {
    /// The text of a payload: text itself, or a JSON string.
    pub open spec fn text(self) -> Option<Seq<char>> {
        match self {
            Payload::Text(t) => Some(t),
            Payload::Structured(j) => j.text(),
            Payload::Binary(_) => None,
        }
    }

    /// The JSON form of a payload: a JSON value itself, or text as a JSON string.
    pub open spec fn structured(self) -> Option<JsonView> {
        match self {
            Payload::Text(t) => Some(JsonView::Str(t)),
            Payload::Structured(j) => Some(j),
            Payload::Binary(_) => None,
        }
    }

    /// The bytes of a binary payload.
    pub open spec fn bytes(self) -> Option<Seq<u8>> {
        match self {
            Payload::Binary(b) => Some(b),
            _ => None,
        }
    }
}

/// Text wrapped as a JSON string turns back into the same text.
pub proof fn lemma_text_structured_round_trip(s: Seq<char>)
    ensures
        Payload::Text(s).structured() == Some(JsonView::Str(s)),
        Payload::Structured(JsonView::Str(s)).text() == Some(s),
{
}

pub open spec fn opt_str_view(s: Option<&str>) -> Option<Seq<char>> {
    match s {
        Some(t) => Some(t@),
        None => None,
    }
}

pub open spec fn opt_json_view(j: Option<Json>) -> Option<JsonView> {
    match j {
        Some(v) => Some(v@),
        None => None,
    }
}

impl AlgoInput {
    /// The text of the input, when it is text or a JSON string.
    pub fn as_string(&self) -> (r: Option<&str>)
        ensures
            opt_str_view(r) == self@.text(),
    {
        match self {
            AlgoInput::Text(text) => Some(text.as_str()),
            AlgoInput::Json(json) => json.as_str(),
            AlgoInput::Binary(_) => None,
        }
    }

    /// The input as JSON: a JSON value itself, or text wrapped as a JSON string.
    pub fn as_json(&self) -> (r: Option<Json>)
        ensures
            opt_json_view(r) == self@.structured(),
    {
        match self {
            AlgoInput::Text(text) => Some(Json::Str(text.clone())),
            AlgoInput::Json(json) => Some(json.deep_copy()),
            AlgoInput::Binary(_) => None,
        }
    }

    /// The bytes of a binary input.
    pub fn as_bytes(&self) -> (r: Option<&[u8]>)
        ensures
            r matches Some(b) ==> self@.bytes() == Some(b@),
            r is None ==> self@.bytes() is None,
    {
        match self {
            AlgoInput::Text(_) | AlgoInput::Json(_) => None,
            AlgoInput::Binary(bytes) => Some(bytes.as_slice()),
        }
    }
}

pub open spec fn outcome_view(r: Result<AlgoOutput, AlgorithmiaError>) -> Result<Payload, ErrorView> {
    match r {
        Ok(o) => Ok(o@),
        Err(e) => Err(e@),
    }
}

/// An algorithm's handler. It answers each input shape through one entry
/// point; an entry point that does not take its shape fails with
/// `UnsupportedInput`. The spec functions state what each entry point returns.
pub trait EntryPoint: Sized {
    /// What `apply_str` returns for this text; by default the handler does
    /// not take text.
    open spec fn text_outcome(&self, text: Seq<char>) -> Result<Payload, ErrorView> {
        Err(ErrorView::UnsupportedInput)
    }

    /// What `apply_json` returns for this JSON value; by default the handler
    /// does not take JSON.
    open spec fn json_outcome(&self, json: JsonView) -> Result<Payload, ErrorView> {
        Err(ErrorView::UnsupportedInput)
    }

    /// What `apply_bytes` returns for these bytes; by default the handler
    /// does not take bytes.
    open spec fn bytes_outcome(&self, bytes: Seq<u8>) -> Result<Payload, ErrorView> {
        Err(ErrorView::UnsupportedInput)
    }

    /// Handles text input.
    fn apply_str(&self, text: &str) -> (r: Result<AlgoOutput, AlgorithmiaError>)
        ensures
            outcome_view(r) == self.text_outcome(text@),
    ;

    /// Handles JSON input.
    fn apply_json(&self, json: &Json) -> (r: Result<AlgoOutput, AlgorithmiaError>)
        ensures
            outcome_view(r) == self.json_outcome(json@),
    ;

    /// Handles binary input.
    fn apply_bytes(&self, bytes: &[u8]) -> (r: Result<AlgoOutput, AlgorithmiaError>)
        ensures
            outcome_view(r) == self.bytes_outcome(bytes@),
    ;

    /// Calls the entry point for the input's shape. When that one fails with
    /// `UnsupportedInput`, text is retried once as a JSON string, and a JSON
    /// string once as text; binary input is never retried.
    fn apply(&self, input: AlgoInput) -> (r: Result<AlgoOutput, AlgorithmiaError>)
        ensures
            outcome_view(r) == dispatched(
                input@,
                |t: Seq<char>| self.text_outcome(t),
                |j: JsonView| self.json_outcome(j),
                |b: Seq<u8>| self.bytes_outcome(b),
            ),
    {
        match input {
            AlgoInput::Text(text) => {
                let first = self.apply_str(text.as_str());
                let retry = match &first {
                    Err(e) => e.is_unsupported_input(),
                    Ok(_) => false,
                };
                if retry {
                    let json = Json::Str(text);
                    self.apply_json(&json)
                } else {
                    first
                }
            },
            AlgoInput::Json(json) => {
                let first = self.apply_json(&json);
                let retry = match &first {
                    Err(e) => e.is_unsupported_input(),
                    Ok(_) => false,
                };
                if retry {
                    match json.as_str() {
                        Some(text) => self.apply_str(text),
                        None => Err(AlgorithmiaError::UnsupportedInput),
                    }
                } else {
                    first
                }
            },
            AlgoInput::Binary(bytes) => self.apply_bytes(bytes.as_slice()),
        }
    }
}

/// What an entry point returns for a shape it does not take; the three
/// outcome functions of `EntryPoint` give this by default.
pub fn unsupported_input() -> (r: Result<AlgoOutput, AlgorithmiaError>)
    ensures
        outcome_view(r) == Err::<Payload, ErrorView>(ErrorView::UnsupportedInput),
{
    Err(AlgorithmiaError::UnsupportedInput)
}

/// The result of dispatching `input` to a handler whose entry points give
/// `text`, `json` and `bytes`, with at most one fallback.
pub open spec fn dispatched(
    input: Payload,
    text: spec_fn(Seq<char>) -> Result<Payload, ErrorView>,
    json: spec_fn(JsonView) -> Result<Payload, ErrorView>,
    bytes: spec_fn(Seq<u8>) -> Result<Payload, ErrorView>,
) -> Result<Payload, ErrorView> {
    match input {
        Payload::Text(t) => match text(t) {
            Err(ErrorView::UnsupportedInput) => json(JsonView::Str(t)),
            first => first,
        },
        Payload::Structured(j) => match json(j) {
            Err(ErrorView::UnsupportedInput) => match j {
                JsonView::Str(t) => text(t),
                _ => Err(ErrorView::UnsupportedInput),
            },
            first => first,
        },
        Payload::Binary(b) => bytes(b),
    }
}

/// A handler that takes only JSON answers text input with what its JSON entry
/// point gives for that text as a JSON string.
pub proof fn lemma_text_reaches_json_handler(
    s: Seq<char>,
    text: spec_fn(Seq<char>) -> Result<Payload, ErrorView>,
    json: spec_fn(JsonView) -> Result<Payload, ErrorView>,
    bytes: spec_fn(Seq<u8>) -> Result<Payload, ErrorView>,
)
    requires
        forall|t: Seq<char>| #[trigger] text(t) == Err::<Payload, ErrorView>(ErrorView::UnsupportedInput),
    ensures
        dispatched(Payload::Text(s), text, json, bytes) == json(JsonView::Str(s)),
{
    assert(text(s) == Err::<Payload, ErrorView>(ErrorView::UnsupportedInput));
}

/// Binary input to a handler without a binary entry point always fails with
/// `UnsupportedInput`: there is no fallback for bytes.
pub proof fn lemma_binary_without_fallback(
    b: Seq<u8>,
    text: spec_fn(Seq<char>) -> Result<Payload, ErrorView>,
    json: spec_fn(JsonView) -> Result<Payload, ErrorView>,
    bytes: spec_fn(Seq<u8>) -> Result<Payload, ErrorView>,
)
    requires
        forall|x: Seq<u8>| #[trigger] bytes(x) == Err::<Payload, ErrorView>(ErrorView::UnsupportedInput),
    ensures
        dispatched(Payload::Binary(b), text, json, bytes) == Err::<Payload, ErrorView>(ErrorView::UnsupportedInput),
{
    assert(bytes(b) == Err::<Payload, ErrorView>(ErrorView::UnsupportedInput));
}

impl From<String> for AlgoInput {
    fn from(text: String) -> (r: AlgoInput)
        ensures
            r == AlgoInput::Text(text),
    {
        AlgoInput::Text(text)
    }
}

impl vstd::std_specs::convert::FromSpecImpl<String> for AlgoInput {
    open spec fn obeys_from_spec() -> bool {
        true
    }

    open spec fn from_spec(v: String) -> AlgoInput {
        AlgoInput::Text(v)
    }
}

impl From<Vec<u8>> for AlgoInput {
    fn from(bytes: Vec<u8>) -> (r: AlgoInput)
        ensures
            r == AlgoInput::Binary(bytes),
    {
        AlgoInput::Binary(bytes)
    }
}

impl vstd::std_specs::convert::FromSpecImpl<Vec<u8>> for AlgoInput {
    open spec fn obeys_from_spec() -> bool {
        true
    }

    open spec fn from_spec(v: Vec<u8>) -> AlgoInput {
        AlgoInput::Binary(v)
    }
}

impl From<Json> for AlgoInput {
    fn from(json: Json) -> (r: AlgoInput)
        ensures
            r == AlgoInput::Json(json),
    {
        AlgoInput::Json(json)
    }
}

impl vstd::std_specs::convert::FromSpecImpl<Json> for AlgoInput {
    open spec fn obeys_from_spec() -> bool {
        true
    }

    open spec fn from_spec(v: Json) -> AlgoInput {
        AlgoInput::Json(v)
    }
}

/// An algorithm's output becomes the next algorithm's input, shape for shape.
impl From<AlgoOutput> for AlgoInput {
    fn from(output: AlgoOutput) -> (r: AlgoInput)
        ensures
            r@ == output@,
    {
        match output {
            AlgoOutput::Text(text) => AlgoInput::Text(text),
            AlgoOutput::Json(json) => AlgoInput::Json(json),
            AlgoOutput::Binary(bytes) => AlgoInput::Binary(bytes),
        }
    }
}

impl vstd::std_specs::convert::FromSpecImpl<AlgoOutput> for AlgoInput {
    open spec fn obeys_from_spec() -> bool {
        true
    }

    open spec fn from_spec(v: AlgoOutput) -> AlgoInput {
        match v {
            AlgoOutput::Text(text) => AlgoInput::Text(text),
            AlgoOutput::Json(json) => AlgoInput::Json(json),
            AlgoOutput::Binary(bytes) => AlgoInput::Binary(bytes),
        }
    }
}

impl From<String> for AlgoOutput {
    fn from(text: String) -> (r: AlgoOutput)
        ensures
            r == AlgoOutput::Text(text),
    {
        AlgoOutput::Text(text)
    }
}

impl vstd::std_specs::convert::FromSpecImpl<String> for AlgoOutput {
    open spec fn obeys_from_spec() -> bool {
        true
    }

    open spec fn from_spec(v: String) -> AlgoOutput {
        AlgoOutput::Text(v)
    }
}

impl From<Vec<u8>> for AlgoOutput {
    fn from(bytes: Vec<u8>) -> (r: AlgoOutput)
        ensures
            r == AlgoOutput::Binary(bytes),
    {
        AlgoOutput::Binary(bytes)
    }
}

impl vstd::std_specs::convert::FromSpecImpl<Vec<u8>> for AlgoOutput {
    open spec fn obeys_from_spec() -> bool {
        true
    }

    open spec fn from_spec(v: Vec<u8>) -> AlgoOutput {
        AlgoOutput::Binary(v)
    }
}

impl From<Json> for AlgoOutput {
    fn from(json: Json) -> (r: AlgoOutput)
        ensures
            r == AlgoOutput::Json(json),
    {
        AlgoOutput::Json(json)
    }
}

impl vstd::std_specs::convert::FromSpecImpl<Json> for AlgoOutput {
    open spec fn obeys_from_spec() -> bool {
        true
    }

    open spec fn from_spec(v: Json) -> AlgoOutput {
        AlgoOutput::Json(v)
    }
}

/// The `Content-Type` that an input is sent with.
pub open spec fn content_type_of(input: Payload) -> Seq<char> {
    match input {
        Payload::Text(_) => "text/plain"@,
        Payload::Binary(_) => "application/octet-stream"@,
        Payload::Structured(_) => "application/json"@,
    }
}

/// Relies on `mime::TEXT_PLAIN`, whose essence is `text/plain`.
#[verifier::external_body]
fn mime_text_plain() -> (r: String)
    ensures
        r@ == "text/plain"@,
{
    mime::TEXT_PLAIN.essence_str().to_string()
}

/// Relies on `mime::APPLICATION_JSON`, whose essence is `application/json`.
#[verifier::external_body]
fn mime_application_json() -> (r: String)
    ensures
        r@ == "application/json"@,
{
    mime::APPLICATION_JSON.essence_str().to_string()
}

/// Relies on `mime::APPLICATION_OCTET_STREAM`, whose essence is
/// `application/octet-stream`.
#[verifier::external_body]
fn mime_application_octet_stream() -> (r: String)
    ensures
        r@ == "application/octet-stream"@,
{
    mime::APPLICATION_OCTET_STREAM.essence_str().to_string()
}

impl AlgoInput {
    /// The `Content-Type` this input is sent with.
    pub fn content_type(&self) -> (r: String)
        ensures
            r@ == content_type_of(self@),
    {
        match self {
            AlgoInput::Text(_) => mime_text_plain(),
            AlgoInput::Binary(_) => mime_application_octet_stream(),
            AlgoInput::Json(_) => mime_application_json(),
        }
    }
}

impl AlgoInput {
    /// The request body of a text or binary input: the text's UTF-8 bytes,
    /// or the bytes themselves. A JSON input has none here: its body is the
    /// value's JSON text.
    pub fn raw_body(&self) -> (r: Option<Vec<u8>>)
        ensures
            match self {
                AlgoInput::Text(t) => r matches Some(b) && b@ == vstd::utf8::encode_utf8(t@),
                AlgoInput::Binary(bytes) => r matches Some(b) && b@ == bytes@,
                AlgoInput::Json(_) => r is None,
            },
    {
        match self {
            AlgoInput::Text(t) => Some(vstd::slice::slice_to_vec(t.as_str().as_bytes())),
            AlgoInput::Binary(bytes) => Some(vstd::slice::slice_to_vec(bytes.as_slice())),
            AlgoInput::Json(_) => None,
        }
    }
}

/// The bytes that standard base64 (with padding) decodes `text` into, or
/// `None` where `text` is not valid standard base64.
pub uninterp spec fn base64_decoded(text: Seq<char>) -> Option<Seq<u8>>;

pub open spec fn opt_bytes_view(b: Option<Vec<u8>>) -> Option<Seq<u8>> {
    match b {
        Some(v) => Some(v@),
        None => None,
    }
}

/// Relies on base64's `STANDARD` engine `decode`: its result depends on the
/// text alone.
#[verifier::external_body]
fn decode_base64(text: &str) -> (r: Option<Vec<u8>>)
    ensures
        opt_bytes_view(r) == base64_decoded(text@),
{
    base64::Engine::decode(&base64::engine::general_purpose::STANDARD, text).ok()
}

/// Metadata returned with a result.
#[derive(Debug)]
pub struct AlgoMetadata {
    /// Run time in seconds, as the decimal text the server sent.
    pub duration: String,
    pub stdout: Option<String>,
    pub alerts: Option<Vec<String>>,
    pub content_type: String,
}

/// What `AlgoMetadata` is.
pub struct MetadataView {
    pub duration: Seq<char>,
    pub stdout: Option<Seq<char>>,
    pub alerts: Option<Seq<Seq<char>>>,
    pub content_type: Seq<char>,
}

pub open spec fn texts_view(v: Seq<String>) -> Seq<Seq<char>> {
    v.map_values(|s: String| s@)
}

impl View for AlgoMetadata {
    type V = MetadataView;

    open spec fn view(&self) -> MetadataView {
        MetadataView {
            duration: self.duration@,
            stdout: opt_text(self.stdout),
            alerts: match self.alerts {
                Some(a) => Some(texts_view(a@)),
                None => None,
            },
            content_type: self.content_type@,
        }
    }
}

/// A successful response: its metadata and its result.
#[derive(Debug)]
pub struct AlgoResponse {
    pub metadata: AlgoMetadata,
    pub result: AlgoOutput,
}

/// What `AlgoResponse` is.
pub struct ResponseView {
    pub metadata: MetadataView,
    pub result: Payload,
}

impl View for AlgoResponse {
    type V = ResponseView;

    open spec fn view(&self) -> ResponseView {
        ResponseView { metadata: self.metadata@, result: self.result@ }
    }
}

/// An optional string member as a decoder reads it: absent or null is
/// `Some(None)`, a string is `Some(Some(text))`, anything else does not decode.
pub open spec fn optional_text_member(j: JsonView, key: Seq<char>) -> Option<Option<Seq<char>>> {
    match j.member(key) {
        None => Some(None),
        Some(JsonView::Null) => Some(None),
        Some(JsonView::Str(s)) => Some(Some(s)),
        Some(_) => None,
    }
}

/// The texts of an array of strings, or `None` if an item is not a string.
pub open spec fn all_texts(items: Seq<JsonView>) -> Option<Seq<Seq<char>>> {
    if forall|i: int| 0 <= i < items.len() ==> (#[trigger] items[i]) is Str {
        Some(Seq::new(items.len(), |i: int| items[i]->Str_0))
    } else {
        None
    }
}

/// An optional member holding an array of strings, read as `optional_text_member` reads a string.
pub open spec fn optional_texts_member(j: JsonView, key: Seq<char>) -> Option<Option<Seq<Seq<char>>>> {
    match j.member(key) {
        None => Some(None),
        Some(JsonView::Null) => Some(None),
        Some(JsonView::Array(items)) => match all_texts(items) {
            Some(t) => Some(Some(t)),
            None => None,
        },
        Some(_) => None,
    }
}

/// The error envelope that `j` holds: a string `error` and an optional string
/// `stacktrace`.
pub open spec fn api_error_of(j: JsonView) -> Option<(Seq<char>, Option<Seq<char>>)> {
    match j.member("error"@) {
        Some(JsonView::Str(e)) => match optional_text_member(j, "stacktrace"@) {
            Some(st) => Some((e, st)),
            None => None,
        },
        _ => None,
    }
}

/// The metadata that `j` holds: a numeric `duration`, a string
/// `content_type`, and optional `stdout` and `alerts`.
pub open spec fn metadata_of(j: JsonView) -> Option<MetadataView> {
    match (j.member("duration"@), j.member("content_type"@), optional_text_member(j, "stdout"@), optional_texts_member(j, "alerts"@)) {
        (Some(JsonView::Number(d)), Some(JsonView::Str(ct)), Some(stdout), Some(alerts)) => Some(
            MetadataView { duration: d, stdout, alerts, content_type: ct },
        ),
        _ => None,
    }
}

/// The result that a response with content type `ct` and `result` member
/// `result` carries.
pub open spec fn result_of(ct: Seq<char>, result: Option<JsonView>) -> Result<Payload, ErrorView> {
    if ct == "void"@ {
        Ok(Payload::Structured(JsonView::Null))
    } else if ct == "json"@ {
        match result {
            None => Err(ErrorView::MissingField("result"@)),
            Some(value) => Ok(Payload::Structured(value)),
        }
    } else if ct == "text"@ {
        match result {
            None => Err(ErrorView::MissingField("result"@)),
            Some(JsonView::Str(t)) => Ok(Payload::Text(t)),
            Some(_) => Err(ErrorView::MismatchedContentType("text"@)),
        }
    } else if ct == "binary"@ {
        match result {
            None => Err(ErrorView::MissingField("result"@)),
            Some(JsonView::Str(t)) => match base64_decoded(t) {
                Some(b) => Ok(Payload::Binary(b)),
                None => Err(ErrorView::DecodeBase64),
            },
            Some(_) => Err(ErrorView::MismatchedContentType("binary"@)),
        }
    } else {
        Err(ErrorView::InvalidContentType(ct))
    }
}

/// What a response body decodes to. `None` stands for a body that is not JSON.
/// An error envelope wins over everything else.
pub open spec fn envelope_of(body: Option<JsonView>) -> Result<ResponseView, ErrorView> {
    match body {
        None => Err(ErrorView::DecodeJson("malformed json"@)),
        Some(j) => match api_error_of(j) {
            Some((e, st)) => Err(ErrorView::Api(e, st)),
            None => match j.member("metadata"@) {
                None => Err(ErrorView::MissingField("metadata"@)),
                Some(m) => match metadata_of(m) {
                    None => Err(ErrorView::DecodeJson("metadata"@)),
                    Some(meta) => match result_of(meta.content_type, j.member("result"@)) {
                        Ok(result) => Ok(ResponseView { metadata: meta, result }),
                        Err(e) => Err(e),
                    },
                },
            },
        },
    }
}

pub open spec fn response_view(r: Result<AlgoResponse, AlgorithmiaError>) -> Result<ResponseView, ErrorView> {
    match r {
        Ok(v) => Ok(v@),
        Err(e) => Err(e@),
    }
}

pub open spec fn opt_json_ref_view(j: Option<&Json>) -> Option<JsonView> {
    match j {
        Some(v) => Some(v@),
        None => None,
    }
}

/// Reads an optional string member: absent or null is `Some(None)`.
pub fn optional_text(j: &Json, key: &str) -> (r: Option<Option<String>>)
    ensures
        match r {
            Some(v) => optional_text_member(j@, key@) == Some(opt_text(v)),
            None => optional_text_member(j@, key@) is None,
        },
{
    match j.member(key) {
        None => Some(None),
        Some(Json::Null) => Some(None),
        Some(Json::Str(s)) => Some(Some(s.clone())),
        Some(_) => None,
    }
}

/// Reads an optional member holding an array of strings.
fn optional_texts(j: &Json, key: &str) -> (r: Option<Option<Vec<String>>>)
    ensures
        match r {
            Some(Some(v)) => optional_texts_member(j@, key@) == Some(Some(texts_view(v@))),
            Some(None) => optional_texts_member(j@, key@) == Some(None::<Seq<Seq<char>>>),
            None => optional_texts_member(j@, key@) is None,
        },
{
    match j.member(key) {
        None => Some(None),
        Some(Json::Null) => Some(None),
        Some(Json::Array(items)) => {
            proof {
                crate::json::lemma_items_view(items@);
            }
            let ghost iv = crate::json::items_view(items@);
            assert(j@.member(key@) == Some(JsonView::Array(iv)));
            let mut out: Vec<String> = Vec::new();
            let mut i: usize = 0;
            while i < items.len()
                invariant
                    j@.member(key@) == Some(JsonView::Array(iv)),
                    i <= items@.len(),
                    iv.len() == items@.len(),
                    forall|k: int| 0 <= k < items@.len() ==> #[trigger] iv[k] == crate::json::json_view(items@[k]),
                    out@.len() == i,
                    forall|k: int| 0 <= k < i ==> (#[trigger] iv[k]) is Str && iv[k]->Str_0 == out@[k]@,
                decreases items@.len() - i,
            {
                match &items[i] {
                    Json::Str(s) => {
                        out.push(s.clone());
                    },
                    _ => {
                        proof {
                            assert(!(iv[i as int] is Str));
                            assert(all_texts(iv) is None);
                        }
                        return None;
                    },
                }
                i = i + 1;
            }
            proof {
                assert(all_texts(iv) == Some(texts_view(out@)));
            }
            Some(Some(out))
        },
        Some(_) => None,
    }
}

impl ApiErrorResponse {
    /// The error envelope that `j` holds, if it is one.
    pub fn from_json(j: &Json) -> (r: Option<ApiErrorResponse>)
        ensures
            match r {
                Some(e) => api_error_of(j@) == Some((e.error@, opt_text(e.stacktrace))),
                None => api_error_of(j@) is None,
            },
    {
        match j.member("error") {
            Some(Json::Str(e)) => match optional_text(j, "stacktrace") {
                Some(st) => Some(ApiErrorResponse { error: e.clone(), stacktrace: st }),
                None => None,
            },
            _ => None,
        }
    }
}

impl AlgoMetadata {
    /// The metadata that `j` holds, if it has the expected members.
    pub fn from_json(j: &Json) -> (r: Option<AlgoMetadata>)
        ensures
            match r {
                Some(m) => metadata_of(j@) == Some(m@),
                None => metadata_of(j@) is None,
            },
    {
        let duration = match j.member("duration") {
            Some(Json::Number(d)) => d.clone(),
            _ => return None,
        };
        let content_type = match j.member("content_type") {
            Some(Json::Str(ct)) => ct.clone(),
            _ => return None,
        };
        let stdout = match optional_text(j, "stdout") {
            Some(s) => s,
            None => return None,
        };
        let alerts = match optional_texts(j, "alerts") {
            Some(a) => a,
            None => return None,
        };
        Some(AlgoMetadata { duration, stdout, alerts, content_type })
    }
}

/// The binary result for what base64 decoding gave.
pub fn binary_result(decoded: Option<Vec<u8>>) -> (r: Result<AlgoOutput, AlgorithmiaError>)
    ensures
        outcome_view(r) == match opt_bytes_view(decoded) {
            Some(b) => Ok(Payload::Binary(b)),
            None => Err(ErrorView::DecodeBase64),
        },
{
    match decoded {
        Some(bytes) => Ok(AlgoOutput::Binary(bytes)),
        None => Err(AlgorithmiaError::DecodeBase64),
    }
}

/// The result that a response with content type `ct` carries in `result`.
pub fn decode_result(ct: &str, result: Option<&Json>) -> (r: Result<AlgoOutput, AlgorithmiaError>)
    ensures
        outcome_view(r) == result_of(ct@, opt_json_ref_view(result)),
{
    if same_text(ct, "void") {
        Ok(AlgoOutput::Json(Json::Null))
    } else if same_text(ct, "json") {
        match result {
            None => Err(AlgorithmiaError::MissingField(String::from_str("result"))),
            Some(value) => Ok(AlgoOutput::Json(value.deep_copy())),
        }
    } else if same_text(ct, "text") {
        match result {
            None => Err(AlgorithmiaError::MissingField(String::from_str("result"))),
            Some(Json::Str(t)) => Ok(AlgoOutput::Text(t.clone())),
            Some(_) => Err(AlgorithmiaError::MismatchedContentType(String::from_str("text"))),
        }
    } else if same_text(ct, "binary") {
        match result {
            None => Err(AlgorithmiaError::MissingField(String::from_str("result"))),
            Some(Json::Str(t)) => binary_result(decode_base64(t.as_str())),
            Some(_) => Err(AlgorithmiaError::MismatchedContentType(String::from_str("binary"))),
        }
    } else {
        Err(AlgorithmiaError::InvalidContentType(String::from_str(ct)))
    }
}

impl AlgoResponse {
    /// Decodes a response body; `None` stands for a body that is not JSON.
    /// An error envelope is reported as `Api` before anything else is read.
    pub fn from_json(body: Option<&Json>) -> (r: Result<AlgoResponse, AlgorithmiaError>)
        ensures
            response_view(r) == envelope_of(opt_json_ref_view(body)),
    {
        let j = match body {
            None => return Err(AlgorithmiaError::DecodeJson(String::from_str("malformed json"))),
            Some(j) => j,
        };
        if let Some(api_error) = ApiErrorResponse::from_json(j) {
            return Err(AlgorithmiaError::Api(api_error));
        }
        let meta_json = match j.member("metadata") {
            None => return Err(AlgorithmiaError::MissingField(String::from_str("metadata"))),
            Some(m) => m,
        };
        let metadata = match AlgoMetadata::from_json(meta_json) {
            None => return Err(AlgorithmiaError::DecodeJson(String::from_str("metadata"))),
            Some(m) => m,
        };
        let result = decode_result(metadata.content_type.as_str(), j.member("result"));
        match result {
            Ok(result) => Ok(AlgoResponse { metadata, result }),
            Err(e) => Err(e),
        }
    }

    /// The result as text, when it is text or a JSON string.
    pub fn into_string(self) -> (r: Option<String>)
        ensures
            opt_text(r) == self.result@.text(),
    {
        match self.result {
            AlgoOutput::Text(text) => Some(text),
            AlgoOutput::Json(Json::Str(text)) => Some(text),
            _ => None,
        }
    }

    /// The result as JSON: a JSON value itself, or text as a JSON string.
    pub fn into_json(self) -> (r: Option<Json>)
        ensures
            opt_json_view(r) == self.result@.structured(),
    {
        match self.result {
            AlgoOutput::Json(json) => Some(json),
            AlgoOutput::Text(text) => Some(Json::Str(text)),
            AlgoOutput::Binary(_) => None,
        }
    }

    /// The result's bytes, when it is binary.
    pub fn into_bytes(self) -> (r: Option<Vec<u8>>)
        ensures
            opt_bytes_view(r) == self.result@.bytes(),
    {
        match self.result {
            AlgoOutput::Binary(bytes) => Some(bytes),
            _ => None,
        }
    }
}

/// A reference to an algorithm: `owner/name`, optionally followed by `/version`.
#[derive(Debug)]
pub struct AlgoRef {
    pub path: String,
}

impl<'a> From<&'a str> for AlgoRef {
    fn from(path: &'a str) -> (r: AlgoRef)
        ensures
            r.path@ == path@,
    {
        AlgoRef { path: String::from_str(path) }
    }
}

impl<'a> vstd::std_specs::convert::FromSpecImpl<&'a str> for AlgoRef {
    open spec fn obeys_from_spec() -> bool {
        false
    }

    open spec fn from_spec(v: &'a str) -> AlgoRef {
        arbitrary()
    }
}

impl<'a, 'b> From<(&'a str, &'b str)> for AlgoRef {
    /// An algorithm at a given version: `algo/version`.
    fn from(parts: (&'a str, &'b str)) -> (r: AlgoRef)
        ensures
            r.path@ == parts.0@ + "/"@ + parts.1@,
    {
        let (algo, version) = parts;
        let path = String::from_str(algo).concat("/").concat(version);
        AlgoRef { path }
    }
}

impl<'a, 'b> vstd::std_specs::convert::FromSpecImpl<(&'a str, &'b str)> for AlgoRef {
    open spec fn obeys_from_spec() -> bool {
        false
    }

    open spec fn from_spec(v: (&'a str, &'b str)) -> AlgoRef {
        arbitrary()
    }
}

/// The decimal text of `n`, most significant digit first.
pub open spec fn decimal(n: nat) -> Seq<char>
    decreases n,
{
    let digit = seq!['0', '1', '2', '3', '4', '5', '6', '7', '8', '9'][(n % 10) as int];
    if n < 10 {
        seq![digit]
    } else {
        decimal(n / 10).push(digit)
    }
}

/// The decimal text of `n`.
fn u32_text(n: u32) -> (r: String)
    ensures
        r@ == decimal(n as nat),
    decreases n,
{
    let digits = "0123456789";
    proof {
        reveal_strlit("0123456789");
    }
    let d = (n % 10) as usize;
    let one = digits.substring_char(d, d + 1);
    assert(one@ =~= seq![seq!['0', '1', '2', '3', '4', '5', '6', '7', '8', '9'][(n % 10) as int]]);
    if n < 10 {
        String::from_str(one)
    } else {
        let mut text = u32_text(n / 10);
        text.append(one);
        text
    }
}

/// Options sent with a call as query parameters, each name at most once, in
/// the order they were first set.
#[derive(Debug)]
pub struct AlgoOptions {
    opts: Vec<(String, String)>,
}

pub open spec fn pairs_view(s: Seq<(String, String)>) -> Seq<(Seq<char>, Seq<char>)> {
    s.map_values(|p: (String, String)| (p.0@, p.1@))
}

/// Whether no name occurs twice.
pub open spec fn distinct_names(s: Seq<(Seq<char>, Seq<char>)>) -> bool {
    forall|i: int, j: int| 0 <= i < s.len() && 0 <= j < s.len() && i != j ==> #[trigger] s[i].0 != #[trigger] s[j].0
}

/// `s` with option `name` set to `value`: replaced where it is, else appended.
pub open spec fn with_option(s: Seq<(Seq<char>, Seq<char>)>, name: Seq<char>, value: Seq<char>) -> Seq<(Seq<char>, Seq<char>)> {
    if exists|i: int| 0 <= i < s.len() && #[trigger] s[i].0 == name {
        let i = choose|i: int| 0 <= i < s.len() && #[trigger] s[i].0 == name;
        s.update(i, (name, value))
    } else {
        s.push((name, value))
    }
}

impl View for AlgoOptions {
    type V = Seq<(Seq<char>, Seq<char>)>;

    closed spec fn view(&self) -> Seq<(Seq<char>, Seq<char>)> {
        pairs_view(self.opts@)
    }
}

impl AlgoOptions {
    pub open spec fn wf(&self) -> bool {
        distinct_names(self@)
    }

    /// No options.
    pub fn new() -> (r: AlgoOptions)
        ensures
            r@ == Seq::<(Seq<char>, Seq<char>)>::empty(),
            r.wf(),
    {
        AlgoOptions { opts: Vec::new() }
    }

    /// The options as name and value pairs.
    pub fn pairs(&self) -> (r: &[(String, String)])
        ensures
            pairs_view(r@) == self@,
    {
        self.opts.as_slice()
    }

    /// Sets option `name` to `value`, replacing an earlier value.
    pub fn set(&mut self, name: String, value: String)
        requires
            old(self).wf(),
        ensures
            final(self).wf(),
            final(self)@ == with_option(old(self)@, name@, value@),
    {
        let ghost s = self@;
        let mut i: usize = 0;
        while i < self.opts.len()
            invariant
                i <= self.opts@.len(),
                self@ == s,
                old(self)@ == s,
                distinct_names(s),
                forall|j: int| 0 <= j < i ==> s[j].0 != name@,
            decreases self.opts@.len() - i,
        {
            if same_text(self.opts[i].0.as_str(), name.as_str()) {
                proof {
                    assert(s.len() == self.opts@.len());
                    assert(s[i as int].0 == name@);
                    assert(exists|k: int| 0 <= k < s.len() && #[trigger] s[k].0 == name@);
                    let k = choose|k: int| 0 <= k < s.len() && #[trigger] s[k].0 == name@;
                    assert(k == i);
                    assert(with_option(s, name@, value@) == s.update(i as int, (name@, value@)));
                }
                self.opts.set(i, (name, value));
                proof {
                    assert(self@ =~= s.update(i as int, (name@, value@)));
                }
                return;
            }
            i = i + 1;
        }
        self.opts.push((name, value));
        proof {
            assert(self@ =~= s.push((name@, value@)));
        }
    }

    /// Sets the time limit in seconds (`timeout`).
    pub fn timeout(&mut self, timeout: u32)
        requires
            old(self).wf(),
        ensures
            final(self).wf(),
            final(self)@ == with_option(old(self)@, "timeout"@, decimal(timeout as nat)),
    {
        self.set(String::from_str("timeout"), u32_text(timeout));
    }

    /// Asks for the algorithm's standard output in the metadata (`stdout`);
    /// only the algorithm's owner receives it.
    pub fn enable_stdout(&mut self)
        requires
            old(self).wf(),
        ensures
            final(self).wf(),
            final(self)@ == with_option(old(self)@, "stdout"@, "true"@),
    {
        self.set(String::from_str("stdout"), String::from_str("true"));
    }
}

impl Default for AlgoOptions {
    fn default() -> (r: AlgoOptions)
        ensures
            r@ == Seq::<(Seq<char>, Seq<char>)>::empty(),
    {
        AlgoOptions::new()
    }
}

/// The path of an algorithm as written in a reference, without an `algo://`
/// prefix or, failing that, a leading `/`.
pub open spec fn algo_path(reference: Seq<char>) -> Seq<char> {
    if has_prefix(reference, "algo://"@) {
        reference.subrange("algo://"@.len() as int, reference.len() as int)
    } else if has_prefix(reference, "/"@) {
        reference.subrange(1, reference.len() as int)
    } else {
        reference
    }
}

/// A remote algorithm, with the options its calls carry.
pub struct Algorithm {
    path: String,
    options: AlgoOptions,
    service: Service,
}

impl Algorithm {
    pub closed spec fn wf(&self) -> bool {
        self.options.wf()
    }

    pub closed spec fn spec_options(&self) -> Seq<(Seq<char>, Seq<char>)> {
        self.options@
    }

    pub closed spec fn spec_path(&self) -> Seq<char> {
        self.path@
    }

    pub closed spec fn spec_service(&self) -> Service {
        self.service
    }

    /// The algorithm that `algo_ref` names, reached through `service`.
    pub fn new(service: Service, algo_ref: AlgoRef) -> (r: Algorithm)
        ensures
            r.wf(),
            r.spec_path() == algo_path(algo_ref.path@),
            r.spec_options() == Seq::<(Seq<char>, Seq<char>)>::empty(),
            r.spec_service() == service,
    {
        proof {
            reveal_strlit("/");
        }
        let p = algo_ref.path.as_str();
        let n = p.unicode_len();
        let path = if starts_with(p, "algo://") {
            let k = "algo://".unicode_len();
            String::from_str(p.substring_char(k, n))
        } else if starts_with(p, "/") {
            String::from_str(p.substring_char(1, n))
        } else {
            String::from_str(p)
        };
        Algorithm { path, options: AlgoOptions::new(), service }
    }

    /// Its API endpoint: the base URL, `/v1/algo/`, then its path.
    pub fn to_url(&self) -> (r: String)
        ensures
            r@ == self.spec_service().base_url@ + "/v1/algo/"@ + self.spec_path(),
    {
        self.service.base_url.clone().concat("/v1/algo/").concat(self.path.as_str())
    }

    /// The `algo://` URI of this algorithm.
    pub fn to_algo_uri(&self) -> (r: String)
        ensures
            r@ == "algo://"@ + self.spec_path(),
    {
        String::from_str("algo://").concat(self.path.as_str())
    }

    /// Its path: `owner/name`, optionally followed by `/version`.
    pub fn path(&self) -> (r: &str)
        ensures
            r@ == self.spec_path(),
    {
        self.path.as_str()
    }

    /// The options its calls carry.
    pub fn options(&self) -> (r: &AlgoOptions)
        ensures
            r@ == self.spec_options(),
    {
        &self.options
    }

    /// The service it is reached through.
    pub fn service(&self) -> (r: &Service)
        ensures
            *r == self.spec_service(),
    {
        &self.service
    }

    /// Replaces all options.
    pub fn set_options(&mut self, options: AlgoOptions) -> (r: &mut Algorithm)
        requires
            options.wf(),
        ensures
            r.wf(),
            r.spec_path() == old(self).spec_path(),
            r.spec_service() == old(self).spec_service(),
            r.spec_options() == options@,
            *final(self) == *final(r),
    {
        self.options = options;
        self
    }

    /// Sets the time limit in seconds.
    pub fn timeout(&mut self, timeout: u32) -> (r: &mut Algorithm)
        requires
            old(self).wf(),
        ensures
            r.wf(),
            r.spec_path() == old(self).spec_path(),
            r.spec_service() == old(self).spec_service(),
            r.spec_options() == with_option(old(self).spec_options(), "timeout"@, decimal(timeout as nat)),
            *final(self) == *final(r),
    {
        self.options.timeout(timeout);
        self
    }

    /// Asks for the algorithm's standard output in the metadata.
    pub fn enable_stdout(&mut self) -> (r: &mut Algorithm)
        requires
            old(self).wf(),
        ensures
            r.wf(),
            r.spec_path() == old(self).spec_path(),
            r.spec_service() == old(self).spec_service(),
            r.spec_options() == with_option(old(self).spec_options(), "stdout"@, "true"@),
            *final(self) == *final(r),
    {
        self.options.enable_stdout();
        self
    }
}

} // verus!
