use algorithmia::algo::{AlgoInput, AlgoOptions, AlgoOutput, AlgoRef, AlgoResponse, EntryPoint};
use algorithmia::error::AlgorithmiaError;
use algorithmia::json::Json;
use algorithmia::Service;

fn mock_client() -> Service {
    Service::new("")
}

fn json_of(v: &serde_json::Value) -> Json {
    match v {
        serde_json::Value::Null => Json::Null,
        serde_json::Value::Bool(b) => Json::Bool(*b),
        serde_json::Value::Number(n) => Json::Number(n.to_string()),
        serde_json::Value::String(s) => Json::Str(s.clone()),
        serde_json::Value::Array(items) => Json::Array(items.iter().map(json_of).collect()),
        serde_json::Value::Object(m) => Json::Object(m.iter().map(|(k, v)| (k.clone(), json_of(v))).collect()),
    }
}

fn value_of(j: &Json) -> serde_json::Value {
    match j {
        Json::Null => serde_json::Value::Null,
        Json::Bool(b) => serde_json::Value::Bool(*b),
        Json::Number(n) => serde_json::from_str(n).unwrap(),
        Json::Str(s) => serde_json::Value::String(s.clone()),
        Json::Array(items) => serde_json::Value::Array(items.iter().map(value_of).collect()),
        Json::Object(m) => serde_json::Value::Object(m.iter().map(|(k, v)| (k.clone(), value_of(v))).collect()),
    }
}

fn decode_text(body: &str) -> Result<AlgoResponse, AlgorithmiaError> {
    let parsed = serde_json::from_str::<serde_json::Value>(body).ok().map(|v| json_of(&v));
    AlgoResponse::from_json(parsed.as_ref())
}

#[test]
fn test_algo_without_version_to_url() {
    let algorithm = mock_client().algorithm(AlgoRef::from("/anowell/Pinky"));
    let url = reqwest::Url::parse(&algorithm.to_url()).unwrap();
    assert_eq!(url.path(), "/v1/algo/anowell/Pinky");
}

#[test]
fn test_algo_without_prefix_to_url() {
    let algorithm = mock_client().algorithm(AlgoRef::from("anowell/Pinky/0.1.0"));
    let url = reqwest::Url::parse(&algorithm.to_url()).unwrap();
    assert_eq!(url.path(), "/v1/algo/anowell/Pinky/0.1.0");
}

#[test]
fn test_algo_with_prefix_to_url() {
    let algorithm = mock_client().algorithm(AlgoRef::from("algo://anowell/Pinky/0.1"));
    let url = reqwest::Url::parse(&algorithm.to_url()).unwrap();
    assert_eq!(url.path(), "/v1/algo/anowell/Pinky/0.1");
}

#[test]
fn test_algo_typesafe_to_url() {
    let algorithm = mock_client().algorithm(AlgoRef::from(("anowell/Pinky", "abcdef123456")));
    let url = reqwest::Url::parse(&algorithm.to_url()).unwrap();
    assert_eq!(url.path(), "/v1/algo/anowell/Pinky/abcdef123456");
}

#[test]
fn test_json_decoding() {
    let json_output = r#"{"metadata":{"duration":0.46739511,"content_type":"json"},"result":[5,41]}"#;
    let expected_duration = 0.46739511f32;
    let expected_result = [5, 41];
    let decoded = decode_text(json_output).unwrap();
    assert_eq!(expected_duration, decoded.metadata.duration.parse::<f32>().unwrap());
    assert!(decoded.metadata.stdout.is_none());
    assert!(decoded.metadata.alerts.is_none());
    assert_eq!(decoded.metadata.content_type, "json");
    let result: Vec<i32> = serde_json::from_value(value_of(&decoded.into_json().unwrap())).unwrap();
    assert_eq!(expected_result, &*result);
}

#[test]
fn error_envelope_decodes_to_remote_error() {
    let decoded = decode_text(r#"{"error":"boom"}"#);
    assert!(matches!(decoded, Err(AlgorithmiaError::Api(e)) if e.error == "boom" && e.stacktrace.is_none()));
    let decoded = decode_text(r#"{"error":"boom","stacktrace":"at x","metadata":{"duration":1,"content_type":"void"}}"#);
    assert!(matches!(decoded, Err(AlgorithmiaError::Api(e)) if e.error == "boom" && e.stacktrace.as_deref() == Some("at x")));
}

#[test]
fn envelope_decode_failures() {
    assert!(matches!(decode_text("{not json"), Err(AlgorithmiaError::DecodeJson(c)) if c == "malformed json"));
    assert!(matches!(decode_text(r#"{"result":1}"#), Err(AlgorithmiaError::MissingField(f)) if f == "metadata"));
    assert!(matches!(decode_text(r#"{"metadata":{"content_type":"json"},"result":1}"#),
        Err(AlgorithmiaError::DecodeJson(c)) if c == "metadata"));
    assert!(matches!(decode_text(r#"{"metadata":{"duration":1,"content_type":"json"}}"#),
        Err(AlgorithmiaError::MissingField(f)) if f == "result"));
    assert!(matches!(decode_text(r#"{"metadata":{"duration":1,"content_type":"text"},"result":[1]}"#),
        Err(AlgorithmiaError::MismatchedContentType(c)) if c == "text"));
    assert!(matches!(decode_text(r#"{"metadata":{"duration":1,"content_type":"binary"},"result":1}"#),
        Err(AlgorithmiaError::MismatchedContentType(c)) if c == "binary"));
    assert!(matches!(decode_text(r#"{"metadata":{"duration":1,"content_type":"binary"},"result":"!!"}"#),
        Err(AlgorithmiaError::DecodeBase64)));
    assert!(matches!(decode_text(r#"{"metadata":{"duration":1,"content_type":"xml"},"result":"<a/>"}"#),
        Err(AlgorithmiaError::InvalidContentType(c)) if c == "xml"));
    assert!(matches!(decode_text(r#"{"metadata":{"duration":1,"content_type":"xml"}}"#),
        Err(AlgorithmiaError::InvalidContentType(c)) if c == "xml"));
    assert!(matches!(decode_text(r#"{"metadata":{"duration":1,"content_type":"text"}}"#),
        Err(AlgorithmiaError::MissingField(f)) if f == "result"));
    assert!(matches!(decode_text(r#"{"metadata":{"duration":1,"content_type":"binary"}}"#),
        Err(AlgorithmiaError::MissingField(f)) if f == "result"));
}

#[test]
fn envelope_decodes_each_content_type() {
    let void = decode_text(r#"{"metadata":{"duration":1,"content_type":"void"}}"#).unwrap();
    assert!(matches!(void.result, AlgoOutput::Json(Json::Null)));
    let text = decode_text(r#"{"metadata":{"duration":1,"content_type":"text","stdout":"hi","alerts":["a","b"]},"result":"done"}"#).unwrap();
    assert_eq!(text.metadata.stdout.as_deref(), Some("hi"));
    assert_eq!(text.metadata.alerts.clone().unwrap(), vec!["a".to_string(), "b".to_string()]);
    assert_eq!(text.into_string().unwrap(), "done");
    let binary = decode_text(r#"{"metadata":{"duration":1,"content_type":"binary"},"result":"aGVsbG8="}"#).unwrap();
    assert_eq!(binary.into_bytes().unwrap(), b"hello".to_vec());
}

#[test]
fn text_round_trips_through_json() {
    let input = AlgoInput::Text("hello".to_string());
    let json = input.as_json().unwrap();
    assert!(matches!(&json, Json::Str(s) if s == "hello"));
    let back = AlgoInput::Json(json);
    assert_eq!(back.as_string(), Some("hello"));
    assert!(back.as_bytes().is_none());
    assert!(AlgoInput::Json(Json::Bool(true)).as_string().is_none());
    let bytes = AlgoInput::Binary(vec![1, 2]);
    assert_eq!(bytes.as_bytes(), Some(&[1u8, 2][..]));
    assert!(bytes.as_json().is_none());
}

#[test]
fn raw_body_of_text_and_bytes() {
    assert_eq!(AlgoInput::Text("héllo".to_string()).raw_body().unwrap(), "héllo".as_bytes().to_vec());
    assert_eq!(AlgoInput::Binary(vec![0, 255]).raw_body().unwrap(), vec![0, 255]);
    assert!(AlgoInput::Json(Json::Null).raw_body().is_none());
}

#[test]
fn unsupported_input_is_the_default_failure() {
    assert!(matches!(algorithmia::algo::unsupported_input(), Err(AlgorithmiaError::UnsupportedInput)));
}

#[test]
fn inputs_carry_their_content_type() {
    assert_eq!(AlgoInput::Text(String::new()).content_type(), "text/plain");
    assert_eq!(AlgoInput::Json(Json::Null).content_type(), "application/json");
    assert_eq!(AlgoInput::Binary(vec![]).content_type(), "application/octet-stream");
}

#[test]
fn output_becomes_input_shape_for_shape() {
    assert!(matches!(AlgoInput::from(AlgoOutput::Text("t".to_string())), AlgoInput::Text(t) if t == "t"));
    assert!(matches!(AlgoInput::from(AlgoOutput::Binary(vec![9])), AlgoInput::Binary(b) if b == vec![9]));
    assert!(matches!(AlgoInput::from(AlgoOutput::Json(Json::Null)), AlgoInput::Json(Json::Null)));
}

struct JsonOnly;

impl EntryPoint for JsonOnly {
    fn apply_str(&self, _text: &str) -> Result<AlgoOutput, AlgorithmiaError> {
        Err(AlgorithmiaError::UnsupportedInput)
    }

    fn apply_json(&self, json: &Json) -> Result<AlgoOutput, AlgorithmiaError> {
        match json {
            Json::Str(s) => Ok(AlgoOutput::Text(format!("json string {}", s))),
            _ => Ok(AlgoOutput::Text("json value".to_string())),
        }
    }

    fn apply_bytes(&self, _bytes: &[u8]) -> Result<AlgoOutput, AlgorithmiaError> {
        Err(AlgorithmiaError::UnsupportedInput)
    }
}

struct TextOnly;

impl EntryPoint for TextOnly {
    fn apply_str(&self, text: &str) -> Result<AlgoOutput, AlgorithmiaError> {
        Ok(AlgoOutput::Text(format!("text {}", text)))
    }

    fn apply_json(&self, _json: &Json) -> Result<AlgoOutput, AlgorithmiaError> {
        Err(AlgorithmiaError::UnsupportedInput)
    }

    fn apply_bytes(&self, _bytes: &[u8]) -> Result<AlgoOutput, AlgorithmiaError> {
        Err(AlgorithmiaError::UnsupportedInput)
    }
}

#[test]
fn text_reaches_json_only_handler_as_json_string() {
    let out = JsonOnly.apply(AlgoInput::Text("hello".to_string()));
    assert!(matches!(out, Ok(AlgoOutput::Text(t)) if t == "json string hello"));
}

#[test]
fn binary_has_no_fallback() {
    assert!(matches!(JsonOnly.apply(AlgoInput::Binary(vec![1])), Err(AlgorithmiaError::UnsupportedInput)));
    assert!(matches!(TextOnly.apply(AlgoInput::Binary(vec![1])), Err(AlgorithmiaError::UnsupportedInput)));
}

#[test]
fn json_string_reaches_text_only_handler() {
    let out = TextOnly.apply(AlgoInput::Json(Json::Str("hi".to_string())));
    assert!(matches!(out, Ok(AlgoOutput::Text(t)) if t == "text hi"));
    let out = TextOnly.apply(AlgoInput::Json(Json::Array(vec![])));
    assert!(matches!(out, Err(AlgorithmiaError::UnsupportedInput)));
}

#[test]
fn options_replace_by_name() {
    let mut opts = AlgoOptions::default();
    opts.timeout(4294967295);
    assert_eq!(opts.pairs()[0].1, "4294967295");
    opts.timeout(30);
    assert_eq!(opts.pairs()[0].1, "30");
    opts.timeout(0);
    assert_eq!(opts.pairs()[0].1, "0");
    opts.enable_stdout();
    opts.timeout(5);
    let pairs: Vec<(String, String)> = opts.pairs().to_vec();
    assert_eq!(pairs, vec![
        ("timeout".to_string(), "5".to_string()),
        ("stdout".to_string(), "true".to_string()),
    ]);
}

#[test]
fn algorithm_builders_and_uri() {
    let mut algorithm = mock_client().algorithm(AlgoRef::from("algo://anowell/Pinky"));
    assert_eq!(algorithm.path(), "anowell/Pinky");
    assert_eq!(algorithm.to_algo_uri(), "algo://anowell/Pinky");
    algorithm.timeout(3).enable_stdout();
    assert_eq!(algorithm.options().pairs().len(), 2);
    assert_eq!(algorithm.options().pairs()[0].1, "3");
}
