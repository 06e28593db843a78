use algorithmia::collection::{Collection, CollectionDeleted, CollectionFileAdded, CollectionFileDeleted};
use algorithmia::error::AlgorithmiaError;
use algorithmia::json::Json;
use algorithmia::Service;

#[test]
fn collection_test_to_url() {
    let collection = Collection { path: "anowell/foo".to_string(), service: Service::new("") };
    let expected = format!("{}/v1/data/anowell/foo", Service::new("").base_url);
    assert_eq!(collection.to_url(), expected);
}

#[test]
fn collection_test_parent() {
    let collection = Collection { path: "anowell/foo".to_string(), service: Service::new("") };
    assert_eq!(collection.parent(), "anowell");
}

#[test]
fn collection_basename_and_root_parent() {
    let collection = Service::new("").collection("anowell/foo");
    assert_eq!(collection.basename(), "foo");
    let top = Service::new("").collection("anowell");
    assert_eq!(top.parent(), "/");
    assert_eq!(top.basename(), "anowell");
}

fn object(members: Vec<(&str, Json)>) -> Json {
    Json::Object(members.into_iter().map(|(k, v)| (k.to_string(), v)).collect())
}

#[test]
fn collection_create_request_posts_to_parent() {
    let collection = Service::new("").collection("anowell/foo");
    let (url, body) = collection.create_request();
    assert_eq!(url, "https://api.algorithmia.com/v1/data/anowell");
    match body {
        Json::Object(m) => {
            assert!(matches!(&m[0], (k, Json::Str(n)) if k == "name" && n == "foo"));
            assert!(matches!(&m[1], (k, Json::Object(acl)) if k == "acl"
                && matches!(&acl[0], (r, Json::Array(items)) if r == "read" && items.is_empty())));
        },
        other => panic!("unexpected body {:?}", other),
    }
    assert!(collection.create_outcome(201, None).is_ok());
    assert!(matches!(collection.create_outcome(400, None), Err(AlgorithmiaError::Status(400))));
}

#[test]
fn collection_answers_decode() {
    let added = object(vec![("result", Json::Str("data://anowell/foo/a".to_string()))]);
    assert_eq!(CollectionFileAdded::from_answer(Some(&added)).unwrap().result, "data://anowell/foo/a");
    assert_eq!(CollectionFileDeleted::from_answer(Some(&added)).unwrap().result, "data://anowell/foo/a");
    let failed = object(vec![("error", Json::Str("denied".to_string()))]);
    assert!(matches!(CollectionFileAdded::from_answer(Some(&failed)), Err(AlgorithmiaError::Api(e)) if e.error == "denied"));
    assert!(matches!(CollectionFileDeleted::from_answer(None),
        Err(AlgorithmiaError::DecodeJson(c)) if c == "file deletion response"));
    let deleted = object(vec![("result", object(vec![("deleted", Json::Number("2".to_string()))]))]);
    assert_eq!(CollectionDeleted::from_answer(Some(&deleted)).unwrap().result.deleted, 2);
    assert!(CollectionDeleted::from_answer(Some(&added)).is_err());
}
