use algorithmia::data::{DataAcl, DataDir, DataFile, DirectoryShow, HasDataPath, DEFAULT_LAST_MODIFIED};
use algorithmia::error::AlgorithmiaError;
use algorithmia::json::Json;
use algorithmia::Service;

fn mock_client() -> Service {
    Service::new("")
}

fn text(s: &str) -> Json {
    Json::Str(s.to_string())
}

fn object(members: Vec<(&str, Json)>) -> Json {
    Json::Object(members.into_iter().map(|(k, v)| (k.to_string(), v)).collect())
}

#[test]
fn dir_test_to_url() {
    let dir = mock_client().dir("data://anowell/foo");
    let url = reqwest::Url::parse(&dir.to_url()).unwrap();
    assert_eq!(url.path(), "/v1/connector/data/anowell/foo");
}

#[test]
fn test_to_data_uri() {
    let dir = mock_client().dir("/anowell/foo");
    assert_eq!(dir.to_data_uri(), "data://anowell/foo".to_string());
}

#[test]
fn dir_test_parent() {
    let dir = mock_client().dir("data://anowell/foo");
    let expected = mock_client().dir("data://anowell");
    assert_eq!(dir.parent().unwrap().path(), expected.path());

    let dir = mock_client().dir("dropbox://anowell/foo");
    let expected = mock_client().dir("dropbox://anowell");
    assert_eq!(dir.parent().unwrap().path(), expected.path());

    let dir = mock_client().dir("data://anowell");
    let expected = mock_client().dir("data://");
    assert_eq!(dir.parent().unwrap().path(), expected.path());

    let dir = mock_client().dir("data://");
    assert!(dir.parent().is_none());
}

#[test]
fn child_appends_one_separator() {
    let dir = mock_client().dir("data://a/b");
    let child: DataDir = dir.child("c");
    assert_eq!(child.to_data_uri(), "data://a/b/c");
    assert_eq!(child.path(), "data/a/b/c");

    let dir = mock_client().dir("data://a/b/");
    let child: DataFile = dir.child("c");
    assert_eq!(child.to_data_uri(), "data://a/b/c");
}

#[test]
fn create_request_names_basename_under_parent() {
    let dir = mock_client().dir("data://.my/my_dir");
    let (parent, body) = dir.create_request(DataAcl::default()).unwrap();
    assert_eq!(parent.path(), "data/.my");
    match body {
        Json::Object(members) => {
            assert_eq!(members.len(), 2);
            assert_eq!(members[0].0, "name");
            assert!(matches!(&members[0].1, Json::Str(n) if n == "my_dir"));
            assert_eq!(members[1].0, "acl");
            match &members[1].1 {
                Json::Object(acl) => {
                    assert_eq!(acl[0].0, "read");
                    assert!(matches!(&acl[0].1, Json::Array(items) if items.len() == 1
                        && matches!(&items[0], Json::Str(s) if s == "algo://.my/*")));
                },
                other => panic!("unexpected acl {:?}", other),
            }
        },
        other => panic!("unexpected body {:?}", other),
    }
}

#[test]
fn create_request_without_parent_is_invalid_path() {
    let dir = mock_client().dir("data://");
    assert!(matches!(dir.create_request(DataAcl::default()), Err(AlgorithmiaError::InvalidPath(p)) if p == "data"));
}

#[test]
fn create_outcome_maps_statuses() {
    let dir = mock_client().dir("data://.my/my_dir");
    assert!(dir.create_outcome(201, None).is_ok());
    assert!(matches!(dir.create_outcome(404, None),
        Err(AlgorithmiaError::NotFound(u)) if u == "https://api.algorithmia.com/v1/connector/data/.my/my_dir"));
    let body = object(vec![("error", text("exists"))]);
    assert!(matches!(dir.create_outcome(409, Some(&body)),
        Err(AlgorithmiaError::Api(e)) if e.error == "exists" && e.stacktrace.is_none()));
    assert!(matches!(dir.create_outcome(500, Some(&Json::Null)), Err(AlgorithmiaError::Status(500))));
}

#[test]
fn delete_outcome_reads_deleted_count() {
    let dir = mock_client().dir("data://.my/my_dir");
    let body = object(vec![("result", object(vec![("deleted", Json::Number("3".to_string()))]))]);
    assert_eq!(dir.delete_outcome(200, Some(&body)).unwrap().deleted, 3);
    let bad = object(vec![("result", object(vec![("deleted", Json::Number("-1".to_string()))]))]);
    assert!(matches!(dir.delete_outcome(200, Some(&bad)),
        Err(AlgorithmiaError::DecodeJson(c)) if c == "directory deletion response"));
    let huge = object(vec![("result", object(vec![("deleted", Json::Number("18446744073709551616".to_string()))]))]);
    assert!(dir.delete_outcome(200, Some(&huge)).is_err());
    let max = object(vec![("result", object(vec![("deleted", Json::Number("18446744073709551615".to_string()))]))]);
    assert_eq!(dir.delete_outcome(200, Some(&max)).unwrap().deleted, u64::MAX);
}

#[test]
fn listing_outcome_decodes_a_page() {
    let dir = mock_client().dir("data://.my/my_dir");
    let body = object(vec![
        ("folders", Json::Array(vec![object(vec![("name", text("sub"))])])),
        ("files", Json::Array(vec![object(vec![
            ("filename", text("a.txt")),
            ("size", Json::Number("12".to_string())),
            ("last_modified", text("2015-03-14T08:00:00Z")),
        ])])),
        ("marker", text("next")),
    ]);
    let page: DirectoryShow = dir.listing_outcome(200, Some("directory"), Some(&body)).unwrap();
    let folders = page.folders.unwrap();
    assert_eq!(folders.len(), 1);
    assert_eq!(folders[0].name, "sub");
    let files = page.files.unwrap();
    assert_eq!(files[0].filename, "a.txt");
    assert_eq!(files[0].size, 12);
    assert_eq!(files[0].last_modified, 1426320000);
    assert_eq!(page.marker.as_deref(), Some("next"));
}

#[test]
fn listing_outcome_failures() {
    let dir = mock_client().dir("data://.my/my_dir");
    let empty = object(vec![]);
    assert!(matches!(dir.listing_outcome(200, Some("file"), Some(&empty)),
        Err(AlgorithmiaError::UnexpectedDataType(e, a)) if e == "directory" && a == "file"));
    let bad_time = object(vec![("files", Json::Array(vec![object(vec![
        ("filename", text("a.txt")),
        ("size", Json::Number("12".to_string())),
        ("last_modified", text("yesterday")),
    ])]))]);
    assert!(matches!(dir.listing_outcome(200, None, Some(&bad_time)),
        Err(AlgorithmiaError::DecodeJson(c)) if c == "directory listing"));
    assert!(matches!(dir.listing_outcome(404, None, None), Err(AlgorithmiaError::NotFound(u)) if u == dir.to_url()));
    assert!(matches!(dir.delete_outcome(404, None), Err(AlgorithmiaError::NotFound(u)) if u == dir.to_url()));
    assert!(dir.listing_outcome(200, None, Some(&empty)).is_ok());
}

#[test]
fn file_get_outcome_defaults_and_kind_check() {
    let file = mock_client().file("data://.my/my_dir/a.txt");
    assert_eq!(file.get_outcome(200, Some("file"), None, None).unwrap(), (0, DEFAULT_LAST_MODIFIED));
    assert_eq!(file.get_outcome(200, None, Some(7), Some(5)).unwrap(), (7, 5));
    assert!(matches!(file.get_outcome(200, Some("directory"), None, None),
        Err(AlgorithmiaError::UnexpectedDataType(e, a)) if e == "file" && a == "directory"));
    assert!(matches!(file.get_outcome(404, None, None, None),
        Err(AlgorithmiaError::NotFound(u)) if u == "https://api.algorithmia.com/v1/connector/data/.my/my_dir/a.txt"));
    assert!(matches!(file.get_outcome(200, Some("foo"), None, None),
        Err(AlgorithmiaError::UnexpectedDataType(e, a)) if e == "file" && a == "foo"));
    assert!(matches!(file.put_outcome(404, None), Err(AlgorithmiaError::NotFound(u)) if u == file.to_url()));
    assert!(matches!(file.get_outcome(503, None, None, None), Err(AlgorithmiaError::Status(503))));
    assert!(file.put_outcome(204, None).is_ok());
    assert!(file.delete_outcome(200, None).is_ok());
}

#[test]
fn last_modified_header_is_read() {
    assert_eq!(DataFile::last_modified_of(Some("Sat, 14 Mar 2015 08:00:00 GMT")), Some(1426320000));
    assert_eq!(DataFile::last_modified_of(Some("soon")), None);
    assert_eq!(DataFile::last_modified_of(None), None);
}
