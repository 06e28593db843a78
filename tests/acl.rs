use algorithmia::data::{DataAcl, ReadAcl};

#[test]
fn test_default_acl() {
    let acl: DataAcl = DataAcl::default();
    assert_eq!(acl.read, vec!["algo://.my/*".to_string()]);
}

#[test]
fn test_private_acl() {
    let acl: DataAcl = ReadAcl::Private.into();
    assert!(acl.read.is_empty());
}

#[test]
fn test_public_acl() {
    let acl: DataAcl = ReadAcl::Public.into();
    assert_eq!(acl.read, vec!["user://*".to_string()]);
}

#[test]
fn test_myalgos_acl() {
    let acl: DataAcl = ReadAcl::MyAlgorithms.into();
    assert_eq!(acl.read, vec!["algo://.my/*".to_string()]);
}

#[test]
fn default_acl_equals_my_algorithms() {
    let default_acl = DataAcl::default();
    let mine: DataAcl = ReadAcl::MyAlgorithms.into();
    assert_eq!(default_acl.read, mine.read);
}
