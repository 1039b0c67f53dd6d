use cutoff_common::urn::Urn;
use cutoff_common::urn::UrnFormatError;

#[test]
fn test_from_string() {
    let urn = Urn::from_str("urn:some_nid:foo.bar/hello?foo=bar&flip=flop#world").unwrap();
    assert_eq!(urn.nid, "some_nid");
    assert_eq!(urn.nss, "foo.bar");
    assert_eq!(urn.path, Some("hello".to_string()));
    assert_eq!(urn.query, Some("foo=bar&flip=flop".to_string()));
    assert_eq!(urn.fragment, Some("world".to_string()));
}

#[test]
fn test_no_scheme() {
    match Urn::from_str("some_nid:foo.bar/hello?foo=bar&flip=flop#world") {
        Err(UrnFormatError::UrnSchemeExpected) => {}
        _ => panic!("Expected UrnFormatError::UrnSchemeExpected"),
    }
}

#[test]
fn test_display() {
    let urn = Urn::builder()
        .nid("some_nid")
        .nss("foo.bar")
        .path("hello")
        .query("foo=bar&flip=flop")
        .fragment("world")
        .build().unwrap();

    assert_eq!(
        "urn:some_nid:foo.bar/hello?foo=bar&flip=flop#world",
        urn.to_string()
    );
}

#[test]
fn test_minimal_urn() {
    let urn = Urn::from_str("urn:example:simple").unwrap();
    assert_eq!(urn.nid(), "example");
    assert_eq!(urn.nss(), "simple");
    assert_eq!(urn.path(), None);
    assert_eq!(urn.query(), None);
    assert_eq!(urn.fragment(), None);
}

#[test]
fn test_urn_with_path() {
    let urn = Urn::from_str("urn:example:complex/path/to/resource").unwrap();
    assert_eq!(urn.nid(), "example");
    assert_eq!(urn.nss(), "complex");
    assert_eq!(urn.path(), Some("path/to/resource"));
    assert_eq!(urn.query(), None);
    assert_eq!(urn.fragment(), None);
}

#[test]
fn test_urn_with_query() {
    let urn = Urn::from_str("urn:example:resource?key1=value1&key2=value2").unwrap();
    assert_eq!(urn.nid(), "example");
    assert_eq!(urn.nss(), "resource");
    assert_eq!(urn.path(), None);
    assert_eq!(urn.query(), Some("key1=value1&key2=value2"));
    assert_eq!(urn.fragment(), None);
}

#[test]
fn test_urn_with_fragment() {
    let urn = Urn::from_str("urn:example:resource#section1").unwrap();
    assert_eq!(urn.nid(), "example");
    assert_eq!(urn.nss(), "resource");
    assert_eq!(urn.path(), None);
    assert_eq!(urn.query(), None);
    assert_eq!(urn.fragment(), Some("section1"));
}

#[test]
fn test_invalid_urn_scheme() {
    assert!(matches!(
        Urn::from_str("http:example:resource"),
        Err(UrnFormatError::UrnSchemeExpected)
    ));
}

#[test]
fn test_invalid_urn_format() {
    assert!(matches!(
        Urn::from_str("urn:invalid"),
        Err(UrnFormatError::InvalidUrn)
    ));
}

#[test]
fn test_invalid_urn_bad_character() {
    assert!(matches!(
        Urn::from_str("urn:exa mple:resource"),
        Err(UrnFormatError::InvalidUrn)
    ));
}

#[test]
fn test_empty_path_after_slash() {
    let urn = Urn::from_str("urn:example:resource/").unwrap();
    assert_eq!(urn.path(), Some(""));
}

#[test]
fn test_builder() {
    let urn = Urn::builder()
        .nid("example")
        .nss("resource")
        .path("path")
        .query("key=value")
        .fragment("section")
        .build()
        .unwrap();

    assert_eq!(urn.to_string(), "urn:example:resource/path?key=value#section");
}

#[test]
fn test_builder_missing_field() {
    let r = Urn::builder().nss("resource").build();
    assert!(r.is_err());
    let r = Urn::builder().nid("example").build();
    assert!(r.is_err());
}

#[test]
fn test_is_valid() {
    let valid_urn = Urn::from_str("urn:example:valid").unwrap();
    assert!(valid_urn.is_valid());

    let invalid_urn = Urn::builder().nid("").nss("invalid").build().unwrap();
    assert!(!invalid_urn.is_valid());
}

#[test]
fn test_to_url() {
    let urn = Urn::from_str("urn:example:resource?query=value#fragment").unwrap();
    let url = urn.to_url().unwrap();
    assert_eq!(url.as_str(), "urn:example:resource?query=value#fragment");
}

#[test]
fn test_equals() {
    let urn1 = Urn::from_str("urn:EXAMPLE:resource").unwrap();
    let urn2 = Urn::from_str("urn:example:resource").unwrap();
    let urn3 = Urn::from_str("urn:example:different").unwrap();

    assert!(urn1.equals(&urn2));
    assert!(!urn1.equals(&urn3));
}

#[test]
fn test_normalize() {
    let urn = Urn::from_str("urn:EXAMPLE:resource").unwrap();
    let normalized = urn.normalize();
    assert_eq!(normalized.nid(), "example");
}

#[test]
fn test_with_query() {
    let urn = Urn::from_str("urn:example:resource").unwrap();
    let with_query = urn.with_query(Some("key=value"));
    assert_eq!(with_query.query(), Some("key=value"));
}

#[test]
fn test_with_fragment() {
    let urn = Urn::from_str("urn:example:resource").unwrap();
    let with_fragment = urn.with_fragment(Some("section1"));
    assert_eq!(with_fragment.fragment(), Some("section1"));
}

#[test]
fn test_without_query() {
    let urn = Urn::from_str("urn:example:resource?key=value").unwrap();
    let without_query = urn.without_query();
    assert_eq!(without_query.query(), None);
}

#[test]
fn test_without_fragment() {
    let urn = Urn::from_str("urn:example:resource#section1").unwrap();
    let without_fragment = urn.without_fragment();
    assert_eq!(without_fragment.fragment(), None);
}

#[test]
fn test_parse_query() {
    let urn = Urn::from_str("urn:example:resource?key1=value1&key2=value2").unwrap();
    let query_map = urn.parse_query().unwrap();
    assert_eq!(query_map.get("key1"), Some(&"value1".to_string()));
    assert_eq!(query_map.get("key2"), Some(&"value2".to_string()));
}

#[test]
fn test_normalize_idempotent() {
    let urn = Urn::from_str("urn:EXAMPLE:resource").unwrap();
    let normalized = urn.normalize();
    assert_eq!(normalized.normalize(), normalized);
}

#[test]
fn test_urn_equality_operator() {
    let urn1 = Urn::from_str("urn:example:resource?q=1#f").unwrap();
    let urn2 = Urn::from_str("urn:example:resource?q=1#f").unwrap();
    let urn3 = Urn::from_str("urn:example:resource?q=2#f").unwrap();
    assert_eq!(urn1, urn2);
    assert_ne!(urn1, urn3);
}

#[test]
fn test_is_lexically_equivalent() {
    let urn1 = Urn::from_str("urn:EXAMPLE:resource").unwrap();
    let urn2 = Urn::from_str("urn:example:resource").unwrap();
    let urn3 = Urn::from_str("urn:example:resource?query=value#fragment").unwrap();
    let urn4 = Urn::from_str("urn:example:different").unwrap();

    assert!(urn1.is_lexically_equivalent(&urn2));
    assert!(urn1.is_lexically_equivalent(&urn3)); // query and fragment don't affect lexical equivalence
    assert!(!urn1.is_lexically_equivalent(&urn4));
}
