//! Tests for the `at://` URI grammar and part accessors.

use rpds_core::at_uri::{validate_at_uri, AtUri};

#[test]
fn authority_only_did() {
    let uri = AtUri::new("at://did:example:123".to_string()).unwrap();
    assert_eq!(uri.authority_str(), "did:example:123");
    assert_eq!(uri.path(), "");
    assert_eq!(uri.query(), "");
    assert_eq!(uri.fragment(), "");
}

#[test]
fn authority_and_path() {
    let uri = AtUri::new("at://did:example:123/hello".to_string()).unwrap();
    assert_eq!(uri.authority_str(), "did:example:123");
    assert_eq!(uri.path(), "/hello");
    assert_eq!(uri.query(), "");
    assert_eq!(uri.fragment(), "");
}

#[test]
fn authority_and_empty_path() {
    let uri = AtUri::new("at://did:example:123/".to_string()).unwrap();
    assert_eq!(uri.authority_str(), "did:example:123");
    assert_eq!(uri.path(), "/");
    assert_eq!(uri.query(), "");
    assert_eq!(uri.fragment(), "");
}

#[test]
fn all_parts() {
    let uri = AtUri::new("at://did:example:123/hello?query#fragment".to_string()).unwrap();
    assert_eq!(uri.authority_str(), "did:example:123");
    assert_eq!(uri.path(), "/hello");
    assert_eq!(uri.query(), "query");
    assert_eq!(uri.fragment(), "fragment");
}

#[test]
fn all_parts_no_query() {
    let uri = AtUri::new("at://did:example:123/hello#fragment".to_string()).unwrap();
    assert_eq!(uri.authority_str(), "did:example:123");
    assert_eq!(uri.path(), "/hello");
    assert_eq!(uri.query(), "");
    assert_eq!(uri.fragment(), "fragment");
}

#[test]
fn long_path() {
    let uri = AtUri::new("at://did:example:123/test/test/test/".to_string()).unwrap();
    assert_eq!(uri.authority_str(), "did:example:123");
    assert_eq!(uri.path(), "/test/test/test/");
    assert_eq!(uri.query(), "");
    assert_eq!(uri.fragment(), "");
}

#[test]
fn long_path_no_slash_terminator() {
    let uri = AtUri::new("at://did:example:123/test/test/test".to_string()).unwrap();
    assert_eq!(uri.authority_str(), "did:example:123");
    assert_eq!(uri.path(), "/test/test/test");
    assert_eq!(uri.query(), "");
    assert_eq!(uri.fragment(), "");
}

#[test]
fn handle_authority() {
    let uri = AtUri::new("at://alice.example.com/app.bsky.feed.post/abc123".to_string()).unwrap();
    assert_eq!(uri.authority_str(), "alice.example.com");
    assert_eq!(uri.path(), "/app.bsky.feed.post/abc123");
}

#[test]
fn query_without_fragment() {
    let uri = AtUri::new("at://did:example:123/a?b".to_string()).unwrap();
    assert_eq!(uri.query(), "b");
    assert_eq!(uri.fragment(), "");
}

#[test]
fn fragment_without_path() {
    let uri = AtUri::new("at://did:example:123#frag".to_string()).unwrap();
    assert_eq!(uri.path(), "");
    assert_eq!(uri.query(), "");
    assert_eq!(uri.fragment(), "frag");
}

#[test]
fn rejects_bad_uris() {
    assert!(!validate_at_uri(b""));
    assert!(!validate_at_uri(b"at:/did:example:123"));
    assert!(!validate_at_uri(b"at://"));
    assert!(!validate_at_uri(b"at://not a handle"));
    assert!(!validate_at_uri(b"at://did:example:123/sp ace"));
    assert!(!validate_at_uri(b"at://did:example:123?a=b"));
    assert!(!validate_at_uri(b"at://did:example:123#a#b"));
    assert!(validate_at_uri(b"at://did:example:123?ab"));
}

#[test]
fn rejects_oversized_uri() {
    // "at://did:example:123/" is 21 bytes; pad the path to the exact limit.
    let fits = format!("at://did:example:123/{}", "a".repeat(8191 - 21));
    assert_eq!(fits.len(), 8191);
    assert!(validate_at_uri(fits.as_bytes()));
    let long = format!("at://did:example:123/{}", "a".repeat(8192 - 21));
    assert!(!validate_at_uri(long.as_bytes()));
}

#[test]
fn at_uri_round_trip_values() {
    let uri = AtUri::new("at://did:example:123/hello?query#fragment".to_string()).unwrap();
    assert_eq!(uri.as_str(), "at://did:example:123/hello?query#fragment");
    let uri2 = AtUri::new(uri.as_str().to_string()).unwrap();
    assert!(uri == uri2);
    assert_eq!(uri2.authority_str(), uri.authority_str());
    assert_eq!(uri2.path(), uri.path());
    assert_eq!(uri2.query(), uri.query());
    assert_eq!(uri2.fragment(), uri.fragment());
}
