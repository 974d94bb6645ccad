//! Tests for the DID, handle and identifier sum-type grammars.

use rpds_core::at_identifier::{AtIdentifier, AtIdentifierParseError};
use rpds_core::did::{validate_did, Did, DidParseError};
use rpds_core::handle::{validate_handle, Handle};

#[test]
fn did_with_empty_last_component() {
    assert!(!validate_did(b"did:example:test:"));
}

#[test]
fn did_with_consecutive_colons() {
    // A colon is a legal identifier byte, so consecutive colons inside the
    // identifier part are accepted; only a trailing colon is rejected.
    assert!(validate_did(b"did:example::::test"));
}

#[test]
fn basic_did() {
    assert!(validate_did(b"did:example:test:awdac:sdfsdfw"));
}

#[test]
fn did_rejects_bad_prefix_and_method() {
    assert!(!validate_did(b""));
    assert!(!validate_did(b"did"));
    assert!(!validate_did(b"did:"));
    assert!(!validate_did(b"dad:example:test"));
    assert!(!validate_did(b"did:example"));
    assert!(!validate_did(b"did::test"));
    assert!(!validate_did(b"did:EXAMPLE:test"));
    assert!(!validate_did(b"did:exa_mple:test"));
}

#[test]
fn did_percent_escapes() {
    assert!(validate_did(b"did:example:ab%4Fcd"));
    assert!(validate_did(b"did:web:example.com%3A8080"));
    assert!(!validate_did(b"did:example:ab%4"));
    assert!(!validate_did(b"did:example:ab%4g"));
    assert!(!validate_did(b"did:example:ab%"));
    assert!(!validate_did(b"did:example:ab cd"));
}

#[test]
fn did_round_trip_values() {
    let d = Did::new("did:example:test".to_string()).unwrap();
    assert_eq!(d.as_str(), "did:example:test");
    let d2 = Did::new(d.as_str().to_string()).unwrap();
    assert!(d == d2);
    assert_eq!(Did::new("did:example:test:".to_string()).unwrap_err(), DidParseError);
}

#[test]
fn handle_labels() {
    assert!(validate_handle(b"a.b.co"));
    assert!(validate_handle(b"alice.example.com"));
    assert!(validate_handle(b"localhost"));
    assert!(validate_handle(b"xn--ls8h.example"));
    assert!(!validate_handle(b"1abc.com"));
    assert!(!validate_handle(b"Example.com"));
    assert!(!validate_handle(b"example.1com"));
    assert!(!validate_handle(b"a-.example"));
    assert!(!validate_handle(b".example"));
    assert!(!validate_handle(b"example."));
    assert!(!validate_handle(b"a..example"));
    assert!(!validate_handle(b""));
}

#[test]
fn handle_length_limits() {
    let exact = "a".repeat(253);
    assert!(validate_handle(exact.as_bytes()));
    let long = "a".repeat(254);
    assert!(!validate_handle(long.as_bytes()));
    let label64 = format!("{}.com", "a".repeat(64));
    assert!(!validate_handle(label64.as_bytes()));
    let label63 = format!("{}.com", "a".repeat(63));
    assert!(validate_handle(label63.as_bytes()));
    // The final label has no 63-byte cap of its own, only the total cap.
    let tld100 = format!("a.{}", "b".repeat(100));
    assert!(validate_handle(tld100.as_bytes()));
}

#[test]
fn handle_round_trip_values() {
    let h = Handle::new("alice.example.com".to_string()).unwrap();
    assert_eq!(h.as_str(), "alice.example.com");
    let h2 = Handle::new(h.as_str().to_string()).unwrap();
    assert!(h == h2);
    assert!(Handle::new("alice..example".to_string()).is_err());
}

#[test]
fn at_identifier_branches() {
    let id = AtIdentifier::new("did:example:123".to_string()).unwrap();
    assert!(matches!(id, AtIdentifier::Did(_)));
    assert_eq!(id.as_str(), "did:example:123");

    let id = AtIdentifier::new("alice.example.com".to_string()).unwrap();
    assert!(matches!(id, AtIdentifier::Handle(_)));
    assert_eq!(id.as_str(), "alice.example.com");

    // A string with the `did:` prefix is only ever tried as a DID.
    assert_eq!(
        AtIdentifier::new("did:example:test:".to_string()).unwrap_err(),
        AtIdentifierParseError::Did(DidParseError)
    );
    assert!(matches!(
        AtIdentifier::new("not a handle".to_string()).unwrap_err(),
        AtIdentifierParseError::Handle(_)
    ));
}

#[test]
fn at_identifier_round_trip_values() {
    let id = AtIdentifier::new("alice.example.com".to_string()).unwrap();
    let id2 = AtIdentifier::new(id.as_str().to_string()).unwrap();
    assert!(id == id2);
    let did = AtIdentifier::new("did:example:123".to_string()).unwrap();
    assert!(!(id == did));
}
