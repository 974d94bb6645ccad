//! Tests for the error envelope, the router and the query extraction.

use rpds_core::error::{result_into_response, XrpcError};
use rpds_core::query::QueryInput;
use rpds_core::router::{
    accept_body, handle_request, lookup_method, split_uri_path, BodyStep, HttpVerb, MethodGet,
    MethodPost, XrpcMethod, XrpcStep,
};

#[test]
fn error_envelope_wire_shape() {
    let resp = XrpcError::invalid_request("boom".to_string()).to_response();
    assert_eq!(resp.status, 400);
    assert_eq!(resp.content_type.as_deref(), Some("application/json"));
    assert_eq!(resp.body, "{\"error\":\"invalid_request\",\"message\":\"boom\"}");

    let resp = XrpcError::not_found("nope".to_string()).to_response();
    assert_eq!(resp.status, 404);
    assert_eq!(resp.body, "{\"error\":\"not_found\",\"message\":\"nope\"}");

    let resp = XrpcError::method_not_allowed("no".to_string()).to_response();
    assert_eq!(resp.status, 405);
    assert_eq!(resp.body, "{\"error\":\"method_not_allowed\",\"message\":\"no\"}");
}

#[test]
fn error_envelope_escapes_message() {
    let resp = XrpcError::invalid_request("a\"b\\c\nd\u{1}e".to_string()).to_response();
    assert_eq!(
        resp.body,
        "{\"error\":\"invalid_request\",\"message\":\"a\\\"b\\\\c\\nd\\u0001e\"}"
    );
}

#[test]
fn dummy_envelope() {
    let resp = XrpcError::dummy().to_response();
    assert_eq!(resp.status, 500);
    assert_eq!(resp.body, "{\"error\":\"\",\"message\":\"\"}");
}

#[test]
fn unit_result_response() {
    let resp = result_into_response(Ok(()));
    assert_eq!(resp.status, 200);
    assert!(resp.content_type.is_none());
    assert_eq!(resp.body, "");

    let resp = result_into_response(Err(XrpcError::invalid_request("x".to_string())));
    assert_eq!(resp.status, 400);
}

#[test]
fn path_splitting() {
    assert_eq!(split_uri_path(b"/xrpc/com.atproto.x"), (&b"/xrpc"[..], &b"/com.atproto.x"[..]));
    assert_eq!(split_uri_path(b"/robots.txt"), (&b"/robots.txt"[..], &b""[..]));
    assert_eq!(split_uri_path(b"/"), (&b"/"[..], &b""[..]));
    assert_eq!(split_uri_path(b""), (&b""[..], &b""[..]));
}

#[test]
fn method_lookup() {
    assert_eq!(
        lookup_method(b"com.atproto.admin.deleteAccount"),
        Some(XrpcMethod::AdminDeleteAccount)
    );
    assert_eq!(
        lookup_method(b"com.atproto.identity.resolveHandle"),
        Some(XrpcMethod::IdentityResolveHandle)
    );
    assert_eq!(lookup_method(b"com.atproto.admin.deleteaccount"), None);
    assert_eq!(lookup_method(b""), None);
}

#[test]
fn unknown_method_is_not_found() {
    let step = handle_request(
        b"/com.atproto.unknown.method",
        HttpVerb::Get,
        "GET",
        "/xrpc/com.atproto.unknown.method",
        "",
    );
    match step {
        XrpcStep::Reply(resp) => {
            assert_eq!(resp.status, 404);
            assert_eq!(resp.body, "{\"error\":\"not_found\",\"message\":\"unknown XRPC method\"}");
        }
        _ => panic!("expected a reply"),
    }
}

#[test]
fn wrong_verb_is_method_not_allowed() {
    let step = handle_request(
        b"/com.atproto.admin.deleteAccount",
        HttpVerb::Get,
        "GET",
        "/xrpc/com.atproto.admin.deleteAccount",
        "",
    );
    match step {
        XrpcStep::Reply(resp) => {
            assert_eq!(resp.status, 405);
            assert_eq!(
                resp.body,
                "{\"error\":\"method_not_allowed\",\"message\":\"Method `GET` for \
                 `/xrpc/com.atproto.admin.deleteAccount` is not allowed\"}"
            );
        }
        _ => panic!("expected a reply"),
    }
}

#[test]
fn body_method_asks_for_body() {
    let step = handle_request(
        b"/com.atproto.admin.deleteAccount",
        HttpVerb::Post,
        "POST",
        "/xrpc/com.atproto.admin.deleteAccount",
        "",
    );
    assert!(matches!(step, XrpcStep::ReadBody(XrpcMethod::AdminDeleteAccount)));
}

#[test]
fn bodyless_method_invokes_directly() {
    let step = handle_request(
        b"/com.atproto.identity.requestPlcOperationSignature",
        HttpVerb::Post,
        "POST",
        "/xrpc/com.atproto.identity.requestPlcOperationSignature",
        "",
    );
    assert!(matches!(
        step,
        XrpcStep::Invoke(XrpcMethod::IdentityRequestPlcOperationSignature, None)
    ));
}

#[test]
fn resolve_handle_extracts_query() {
    let step = handle_request(
        b"/com.atproto.identity.resolveHandle",
        HttpVerb::Get,
        "GET",
        "/xrpc/com.atproto.identity.resolveHandle",
        "handle=alice%2Eexample%2Ecom",
    );
    match step {
        XrpcStep::Invoke(XrpcMethod::IdentityResolveHandle, Some(
            QueryInput::IdentityResolveHandle(inp),
        )) => {
            assert_eq!(inp.handle.as_str(), "alice.example.com");
        }
        _ => panic!("expected an invocation"),
    }
}

#[test]
fn resolve_handle_missing_field() {
    let step = handle_request(
        b"/com.atproto.identity.resolveHandle",
        HttpVerb::Get,
        "GET",
        "/xrpc/com.atproto.identity.resolveHandle",
        "other=x",
    );
    match step {
        XrpcStep::Reply(resp) => {
            assert_eq!(resp.status, 400);
            assert_eq!(
                resp.body,
                "{\"error\":\"invalid_request\",\"message\":\"missing field `handle`\"}"
            );
        }
        _ => panic!("expected a reply"),
    }
}

#[test]
fn resolve_handle_invalid_field() {
    let step = handle_request(
        b"/com.atproto.identity.resolveHandle",
        HttpVerb::Get,
        "GET",
        "/xrpc/com.atproto.identity.resolveHandle",
        "handle=..",
    );
    match step {
        XrpcStep::Reply(resp) => {
            assert_eq!(resp.status, 400);
            assert_eq!(resp.body, "{\"error\":\"invalid_request\",\"message\":\"invalid handle\"}");
        }
        _ => panic!("expected a reply"),
    }
}

#[test]
fn get_account_info_extracts_did() {
    let step = handle_request(
        b"/com.atproto.admin.getAccountInfo",
        HttpVerb::Get,
        "GET",
        "/xrpc/com.atproto.admin.getAccountInfo",
        "did=did%3Aexample%3A123",
    );
    match step {
        XrpcStep::Invoke(XrpcMethod::AdminGetAccountInfo, Some(
            QueryInput::AdminGetAccountInfo(inp),
        )) => {
            assert_eq!(inp.did.as_str(), "did:example:123");
        }
        _ => panic!("expected an invocation"),
    }
}

#[test]
fn get_account_infos_collects_dids() {
    let step = handle_request(
        b"/com.atproto.admin.getAccountInfos",
        HttpVerb::Get,
        "GET",
        "/xrpc/com.atproto.admin.getAccountInfos",
        "dids=did:example:1&dids=did:example:2",
    );
    match step {
        XrpcStep::Invoke(XrpcMethod::AdminGetAccountInfos, Some(
            QueryInput::AdminGetAccountInfos(inp),
        )) => {
            assert_eq!(inp.dids.len(), 2);
            assert_eq!(inp.dids[0].as_str(), "did:example:1");
            assert_eq!(inp.dids[1].as_str(), "did:example:2");
        }
        _ => panic!("expected an invocation"),
    }

    let step = handle_request(
        b"/com.atproto.admin.getAccountInfos",
        HttpVerb::Get,
        "GET",
        "/xrpc/com.atproto.admin.getAccountInfos",
        "dids=did:example:1&dids=oops",
    );
    match step {
        XrpcStep::Reply(resp) => assert_eq!(resp.status, 400),
        _ => panic!("expected a reply"),
    }
}

#[test]
fn get_invite_codes_defaults_and_limits() {
    let run = |query: &str| {
        handle_request(
            b"/com.atproto.admin.getInviteCodes",
            HttpVerb::Get,
            "GET",
            "/xrpc/com.atproto.admin.getInviteCodes",
            query,
        )
    };

    match run("") {
        XrpcStep::Invoke(_, Some(QueryInput::AdminGetInviteCodes(inp))) => {
            assert_eq!(inp.limit, 100);
            assert_eq!(inp.sort, "");
            assert!(inp.cursor.is_none());
        }
        _ => panic!("expected an invocation"),
    }

    match run("limit=250&cursor=abc&sort=usage") {
        XrpcStep::Invoke(_, Some(QueryInput::AdminGetInviteCodes(inp))) => {
            assert_eq!(inp.limit, 250);
            assert_eq!(inp.sort, "usage");
            assert_eq!(inp.cursor.as_deref(), Some("abc"));
        }
        _ => panic!("expected an invocation"),
    }

    match run("limit=4294967295") {
        XrpcStep::Invoke(_, Some(QueryInput::AdminGetInviteCodes(inp))) => {
            assert_eq!(inp.limit, u32::MAX);
        }
        _ => panic!("expected an invocation"),
    }

    for bad in ["limit=12x", "limit=", "limit=4294967296", "limit=-1"] {
        match run(bad) {
            XrpcStep::Reply(resp) => {
                assert_eq!(resp.status, 400);
                assert_eq!(
                    resp.body,
                    "{\"error\":\"invalid_request\",\"message\":\"invalid limit\"}"
                );
            }
            _ => panic!("expected a reply"),
        }
    }
}

#[test]
fn get_subject_status_optional_fields() {
    let step = handle_request(
        b"/com.atproto.admin.getSubjectStatus",
        HttpVerb::Get,
        "GET",
        "/xrpc/com.atproto.admin.getSubjectStatus",
        "uri=at://did:example:123/hello",
    );
    match step {
        XrpcStep::Invoke(XrpcMethod::AdminGetSubjectStatus, Some(
            QueryInput::AdminGetSubjectStatus(inp),
        )) => {
            assert!(inp.did.is_none());
            assert_eq!(inp.uri.unwrap().as_str(), "at://did:example:123/hello");
            assert!(inp.blob.is_none());
        }
        _ => panic!("expected an invocation"),
    }

    let step = handle_request(
        b"/com.atproto.admin.getSubjectStatus",
        HttpVerb::Get,
        "GET",
        "/xrpc/com.atproto.admin.getSubjectStatus",
        "did=oops",
    );
    match step {
        XrpcStep::Reply(resp) => assert_eq!(resp.status, 400),
        _ => panic!("expected a reply"),
    }
}

#[test]
fn body_outcomes() {
    match accept_body(XrpcMethod::AdminDeleteAccount, None) {
        BodyStep::Reply(resp) => {
            assert_eq!(resp.status, 500);
            assert_eq!(resp.body, "{\"error\":\"\",\"message\":\"\"}");
        }
        _ => panic!("expected a reply"),
    }

    match accept_body(XrpcMethod::AdminDeleteAccount, Some(b"{}".to_vec())) {
        BodyStep::Decode(XrpcMethod::AdminDeleteAccount, body) => {
            assert_eq!(body, b"{}".to_vec());
        }
        _ => panic!("expected a decode step"),
    }
}

#[test]
fn method_extractors() {
    assert!(MethodPost::from_request_parts(HttpVerb::Post, "POST", "/x").is_ok());
    let e = MethodPost::from_request_parts(HttpVerb::Get, "GET", "/x").unwrap_err();
    assert_eq!(e.status, 405);
    assert_eq!(e.error, "method_not_allowed");
    assert_eq!(e.message, "Method `GET` for `/x` is not allowed");
    assert!(MethodGet::from_request_parts(HttpVerb::Get, "GET", "/x").is_ok());
    assert!(MethodGet::from_request_parts(HttpVerb::Other, "PATCH", "/x").is_err());
}

#[test]
fn not_implemented_envelope() {
    let resp = XrpcError::not_implemented("later".to_string()).to_response();
    assert_eq!(resp.status, 501);
    assert_eq!(resp.body, "{\"error\":\"method_not_implemented\",\"message\":\"later\"}");
}

#[test]
fn search_accounts_extracts_query() {
    let run = |query: &str| {
        handle_request(
            b"/com.atproto.admin.searchAccounts",
            HttpVerb::Get,
            "GET",
            "/xrpc/com.atproto.admin.searchAccounts",
            query,
        )
    };

    match run("email=a%40b.com&limit=25") {
        XrpcStep::Invoke(XrpcMethod::AdminSearchAccounts, Some(
            QueryInput::AdminSearchAccounts(inp),
        )) => {
            assert_eq!(inp.email.as_deref(), Some("a@b.com"));
            assert_eq!(inp.limit, 25);
            assert!(inp.cursor.is_none());
        }
        _ => panic!("expected an invocation"),
    }

    match run("") {
        XrpcStep::Invoke(_, Some(QueryInput::AdminSearchAccounts(inp))) => {
            assert_eq!(inp.limit, 50);
            assert!(inp.email.is_none());
        }
        _ => panic!("expected an invocation"),
    }

    match run("limit=x") {
        XrpcStep::Reply(resp) => {
            assert_eq!(resp.status, 400);
            assert_eq!(resp.body, "{\"error\":\"invalid_request\",\"message\":\"invalid limit\"}");
        }
        _ => panic!("expected a reply"),
    }
}

#[test]
fn update_subject_status_routes() {
    let step = handle_request(
        b"/com.atproto.admin.updateSubjectStatus",
        HttpVerb::Post,
        "POST",
        "/xrpc/com.atproto.admin.updateSubjectStatus",
        "",
    );
    assert!(matches!(step, XrpcStep::Invoke(XrpcMethod::AdminUpdateSubjectStatus, None)));

    let step = handle_request(
        b"/com.atproto.admin.updateSubjectStatus",
        HttpVerb::Get,
        "GET",
        "/xrpc/com.atproto.admin.updateSubjectStatus",
        "",
    );
    match step {
        XrpcStep::Reply(resp) => assert_eq!(resp.status, 405),
        _ => panic!("expected a reply"),
    }
}

#[test]
fn subject_status_error_messages() {
    let run = |query: &str| {
        handle_request(
            b"/com.atproto.admin.getSubjectStatus",
            HttpVerb::Get,
            "GET",
            "/xrpc/com.atproto.admin.getSubjectStatus",
            query,
        )
    };

    match run("did=oops") {
        XrpcStep::Reply(resp) => {
            assert_eq!(resp.status, 400);
            assert_eq!(resp.body, "{\"error\":\"invalid_request\",\"message\":\"invalid DID\"}");
        }
        _ => panic!("expected a reply"),
    }

    match run("did=did:example:1&uri=oops") {
        XrpcStep::Reply(resp) => {
            assert_eq!(resp.status, 400);
            assert_eq!(resp.body, "{\"error\":\"invalid_request\",\"message\":\"invalid at-uri\"}");
        }
        _ => panic!("expected a reply"),
    }
}
