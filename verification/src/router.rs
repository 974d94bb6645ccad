//! Request routing and the per-request pipeline decisions.
//!
//! The router takes the remainder of the request path after the `/xrpc`
//! prefix, strips the leading separator and matches the namespaced method
//! identifier exactly against the closed set of known methods. Unknown
//! methods are answered with a `not_found` envelope; a known method invoked
//! with the wrong HTTP verb is answered with `method_not_allowed` before
//! any handler-specific logic runs. For a known method the pipeline then
//! either extracts the typed query input, asks the caller to read the
//! request body, or asks it to invoke the business logic directly.

use vstd::prelude::*;
use vstd::string::StringSliceAdditionalSpecFns;
use vstd::utf8::encode_utf8;

use crate::bytes::{bytes_eq, scan_byte, seek_byte, SLASH};
use crate::error::{json_error_body, WireResponse, XrpcError};
use crate::query::{
    extract_query_input, form_decodes, form_pairs_of, query_accepts, query_error_message,
    query_input_matches, QueryInput,
};

verus! {

/// The HTTP verb of a request, as far as the router distinguishes verbs.
#[derive(Debug, Clone, Copy, PartialEq, Eq, Structural)]
pub enum HttpVerb {
    /// A GET request.
    Get,
    /// A POST request.
    Post,
    /// Any other verb.
    Other,
}

/// The closed set of protocol methods the router knows.
#[derive(Debug, Clone, Copy, PartialEq, Eq, Structural)]
pub enum XrpcMethod {
    /// `com.atproto.admin.deleteAccount`
    AdminDeleteAccount,
    /// `com.atproto.admin.disableAccountInvites`
    AdminDisableAccountInvites,
    /// `com.atproto.admin.disableInviteCodes`
    AdminDisableInviteCodes,
    /// `com.atproto.admin.enableAccountInvites`
    AdminEnableAccountInvites,
    /// `com.atproto.admin.getAccountInfo`
    AdminGetAccountInfo,
    /// `com.atproto.admin.getAccountInfos`
    AdminGetAccountInfos,
    /// `com.atproto.admin.getInviteCodes`
    AdminGetInviteCodes,
    /// `com.atproto.admin.getSubjectStatus`
    AdminGetSubjectStatus,
    /// `com.atproto.admin.searchAccounts`
    AdminSearchAccounts,
    /// `com.atproto.admin.sendEmail`
    AdminSendEmail,
    /// `com.atproto.admin.updateAccountEmail`
    AdminUpdateAccountEmail,
    /// `com.atproto.admin.updateAccountHandle`
    AdminUpdateAccountHandle,
    /// `com.atproto.admin.updateAccountPassword`
    AdminUpdateAccountPassword,
    /// `com.atproto.admin.updateSubjectStatus`
    AdminUpdateSubjectStatus,
    /// `com.atproto.identity.getRecommendedDidCredentials`
    IdentityGetRecommendedDidCredentials,
    /// `com.atproto.identity.requestPlcOperationSignature`
    IdentityRequestPlcOperationSignature,
    /// `com.atproto.identity.resolveHandle`
    IdentityResolveHandle,
    /// `com.atproto.identity.signPlcOperation`
    IdentitySignPlcOperation,
    /// `com.atproto.identity.submitPlcOperation`
    IdentitySubmitPlcOperation,
    /// `com.atproto.identity.updateHandle`
    IdentityUpdateHandle,
}

/// The method a namespaced identifier resolves to, if any.
pub open spec fn method_of(b: Seq<u8>) -> Option<XrpcMethod> {
    if b == encode_utf8("com.atproto.admin.deleteAccount"@) {
        Some(XrpcMethod::AdminDeleteAccount)
    } else if b == encode_utf8("com.atproto.admin.disableAccountInvites"@) {
        Some(XrpcMethod::AdminDisableAccountInvites)
    } else if b == encode_utf8("com.atproto.admin.disableInviteCodes"@) {
        Some(XrpcMethod::AdminDisableInviteCodes)
    } else if b == encode_utf8("com.atproto.admin.enableAccountInvites"@) {
        Some(XrpcMethod::AdminEnableAccountInvites)
    } else if b == encode_utf8("com.atproto.admin.getAccountInfo"@) {
        Some(XrpcMethod::AdminGetAccountInfo)
    } else if b == encode_utf8("com.atproto.admin.getAccountInfos"@) {
        Some(XrpcMethod::AdminGetAccountInfos)
    } else if b == encode_utf8("com.atproto.admin.getInviteCodes"@) {
        Some(XrpcMethod::AdminGetInviteCodes)
    } else if b == encode_utf8("com.atproto.admin.getSubjectStatus"@) {
        Some(XrpcMethod::AdminGetSubjectStatus)
    } else if b == encode_utf8("com.atproto.admin.searchAccounts"@) {
        Some(XrpcMethod::AdminSearchAccounts)
    } else if b == encode_utf8("com.atproto.admin.sendEmail"@) {
        Some(XrpcMethod::AdminSendEmail)
    } else if b == encode_utf8("com.atproto.admin.updateAccountEmail"@) {
        Some(XrpcMethod::AdminUpdateAccountEmail)
    } else if b == encode_utf8("com.atproto.admin.updateAccountHandle"@) {
        Some(XrpcMethod::AdminUpdateAccountHandle)
    } else if b == encode_utf8("com.atproto.admin.updateAccountPassword"@) {
        Some(XrpcMethod::AdminUpdateAccountPassword)
    } else if b == encode_utf8("com.atproto.admin.updateSubjectStatus"@) {
        Some(XrpcMethod::AdminUpdateSubjectStatus)
    } else if b == encode_utf8("com.atproto.identity.getRecommendedDidCredentials"@) {
        Some(XrpcMethod::IdentityGetRecommendedDidCredentials)
    } else if b == encode_utf8("com.atproto.identity.requestPlcOperationSignature"@) {
        Some(XrpcMethod::IdentityRequestPlcOperationSignature)
    } else if b == encode_utf8("com.atproto.identity.resolveHandle"@) {
        Some(XrpcMethod::IdentityResolveHandle)
    } else if b == encode_utf8("com.atproto.identity.signPlcOperation"@) {
        Some(XrpcMethod::IdentitySignPlcOperation)
    } else if b == encode_utf8("com.atproto.identity.submitPlcOperation"@) {
        Some(XrpcMethod::IdentitySubmitPlcOperation)
    } else if b == encode_utf8("com.atproto.identity.updateHandle"@) {
        Some(XrpcMethod::IdentityUpdateHandle)
    } else {
        None
    }
}

/// Resolves a namespaced method identifier to a known method.
pub fn lookup_method(nsid: &[u8]) -> (r: Option<XrpcMethod>)
    ensures
        r == method_of(nsid@),
{
    if bytes_eq(nsid, "com.atproto.admin.deleteAccount".as_bytes()) {
        Some(XrpcMethod::AdminDeleteAccount)
    } else if bytes_eq(nsid, "com.atproto.admin.disableAccountInvites".as_bytes()) {
        Some(XrpcMethod::AdminDisableAccountInvites)
    } else if bytes_eq(nsid, "com.atproto.admin.disableInviteCodes".as_bytes()) {
        Some(XrpcMethod::AdminDisableInviteCodes)
    } else if bytes_eq(nsid, "com.atproto.admin.enableAccountInvites".as_bytes()) {
        Some(XrpcMethod::AdminEnableAccountInvites)
    } else if bytes_eq(nsid, "com.atproto.admin.getAccountInfo".as_bytes()) {
        Some(XrpcMethod::AdminGetAccountInfo)
    } else if bytes_eq(nsid, "com.atproto.admin.getAccountInfos".as_bytes()) {
        Some(XrpcMethod::AdminGetAccountInfos)
    } else if bytes_eq(nsid, "com.atproto.admin.getInviteCodes".as_bytes()) {
        Some(XrpcMethod::AdminGetInviteCodes)
    } else if bytes_eq(nsid, "com.atproto.admin.getSubjectStatus".as_bytes()) {
        Some(XrpcMethod::AdminGetSubjectStatus)
    } else if bytes_eq(nsid, "com.atproto.admin.searchAccounts".as_bytes()) {
        Some(XrpcMethod::AdminSearchAccounts)
    } else if bytes_eq(nsid, "com.atproto.admin.sendEmail".as_bytes()) {
        Some(XrpcMethod::AdminSendEmail)
    } else if bytes_eq(nsid, "com.atproto.admin.updateAccountEmail".as_bytes()) {
        Some(XrpcMethod::AdminUpdateAccountEmail)
    } else if bytes_eq(nsid, "com.atproto.admin.updateAccountHandle".as_bytes()) {
        Some(XrpcMethod::AdminUpdateAccountHandle)
    } else if bytes_eq(nsid, "com.atproto.admin.updateAccountPassword".as_bytes()) {
        Some(XrpcMethod::AdminUpdateAccountPassword)
    } else if bytes_eq(nsid, "com.atproto.admin.updateSubjectStatus".as_bytes()) {
        Some(XrpcMethod::AdminUpdateSubjectStatus)
    } else if bytes_eq(nsid, "com.atproto.identity.getRecommendedDidCredentials".as_bytes()) {
        Some(XrpcMethod::IdentityGetRecommendedDidCredentials)
    } else if bytes_eq(nsid, "com.atproto.identity.requestPlcOperationSignature".as_bytes()) {
        Some(XrpcMethod::IdentityRequestPlcOperationSignature)
    } else if bytes_eq(nsid, "com.atproto.identity.resolveHandle".as_bytes()) {
        Some(XrpcMethod::IdentityResolveHandle)
    } else if bytes_eq(nsid, "com.atproto.identity.signPlcOperation".as_bytes()) {
        Some(XrpcMethod::IdentitySignPlcOperation)
    } else if bytes_eq(nsid, "com.atproto.identity.submitPlcOperation".as_bytes()) {
        Some(XrpcMethod::IdentitySubmitPlcOperation)
    } else if bytes_eq(nsid, "com.atproto.identity.updateHandle".as_bytes()) {
        Some(XrpcMethod::IdentityUpdateHandle)
    } else {
        None
    }
}

/// The HTTP verb a method must be invoked with.
pub open spec fn method_verb(m: XrpcMethod) -> HttpVerb {
    match m {
        XrpcMethod::AdminGetAccountInfo => HttpVerb::Get,
        XrpcMethod::AdminGetAccountInfos => HttpVerb::Get,
        XrpcMethod::AdminGetInviteCodes => HttpVerb::Get,
        XrpcMethod::AdminGetSubjectStatus => HttpVerb::Get,
        XrpcMethod::AdminSearchAccounts => HttpVerb::Get,
        XrpcMethod::IdentityGetRecommendedDidCredentials => HttpVerb::Get,
        XrpcMethod::IdentityResolveHandle => HttpVerb::Get,
        _ => HttpVerb::Post,
    }
}

/// Returns the HTTP verb the given method must be invoked with.
pub fn required_verb(m: XrpcMethod) -> (v: HttpVerb)
    ensures
        v == method_verb(m),
{
    match m {
        XrpcMethod::AdminGetAccountInfo => HttpVerb::Get,
        XrpcMethod::AdminGetAccountInfos => HttpVerb::Get,
        XrpcMethod::AdminGetInviteCodes => HttpVerb::Get,
        XrpcMethod::AdminGetSubjectStatus => HttpVerb::Get,
        XrpcMethod::AdminSearchAccounts => HttpVerb::Get,
        XrpcMethod::IdentityGetRecommendedDidCredentials => HttpVerb::Get,
        XrpcMethod::IdentityResolveHandle => HttpVerb::Get,
        _ => HttpVerb::Post,
    }
}

/// How a method receives its input: not at all, from the query string, or
/// from the request body.
#[derive(Debug, Clone, Copy, PartialEq, Eq, Structural)]
pub enum InputShape {
    /// The method takes no input.
    NoInput,
    /// The method decodes its input from the query string.
    QueryInput,
    /// The method consumes the request body.
    JsonBody,
}

/// The input shape of each method.
pub open spec fn method_input(m: XrpcMethod) -> InputShape {
    match m {
        XrpcMethod::AdminGetAccountInfo => InputShape::QueryInput,
        XrpcMethod::AdminGetAccountInfos => InputShape::QueryInput,
        XrpcMethod::AdminGetInviteCodes => InputShape::QueryInput,
        XrpcMethod::AdminGetSubjectStatus => InputShape::QueryInput,
        XrpcMethod::AdminSearchAccounts => InputShape::QueryInput,
        XrpcMethod::IdentityResolveHandle => InputShape::QueryInput,
        XrpcMethod::IdentityGetRecommendedDidCredentials => InputShape::NoInput,
        XrpcMethod::IdentityRequestPlcOperationSignature => InputShape::NoInput,
        XrpcMethod::AdminUpdateSubjectStatus => InputShape::NoInput,
        _ => InputShape::JsonBody,
    }
}

/// Returns the input shape of the given method.
pub fn input_shape(m: XrpcMethod) -> (r: InputShape)
    ensures
        r == method_input(m),
{
    match m {
        XrpcMethod::AdminGetAccountInfo => InputShape::QueryInput,
        XrpcMethod::AdminGetAccountInfos => InputShape::QueryInput,
        XrpcMethod::AdminGetInviteCodes => InputShape::QueryInput,
        XrpcMethod::AdminGetSubjectStatus => InputShape::QueryInput,
        XrpcMethod::AdminSearchAccounts => InputShape::QueryInput,
        XrpcMethod::IdentityResolveHandle => InputShape::QueryInput,
        XrpcMethod::IdentityGetRecommendedDidCredentials => InputShape::NoInput,
        XrpcMethod::IdentityRequestPlcOperationSignature => InputShape::NoInput,
        XrpcMethod::AdminUpdateSubjectStatus => InputShape::NoInput,
        _ => InputShape::JsonBody,
    }
}

/// Where a URI path splits into its first segment and the rest: the index
/// of the second `/`, or the end when there is none.
pub open spec fn split_index_of(p: Seq<u8>) -> int {
    let idx = seek_byte(p, 1, SLASH);
    if idx < p.len() {
        idx
    } else {
        p.len() as int
    }
}

/// Splits the provided URI path into its first segment (with its leading
/// `/`) and the remaining path (with its leading `/`, or empty).
pub fn split_uri_path(path: &[u8]) -> (r: (&[u8], &[u8]))
    ensures
        r.0@ == path@.subrange(0, split_index_of(path@)),
        r.1@ == path@.subrange(split_index_of(path@), path@.len() as int),
{
    if path.len() == 0 {
        let r = path.split_at(0);
        return r;
    }
    let idx = scan_byte(path, 1, SLASH);
    proof {
        crate::bytes::lemma_seek3(path@, 1, SLASH, SLASH, SLASH);
    }
    let s = if idx < path.len() {
        idx
    } else {
        path.len()
    };
    path.split_at(s)
}

/// The namespaced method identifier in the path remainder: the first
/// segment with its leading separator stripped.
pub open spec fn nsid_of(rest: Seq<u8>) -> Seq<u8> {
    let first = rest.subrange(0, split_index_of(rest));
    if first.len() >= 1 {
        first.subrange(1, first.len() as int)
    } else {
        first
    }
}

/// The message of the envelope answering a request whose verb the method
/// does not allow.
pub open spec fn mna_message(method_text: Seq<char>, uri_text: Seq<char>) -> Seq<char> {
    "Method `"@ + method_text + "` for `"@ + uri_text + "` is not allowed"@
}

/// Creates the error answering a request whose verb the method does not
/// allow.
fn method_not_allowed(method_text: &str, uri_text: &str) -> (e: XrpcError)
    ensures
        e.status == 405,
        e.error@ == "method_not_allowed"@,
        e.message@ == mna_message(method_text@, uri_text@),
{
    let mut msg = String::from_str("Method `");
    msg.append(method_text);
    msg.append("` for `");
    msg.append(uri_text);
    msg.append("` is not allowed");
    proof {
        assert(msg@ =~= mna_message(method_text@, uri_text@));
    }
    XrpcError::method_not_allowed(msg)
}

/// The metadata extractor that ensures the request method is `POST`.
#[derive(Debug, Clone, Copy, PartialEq, Eq, Structural)]
pub struct MethodPost;

impl MethodPost {
    /// Extracts the marker from the request metadata: succeeds exactly when
    /// the verb is `POST`, and fails with the `method_not_allowed` envelope
    /// otherwise.
    pub fn from_request_parts(verb: HttpVerb, method_text: &str, uri_text: &str) -> (r: Result<
        MethodPost,
        XrpcError,
    >)
        ensures
            r is Ok <==> verb == HttpVerb::Post,
            r matches Err(e) ==> e.status == 405 && e.error@ == "method_not_allowed"@
                && e.message@ == mna_message(method_text@, uri_text@),
    {
        if verb == HttpVerb::Post {
            Ok(MethodPost)
        } else {
            Err(method_not_allowed(method_text, uri_text))
        }
    }
}

/// The metadata extractor that ensures the request method is `GET`.
#[derive(Debug, Clone, Copy, PartialEq, Eq, Structural)]
pub struct MethodGet;

impl MethodGet {
    /// Extracts the marker from the request metadata: succeeds exactly when
    /// the verb is `GET`, and fails with the `method_not_allowed` envelope
    /// otherwise.
    pub fn from_request_parts(verb: HttpVerb, method_text: &str, uri_text: &str) -> (r: Result<
        MethodGet,
        XrpcError,
    >)
        ensures
            r is Ok <==> verb == HttpVerb::Get,
            r matches Err(e) ==> e.status == 405 && e.error@ == "method_not_allowed"@
                && e.message@ == mna_message(method_text@, uri_text@),
    {
        if verb == HttpVerb::Get {
            Ok(MethodGet)
        } else {
            Err(method_not_allowed(method_text, uri_text))
        }
    }
}

/// What the caller must do next with a request the router has examined.
pub enum XrpcStep {
    /// The response is decided; send it.
    Reply(WireResponse),
    /// Metadata extraction passed and the method consumes the body: read
    /// it, then continue with [`accept_body`].
    ReadBody(XrpcMethod),
    /// Metadata extraction passed: invoke the method's business logic with
    /// the extracted input.
    Invoke(XrpcMethod, Option<QueryInput>),
}

/// Routes an XRPC request. `rest` is the request path after the `/xrpc`
/// prefix; `method_text` and `uri_text` name the request's verb and URI in
/// the `method_not_allowed` message; `query` is the raw query string.
pub fn handle_request(
    rest: &[u8],
    verb: HttpVerb,
    method_text: &str,
    uri_text: &str,
    query: &str,
) -> (r: XrpcStep)
    ensures
        ({
            let nsid = nsid_of(rest@);
            match method_of(nsid) {
                None => r matches XrpcStep::Reply(resp) && resp.status == 404 && (
                resp.content_type matches Some(ct) && ct@ == "application/json"@) && resp.body@
                    == json_error_body("not_found"@, "unknown XRPC method"@),
                Some(m) => {
                    if verb != method_verb(m) {
                        r matches XrpcStep::Reply(resp) && resp.status == 405 && (
                        resp.content_type matches Some(ct) && ct@ == "application/json"@)
                            && resp.body@ == json_error_body(
                            "method_not_allowed"@,
                            mna_message(method_text@, uri_text@),
                        )
                    } else {
                        match method_input(m) {
                            InputShape::JsonBody => r matches XrpcStep::ReadBody(m2) && m2 == m,
                            InputShape::NoInput => r matches XrpcStep::Invoke(m2, oi) && m2 == m
                                && oi is None,
                            InputShape::QueryInput => {
                                &&& (r is Invoke <==> form_decodes(query@) && query_accepts(
                                    m,
                                    form_pairs_of(query@),
                                ))
                                &&& (r matches XrpcStep::Invoke(m2, oi) ==> m2 == m && (
                                oi matches Some(inp) && query_input_matches(
                                    m,
                                    form_pairs_of(query@),
                                    inp,
                                )))
                                &&& (r matches XrpcStep::Reply(resp) ==> resp.status == 400 && (
                                resp.content_type matches Some(ct) && ct@ == "application/json"@)
                                    && resp.body@ == json_error_body(
                                    "invalid_request"@,
                                    if !form_decodes(query@) {
                                        "malformed query string"@
                                    } else {
                                        query_error_message(m, form_pairs_of(query@))
                                    },
                                ))
                                &&& !(r is ReadBody)
                            },
                        }
                    }
                },
            }
        }),
{
    let (first, _) = split_uri_path(rest);
    let nsid = if first.len() >= 1 {
        let (_, tail) = first.split_at(1);
        tail
    } else {
        first
    };

    let m = match lookup_method(nsid) {
        Some(m) => m,
        None => {
            let e = XrpcError::not_found(String::from_str("unknown XRPC method"));
            return XrpcStep::Reply(e.to_response());
        },
    };

    let verb_check = match required_verb(m) {
        HttpVerb::Post => match MethodPost::from_request_parts(verb, method_text, uri_text) {
            Ok(_) => Ok(()),
            Err(e) => Err(e),
        },
        _ => match MethodGet::from_request_parts(verb, method_text, uri_text) {
            Ok(_) => Ok(()),
            Err(e) => Err(e),
        },
    };
    if let Err(e) = verb_check {
        return XrpcStep::Reply(e.to_response());
    }

    match input_shape(m) {
        InputShape::JsonBody => XrpcStep::ReadBody(m),
        InputShape::NoInput => XrpcStep::Invoke(m, None),
        InputShape::QueryInput => match extract_query_input(m, query) {
            Ok(inp) => XrpcStep::Invoke(m, Some(inp)),
            Err(e) => XrpcStep::Reply(e.to_response()),
        },
    }
}

/// What the caller must do once it has tried to read the request body.
pub enum BodyStep {
    /// The response is decided; send it.
    Reply(WireResponse),
    /// The body was read in full: decode it and invoke the method's
    /// business logic.
    Decode(XrpcMethod, Vec<u8>),
}

/// Continues a [`XrpcStep::ReadBody`] step: a body that could not be read
/// because the connection failed is answered with the sentinel envelope,
/// an HTTP 500 with empty code and message; a body read in full is handed
/// back for decoding.
pub fn accept_body(m: XrpcMethod, body: Option<Vec<u8>>) -> (r: BodyStep)
    ensures
        match body {
            None => r matches BodyStep::Reply(resp) && resp.status == 500
                && resp.body@ == json_error_body(Seq::<char>::empty(), Seq::<char>::empty()),
            Some(b) => r matches BodyStep::Decode(m2, b2) && m2 == m && b2 == b,
        },
{
    match body {
        Some(b) => BodyStep::Decode(m, b),
        None => BodyStep::Reply(XrpcError::dummy().to_response()),
    }
}

} // verus!
