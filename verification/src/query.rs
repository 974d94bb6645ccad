//! Query-string extraction: the metadata extractor that decodes the
//! URL-encoded query into a typed per-method input, failing with an
//! `invalid_request` envelope when a required field is missing or malformed.
//!
//! Decoding the URL-encoded syntax itself (splitting on `&` and `=`,
//! percent-decoding) is delegated to the `serde_urlencoded` crate behind one
//! trusted wrapper; everything after that — field lookup, defaults, number
//! parsing and identifier validation — is verified here.

use vstd::prelude::*;
use vstd::string::StringSliceAdditionalSpecFns;
use vstd::utf8::encode_utf8;

use crate::at_uri::{valid_at_uri, AtUri};
use crate::bytes::str_eq;
use crate::did::{valid_did, Did};
use crate::error::XrpcError;
use crate::handle::{valid_handle, Handle};

verus! {

/// The key/value pairs that URL-decoding the query string `q` yields, in
/// order. The result depends on `q` alone.
pub uninterp spec fn form_pairs_of(q: Seq<char>) -> Seq<(Seq<char>, Seq<char>)>;

/// Whether URL-decoding the query string `q` succeeds. The outcome depends
/// on `q` alone.
pub uninterp spec fn form_decodes(q: Seq<char>) -> bool;

#[verifier::external_type_specification]
#[verifier::external_body]
pub struct ExDeValueError(serde::de::value::Error);

/// Relies on `serde_urlencoded::from_str`, deserializing into a vector of
/// string pairs: it URL-decodes the query into its key/value pairs, in
/// order. Both whether decoding succeeds and what it yields depend on the
/// input alone, so each is carried by a name.
#[verifier::external_body]
fn decode_form_pairs(q: &str) -> (r: Result<Vec<(String, String)>, serde::de::value::Error>)
    ensures
        r is Ok <==> form_decodes(q@),
        r matches Ok(v) ==> {
            &&& v@.len() == form_pairs_of(q@).len()
            &&& forall|i: int|
                0 <= i < v@.len() ==> v@[i].0@ == form_pairs_of(q@)[i].0 && v@[i].1@
                    == form_pairs_of(q@)[i].1
        },
{
    serde_urlencoded::from_str::<Vec<(String, String)>>(q)
}

/// The spec-level shadow of a decoded pair list.
pub open spec fn pairs_view(v: Seq<(String, String)>) -> Seq<(Seq<char>, Seq<char>)> {
    Seq::new(v.len(), |i: int| (v[i].0@, v[i].1@))
}

/// Index of the first pair at or after `i` whose key is `key`, or
/// `ps.len()`.
pub open spec fn first_match(ps: Seq<(Seq<char>, Seq<char>)>, key: Seq<char>, i: int) -> int
    decreases ps.len() - i,
{
    if i < 0 || i >= ps.len() {
        ps.len() as int
    } else if ps[i].0 == key {
        i
    } else {
        first_match(ps, key, i + 1)
    }
}

/// The value of the first pair whose key is `key`, if any.
pub open spec fn first_value(ps: Seq<(Seq<char>, Seq<char>)>, key: Seq<char>) -> Option<Seq<char>> {
    let i = first_match(ps, key, 0);
    if i < ps.len() {
        Some(ps[i].1)
    } else {
        None
    }
}

proof fn lemma_first_match_skip(ps: Seq<(Seq<char>, Seq<char>)>, key: Seq<char>, i: int, k: int)
    requires
        0 <= i <= k <= ps.len(),
        forall|j: int| i <= j < k ==> ps[j].0 != key,
    ensures
        first_match(ps, key, i) == first_match(ps, key, k),
    decreases k - i,
{
    if i < k {
        lemma_first_match_skip(ps, key, i + 1, k);
    }
}

/// Returns the value of the first pair whose key is `key`, if any.
fn find_field(pairs: &Vec<(String, String)>, key: &str) -> (r: Option<String>)
    ensures
        match r {
            Some(v) => first_value(pairs_view(pairs@), key@) == Some(v@),
            None => first_value(pairs_view(pairs@), key@) is None,
        },
{
    let ghost ps = pairs_view(pairs@);
    let mut i: usize = 0;
    while i < pairs.len()
        invariant
            i <= pairs@.len(),
            ps == pairs_view(pairs@),
            forall|j: int| 0 <= j < i ==> ps[j].0 != key@,
        decreases pairs@.len() - i,
    {
        if str_eq(pairs[i].0.as_str(), key) {
            proof {
                lemma_first_match_skip(ps, key@, 0, i as int);
                assert(first_match(ps, key@, i as int) == i);
            }
            return Some(pairs[i].1.clone());
        }
        i += 1;
    }
    proof {
        lemma_first_match_skip(ps, key@, 0, i as int);
    }
    None
}

/// The values of every pair at or after `i` whose key is `key`, in order.
pub open spec fn values_from(ps: Seq<(Seq<char>, Seq<char>)>, key: Seq<char>, i: int) -> Seq<
    Seq<char>,
>
    decreases ps.len() - i,
{
    if i < 0 || i >= ps.len() {
        Seq::empty()
    } else if ps[i].0 == key {
        seq![ps[i].1] + values_from(ps, key, i + 1)
    } else {
        values_from(ps, key, i + 1)
    }
}

/// The numeric value of a decimal digit string, most significant digit
/// first.
pub open spec fn dec_value(s: Seq<char>) -> int
    decreases s.len(),
{
    if s.len() == 0 {
        0
    } else {
        dec_value(s.drop_last()) * 10 + (s[s.len() - 1] as u32 - 48)
    }
}

/// A non-empty string of ASCII decimal digits.
pub open spec fn is_digits(s: Seq<char>) -> bool {
    s.len() >= 1 && forall|i: int| 0 <= i < s.len() ==> '0' <= #[trigger] s[i] <= '9'
}

/// The `u32` a string parses to: defined for non-empty digit strings whose
/// value fits.
pub open spec fn parsed_u32(s: Seq<char>) -> Option<u32> {
    if is_digits(s) && dec_value(s) <= u32::MAX {
        Some(dec_value(s) as u32)
    } else {
        None
    }
}

proof fn lemma_dec_value_nonneg(s: Seq<char>)
    requires
        forall|i: int| 0 <= i < s.len() ==> '0' <= #[trigger] s[i] <= '9',
    ensures
        dec_value(s) >= 0,
    decreases s.len(),
{
    if s.len() > 0 {
        lemma_dec_value_nonneg(s.drop_last());
        vstd::utf8::char_u32_cast(s[s.len() - 1], s[s.len() - 1] as u32);
        vstd::utf8::char_u32_cast('0', 48);
        vstd::utf8::char_u32_cast('9', 57);
    }
}

proof fn lemma_dec_value_grows(s: Seq<char>, i: int)
    requires
        forall|k: int| 0 <= k < s.len() ==> '0' <= #[trigger] s[k] <= '9',
        0 <= i <= s.len(),
    ensures
        dec_value(s) >= dec_value(s.subrange(0, i)),
    decreases s.len() - i,
{
    if i < s.len() {
        lemma_dec_value_grows(s, i + 1);
        let p = s.subrange(0, i);
        let q = s.subrange(0, i + 1);
        assert(q.drop_last() =~= p);
        lemma_dec_value_nonneg(p);
        vstd::utf8::char_u32_cast(s[i], s[i] as u32);
        vstd::utf8::char_u32_cast('0', 48);
        vstd::utf8::char_u32_cast('9', 57);
        assert(dec_value(q) == dec_value(p) * 10 + (s[i] as u32 - 48));
        assert(dec_value(p) * 10 >= dec_value(p)) by (nonlinear_arith)
            requires
                dec_value(p) >= 0,
        ;
    } else {
        assert(s.subrange(0, s.len() as int) =~= s);
    }
}

/// Parses a non-empty ASCII decimal digit string into a `u32`.
fn parse_u32(s: &str) -> (r: Option<u32>)
    ensures
        r == parsed_u32(s@),
{
    let n = s.unicode_len();
    if n == 0 {
        return None;
    }
    let mut acc: u32 = 0;
    let mut i: usize = 0;
    while i < n
        invariant
            i <= n,
            n == s@.len(),
            n >= 1,
            forall|k: int| 0 <= k < i ==> '0' <= #[trigger] s@[k] <= '9',
            acc == dec_value(s@.subrange(0, i as int)),
        decreases n - i,
    {
        let c = s.get_char(i);
        if !('0' <= c && c <= '9') {
            proof {
                assert(!is_digits(s@));
            }
            return None;
        }
        let d: u32 = (c as u32) - 48;
        proof {
            vstd::utf8::char_u32_cast(c, c as u32);
            vstd::utf8::char_u32_cast('0', 48);
            vstd::utf8::char_u32_cast('9', 57);
            assert(d < 10);
        }
        if acc > (u32::MAX - d) / 10 {
            proof {
                let q = s@.subrange(0, i + 1);
                assert(q.drop_last() =~= s@.subrange(0, i as int));
                assert(dec_value(q) == acc * 10 + d);
                assert(acc * 10 + d > u32::MAX) by (nonlinear_arith)
                    requires
                        acc > (u32::MAX - d) / 10,
                        d < 10,
                        acc <= u32::MAX,
                ;
                if is_digits(s@) {
                    lemma_dec_value_grows(s@, i + 1);
                }
            }
            return None;
        }
        acc = acc * 10 + d;
        proof {
            let q = s@.subrange(0, i + 1);
            assert(q.drop_last() =~= s@.subrange(0, i as int));
        }
        i += 1;
    }
    proof {
        assert(s@.subrange(0, n as int) =~= s@);
    }
    Some(acc)
}

/// The input of `com.atproto.admin.getAccountInfo`: the DID of the account.
pub struct AdminGetAccountInfoInput {
    /// The account looked up.
    pub did: Did,
}

/// The input of `com.atproto.admin.getAccountInfos`: the DIDs of the
/// accounts, one `dids` field per account.
pub struct AdminGetAccountInfosInput {
    /// The accounts looked up.
    pub dids: Vec<Did>,
}

/// The input of `com.atproto.admin.getInviteCodes`.
pub struct AdminGetInviteCodesInput {
    /// The requested ordering; empty when absent.
    pub sort: String,
    /// The page size; 100 when absent.
    pub limit: u32,
    /// The pagination cursor, if one was given.
    pub cursor: Option<String>,
}

/// The input of `com.atproto.admin.getSubjectStatus`: any of a DID, an
/// `at://` URI and a blob reference.
pub struct AdminGetSubjectStatusInput {
    /// The subject account, if given.
    pub did: Option<Did>,
    /// The subject record, if given.
    pub uri: Option<AtUri>,
    /// The subject blob, if given.
    pub blob: Option<String>,
}

/// The input of `com.atproto.admin.searchAccounts`.
pub struct AdminSearchAccountsInput {
    /// The email searched for, if one was given.
    pub email: Option<String>,
    /// The pagination cursor, if one was given.
    pub cursor: Option<String>,
    /// The page size; 50 when absent.
    pub limit: u32,
}

/// The input of `com.atproto.identity.resolveHandle`: the handle to
/// resolve.
pub struct IdentityResolveHandleInput {
    /// The handle to resolve.
    pub handle: Handle,
}

/// The typed query input of whichever method was routed.
pub enum QueryInput {
    /// Input for `com.atproto.admin.getAccountInfo`.
    AdminGetAccountInfo(AdminGetAccountInfoInput),
    /// Input for `com.atproto.admin.getAccountInfos`.
    AdminGetAccountInfos(AdminGetAccountInfosInput),
    /// Input for `com.atproto.admin.getInviteCodes`.
    AdminGetInviteCodes(AdminGetInviteCodesInput),
    /// Input for `com.atproto.admin.getSubjectStatus`.
    AdminGetSubjectStatus(AdminGetSubjectStatusInput),
    /// Input for `com.atproto.admin.searchAccounts`.
    AdminSearchAccounts(AdminSearchAccountsInput),
    /// Input for `com.atproto.identity.resolveHandle`.
    IdentityResolveHandle(IdentityResolveHandleInput),
}

/// Extracts the `com.atproto.identity.resolveHandle` input from decoded
/// pairs: the field `handle` is required and must be a valid handle.
pub fn resolve_handle_from_pairs(pairs: &Vec<(String, String)>) -> (r: Result<
    IdentityResolveHandleInput,
    XrpcError,
>)
    ensures
        ({
            let ps = pairs_view(pairs@);
            match first_value(ps, "handle"@) {
                Some(v) => {
                    &&& (r is Ok <==> valid_handle(encode_utf8(v)))
                    &&& (r matches Ok(inp) ==> inp.handle@ == v)
                    &&& (r matches Err(e) ==> e.status == 400 && e.error@ == "invalid_request"@
                        && e.message@ == "invalid handle"@)
                },
                None => r matches Err(e) && e.status == 400 && e.error@ == "invalid_request"@
                    && e.message@ == "missing field `handle`"@,
            }
        }),
{
    match find_field(pairs, "handle") {
        Some(v) => match Handle::new(v) {
            Ok(handle) => Ok(IdentityResolveHandleInput { handle }),
            Err(_) => Err(XrpcError::invalid_request(String::from_str("invalid handle"))),
        },
        None => Err(XrpcError::invalid_request(String::from_str("missing field `handle`"))),
    }
}

/// Extracts the `com.atproto.admin.getAccountInfo` input from decoded
/// pairs: the field `did` is required and must be a valid DID.
pub fn get_account_info_from_pairs(pairs: &Vec<(String, String)>) -> (r: Result<
    AdminGetAccountInfoInput,
    XrpcError,
>)
    ensures
        ({
            let ps = pairs_view(pairs@);
            match first_value(ps, "did"@) {
                Some(v) => {
                    &&& (r is Ok <==> valid_did(encode_utf8(v)))
                    &&& (r matches Ok(inp) ==> inp.did@ == v)
                    &&& (r matches Err(e) ==> e.status == 400 && e.error@ == "invalid_request"@
                        && e.message@ == "invalid DID"@)
                },
                None => r matches Err(e) && e.status == 400 && e.error@ == "invalid_request"@
                    && e.message@ == "missing field `did`"@,
            }
        }),
{
    match find_field(pairs, "did") {
        Some(v) => match Did::new(v) {
            Ok(did) => Ok(AdminGetAccountInfoInput { did }),
            Err(_) => Err(XrpcError::invalid_request(String::from_str("invalid DID"))),
        },
        None => Err(XrpcError::invalid_request(String::from_str("missing field `did`"))),
    }
}

/// The texts of a sequence of DID values.
pub open spec fn did_texts(s: Seq<Did>) -> Seq<Seq<char>> {
    Seq::new(s.len(), |j: int| s[j]@)
}

/// Extracts the `com.atproto.admin.getAccountInfos` input from decoded
/// pairs: every `dids` field must be a valid DID; they are collected in
/// order.
pub fn get_account_infos_from_pairs(pairs: &Vec<(String, String)>) -> (r: Result<
    AdminGetAccountInfosInput,
    XrpcError,
>)
    ensures
        ({
            let vs = values_from(pairs_view(pairs@), "dids"@, 0);
            &&& (r is Ok <==> (forall|i: int|
                0 <= i < vs.len() ==> valid_did(encode_utf8(#[trigger] vs[i]))))
            &&& (r matches Ok(inp) ==> inp.dids@.len() == vs.len() && (forall|i: int|
                0 <= i < vs.len() ==> #[trigger] inp.dids@[i]@ == vs[i]))
            &&& (r matches Err(e) ==> e.status == 400 && e.error@ == "invalid_request"@
                && e.message@ == "invalid DID"@)
        }),
{
    let ghost ps = pairs_view(pairs@);
    let ghost vs = values_from(ps, "dids"@, 0);
    let mut dids: Vec<Did> = Vec::new();
    let mut i: usize = 0;
    while i < pairs.len()
        invariant
            i <= pairs@.len(),
            ps == pairs_view(pairs@),
            vs == values_from(ps, "dids"@, 0),
            vs =~= did_texts(dids@) + values_from(ps, "dids"@, i as int),
            forall|j: int| 0 <= j < dids@.len() ==> valid_did(encode_utf8(#[trigger] dids@[j]@)),
        decreases pairs@.len() - i,
    {
        if str_eq(pairs[i].0.as_str(), "dids") {
            let ghost dids_before = dids@;
            match Did::new(pairs[i].1.clone()) {
                Ok(d) => {
                    dids.push(d);
                    proof {
                        assert(did_texts(dids@) =~= did_texts(dids_before).push(d@));
                        assert(vs =~= did_texts(dids@) + values_from(ps, "dids"@, i + 1));
                    }
                },
                Err(_) => {
                    proof {
                        let k = did_texts(dids_before).len() as int;
                        assert(vs[k] == ps[i as int].1);
                        assert(!valid_did(encode_utf8(vs[k])));
                    }
                    return Err(XrpcError::invalid_request(String::from_str("invalid DID")));
                },
            }
        }
        i += 1;
    }
    proof {
        assert(vs =~= did_texts(dids@));
    }
    Ok(AdminGetAccountInfosInput { dids })
}

/// Extracts the `com.atproto.admin.getInviteCodes` input from decoded
/// pairs: `sort` defaults to the empty string, `limit` defaults to 100 and
/// must otherwise be a decimal `u32`, `cursor` is optional.
pub fn get_invite_codes_from_pairs(pairs: &Vec<(String, String)>) -> (r: Result<
    AdminGetInviteCodesInput,
    XrpcError,
>)
    ensures
        ({
            let ps = pairs_view(pairs@);
            &&& (match first_value(ps, "limit"@) {
                Some(v) => match parsed_u32(v) {
                    Some(n) => r matches Ok(inp) && inp.limit == n,
                    None => r matches Err(e) && e.status == 400 && e.error@ == "invalid_request"@
                        && e.message@ == "invalid limit"@,
                },
                None => r matches Ok(inp) && inp.limit == 100,
            })
            &&& (r matches Ok(inp) ==> {
                &&& inp.sort@ == (match first_value(ps, "sort"@) {
                    Some(v) => v,
                    None => Seq::<char>::empty(),
                })
                &&& (match first_value(ps, "cursor"@) {
                    Some(v) => inp.cursor matches Some(c) && c@ == v,
                    None => inp.cursor is None,
                })
            })
        }),
{
    let limit: u32 = match find_field(pairs, "limit") {
        Some(v) => match parse_u32(v.as_str()) {
            Some(n) => n,
            None => {
                return Err(XrpcError::invalid_request(String::from_str("invalid limit")));
            },
        },
        None => 100,
    };
    let sort = match find_field(pairs, "sort") {
        Some(v) => v,
        None => String::new(),
    };
    let cursor = find_field(pairs, "cursor");
    Ok(AdminGetInviteCodesInput { sort, limit, cursor })
}

/// Extracts the `com.atproto.admin.searchAccounts` input from decoded
/// pairs: `email` and `cursor` are optional, `limit` defaults to 50 and
/// must otherwise be a decimal `u32`.
pub fn search_accounts_from_pairs(pairs: &Vec<(String, String)>) -> (r: Result<
    AdminSearchAccountsInput,
    XrpcError,
>)
    ensures
        ({
            let ps = pairs_view(pairs@);
            &&& (match first_value(ps, "limit"@) {
                Some(v) => match parsed_u32(v) {
                    Some(n) => r matches Ok(inp) && inp.limit == n,
                    None => r matches Err(e) && e.status == 400 && e.error@ == "invalid_request"@
                        && e.message@ == "invalid limit"@,
                },
                None => r matches Ok(inp) && inp.limit == 50,
            })
            &&& (r matches Ok(inp) ==> {
                &&& (match first_value(ps, "email"@) {
                    Some(v) => inp.email matches Some(c) && c@ == v,
                    None => inp.email is None,
                })
                &&& (match first_value(ps, "cursor"@) {
                    Some(v) => inp.cursor matches Some(c) && c@ == v,
                    None => inp.cursor is None,
                })
            })
        }),
{
    let limit: u32 = match find_field(pairs, "limit") {
        Some(v) => match parse_u32(v.as_str()) {
            Some(n) => n,
            None => {
                return Err(XrpcError::invalid_request(String::from_str("invalid limit")));
            },
        },
        None => 50,
    };
    let email = find_field(pairs, "email");
    let cursor = find_field(pairs, "cursor");
    Ok(AdminSearchAccountsInput { email, cursor, limit })
}

/// Extracts the `com.atproto.admin.getSubjectStatus` input from decoded
/// pairs: `did`, `uri` and `blob` are all optional, but a present `did`
/// must be a valid DID and a present `uri` a valid `at://` URI.
pub fn get_subject_status_from_pairs(pairs: &Vec<(String, String)>) -> (r: Result<
    AdminGetSubjectStatusInput,
    XrpcError,
>)
    ensures
        ({
            let ps = pairs_view(pairs@);
            let did_v = first_value(ps, "did"@);
            let uri_v = first_value(ps, "uri"@);
            let blob_v = first_value(ps, "blob"@);
            &&& (r is Ok <==> ((did_v matches Some(v) ==> valid_did(encode_utf8(v))) && (
            uri_v matches Some(v) ==> valid_at_uri(encode_utf8(v)))))
            &&& (r matches Ok(inp) ==> {
                &&& (match did_v {
                    Some(v) => inp.did matches Some(d) && d@ == v,
                    None => inp.did is None,
                })
                &&& (match uri_v {
                    Some(v) => inp.uri matches Some(u) && u@ == v,
                    None => inp.uri is None,
                })
                &&& (match blob_v {
                    Some(v) => inp.blob matches Some(b) && b@ == v,
                    None => inp.blob is None,
                })
            })
            &&& (r matches Err(e) ==> e.status == 400 && e.error@ == "invalid_request"@
                && e.message@ == (match did_v {
                    Some(v) => if !valid_did(encode_utf8(v)) {
                        "invalid DID"@
                    } else {
                        "invalid at-uri"@
                    },
                    None => "invalid at-uri"@,
                }))
        }),
{
    let did = match find_field(pairs, "did") {
        Some(v) => match Did::new(v) {
            Ok(d) => Some(d),
            Err(_) => {
                return Err(XrpcError::invalid_request(String::from_str("invalid DID")));
            },
        },
        None => None,
    };
    let uri = match find_field(pairs, "uri") {
        Some(v) => match AtUri::new(v) {
            Ok(u) => Some(u),
            Err(_) => {
                return Err(XrpcError::invalid_request(String::from_str("invalid at-uri")));
            },
        },
        None => None,
    };
    let blob = find_field(pairs, "blob");
    Ok(AdminGetSubjectStatusInput { did, uri, blob })
}

/// Whether the decoded pairs carry an acceptable input for the given
/// query-taking method: required fields present and every typed field well
/// formed.
pub open spec fn query_accepts(
    m: crate::router::XrpcMethod,
    ps: Seq<(Seq<char>, Seq<char>)>,
) -> bool {
    match m {
        crate::router::XrpcMethod::AdminGetAccountInfo => match first_value(ps, "did"@) {
            Some(v) => valid_did(encode_utf8(v)),
            None => false,
        },
        crate::router::XrpcMethod::AdminGetAccountInfos => (forall|i: int|
            0 <= i < values_from(ps, "dids"@, 0).len() ==> valid_did(
                encode_utf8(#[trigger] values_from(ps, "dids"@, 0)[i]),
            )),
        crate::router::XrpcMethod::AdminGetInviteCodes => match first_value(ps, "limit"@) {
            Some(v) => parsed_u32(v) is Some,
            None => true,
        },
        crate::router::XrpcMethod::AdminSearchAccounts => match first_value(ps, "limit"@) {
            Some(v) => parsed_u32(v) is Some,
            None => true,
        },
        crate::router::XrpcMethod::AdminGetSubjectStatus => {
            &&& (match first_value(ps, "did"@) {
                Some(v) => valid_did(encode_utf8(v)),
                None => true,
            })
            &&& (match first_value(ps, "uri"@) {
                Some(v) => valid_at_uri(encode_utf8(v)),
                None => true,
            })
        },
        crate::router::XrpcMethod::IdentityResolveHandle => match first_value(ps, "handle"@) {
            Some(v) => valid_handle(encode_utf8(v)),
            None => false,
        },
        _ => false,
    }
}

/// The message of the `invalid_request` envelope with which extraction for
/// the given method fails on the decoded pairs; meaningful only when
/// [`query_accepts`] does not hold.
pub open spec fn query_error_message(
    m: crate::router::XrpcMethod,
    ps: Seq<(Seq<char>, Seq<char>)>,
) -> Seq<char> {
    match m {
        crate::router::XrpcMethod::AdminGetAccountInfo => match first_value(ps, "did"@) {
            Some(_) => "invalid DID"@,
            None => "missing field `did`"@,
        },
        crate::router::XrpcMethod::AdminGetAccountInfos => "invalid DID"@,
        crate::router::XrpcMethod::AdminGetInviteCodes => "invalid limit"@,
        crate::router::XrpcMethod::AdminSearchAccounts => "invalid limit"@,
        crate::router::XrpcMethod::AdminGetSubjectStatus => match first_value(ps, "did"@) {
            Some(v) => if !valid_did(encode_utf8(v)) {
                "invalid DID"@
            } else {
                "invalid at-uri"@
            },
            None => "invalid at-uri"@,
        },
        crate::router::XrpcMethod::IdentityResolveHandle => match first_value(ps, "handle"@) {
            Some(_) => "invalid handle"@,
            None => "missing field `handle`"@,
        },
        _ => Seq::empty(),
    }
}

/// Decodes the query string and extracts the typed input of the given
/// query-taking method. Extraction succeeds exactly when the query
/// URL-decodes and the decoded pairs carry an acceptable input; a query the
/// URL decoder itself refuses is an `invalid_request`.
pub fn extract_query_input(m: crate::router::XrpcMethod, query: &str) -> (r: Result<
    QueryInput,
    XrpcError,
>)
    requires
        crate::router::method_input(m) is QueryInput,
    ensures
        r is Ok <==> form_decodes(query@) && query_accepts(m, form_pairs_of(query@)),
        r matches Ok(inp) ==> query_input_matches(m, form_pairs_of(query@), inp),
        r matches Err(e) ==> e.status == 400 && e.error@ == "invalid_request"@ && e.message@ == (
        if !form_decodes(query@) {
            "malformed query string"@
        } else {
            query_error_message(m, form_pairs_of(query@))
        }),
{
    let pairs = match decode_form_pairs(query) {
        Ok(pairs) => pairs,
        Err(_) => {
            return Err(XrpcError::invalid_request(String::from_str("malformed query string")));
        },
    };
    proof {
        assert(pairs_view(pairs@) =~= form_pairs_of(query@));
    }
    match m {
        crate::router::XrpcMethod::AdminGetAccountInfo => match get_account_info_from_pairs(
            &pairs,
        ) {
            Ok(inp) => Ok(QueryInput::AdminGetAccountInfo(inp)),
            Err(e) => Err(e),
        },
        crate::router::XrpcMethod::AdminGetAccountInfos => match get_account_infos_from_pairs(
            &pairs,
        ) {
            Ok(inp) => {
                proof {
                    assert(did_texts(inp.dids@) =~= values_from(
                        form_pairs_of(query@),
                        "dids"@,
                        0,
                    ));
                }
                Ok(QueryInput::AdminGetAccountInfos(inp))
            },
            Err(e) => Err(e),
        },
        crate::router::XrpcMethod::AdminGetInviteCodes => match get_invite_codes_from_pairs(
            &pairs,
        ) {
            Ok(inp) => Ok(QueryInput::AdminGetInviteCodes(inp)),
            Err(e) => Err(e),
        },
        crate::router::XrpcMethod::AdminGetSubjectStatus => match get_subject_status_from_pairs(
            &pairs,
        ) {
            Ok(inp) => Ok(QueryInput::AdminGetSubjectStatus(inp)),
            Err(e) => Err(e),
        },
        crate::router::XrpcMethod::AdminSearchAccounts => match search_accounts_from_pairs(
            &pairs,
        ) {
            Ok(inp) => Ok(QueryInput::AdminSearchAccounts(inp)),
            Err(e) => Err(e),
        },
        _ => match resolve_handle_from_pairs(&pairs) {
            Ok(inp) => Ok(QueryInput::IdentityResolveHandle(inp)),
            Err(e) => Err(e),
        },
    }
}

/// The extracted input carries the fields that the decoded pairs dictate
/// for the given method.
pub open spec fn query_input_matches(
    m: crate::router::XrpcMethod,
    ps: Seq<(Seq<char>, Seq<char>)>,
    inp: QueryInput,
) -> bool {
    match m {
        crate::router::XrpcMethod::AdminGetAccountInfo => inp matches
            QueryInput::AdminGetAccountInfo(i) && first_value(ps, "did"@) == Some(i.did@),
        crate::router::XrpcMethod::AdminGetAccountInfos => inp matches
            QueryInput::AdminGetAccountInfos(i) && did_texts(i.dids@) == values_from(
            ps,
            "dids"@,
            0,
        ),
        crate::router::XrpcMethod::AdminGetInviteCodes => inp matches
            QueryInput::AdminGetInviteCodes(i) && {
            &&& (match first_value(ps, "limit"@) {
                Some(v) => parsed_u32(v) == Some(i.limit),
                None => i.limit == 100,
            })
            &&& i.sort@ == (match first_value(ps, "sort"@) {
                Some(v) => v,
                None => Seq::<char>::empty(),
            })
            &&& (match first_value(ps, "cursor"@) {
                Some(v) => i.cursor matches Some(c) && c@ == v,
                None => i.cursor is None,
            })
        },
        crate::router::XrpcMethod::AdminGetSubjectStatus => inp matches
            QueryInput::AdminGetSubjectStatus(i) && {
            &&& (match first_value(ps, "did"@) {
                Some(v) => i.did matches Some(d) && d@ == v,
                None => i.did is None,
            })
            &&& (match first_value(ps, "uri"@) {
                Some(v) => i.uri matches Some(u) && u@ == v,
                None => i.uri is None,
            })
            &&& (match first_value(ps, "blob"@) {
                Some(v) => i.blob matches Some(b) && b@ == v,
                None => i.blob is None,
            })
        },
        crate::router::XrpcMethod::AdminSearchAccounts => inp matches
            QueryInput::AdminSearchAccounts(i) && {
            &&& (match first_value(ps, "limit"@) {
                Some(v) => parsed_u32(v) == Some(i.limit),
                None => i.limit == 50,
            })
            &&& (match first_value(ps, "email"@) {
                Some(v) => i.email matches Some(c) && c@ == v,
                None => i.email is None,
            })
            &&& (match first_value(ps, "cursor"@) {
                Some(v) => i.cursor matches Some(c) && c@ == v,
                None => i.cursor is None,
            })
        },
        crate::router::XrpcMethod::IdentityResolveHandle => inp matches
            QueryInput::IdentityResolveHandle(i) && first_value(ps, "handle"@) == Some(i.handle@),
        _ => false,
    }
}

} // verus!
