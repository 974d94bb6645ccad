//! `at://` resource URIs.
//!
//! The grammar: `at://` followed by an authority (a valid DID or handle,
//! delimited by the next `/`, `?`, `#` or the end), then any number of `/`
//! separated path components, an optional `?` query and an optional `#`
//! fragment. Path components, the query and the fragment consist only of
//! bytes from `[A-Za-z0-9._~-]`. The whole string must be shorter than 8192
//! bytes, so its part offsets fit in `u16`.
//!
//! An [`AtUri`] stores the text together with the four offsets computed at
//! construction; accessors slice the stored text with them.

use vstd::prelude::*;
use vstd::string::StringSliceAdditionalSpecFns;
use vstd::utf8::encode_utf8;

use crate::bytes::{
    lemma_ascii_bytes_to_chars, lemma_seek3, scan3, scan_byte, seek3, seek_byte, DASH, DOT, HASH,
    LOWER_A, LOWER_T, COLON, DIGIT_0, DIGIT_9, LOWER_Z, QUESTION, SLASH, TILDE, UNDERSCORE,
    UPPER_A, UPPER_Z,
};
use crate::did::{lemma_did_ascii, valid_did, validate_did};
use crate::handle::{lemma_handle_ascii, valid_handle, validate_handle};

verus! {

/// A byte allowed in a path component, the query or the fragment:
/// `[A-Za-z0-9._~-]`.
pub open spec fn is_uri_byte(c: u8) -> bool {
    ||| LOWER_A <= c <= LOWER_Z
    ||| UPPER_A <= c <= UPPER_Z
    ||| DIGIT_0 <= c <= DIGIT_9
    ||| c == DOT
    ||| c == DASH
    ||| c == UNDERSCORE
    ||| c == TILDE
}

/// The string begins with the literal `at://`.
pub open spec fn has_at_prefix(b: Seq<u8>) -> bool {
    &&& b.len() >= 5
    &&& b[0] == LOWER_A
    &&& b[1] == LOWER_T
    &&& b[2] == COLON
    &&& b[3] == SLASH
    &&& b[4] == SLASH
}

/// Offset of the first `/`, `?` or `#` after the prefix: the end of the
/// authority part.
pub open spec fn authority_end_of(b: Seq<u8>) -> int {
    seek3(b, 5, SLASH, QUESTION, HASH)
}

/// Offset of the first `?` or `#` after the authority: the end of the path
/// part.
pub open spec fn path_end_of(b: Seq<u8>) -> int {
    seek3(b, authority_end_of(b), QUESTION, HASH, HASH)
}

/// Offset of the first byte of the query, or `0` when there is no query.
pub open spec fn query_start_of(b: Seq<u8>) -> int {
    let pe = path_end_of(b);
    if pe < b.len() && b[pe] == QUESTION {
        pe + 1
    } else {
        0
    }
}

/// Offset one past the last byte of the query, or `0` when there is no
/// query.
pub open spec fn query_end_of(b: Seq<u8>) -> int {
    let pe = path_end_of(b);
    if pe < b.len() && b[pe] == QUESTION {
        seek_byte(b, pe + 1, HASH)
    } else {
        0
    }
}

/// Offset of the first byte of the fragment; `b.len()` when there is none.
pub open spec fn fragment_start_of(b: Seq<u8>) -> int {
    let pe = path_end_of(b);
    if pe < b.len() && b[pe] == HASH {
        pe + 1
    } else if pe < b.len() && b[pe] == QUESTION {
        let qe = seek_byte(b, pe + 1, HASH);
        if qe < b.len() {
            qe + 1
        } else {
            b.len() as int
        }
    } else {
        b.len() as int
    }
}

/// The authority of an `at://` URI is a valid DID or a valid handle.
pub open spec fn valid_authority(a: Seq<u8>) -> bool {
    valid_did(a) || valid_handle(a)
}

/// The whole `at://` URI grammar over a byte string.
pub open spec fn valid_at_uri(b: Seq<u8>) -> bool {
    &&& b.len() < 8192
    &&& has_at_prefix(b)
    &&& valid_authority(b.subrange(5, authority_end_of(b)))
    &&& (forall|j: int|
        authority_end_of(b) <= j < path_end_of(b) ==> b[j] == SLASH || is_uri_byte(b[j]))
    &&& (forall|j: int| query_start_of(b) <= j < query_end_of(b) ==> is_uri_byte(b[j]))
    &&& (forall|j: int| fragment_start_of(b) <= j < b.len() ==> is_uri_byte(b[j]))
}

/// Checks the bytes of `b` in `[start, end)` against the path, query and
/// fragment character set; `/` is accepted only when `allow_slash` is set.
fn check_uri_bytes(b: &[u8], start: usize, end: usize, allow_slash: bool) -> (r: bool)
    requires
        start <= end <= b@.len(),
    ensures
        r == (forall|j: int|
            start <= j < end ==> is_uri_byte(b@[j]) || (allow_slash && b@[j] == SLASH)),
{
    let mut j: usize = start;
    while j < end
        invariant
            start <= j <= end <= b@.len(),
            forall|k: int|
                start <= k < j ==> is_uri_byte(b@[k]) || (allow_slash && b@[k] == SLASH),
        decreases end - j,
    {
        let c = b[j];
        let ok = (LOWER_A <= c && c <= LOWER_Z) || (UPPER_A <= c && c <= UPPER_Z) || (DIGIT_0 <= c
            && c <= DIGIT_9) || c == DOT || c == DASH || c == UNDERSCORE || c == TILDE || (
        allow_slash && c == SLASH);
        if !ok {
            assert(!(is_uri_byte(b@[j as int]) || (allow_slash && b@[j as int] == SLASH)));
            return false;
        }
        j += 1;
    }
    true
}

/// Validates the provided bytes as an `at://` URI authority.
fn validate_authority_bytes(a: &[u8]) -> (r: bool)
    ensures
        r == valid_authority(a@),
{
    if validate_did(a) {
        true
    } else {
        validate_handle(a)
    }
}

/// The four offsets that delimit the parts of an `at://` URI.
#[derive(Debug, Clone, Copy, PartialEq, Eq, Structural)]
struct Parts {
    authority_end: u16,
    path_end: u16,
    query_start: u16,
    query_end: u16,
    fragment_start: u16,
}

/// Computes the part offsets of the provided URI, validating it at the same
/// time.
fn compute_parts(bytes: &[u8]) -> (r: Option<Parts>)
    ensures
        r is Some <==> valid_at_uri(bytes@),
        r matches Some(p) ==> {
            &&& p.authority_end == authority_end_of(bytes@)
            &&& p.path_end == path_end_of(bytes@)
            &&& p.query_start == query_start_of(bytes@)
            &&& p.query_end == query_end_of(bytes@)
            &&& p.fragment_start == fragment_start_of(bytes@)
        },
{
    if bytes.len() >= 8 * 1024 {
        return None;
    }
    if bytes.len() < 5 {
        return None;
    }
    if !(bytes[0] == LOWER_A && bytes[1] == LOWER_T && bytes[2] == COLON && bytes[3] == SLASH
        && bytes[4] == SLASH) {
        return None;
    }

    let ae = scan3(bytes, 5, SLASH, QUESTION, HASH);
    proof {
        lemma_seek3(bytes@, 5, SLASH, QUESTION, HASH);
    }
    let (head, _) = bytes.split_at(ae);
    let (_, authority) = head.split_at(5);
    proof {
        assert(authority@ =~= bytes@.subrange(5, ae as int));
    }
    if !validate_authority_bytes(authority) {
        return None;
    }

    let pe = scan3(bytes, ae, QUESTION, HASH, HASH);
    proof {
        lemma_seek3(bytes@, ae as int, QUESTION, HASH, HASH);
    }
    if !check_uri_bytes(bytes, ae, pe, true) {
        return None;
    }

    if pe == bytes.len() {
        return Some(
            Parts {
                authority_end: ae as u16,
                path_end: pe as u16,
                query_start: 0,
                query_end: 0,
                fragment_start: pe as u16,
            },
        );
    }

    if bytes[pe] == HASH {
        if !check_uri_bytes(bytes, pe + 1, bytes.len(), false) {
            return None;
        }
        return Some(
            Parts {
                authority_end: ae as u16,
                path_end: pe as u16,
                query_start: 0,
                query_end: 0,
                fragment_start: (pe + 1) as u16,
            },
        );
    }

    // The byte at `pe` is a `?`: a query follows, then possibly a fragment.
    let qs = pe + 1;
    let qe = scan_byte(bytes, qs, HASH);
    proof {
        lemma_seek3(bytes@, qs as int, HASH, HASH, HASH);
    }
    if !check_uri_bytes(bytes, qs, qe, false) {
        return None;
    }

    if qe == bytes.len() {
        return Some(
            Parts {
                authority_end: ae as u16,
                path_end: pe as u16,
                query_start: qs as u16,
                query_end: qe as u16,
                fragment_start: qe as u16,
            },
        );
    }

    if !check_uri_bytes(bytes, qe + 1, bytes.len(), false) {
        return None;
    }
    Some(
        Parts {
            authority_end: ae as u16,
            path_end: pe as u16,
            query_start: qs as u16,
            query_end: qe as u16,
            fragment_start: (qe + 1) as u16,
        },
    )
}

/// Validates the provided bytes as an `at://` URI.
pub fn validate_at_uri(bytes: &[u8]) -> (r: bool)
    ensures
        r == valid_at_uri(bytes@),
{
    compute_parts(bytes).is_some()
}

/// Every byte of a valid `at://` URI is ASCII.
pub proof fn lemma_at_uri_ascii(b: Seq<u8>)
    requires
        valid_at_uri(b),
    ensures
        forall|j: int| 0 <= j < b.len() ==> b[j] < 128,
{
    lemma_seek3(b, 5, SLASH, QUESTION, HASH);
    let ae = authority_end_of(b);
    lemma_seek3(b, ae, QUESTION, HASH, HASH);
    let pe = path_end_of(b);
    let a = b.subrange(5, ae);
    if valid_did(a) {
        lemma_did_ascii(a);
    } else {
        lemma_handle_ascii(a);
    }
    if pe < b.len() && b[pe] == QUESTION {
        lemma_seek3(b, pe + 1, HASH, HASH, HASH);
    }
    assert forall|j: int| 0 <= j < b.len() implies b[j] < 128 by {
        if j < 5 {
        } else if j < ae {
            assert(a[j - 5] < 128);
        } else if j < pe {
            assert(b[j] == SLASH || is_uri_byte(b[j]));
        } else if j == pe {
            assert(crate::bytes::is_one_of(b[pe], QUESTION, HASH, HASH));
        } else {
            if b[pe] == HASH {
                assert(fragment_start_of(b) == pe + 1);
                assert(is_uri_byte(b[j]));
            } else {
                let qe = seek_byte(b, pe + 1, HASH);
                if j < qe {
                    assert(query_start_of(b) == pe + 1 && query_end_of(b) == qe);
                    assert(is_uri_byte(b[j]));
                } else if j == qe {
                    assert(b[qe] == HASH);
                } else {
                    assert(fragment_start_of(b) == qe + 1);
                    assert(is_uri_byte(b[j]));
                }
            }
        }
    }
}

/// A valid `at://` URI text is an ASCII character sequence whose characters
/// correspond one to one to its bytes.
proof fn lemma_at_uri_chars(s: Seq<char>)
    requires
        valid_at_uri(encode_utf8(s)),
    ensures
        vstd::utf8::is_ascii_chars(s),
        s.len() == encode_utf8(s).len(),
        forall|i: int| 0 <= i < s.len() ==> s[i] as u8 == encode_utf8(s)[i],
{
    lemma_at_uri_ascii(encode_utf8(s));
    lemma_ascii_bytes_to_chars(s);
    vstd::utf8::is_ascii_chars_encode_utf8(s);
}

/// The error returned when a string is not a valid `at://` URI.
#[derive(Debug, Clone, Copy, PartialEq, Eq, Structural)]
pub struct AtUriParseError;

/// An `at://` URI: the text together with the part offsets computed once at
/// construction.
#[derive(Debug)]
pub struct AtUri {
    text: String,
    parts: Parts,
}

impl View for AtUri {
    type V = Seq<char>;

    closed spec fn view(&self) -> Seq<char> {
        self.text@
    }
}

impl AtUri {
    /// The stored text always satisfies the URI grammar, and the stored
    /// offsets are the ones the grammar assigns to it.
    #[verifier::type_invariant]
    pub closed spec fn wf(&self) -> bool {
        &&& valid_at_uri(encode_utf8(self@))
        &&& self.parts.authority_end == authority_end_of(encode_utf8(self@))
        &&& self.parts.path_end == path_end_of(encode_utf8(self@))
        &&& self.parts.query_start == query_start_of(encode_utf8(self@))
        &&& self.parts.query_end == query_end_of(encode_utf8(self@))
        &&& self.parts.fragment_start == fragment_start_of(encode_utf8(self@))
    }

    /// Creates a new [`AtUri`] from the provided string.
    ///
    /// If the string is not a valid `at://` URI, this function fails and no
    /// partial value is produced.
    pub fn new(text: String) -> (r: Result<AtUri, AtUriParseError>)
        ensures
            r is Ok <==> valid_at_uri(encode_utf8(text@)),
            r matches Ok(u) ==> u@ == text@,
    {
        match compute_parts(text.as_str().as_bytes()) {
            Some(parts) => Ok(AtUri { text, parts }),
            None => Err(AtUriParseError),
        }
    }

    /// Returns the underlying string.
    pub fn as_str(&self) -> (r: &str)
        ensures
            r@ == self@,
            valid_at_uri(encode_utf8(r@)),
    {
        proof {
            use_type_invariant(self);
        }
        self.text.as_str()
    }

    /// Returns the authority part of the URI.
    pub fn authority_str(&self) -> (r: &str)
        ensures
            r@ == self@.subrange(5, authority_end_of(encode_utf8(self@))),
    {
        proof {
            use_type_invariant(self);
            lemma_at_uri_chars(self@);
            lemma_seek3(encode_utf8(self@), 5, SLASH, QUESTION, HASH);
        }
        let s = self.text.as_str();
        s.substring_ascii(5, self.parts.authority_end as usize)
    }

    /// Returns the path part of the URI, beginning with its leading `/`;
    /// empty when the URI has no path.
    pub fn path(&self) -> (r: &str)
        ensures
            r@ == self@.subrange(
                authority_end_of(encode_utf8(self@)),
                path_end_of(encode_utf8(self@)),
            ),
    {
        proof {
            use_type_invariant(self);
            lemma_at_uri_chars(self@);
            lemma_seek3(encode_utf8(self@), 5, SLASH, QUESTION, HASH);
            lemma_seek3(
                encode_utf8(self@),
                authority_end_of(encode_utf8(self@)),
                QUESTION,
                HASH,
                HASH,
            );
        }
        let s = self.text.as_str();
        s.substring_ascii(self.parts.authority_end as usize, self.parts.path_end as usize)
    }

    /// Returns the query part of the URI, without its leading `?`; empty
    /// when the URI has no query.
    pub fn query(&self) -> (r: &str)
        ensures
            r@ == self@.subrange(
                query_start_of(encode_utf8(self@)),
                query_end_of(encode_utf8(self@)),
            ),
    {
        proof {
            use_type_invariant(self);
            lemma_at_uri_chars(self@);
            let b = encode_utf8(self@);
            lemma_seek3(b, 5, SLASH, QUESTION, HASH);
            lemma_seek3(b, authority_end_of(b), QUESTION, HASH, HASH);
            let pe = path_end_of(b);
            if pe < b.len() && b[pe] == QUESTION {
                lemma_seek3(b, pe + 1, HASH, HASH, HASH);
            }
        }
        let s = self.text.as_str();
        s.substring_ascii(self.parts.query_start as usize, self.parts.query_end as usize)
    }

    /// Returns the fragment part of the URI, without its leading `#`; empty
    /// when the URI has no fragment.
    pub fn fragment(&self) -> (r: &str)
        ensures
            r@ == self@.subrange(
                fragment_start_of(encode_utf8(self@)),
                encode_utf8(self@).len() as int,
            ),
    {
        proof {
            use_type_invariant(self);
            lemma_at_uri_chars(self@);
            let b = encode_utf8(self@);
            lemma_seek3(b, 5, SLASH, QUESTION, HASH);
            lemma_seek3(b, authority_end_of(b), QUESTION, HASH, HASH);
            let pe = path_end_of(b);
            if pe < b.len() && b[pe] == QUESTION {
                lemma_seek3(b, pe + 1, HASH, HASH, HASH);
            }
        }
        let s = self.text.as_str();
        s.substring_ascii(self.parts.fragment_start as usize, self.text.as_str().len())
    }
}

impl Clone for AtUri {
    fn clone(&self) -> (r: Self)
        ensures
            r@ == self@,
    {
        proof {
            use_type_invariant(self);
        }
        AtUri { text: self.text.clone(), parts: self.parts }
    }
}

impl PartialEq for AtUri {
    fn eq(&self, other: &AtUri) -> (r: bool) {
        self.text == other.text
    }
}

impl vstd::std_specs::cmp::PartialEqSpecImpl for AtUri {
    open spec fn obeys_eq_spec() -> bool {
        true
    }

    open spec fn eq_spec(&self, other: &AtUri) -> bool {
        self@ == other@
    }
}

/// Round trip: the textual form of any [`AtUri`] value passes the validator
/// again, and two [`AtUri`] values with the same text compare equal. The
/// part offsets are a function of the text alone, so equality of the text is
/// equality of the parsed value.
pub proof fn lemma_at_uri_round_trip(a: AtUri, b: AtUri)
    requires
        a.wf(),
    ensures
        valid_at_uri(encode_utf8(a@)),
        a@ == b@ ==> vstd::std_specs::cmp::PartialEqSpec::eq_spec(&a, &b),
{
}

} // verus!
