//! Decentralized identifiers (`did:<method>:<id>`), validated byte by byte.
//!
//! The grammar: after the literal prefix `did:`, the method is one or more
//! bytes from `[a-z0-9]`, then a `:`, then the identifier part: bytes from
//! `[A-Za-z0-9._:-]` or percent-escapes (`%` and exactly two hex digits),
//! not ending with `:`.

use vstd::prelude::*;
use vstd::string::StringSliceAdditionalSpecFns;
use vstd::utf8::encode_utf8;

use crate::bytes::{lemma_seek3, scan_byte, seek_byte, COLON, DASH, DIGIT_0, DIGIT_9, DOT, LOWER_A, LOWER_D, LOWER_F, LOWER_I, LOWER_Z, PERCENT, UNDERSCORE, UPPER_A, UPPER_F, UPPER_Z};

verus! {

/// A byte allowed in the method part of a DID: `[a-z0-9]`.
pub open spec fn is_method_byte(c: u8) -> bool {
    (LOWER_A <= c <= LOWER_Z) || (DIGIT_0 <= c <= DIGIT_9)
}

/// A byte allowed in the identifier part of a DID: `[A-Za-z0-9._:-]`.
pub open spec fn is_id_byte(c: u8) -> bool {
    ||| LOWER_A <= c <= LOWER_Z
    ||| UPPER_A <= c <= UPPER_Z
    ||| DIGIT_0 <= c <= DIGIT_9
    ||| c == DOT
    ||| c == DASH
    ||| c == UNDERSCORE
    ||| c == COLON
}

/// An ASCII hexadecimal digit.
pub open spec fn is_hex_byte(c: u8) -> bool {
    (DIGIT_0 <= c <= DIGIT_9) || (LOWER_A <= c <= LOWER_F) || (UPPER_A <= c <= UPPER_F)
}

/// The string begins with the literal `did:`.
pub open spec fn has_did_prefix(b: Seq<u8>) -> bool {
    b.len() >= 4 && b[0] == LOWER_D && b[1] == LOWER_I && b[2] == LOWER_D && b[3] == COLON
}

/// The bytes from `i` on are a valid DID identifier part: identifier bytes
/// and percent-escapes of exactly two hex digits.
pub open spec fn valid_did_id_from(b: Seq<u8>, i: int) -> bool
    decreases b.len() - i,
{
    if i < 0 || i >= b.len() {
        true
    } else if b[i] == PERCENT {
        &&& i + 2 < b.len()
        &&& is_hex_byte(b[i + 1])
        &&& is_hex_byte(b[i + 2])
        &&& valid_did_id_from(b, i + 3)
    } else {
        is_id_byte(b[i]) && valid_did_id_from(b, i + 1)
    }
}

/// The whole DID grammar over a byte string: `did:` prefix, a non-empty
/// method of method bytes, a second `:`, a valid identifier part, and no
/// trailing `:`.
pub open spec fn valid_did(b: Seq<u8>) -> bool {
    let m = seek_byte(b, 4, COLON);
    &&& has_did_prefix(b)
    &&& 4 < m < b.len()
    &&& (forall|j: int| 4 <= j < m ==> is_method_byte(b[j]))
    &&& valid_did_id_from(b, m)
    &&& b[b.len() - 1] != COLON
}

/// Validates the provided bytes as a DID.
pub fn validate_did(bytes: &[u8]) -> (r: bool)
    ensures
        r == valid_did(bytes@),
{
    if bytes.len() < 4 {
        return false;
    }
    if !(bytes[0] == LOWER_D && bytes[1] == LOWER_I && bytes[2] == LOWER_D && bytes[3] == COLON) {
        return false;
    }

    let m = scan_byte(bytes, 4, COLON);
    proof {
        lemma_seek3(bytes@, 4, COLON, COLON, COLON);
    }
    if m == bytes.len() {
        return false;
    }
    if m == 4 {
        return false;
    }

    let mut j: usize = 4;
    while j < m
        invariant
            4 <= j <= m < bytes@.len(),
            m == seek_byte(bytes@, 4, COLON),
            has_did_prefix(bytes@),
            forall|k: int| 4 <= k < j ==> is_method_byte(bytes@[k]),
        decreases m - j,
    {
        let c = bytes[j];
        if !((LOWER_A <= c && c <= LOWER_Z) || (DIGIT_0 <= c && c <= DIGIT_9)) {
            assert(!is_method_byte(bytes@[j as int]));
            return false;
        }
        j += 1;
    }

    let mut i: usize = m;
    while i < bytes.len()
        invariant
            4 < m < bytes@.len(),
            m <= i <= bytes@.len(),
            m == seek_byte(bytes@, 4, COLON),
            has_did_prefix(bytes@),
            forall|k: int| 4 <= k < m ==> is_method_byte(bytes@[k]),
            valid_did_id_from(bytes@, m as int) == valid_did_id_from(bytes@, i as int),
        decreases bytes@.len() - i,
    {
        let c = bytes[i];
        if c == PERCENT {
            if bytes.len() - i <= 2 {
                return false;
            }
            let h1 = bytes[i + 1];
            let h2 = bytes[i + 2];
            let h1_ok = (DIGIT_0 <= h1 && h1 <= DIGIT_9) || (LOWER_A <= h1 && h1 <= LOWER_F) || (UPPER_A <= h1
                && h1 <= UPPER_F);
            let h2_ok = (DIGIT_0 <= h2 && h2 <= DIGIT_9) || (LOWER_A <= h2 && h2 <= LOWER_F) || (UPPER_A <= h2
                && h2 <= UPPER_F);
            if !h1_ok || !h2_ok {
                return false;
            }
            i += 3;
        } else if (LOWER_A <= c && c <= LOWER_Z) || (UPPER_A <= c && c <= UPPER_Z) || (DIGIT_0 <= c && c <= DIGIT_9)
            || c == DOT || c == DASH || c == UNDERSCORE || c == COLON {
            i += 1;
        } else {
            return false;
        }
    }

    if bytes[bytes.len() - 1] == COLON {
        return false;
    }

    true
}

proof fn lemma_did_id_ascii(b: Seq<u8>, i: int)
    requires
        0 <= i,
        valid_did_id_from(b, i),
    ensures
        forall|j: int| i <= j < b.len() ==> b[j] < 128,
    decreases b.len() - i,
{
    if i < b.len() {
        if b[i] == PERCENT {
            lemma_did_id_ascii(b, i + 3);
        } else {
            lemma_did_id_ascii(b, i + 1);
        }
    }
}

/// Every byte of a valid DID is ASCII.
pub proof fn lemma_did_ascii(b: Seq<u8>)
    requires
        valid_did(b),
    ensures
        forall|j: int| 0 <= j < b.len() ==> b[j] < 128,
{
    let m = seek_byte(b, 4, COLON);
    lemma_did_id_ascii(b, m);
    assert forall|j: int| 0 <= j < b.len() implies b[j] < 128 by {
        if 4 <= j < m {
            assert(is_method_byte(b[j]));
        }
    }
}

/// The error returned when a string is not a valid DID.
#[derive(Debug, Clone, Copy, PartialEq, Eq, Structural)]
pub struct DidParseError;

/// A string guaranteed by construction to match the DID grammar.
#[derive(Debug)]
pub struct Did {
    text: String,
}

impl View for Did {
    type V = Seq<char>;

    closed spec fn view(&self) -> Seq<char> {
        self.text@
    }
}

impl Did {
    /// The stored text always satisfies the DID grammar.
    #[verifier::type_invariant]
    pub open spec fn wf(&self) -> bool {
        valid_did(encode_utf8(self@))
    }

    /// Creates a new [`Did`] from the provided string.
    ///
    /// If the string is not a valid DID, this function fails.
    pub fn new(text: String) -> (r: Result<Did, DidParseError>)
        ensures
            r is Ok <==> valid_did(encode_utf8(text@)),
            r matches Ok(d) ==> d@ == text@,
    {
        if validate_did(text.as_str().as_bytes()) {
            Ok(Did { text })
        } else {
            Err(DidParseError)
        }
    }

    /// Returns the underlying string.
    pub fn as_str(&self) -> (r: &str)
        ensures
            r@ == self@,
            valid_did(encode_utf8(r@)),
    {
        proof {
            use_type_invariant(self);
        }
        self.text.as_str()
    }
}

impl Clone for Did {
    fn clone(&self) -> (r: Self)
        ensures
            r@ == self@,
    {
        proof {
            use_type_invariant(self);
        }
        Did { text: self.text.clone() }
    }
}

impl PartialEq for Did {
    fn eq(&self, other: &Did) -> (r: bool) {
        self.text == other.text
    }
}

impl vstd::std_specs::cmp::PartialEqSpecImpl for Did {
    open spec fn obeys_eq_spec() -> bool {
        true
    }

    open spec fn eq_spec(&self, other: &Did) -> bool {
        self@ == other@
    }
}

/// Round trip: the textual form of any [`Did`] value passes the validator
/// again, and two [`Did`] values with the same text compare equal.
pub proof fn lemma_did_round_trip(a: Did, b: Did)
    requires
        a.wf(),
    ensures
        valid_did(encode_utf8(a@)),
        a@ == b@ ==> vstd::std_specs::cmp::PartialEqSpec::eq_spec(&a, &b),
{
}

} // verus!
