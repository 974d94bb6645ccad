//! The identifier sum type: a DID or a handle, decided once at parse time.
//!
//! A string that starts with `did:` is parsed as a DID and a DID parse error
//! is propagated; any other string is parsed as a handle and a handle parse
//! error is propagated. There is no fallback between the two branches.

use vstd::prelude::*;
use vstd::string::StringSliceAdditionalSpecFns;
use vstd::utf8::encode_utf8;

use crate::bytes::{COLON, LOWER_D, LOWER_I};
use crate::did::{has_did_prefix, valid_did, Did, DidParseError};
use crate::handle::{valid_handle, Handle, HandleParseError};

verus! {

/// An identifier that can be used to reference a repository.
#[derive(Debug)]
pub enum AtIdentifier {
    /// The identifier is a DID.
    Did(Did),
    /// The identifier is a handle.
    Handle(Handle),
}

/// The error returned when a string is neither a valid DID (for `did:`
/// strings) nor a valid handle (for all others).
#[derive(Debug, Clone, Copy, PartialEq, Eq, Structural)]
pub enum AtIdentifierParseError {
    /// The string started with `did:` and failed DID validation.
    Did(DidParseError),
    /// The string did not start with `did:` and failed handle validation.
    Handle(HandleParseError),
}

impl View for AtIdentifier {
    type V = Seq<char>;

    open spec fn view(&self) -> Seq<char> {
        match self {
            AtIdentifier::Did(d) => d@,
            AtIdentifier::Handle(h) => h@,
        }
    }
}

impl AtIdentifier {
    /// Both variants carry a value that satisfies its own grammar.
    pub open spec fn wf(&self) -> bool {
        match self {
            AtIdentifier::Did(d) => d.wf(),
            AtIdentifier::Handle(h) => h.wf(),
        }
    }

    /// Parses the provided string: as a DID when it starts with `did:`, as a
    /// handle otherwise, propagating the error of whichever branch was
    /// taken.
    pub fn new(text: String) -> (r: Result<AtIdentifier, AtIdentifierParseError>)
        ensures
            ({
                let b = encode_utf8(text@);
                if has_did_prefix(b) {
                    &&& r is Ok <==> valid_did(b)
                    &&& (r matches Ok(id) ==> id matches AtIdentifier::Did(d) && d@ == text@)
                    &&& (r is Err ==> r == Err::<AtIdentifier, _>(
                        AtIdentifierParseError::Did(DidParseError),
                    ))
                } else {
                    &&& r is Ok <==> valid_handle(b)
                    &&& (r matches Ok(id) ==> id matches AtIdentifier::Handle(h) && h@ == text@)
                    &&& (r is Err ==> r == Err::<AtIdentifier, _>(
                        AtIdentifierParseError::Handle(HandleParseError),
                    ))
                }
            }),
    {
        let bytes = text.as_str().as_bytes();
        let did_start = bytes.len() >= 4 && bytes[0] == LOWER_D && bytes[1] == LOWER_I && bytes[2]
            == LOWER_D && bytes[3] == COLON;
        if did_start {
            match Did::new(text) {
                Ok(d) => Ok(AtIdentifier::Did(d)),
                Err(e) => Err(AtIdentifierParseError::Did(e)),
            }
        } else {
            match Handle::new(text) {
                Ok(h) => Ok(AtIdentifier::Handle(h)),
                Err(e) => Err(AtIdentifierParseError::Handle(e)),
            }
        }
    }

    /// Returns the identifier as a string.
    pub fn as_str(&self) -> (r: &str)
        ensures
            r@ == self@,
    {
        match self {
            AtIdentifier::Did(d) => d.as_str(),
            AtIdentifier::Handle(h) => h.as_str(),
        }
    }
}

impl Clone for AtIdentifier {
    fn clone(&self) -> (r: Self)
        ensures
            r@ == self@,
            r is Did <==> self is Did,
    {
        match self {
            AtIdentifier::Did(d) => AtIdentifier::Did(d.clone()),
            AtIdentifier::Handle(h) => AtIdentifier::Handle(h.clone()),
        }
    }
}

impl PartialEq for AtIdentifier {
    fn eq(&self, other: &AtIdentifier) -> (r: bool) {
        match (self, other) {
            (AtIdentifier::Did(a), AtIdentifier::Did(b)) => *a == *b,
            (AtIdentifier::Handle(a), AtIdentifier::Handle(b)) => *a == *b,
            _ => false,
        }
    }
}

impl vstd::std_specs::cmp::PartialEqSpecImpl for AtIdentifier {
    open spec fn obeys_eq_spec() -> bool {
        true
    }

    open spec fn eq_spec(&self, other: &AtIdentifier) -> bool {
        match (self, other) {
            (AtIdentifier::Did(a), AtIdentifier::Did(b)) => a@ == b@,
            (AtIdentifier::Handle(a), AtIdentifier::Handle(b)) => a@ == b@,
            _ => false,
        }
    }
}

/// No valid handle contains a colon, so no string is both a valid DID and a
/// valid handle.
pub proof fn lemma_did_handle_disjoint(b: Seq<u8>)
    ensures
        !(valid_did(b) && valid_handle(b)),
{
    if valid_did(b) && valid_handle(b) {
        lemma_handle_no_colon(b);
        assert(b[3] == COLON);
    }
}

/// A valid handle has no colon byte.
proof fn lemma_handle_no_colon(h: Seq<u8>)
    requires
        valid_handle(h),
    ensures
        forall|j: int| 0 <= j < h.len() ==> h[j] != COLON,
{
    crate::bytes::lemma_rseek_byte(h, crate::bytes::DOT);
    let ld = crate::bytes::rseek_byte(h, crate::bytes::DOT);
    if ld < 0 {
        assert forall|j: int| 0 <= j < h.len() implies h[j] != COLON by {
            if j > 0 {
                assert(crate::handle::is_label_rest_byte(h[j]));
            }
        }
    } else {
        lemma_labels_no_colon(h, 0, ld);
        let t = h.subrange(ld + 1, h.len() as int);
        assert forall|j: int| 0 <= j < h.len() implies h[j] != COLON by {
            if j == ld {
            } else if j == ld + 1 {
                assert(crate::handle::is_lower_alpha(t[0]));
            } else if j > ld + 1 {
                assert(crate::handle::is_label_rest_byte(t[j - ld - 1]));
            }
        }
    }
}

proof fn lemma_labels_no_colon(h: Seq<u8>, i: int, end: int)
    requires
        crate::handle::valid_labels_from(h, i, end),
    ensures
        forall|j: int| i <= j < end ==> h[j] != COLON,
    decreases end - i,
{
    crate::bytes::lemma_seek3(h, i, crate::bytes::DOT, crate::bytes::DOT, crate::bytes::DOT);
    let s = crate::bytes::seek_byte(h, i, crate::bytes::DOT);
    let d = if s < end {
        s
    } else {
        end
    };
    if d >= end {
        let l = h.subrange(i, end);
        assert forall|j: int| i <= j < end implies h[j] != COLON by {
            if j == i {
                assert(crate::handle::is_lower_alpha(l[0]));
            } else if j == end - 1 {
                assert(crate::handle::is_lower_alpha(l[l.len() - 1]));
            } else {
                assert(crate::handle::is_label_rest_byte(l[j - i]));
            }
        }
    } else {
        lemma_labels_no_colon(h, d + 1, end);
        let l = h.subrange(i, d);
        assert forall|j: int| i <= j < end implies h[j] != COLON by {
            if j < d {
                if j == i {
                    assert(crate::handle::is_lower_alpha(l[0]));
                } else if j == d - 1 {
                    assert(crate::handle::is_lower_alpha(l[l.len() - 1]));
                } else {
                    assert(crate::handle::is_label_rest_byte(l[j - i]));
                }
            } else if j == d {
                assert(h[d] == crate::bytes::DOT);
            }
        }
    }
}

/// Round trip: the textual form of any [`AtIdentifier`] re-parses to the
/// same variant, and two values with the same text compare equal.
pub proof fn lemma_at_identifier_round_trip(a: AtIdentifier, b: AtIdentifier)
    requires
        a.wf(),
        b.wf(),
    ensures
        a matches AtIdentifier::Did(d) ==> has_did_prefix(encode_utf8(a@)) && valid_did(
            encode_utf8(a@),
        ),
        a matches AtIdentifier::Handle(h) ==> !has_did_prefix(encode_utf8(a@)) && valid_handle(
            encode_utf8(a@),
        ),
        a@ == b@ ==> vstd::std_specs::cmp::PartialEqSpec::eq_spec(&a, &b),
{
    if a matches AtIdentifier::Handle(h) {
        if has_did_prefix(encode_utf8(a@)) {
            lemma_handle_no_colon(encode_utf8(a@));
            assert(encode_utf8(a@)[3] == COLON);
        }
    }
    if a@ == b@ {
        lemma_did_handle_disjoint(encode_utf8(a@));
    }
}

} // verus!
