//! DNS-style handles: dot-separated labels, at most 253 bytes in all.
//!
//! The rightmost label (the TLD) must start with a lowercase ASCII letter and
//! continue with bytes from `[a-z0-9-]`. Every other label is 1 to 63 bytes,
//! starts and ends with a lowercase ASCII letter, and has interior bytes from
//! `[a-z0-9-]`. Label boundaries are restricted to letters, not
//! alphanumerics: this matches the observed behaviour of the grammar even
//! though common handle specifications are more permissive.

use vstd::prelude::*;
use vstd::string::StringSliceAdditionalSpecFns;
use vstd::utf8::encode_utf8;

use crate::bytes::{
    lemma_rseek_byte, lemma_seek3, rscan_byte, rseek_byte, scan_byte, seek_byte, DASH, DIGIT_0,
    DIGIT_9, DOT, LOWER_A, LOWER_Z,
};

verus! {

/// A lowercase ASCII letter.
pub open spec fn is_lower_alpha(c: u8) -> bool {
    LOWER_A <= c <= LOWER_Z
}

/// A byte allowed after the first position of a label: `[a-z0-9-]`.
pub open spec fn is_label_rest_byte(c: u8) -> bool {
    (LOWER_A <= c <= LOWER_Z) || (DIGIT_0 <= c <= DIGIT_9) || c == DASH
}

/// A valid rightmost label: non-empty, a lowercase letter first, then
/// `[a-z0-9-]`.
pub open spec fn valid_tld(t: Seq<u8>) -> bool {
    &&& t.len() >= 1
    &&& is_lower_alpha(t[0])
    &&& forall|j: int| 1 <= j < t.len() ==> is_label_rest_byte(t[j])
}

/// A valid non-final label: 1 to 63 bytes, a lowercase letter at both ends,
/// `[a-z0-9-]` in between.
pub open spec fn valid_label(l: Seq<u8>) -> bool {
    &&& 1 <= l.len() <= 63
    &&& is_lower_alpha(l[0])
    &&& is_lower_alpha(l[l.len() - 1])
    &&& forall|j: int| 0 < j < l.len() - 1 ==> is_label_rest_byte(l[j])
}

/// The bytes of `h` in `[i, end)`, split on `.`, form a sequence of valid
/// non-final labels.
pub open spec fn valid_labels_from(h: Seq<u8>, i: int, end: int) -> bool
    decreases end - i via valid_labels_from_dec
{
    if !(0 <= i <= end <= h.len()) {
        false
    } else {
        let d = if seek_byte(h, i, DOT) < end {
            seek_byte(h, i, DOT)
        } else {
            end
        };
        if d >= end {
            valid_label(h.subrange(i, end))
        } else {
            valid_label(h.subrange(i, d)) && valid_labels_from(h, d + 1, end)
        }
    }
}

#[via_fn]
proof fn valid_labels_from_dec(h: Seq<u8>, i: int, end: int) {
    if 0 <= i <= end <= h.len() {
        lemma_seek3(h, i, DOT, DOT, DOT);
    }
}

/// The whole handle grammar over a byte string.
pub open spec fn valid_handle(h: Seq<u8>) -> bool {
    &&& h.len() <= 253
    &&& {
        let ld = rseek_byte(h, DOT);
        if ld < 0 {
            valid_tld(h)
        } else {
            valid_tld(h.subrange(ld + 1, h.len() as int)) && valid_labels_from(h, 0, ld)
        }
    }
}

/// Checks `b[start..end]` against the rightmost-label rule.
fn check_tld(b: &[u8], start: usize, end: usize) -> (r: bool)
    requires
        start <= end <= b@.len(),
    ensures
        r == valid_tld(b@.subrange(start as int, end as int)),
{
    if end == start {
        return false;
    }
    let first = b[start];
    if !(LOWER_A <= first && first <= LOWER_Z) {
        return false;
    }
    let mut j: usize = start + 1;
    while j < end
        invariant
            start < j <= end <= b@.len(),
            forall|k: int| start < k < j ==> is_label_rest_byte(b@[k]),
        decreases end - j,
    {
        let c = b[j];
        if !((LOWER_A <= c && c <= LOWER_Z) || (DIGIT_0 <= c && c <= DIGIT_9) || c == DASH) {
            assert(!is_label_rest_byte(b@.subrange(start as int, end as int)[j - start as int]));
            return false;
        }
        j += 1;
    }
    true
}

/// Checks `b[start..end]` against the non-final-label rule.
fn check_label(b: &[u8], start: usize, end: usize) -> (r: bool)
    requires
        start <= end <= b@.len(),
    ensures
        r == valid_label(b@.subrange(start as int, end as int)),
{
    if end == start || end - start > 63 {
        return false;
    }
    let first = b[start];
    let last = b[end - 1];
    if !(LOWER_A <= first && first <= LOWER_Z) || !(LOWER_A <= last && last <= LOWER_Z) {
        return false;
    }
    let mut j: usize = start + 1;
    while j < end - 1
        invariant
            start < j <= end <= b@.len(),
            end - start <= 63,
            forall|k: int| start < k < j ==> is_label_rest_byte(b@[k]),
        decreases end - j,
    {
        let c = b[j];
        if !((LOWER_A <= c && c <= LOWER_Z) || (DIGIT_0 <= c && c <= DIGIT_9) || c == DASH) {
            assert(!is_label_rest_byte(b@.subrange(start as int, end as int)[j - start as int]));
            return false;
        }
        j += 1;
    }
    true
}

/// Checks that the bytes of `b` before `end` form valid labels split on `.`.
fn check_labels(b: &[u8], end: usize) -> (r: bool)
    requires
        end < b@.len(),
        b@[end as int] == DOT,
    ensures
        r == valid_labels_from(b@, 0, end as int),
{
    let mut i: usize = 0;
    loop
        invariant
            i <= end < b@.len(),
            b@[end as int] == DOT,
            valid_labels_from(b@, 0, end as int) == valid_labels_from(b@, i as int, end as int),
        decreases end - i,
    {
        let d = scan_byte(b, i, DOT);
        proof {
            lemma_seek3(b@, i as int, DOT, DOT, DOT);
            if d > end {
                assert(!crate::bytes::is_one_of(b@[end as int], DOT, DOT, DOT));
                assert(false);
            }
        }
        if d == end {
            return check_label(b, i, end);
        }
        if !check_label(b, i, d) {
            return false;
        }
        i = d + 1;
    }
}

/// Validates the provided bytes as a handle.
pub fn validate_handle(handle: &[u8]) -> (r: bool)
    ensures
        r == valid_handle(handle@),
{
    if handle.len() > 253 {
        return false;
    }
    match rscan_byte(handle, DOT) {
        None => {
            let r = check_tld(handle, 0, handle.len());
            proof {
                assert(handle@.subrange(0, handle@.len() as int) =~= handle@);
            }
            r
        },
        Some(ld) => {
            proof {
                lemma_rseek_byte(handle@, DOT);
            }
            if !check_tld(handle, ld + 1, handle.len()) {
                return false;
            }
            check_labels(handle, ld)
        },
    }
}

proof fn lemma_labels_ascii(h: Seq<u8>, i: int, end: int)
    requires
        valid_labels_from(h, i, end),
    ensures
        forall|j: int| i <= j < end ==> h[j] < 128,
    decreases end - i,
{
    lemma_seek3(h, i, DOT, DOT, DOT);
    let s = seek_byte(h, i, DOT);
    let d = if s < end {
        s
    } else {
        end
    };
    if d >= end {
        let l = h.subrange(i, end);
        assert forall|j: int| i <= j < end implies h[j] < 128 by {
            if j == i {
                assert(is_lower_alpha(l[0]));
            } else if j == end - 1 {
                assert(is_lower_alpha(l[l.len() - 1]));
            } else {
                assert(is_label_rest_byte(l[j - i]));
            }
        }
    } else {
        lemma_labels_ascii(h, d + 1, end);
        let l = h.subrange(i, d);
        assert forall|j: int| i <= j < end implies h[j] < 128 by {
            if j < d {
                if j == i {
                    assert(is_lower_alpha(l[0]));
                } else if j == d - 1 {
                    assert(is_lower_alpha(l[l.len() - 1]));
                } else {
                    assert(is_label_rest_byte(l[j - i]));
                }
            } else if j == d {
                assert(h[d] == DOT);
            }
        }
    }
}

/// Every byte of a valid handle is ASCII.
pub proof fn lemma_handle_ascii(h: Seq<u8>)
    requires
        valid_handle(h),
    ensures
        forall|j: int| 0 <= j < h.len() ==> h[j] < 128,
{
    lemma_rseek_byte(h, DOT);
    let ld = rseek_byte(h, DOT);
    if ld < 0 {
        assert forall|j: int| 0 <= j < h.len() implies h[j] < 128 by {
            if j > 0 {
                assert(is_label_rest_byte(h[j]));
            }
        }
    } else {
        lemma_labels_ascii(h, 0, ld);
        let t = h.subrange(ld + 1, h.len() as int);
        assert forall|j: int| 0 <= j < h.len() implies h[j] < 128 by {
            if j == ld {
                assert(h[ld] == DOT);
            } else if j == ld + 1 {
                assert(is_lower_alpha(t[0]));
            } else if j > ld + 1 {
                assert(is_label_rest_byte(t[j - ld - 1]));
            }
        }
    }
}

/// The error returned when a string is not a valid handle.
#[derive(Debug, Clone, Copy, PartialEq, Eq, Structural)]
pub struct HandleParseError;

/// A string guaranteed by construction to match the handle grammar.
#[derive(Debug)]
pub struct Handle {
    text: String,
}

impl View for Handle {
    type V = Seq<char>;

    closed spec fn view(&self) -> Seq<char> {
        self.text@
    }
}

impl Handle {
    /// The stored text always satisfies the handle grammar.
    #[verifier::type_invariant]
    pub open spec fn wf(&self) -> bool {
        valid_handle(encode_utf8(self@))
    }

    /// Creates a new [`Handle`] from the provided string.
    ///
    /// If the string is not a valid handle, this function fails.
    pub fn new(text: String) -> (r: Result<Handle, HandleParseError>)
        ensures
            r is Ok <==> valid_handle(encode_utf8(text@)),
            r matches Ok(h) ==> h@ == text@,
    {
        if validate_handle(text.as_str().as_bytes()) {
            Ok(Handle { text })
        } else {
            Err(HandleParseError)
        }
    }

    /// Returns the underlying string.
    pub fn as_str(&self) -> (r: &str)
        ensures
            r@ == self@,
            valid_handle(encode_utf8(r@)),
    {
        proof {
            use_type_invariant(self);
        }
        self.text.as_str()
    }
}

impl Clone for Handle {
    fn clone(&self) -> (r: Self)
        ensures
            r@ == self@,
    {
        proof {
            use_type_invariant(self);
        }
        Handle { text: self.text.clone() }
    }
}

impl PartialEq for Handle {
    fn eq(&self, other: &Handle) -> (r: bool) {
        self.text == other.text
    }
}

impl vstd::std_specs::cmp::PartialEqSpecImpl for Handle {
    open spec fn obeys_eq_spec() -> bool {
        true
    }

    open spec fn eq_spec(&self, other: &Handle) -> bool {
        self@ == other@
    }
}

/// Round trip: the textual form of any [`Handle`] value passes the validator
/// again, and two [`Handle`] values with the same text compare equal.
pub proof fn lemma_handle_round_trip(a: Handle, b: Handle)
    requires
        a.wf(),
    ensures
        valid_handle(encode_utf8(a@)),
        a@ == b@ ==> vstd::std_specs::cmp::PartialEqSpec::eq_spec(&a, &b),
{
}

/// A byte string longer than 253 bytes is never a valid handle.
pub proof fn lemma_handle_length_bound(h: Seq<u8>)
    ensures
        h.len() > 253 ==> !valid_handle(h),
{
}

/// The final label of a valid handle is non-empty and starts with a
/// lowercase ASCII letter.
pub proof fn lemma_handle_final_label_letter(h: Seq<u8>)
    requires
        valid_handle(h),
    ensures
        rseek_byte(h, DOT) + 1 < h.len(),
        is_lower_alpha(h[rseek_byte(h, DOT) + 1]),
{
    lemma_rseek_byte(h, DOT);
    let ld = rseek_byte(h, DOT);
    if ld >= 0 {
        let t = h.subrange(ld + 1, h.len() as int);
        assert(is_lower_alpha(t[0]));
    }
}

/// A valid handle starts with a lowercase ASCII letter; in particular no
/// label may start with a digit.
pub proof fn lemma_handle_first_byte(h: Seq<u8>)
    requires
        valid_handle(h),
    ensures
        h.len() > 0,
        is_lower_alpha(h[0]),
{
    lemma_rseek_byte(h, DOT);
    let ld = rseek_byte(h, DOT);
    if ld >= 0 {
        lemma_seek3(h, 0, DOT, DOT, DOT);
        let d0 = seek_byte(h, 0, DOT);
        let d = if d0 < ld {
            d0
        } else {
            ld
        };
        if d >= ld {
            assert(valid_label(h.subrange(0, ld)));
            assert(is_lower_alpha(h.subrange(0, ld)[0]));
        } else {
            assert(valid_label(h.subrange(0, d)));
            assert(is_lower_alpha(h.subrange(0, d)[0]));
        }
    }
}

} // verus!
