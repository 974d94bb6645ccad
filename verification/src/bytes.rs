//! Byte-level scanning helpers shared by the identifier validators: first and
//! last occurrence of a byte, and equality of byte strings.

use vstd::prelude::*;
use vstd::string::StringSliceAdditionalSpecFns;
use vstd::utf8::{encode_scalar, encode_utf8};

verus! {

// Named ASCII codes for the punctuation bytes the grammars use.
pub const COLON: u8 = 58;
pub const DOT: u8 = 46;
pub const PERCENT: u8 = 37;
pub const SLASH: u8 = 47;
pub const QUESTION: u8 = 63;
pub const HASH: u8 = 35;
pub const DASH: u8 = 45;
pub const UNDERSCORE: u8 = 95;
pub const TILDE: u8 = 126;
pub const LOWER_A: u8 = 97;
pub const LOWER_D: u8 = 100;
pub const LOWER_F: u8 = 102;
pub const LOWER_I: u8 = 105;
pub const LOWER_T: u8 = 116;
pub const LOWER_Z: u8 = 122;
pub const UPPER_A: u8 = 65;
pub const UPPER_F: u8 = 70;
pub const UPPER_Z: u8 = 90;
pub const DIGIT_0: u8 = 48;
pub const DIGIT_9: u8 = 57;

/// True when `x` is one of the three given bytes.
pub open spec fn is_one_of(x: u8, c1: u8, c2: u8, c3: u8) -> bool {
    x == c1 || x == c2 || x == c3
}

/// Index of the first byte at or after `i` that is one of `c1`, `c2`, `c3`,
/// or `b.len()` when no such byte follows.
pub open spec fn seek3(b: Seq<u8>, i: int, c1: u8, c2: u8, c3: u8) -> int
    decreases b.len() - i,
{
    if i < 0 || i >= b.len() {
        b.len() as int
    } else if is_one_of(b[i], c1, c2, c3) {
        i
    } else {
        seek3(b, i + 1, c1, c2, c3)
    }
}

/// Index of the first occurrence of `c` at or after `i`, or `b.len()`.
pub open spec fn seek_byte(b: Seq<u8>, i: int, c: u8) -> int {
    seek3(b, i, c, c, c)
}

pub proof fn lemma_seek3(b: Seq<u8>, i: int, c1: u8, c2: u8, c3: u8)
    requires
        0 <= i <= b.len(),
    ensures
        i <= seek3(b, i, c1, c2, c3) <= b.len(),
        seek3(b, i, c1, c2, c3) < b.len() ==> is_one_of(b[seek3(b, i, c1, c2, c3)], c1, c2, c3),
        forall|j: int| i <= j < seek3(b, i, c1, c2, c3) ==> !is_one_of(b[j], c1, c2, c3),
    decreases b.len() - i,
{
    if i < b.len() && !is_one_of(b[i], c1, c2, c3) {
        lemma_seek3(b, i + 1, c1, c2, c3);
    }
}

/// Seeking from `i` or from `k` gives the same position when no byte in
/// `[i, k)` matches.
pub proof fn lemma_seek3_skip(b: Seq<u8>, i: int, k: int, c1: u8, c2: u8, c3: u8)
    requires
        0 <= i <= k <= b.len(),
        forall|j: int| i <= j < k ==> !is_one_of(b[j], c1, c2, c3),
    ensures
        seek3(b, i, c1, c2, c3) == seek3(b, k, c1, c2, c3),
    decreases k - i,
{
    if i < k {
        lemma_seek3_skip(b, i + 1, k, c1, c2, c3);
    }
}

/// Finds the first byte at or after `start` that is one of the three given
/// bytes, returning `b.len()` when none is.
pub fn scan3(b: &[u8], start: usize, c1: u8, c2: u8, c3: u8) -> (r: usize)
    requires
        start <= b@.len(),
    ensures
        r == seek3(b@, start as int, c1, c2, c3),
{
    let mut i: usize = start;
    while i < b.len()
        invariant
            start <= i <= b@.len(),
            forall|j: int| start <= j < i ==> !is_one_of(b@[j], c1, c2, c3),
        decreases b@.len() - i,
    {
        let x = b[i];
        if x == c1 || x == c2 || x == c3 {
            proof {
                lemma_seek3_skip(b@, start as int, i as int, c1, c2, c3);
                assert(seek3(b@, i as int, c1, c2, c3) == i);
            }
            return i;
        }
        i += 1;
    }
    proof {
        lemma_seek3_skip(b@, start as int, i as int, c1, c2, c3);
    }
    i
}

/// Finds the first occurrence of `c` at or after `start`, returning `b.len()`
/// when `c` does not occur there.
pub fn scan_byte(b: &[u8], start: usize, c: u8) -> (r: usize)
    requires
        start <= b@.len(),
    ensures
        r == seek_byte(b@, start as int, c),
{
    scan3(b, start, c, c, c)
}

/// Index of the last occurrence of `c` in `b`, or `-1` when absent.
pub open spec fn rseek_byte(b: Seq<u8>, c: u8) -> int
    decreases b.len(),
{
    if b.len() == 0 {
        -1
    } else if b[b.len() - 1] == c {
        b.len() - 1
    } else {
        rseek_byte(b.drop_last(), c)
    }
}

pub proof fn lemma_rseek_byte(b: Seq<u8>, c: u8)
    ensures
        -1 <= rseek_byte(b, c) < b.len(),
        rseek_byte(b, c) >= 0 ==> b[rseek_byte(b, c)] == c,
        forall|j: int| rseek_byte(b, c) < j < b.len() ==> b[j] != c,
    decreases b.len(),
{
    if b.len() > 0 && b[b.len() - 1] != c {
        lemma_rseek_byte(b.drop_last(), c);
        assert(forall|j: int| 0 <= j < b.len() - 1 ==> b.drop_last()[j] == b[j]);
    }
}

/// A position whose byte is `c`, with no occurrence of `c` after it, is the
/// last occurrence.
pub proof fn lemma_rseek_byte_at(b: Seq<u8>, c: u8, k: int)
    requires
        0 <= k < b.len(),
        b[k] == c,
        forall|j: int| k < j < b.len() ==> b[j] != c,
    ensures
        rseek_byte(b, c) == k,
    decreases b.len(),
{
    if k < b.len() - 1 {
        lemma_rseek_byte_at(b.drop_last(), c, k);
    }
}

/// Finds the last occurrence of `c` in `b`, if any.
pub fn rscan_byte(b: &[u8], c: u8) -> (r: Option<usize>)
    ensures
        match r {
            Some(i) => i == rseek_byte(b@, c),
            None => rseek_byte(b@, c) == -1,
        },
{
    let mut i: usize = b.len();
    while i > 0
        invariant
            i <= b@.len(),
            forall|j: int| i <= j < b@.len() ==> b@[j] != c,
        decreases i,
    {
        i -= 1;
        if b[i] == c {
            proof {
                lemma_rseek_byte_at(b@, c, i as int);
            }
            return Some(i);
        }
    }
    proof {
        lemma_rseek_byte(b@, c);
    }
    None
}

/// Compares two byte strings for equality.
pub fn bytes_eq(a: &[u8], b: &[u8]) -> (r: bool)
    ensures
        r <==> a@ == b@,
{
    if a.len() != b.len() {
        return false;
    }
    let mut i: usize = 0;
    while i < a.len()
        invariant
            a@.len() == b@.len(),
            i <= a@.len(),
            forall|j: int| 0 <= j < i ==> a@[j] == b@[j],
        decreases a@.len() - i,
    {
        if a[i] != b[i] {
            return false;
        }
        i += 1;
    }
    proof {
        assert(a@ =~= b@);
    }
    true
}

/// A character sequence whose UTF-8 encoding contains only bytes below 128
/// is an ASCII sequence.
pub proof fn lemma_ascii_bytes_to_chars(s: Seq<char>)
    requires
        forall|i: int| 0 <= i < encode_utf8(s).len() ==> encode_utf8(s)[i] < 128,
    ensures
        vstd::utf8::is_ascii_chars(s),
    decreases s.len(),
{
    if s.len() > 0 {
        let c = s[0] as u32;
        vstd::utf8::char_is_scalar(s[0]);
        let b = encode_utf8(s);
        assert(b[0] == encode_scalar(c)[0]);
        if !vstd::utf8::has_width_1_encoding(c) {
            let w2 = vstd::utf8::leading_byte_width_2(c);
            let w3 = vstd::utf8::leading_byte_width_3(c);
            let w4 = vstd::utf8::leading_byte_width_4(c);
            assert(w2 >= 128 && w3 >= 128 && w4 >= 128) by (bit_vector)
                requires
                    w2 == 0xC0 | ((c >> 6) & 0x1F) as u8,
                    w3 == 0xE0 | ((c >> 12) & 0x0F) as u8,
                    w4 == 0xF0 | ((c >> 18) & 0x7) as u8,
            ;
            assert(false);
        }
        assert(encode_utf8(s.drop_first()) =~= b.subrange(1, b.len() as int));
        lemma_ascii_bytes_to_chars(s.drop_first());
        assert(s[0] as u32 <= 0x7f);
        assert('\u{7f}' as u32 == 0x7f);
        vstd::utf8::char_u32_cast(s[0], c);
        vstd::utf8::char_u32_cast('\u{7f}', 0x7f);
        assert(s[0] <= '\u{7f}');
        assert(forall|i: int| 0 < i < s.len() ==> s[i] == s.drop_first()[i - 1]);
    }
}

/// Compares two strings for equality of their character sequences.
pub fn str_eq(a: &str, b: &str) -> (r: bool)
    ensures
        r <==> a@ == b@,
{
    let r = bytes_eq(a.as_bytes(), b.as_bytes());
    proof {
        if a.spec_bytes() == b.spec_bytes() {
            vstd::utf8::encode_utf8_decode_utf8(a@);
            vstd::utf8::encode_utf8_decode_utf8(b@);
        }
    }
    r
}

} // verus!
