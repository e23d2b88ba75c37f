//! Decoding of the NUL-padded name field of a directory entry.
//!
//! A name field holds up to [`crate::FILENAME_LEN`] raw bytes; the name
//! is the prefix up to the first NUL byte (or the whole field when
//! there is none) and must be valid UTF-8. Validation is executable
//! and proved against vstd's UTF-8 model, reporting the byte offset of
//! the first invalid sequence on failure.

use vstd::prelude::*;

use vstd::utf8::{
    is_continuation_byte, is_leading_byte_width_1, is_leading_byte_width_2,
    is_leading_byte_width_3, is_leading_byte_width_4, length_of_first_scalar, pop_first_scalar,
    valid_first_scalar, valid_utf8,
};

verus! {

/// Index of the first NUL byte in the sequence, or its length when it
/// holds none.
pub open spec fn spec_first_nul(s: Seq<u8>) -> int
    decreases s.len(),
{
    if s.len() == 0 {
        0
    } else if s[0] == 0 {
        0
    } else {
        1 + spec_first_nul(s.drop_first())
    }
}

/// The first NUL index is the unique position with no NUL before it
/// that either holds a NUL or is the end of the sequence.
pub proof fn lemma_first_nul_is(s: Seq<u8>, k: int)
    requires
        0 <= k <= s.len(),
        forall|j: int| 0 <= j < k ==> s[j] != 0,
        k < s.len() ==> s[k] == 0,
    ensures
        spec_first_nul(s) == k,
    decreases s.len(),
{
    if s.len() == 0 {
    } else if s[0] == 0 {
        assert(k == 0);
    } else {
        let t = s.drop_first();
        assert(forall|j: int| 0 <= j < k - 1 ==> t[j] == s[j + 1] && t[j] != 0);
        lemma_first_nul_is(t, k - 1);
    }
}

/// The name stored in a raw name field: the prefix up to the first NUL.
pub open spec fn spec_name_of(raw: Seq<u8>) -> Seq<u8> {
    raw.subrange(0, spec_first_nul(raw))
}

/// Position at which a left-to-right UTF-8 scan of `s`, starting at
/// byte `i`, first fails to decode a scalar; `s.len()` when the rest
/// of the sequence is valid.
pub open spec fn spec_utf8_scan(s: Seq<u8>, i: int) -> int
    recommends
        0 <= i <= s.len(),
    decreases s.len() - i,
    when 0 <= i <= s.len()
{
    if i == s.len() {
        i
    } else {
        let rest = s.subrange(i, s.len() as int);
        if valid_first_scalar(rest) {
            spec_utf8_scan(s, i + length_of_first_scalar(rest))
        } else {
            i
        }
    }
}

/// The scan never moves backwards and never passes the end.
pub proof fn lemma_scan_bounds(s: Seq<u8>, i: int)
    requires
        0 <= i <= s.len(),
    ensures
        i <= spec_utf8_scan(s, i) <= s.len(),
    decreases s.len() - i,
{
    if i < s.len() {
        let rest = s.subrange(i, s.len() as int);
        if valid_first_scalar(rest) {
            lemma_scan_bounds(s, i + length_of_first_scalar(rest));
        }
    }
}

/// The scan reaches the end of the sequence exactly when the part of
/// the sequence from the scan's start is valid UTF-8.
pub proof fn lemma_scan_valid(s: Seq<u8>, i: int)
    requires
        0 <= i <= s.len(),
    ensures
        (spec_utf8_scan(s, i) == s.len()) <==> valid_utf8(s.subrange(i, s.len() as int)),
    decreases s.len() - i,
{
    let rest = s.subrange(i, s.len() as int);
    if i == s.len() {
        assert(rest.len() == 0);
    } else {
        if valid_first_scalar(rest) {
            let n = length_of_first_scalar(rest);
            lemma_scan_valid(s, i + n);
            assert(pop_first_scalar(rest) =~= s.subrange(i + n, s.len() as int));
        } else {
            lemma_scan_bounds(s, i);
        }
    }
}

/// The scan of the whole sequence reaches the end exactly when the
/// sequence is valid UTF-8.
pub proof fn lemma_scan_full(s: Seq<u8>)
    ensures
        (spec_utf8_scan(s, 0) == s.len()) <==> valid_utf8(s),
{
    lemma_scan_valid(s, 0);
    assert(s.subrange(0, s.len() as int) =~= s);
}

proof fn lemma_width_1_bounds(b0: u8)
    by (bit_vector)
    requires
        b0 < 0x80,
    ensures
        ((b0 & 0x7f) as u32) < 0xd800,
{
}

proof fn lemma_width_2_bounds(b0: u8, b1: u8, c: u32)
    by (bit_vector)
    requires
        c == ((b0 & 0x1f) as u32) << 6 | ((b1 & 0x3f) as u32),
    ensures
        c < 0xd800,
{
}

/// Checks that the given bytes are valid UTF-8.
///
/// On failure, the reported position is the byte offset of the first
/// invalid sequence: everything before it is valid UTF-8 and no scalar
/// can be decoded at it.
pub fn validate_utf8(s: &[u8]) -> (r: Result<(), usize>)
    ensures
        r is Ok <==> valid_utf8(s@),
        r matches Err(p) ==> p == spec_utf8_scan(s@, 0) && p < s@.len(),
{
    let n = s.len();
    let mut i: usize = 0;
    while i < n
        invariant
            n == s@.len(),
            i <= n,
            spec_utf8_scan(s@, 0) == spec_utf8_scan(s@, i as int),
        decreases n - i,
    {
        let ghost rest = s@.subrange(i as int, n as int);
        let b0 = s[i];
        assert(rest[0] == b0);
        if b0 < 0x80 {
            // One-byte scalar.
            proof {
                lemma_width_1_bounds(b0);
                assert(valid_first_scalar(rest));
                assert(length_of_first_scalar(rest) == 1);
                assert(spec_utf8_scan(s@, i as int) == spec_utf8_scan(s@, i + 1));
            }
            i += 1;
        } else if b0 < 0xc0 {
            // A continuation byte cannot lead a scalar.
            proof {
                assert(forall|k: int| 0 <= k < rest.len() ==> rest[k] == s@[i + k]);
                assert(!valid_first_scalar(rest));
                assert(spec_utf8_scan(s@, i as int) == i);
                lemma_scan_full(s@);
            }
            return Err(i);
        } else if b0 < 0xe0 {
            // Two-byte scalar: one continuation byte, value at least 0x80.
            if n - i < 2 || !(0x80 <= s[i + 1] && s[i + 1] < 0xc0) {
                proof {
                    assert(forall|k: int| 0 <= k < rest.len() ==> rest[k] == s@[i + k]);
                    assert(!valid_first_scalar(rest));
                    assert(spec_utf8_scan(s@, i as int) == i);
                    lemma_scan_full(s@);
                }
                return Err(i);
            }
            let b1 = s[i + 1];
            assert(rest[1] == b1);
            let c: u32 = ((b0 & 0x1f) as u32) << 6 | ((b1 & 0x3f) as u32);
            if c < 0x80 {
                proof {
                    assert(forall|k: int| 0 <= k < rest.len() ==> rest[k] == s@[i + k]);
                    assert(!valid_first_scalar(rest));
                    assert(spec_utf8_scan(s@, i as int) == i);
                    lemma_scan_full(s@);
                }
                return Err(i);
            }
            proof {
                lemma_width_2_bounds(b0, b1, c);
                assert(valid_first_scalar(rest));
                assert(length_of_first_scalar(rest) == 2);
                assert(spec_utf8_scan(s@, i as int) == spec_utf8_scan(s@, i + 2));
            }
            i += 2;
        } else if b0 < 0xf0 {
            // Three-byte scalar: two continuation bytes, value at least
            // 0x800 and not in the surrogate range.
            if n - i < 3 || !(0x80 <= s[i + 1] && s[i + 1] < 0xc0) || !(0x80 <= s[i + 2] && s[i
                + 2] < 0xc0) {
                proof {
                    assert(forall|k: int| 0 <= k < rest.len() ==> rest[k] == s@[i + k]);
                    assert(!valid_first_scalar(rest));
                    assert(spec_utf8_scan(s@, i as int) == i);
                    lemma_scan_full(s@);
                }
                return Err(i);
            }
            let b1 = s[i + 1];
            let b2 = s[i + 2];
            assert(rest[1] == b1 && rest[2] == b2);
            let c: u32 = ((b0 & 0x0f) as u32) << 12 | ((b1 & 0x3f) as u32) << 6 | ((b2
                & 0x3f) as u32);
            if c < 0x800 || (0xd800 <= c && c <= 0xdfff) {
                proof {
                    assert(forall|k: int| 0 <= k < rest.len() ==> rest[k] == s@[i + k]);
                    assert(!valid_first_scalar(rest));
                    assert(spec_utf8_scan(s@, i as int) == i);
                    lemma_scan_full(s@);
                }
                return Err(i);
            }
            proof {
                assert(valid_first_scalar(rest));
                assert(length_of_first_scalar(rest) == 3);
                assert(spec_utf8_scan(s@, i as int) == spec_utf8_scan(s@, i + 3));
            }
            i += 3;
        } else if b0 < 0xf8 {
            // Four-byte scalar: three continuation bytes, value between
            // 0x10000 and 0x10ffff.
            if n - i < 4 || !(0x80 <= s[i + 1] && s[i + 1] < 0xc0) || !(0x80 <= s[i + 2] && s[i
                + 2] < 0xc0) || !(0x80 <= s[i + 3] && s[i + 3] < 0xc0) {
                proof {
                    assert(forall|k: int| 0 <= k < rest.len() ==> rest[k] == s@[i + k]);
                    assert(!valid_first_scalar(rest));
                    assert(spec_utf8_scan(s@, i as int) == i);
                    lemma_scan_full(s@);
                }
                return Err(i);
            }
            let b1 = s[i + 1];
            let b2 = s[i + 2];
            let b3 = s[i + 3];
            assert(rest[1] == b1 && rest[2] == b2 && rest[3] == b3);
            let c: u32 = ((b0 & 0x07) as u32) << 18 | ((b1 & 0x3f) as u32) << 12 | ((b2
                & 0x3f) as u32) << 6 | ((b3 & 0x3f) as u32);
            if c < 0x10000 || c > 0x10ffff {
                proof {
                    assert(forall|k: int| 0 <= k < rest.len() ==> rest[k] == s@[i + k]);
                    assert(!valid_first_scalar(rest));
                    assert(spec_utf8_scan(s@, i as int) == i);
                    lemma_scan_full(s@);
                }
                return Err(i);
            }
            proof {
                assert(valid_first_scalar(rest));
                assert(length_of_first_scalar(rest) == 4);
                assert(spec_utf8_scan(s@, i as int) == spec_utf8_scan(s@, i + 4));
            }
            i += 4;
        } else {
            // 0xf8 and above never leads a scalar.
            proof {
                assert(forall|k: int| 0 <= k < rest.len() ==> rest[k] == s@[i + k]);
                assert(!valid_first_scalar(rest));
                assert(spec_utf8_scan(s@, i as int) == i);
                lemma_scan_full(s@);
            }
            return Err(i);
        }
    }
    proof {
        assert(spec_utf8_scan(s@, n as int) == n as int);
        lemma_scan_full(s@);
    }
    Ok(())
}

} // verus!
