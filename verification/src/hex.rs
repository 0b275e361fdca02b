//! Base-16 parsing and formatting of byte offsets.
//!
//! `hex_val` is the mathematical value of a hex-digit string; `parse_hex`
//! returns that value exactly when the string is non-empty, all hex digits,
//! and the value fits in `usize`. `hex_repr` is the canonical lower-case
//! representation without leading zeros, produced by `to_hex_lower`.

use vstd::prelude::*;

use crate::bytes::is_digit;
use crate::bytes::is_hex_digit;

verus! {

/// Numeric value of one hex digit (0 for a non-digit byte).
pub open spec fn hex_digit_val(c: u8) -> nat {
    if is_digit(c) {
        (c - 48) as nat
    } else if 97 <= c <= 102 {
        (c - 87) as nat
    } else if 65 <= c <= 70 {
        (c - 55) as nat
    } else {
        0
    }
}

/// Base-16 value of a digit string, most significant digit first.
pub open spec fn hex_val(s: Seq<u8>) -> nat
    decreases s.len(),
{
    if s.len() == 0 {
        0
    } else {
        hex_val(s.drop_last()) * 16 + hex_digit_val(s.last())
    }
}

/// A well-formed hex-digit string: non-empty and all hex digits.
pub open spec fn is_hex_digits(s: Seq<u8>) -> bool {
    s.len() > 0 && forall|i: int| 0 <= i < s.len() ==> is_hex_digit(#[trigger] s[i])
}

pub fn is_hex_digits_bytes(s: &[u8]) -> (r: bool)
    ensures
        r == is_hex_digits(s@),
{
    let n = s.len();
    if n == 0 {
        return false;
    }
    let mut i: usize = 0;
    while i < n
        invariant
            0 <= i <= n == s@.len(),
            forall|k: int| 0 <= k < i ==> is_hex_digit(#[trigger] s@[k]),
        decreases n - i,
    {
        let c = crate::bytes::byte_at(s, i);
        if !((48 <= c && c <= 57) || (97 <= c && c <= 102) || (65 <= c && c <= 70)) {
            return false;
        }
        i = i + 1;
    }
    true
}

/// Lower-case hex digit for a value below 16.
pub open spec fn hex_digit_repr(d: nat) -> u8 {
    if d < 10 {
        (d + 48) as u8
    } else {
        (d + 87) as u8
    }
}

/// Canonical lower-case base-16 representation, no leading zeros.
pub open spec fn hex_repr(n: nat) -> Seq<u8>
    decreases n,
{
    if n < 16 {
        seq![hex_digit_repr(n)]
    } else {
        hex_repr(n / 16).push(hex_digit_repr(n % 16))
    }
}

fn hex_digit_value(c: u8) -> (r: Option<u8>)
    ensures
        r is Some <==> is_hex_digit(c),
        r is Some ==> r->0 == hex_digit_val(c) && r->0 < 16,
{
    if 48 <= c && c <= 57 {
        Some(c - 48)
    } else if 97 <= c && c <= 102 {
        Some(c - 87)
    } else if 65 <= c && c <= 70 {
        Some(c - 55)
    } else {
        None
    }
}

proof fn lemma_hex_val_prefix_grows(s: Seq<u8>, i: int)
    requires
        0 <= i <= s.len(),
    ensures
        hex_val(s) >= hex_val(s.take(i)),
    decreases s.len() - i,
{
    if i == s.len() {
        assert(s.take(i) =~= s);
    } else {
        lemma_hex_val_prefix_grows(s, i + 1);
        assert(s.take(i + 1).drop_last() =~= s.take(i));
        assert(hex_val(s.take(i + 1)) == hex_val(s.take(i)) * 16 + hex_digit_val(s.take(i + 1).last()));
    }
}

/// Parse a base-16 offset. Succeeds exactly on non-empty strings of hex
/// digits whose value fits the native unsigned range.
pub fn parse_hex(s: &[u8]) -> (r: Option<usize>)
    ensures
        r is Some <==> is_hex_digits(s@) && hex_val(s@) <= usize::MAX,
        r is Some ==> r->0 == hex_val(s@),
{
    let n = s.len();
    if n == 0 {
        return None;
    }
    let mut acc: usize = 0;
    let mut i: usize = 0;
    while i < n
        invariant
            0 <= i <= n == s@.len(),
            forall|k: int| 0 <= k < i ==> is_hex_digit(#[trigger] s@[k]),
            acc == hex_val(s@.take(i as int)),
        decreases n - i,
    {
        let c = crate::bytes::byte_at(s, i);
        match hex_digit_value(c) {
            None => {
                return None;
            },
            Some(d) => {
                proof {
                    assert(s@.take(i + 1).drop_last() =~= s@.take(i as int));
                    assert(s@.take(i + 1).last() == s@[i as int]);
                }
                if acc > (usize::MAX - d as usize) / 16 {
                    proof {
                        lemma_hex_val_prefix_grows(s@, i + 1);
                        assert(hex_val(s@.take(i + 1)) == acc * 16 + hex_digit_val(c));
                    }
                    return None;
                }
                acc = acc * 16 + d as usize;
            },
        }
        i = i + 1;
    }
    proof {
        assert(s@.take(n as int) =~= s@);
    }
    Some(acc)
}

/// Render an offset as lower-case hex without leading zeros.
pub fn to_hex_lower(n: usize) -> (r: Vec<u8>)
    ensures
        r@ == hex_repr(n as nat),
    decreases n,
{
    if n < 16 {
        let mut r: Vec<u8> = Vec::new();
        r.push(hex_digit_byte((n % 16) as u8));
        proof {
            assert(r@ =~= hex_repr(n as nat));
        }
        r
    } else {
        let mut r = to_hex_lower(n / 16);
        r.push(hex_digit_byte((n % 16) as u8));
        r
    }
}

fn hex_digit_byte(d: u8) -> (r: u8)
    requires
        d < 16,
    ensures
        r == hex_digit_repr(d as nat),
{
    if d < 10 {
        d + 48
    } else {
        d + 87
    }
}

} // verus!
