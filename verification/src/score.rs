//! Integer keys for the values of an information criterion.
//!
//! A criterion is computed in IEEE-754 binary64 arithmetic. The search that
//! compares criteria works on integers instead: each value is handed over as
//! its 64-bit pattern and reduced to a key. The key is the magnitude part of
//! the pattern (exponent and fraction, the low 63 bits) read as an integer,
//! negated when the sign bit is set. Binary64 is laid out so that values
//! which compare lower have lower keys; the two zeros share the key 0, the
//! infinities have the extreme keys, and a pattern that encodes no number
//! has no key at all.

use vstd::prelude::*;

verus! {

/// Two to the power 63: the weight of the sign bit.
pub const SIGN_BIT: u64 = 0x8000_0000_0000_0000;

/// The magnitude bits of positive infinity: every exponent bit set and no
/// fraction bit.
pub const INFINITY_BITS: u64 = 0x7ff0_0000_0000_0000;

/// The low 63 bits of a pattern, read as an integer.
pub open spec fn magnitude(bits: u64) -> int {
    bits as int % (SIGN_BIT as int)
}

/// Whether the sign bit of a pattern is set.
pub open spec fn is_negative(bits: u64) -> bool {
    bits >= SIGN_BIT
}

/// Whether a pattern encodes no number: its exponent bits are all set and
/// some fraction bit is set too.
pub open spec fn is_not_a_number(bits: u64) -> bool {
    magnitude(bits) > INFINITY_BITS
}

/// The key of a pattern: its magnitude, negated under a set sign bit.
pub open spec fn key_of(bits: u64) -> int {
    if is_negative(bits) {
        -magnitude(bits)
    } else {
        magnitude(bits)
    }
}

/// Reduces the bit pattern of a criterion value to its key.
///
/// A pattern that encodes a number, infinite ones included, gets the key
/// `key_of`; a pattern that encodes no number gets none.
pub fn score_key(bits: u64) -> (key: Option<i64>)
    ensures
        key is None <==> is_not_a_number(bits),
        key matches Some(k) ==> k == key_of(bits),
{
    let magnitude: u64 = bits % SIGN_BIT;
    if magnitude > INFINITY_BITS {
        None
    } else if bits >= SIGN_BIT {
        Some(-(magnitude as i64))
    } else {
        Some(magnitude as i64)
    }
}

} // verus!
