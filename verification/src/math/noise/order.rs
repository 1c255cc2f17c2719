//! Integer keys that order binary64 numbers.
//!
//! The cell geometry only ever compares fractional coordinates with each
//! other and with whole numbers. It takes them as keys: signed integers that
//! stand in the same order as the numbers they are made from. A binary64
//! number that is not a NaN orders among its kind exactly as the
//! sign-and-magnitude reading of its bit pattern does, and both zeros read
//! as zero.

use vstd::prelude::*;

verus! {

/// Key of the number one.
pub const KEY_ONE: i64 = 0x3FF0_0000_0000_0000;

/// Key of the number two.
pub const KEY_TWO: i64 = 0x4000_0000_0000_0000;

/// The sign-and-magnitude reading of a 64-bit pattern: the low 63 bits,
/// negated when the top bit is set.
pub open spec fn spec_order_key(bits: u64) -> int {
    if bits >= 0x8000_0000_0000_0000 {
        0x8000_0000_0000_0000 - bits
    } else {
        bits as int
    }
}

/// Computes the key of the number whose bit pattern is `bits`.
pub fn order_key(bits: u64) -> (key: i64)
    ensures
        key == spec_order_key(bits),
{
    if bits >= 0x8000_0000_0000_0000 {
        let magnitude: u64 = bits - 0x8000_0000_0000_0000;
        -(magnitude as i64)
    } else {
        bits as i64
    }
}

/// Two patterns have the same key only if they are equal or are the two
/// zeros.
pub proof fn lemma_order_key_injective(a: u64, b: u64)
    requires
        spec_order_key(a) == spec_order_key(b),
    ensures
        a == b || spec_order_key(a) == 0,
{
}

/// Setting the top bit of a pattern negates its key.
pub proof fn lemma_order_key_negation(bits: u64)
    requires
        bits < 0x8000_0000_0000_0000,
    ensures
        spec_order_key((bits + 0x8000_0000_0000_0000) as u64) == -spec_order_key(bits),
{
}

} // verus!
