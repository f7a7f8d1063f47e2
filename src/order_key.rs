//! Order keys for 64-bit IEEE samples.
//!
//! The statistics compare samples and never compute on them, so they work on `i64`
//! keys whose order is the order of the samples. `sample_key` maps a bit pattern to
//! its key; `sample_bits` maps it back. NaN is ordered above positive infinity
//! whatever its sign, so that every input has a place in the order.
use vstd::prelude::*;

verus! {

/// Bit pattern of positive infinity; every larger magnitude is a NaN.
pub const INFINITY_BITS: u64 = 0x7FF0_0000_0000_0000;

/// Weight of the sign bit of a 64-bit pattern.
pub const SIGN_BIT: u64 = 0x8000_0000_0000_0000;

/// The bit pattern without its sign bit.
pub open spec fn magnitude(bits: u64) -> int {
    bits as int % (SIGN_BIT as int)
}

/// The pattern encodes a NaN, of either sign.
pub open spec fn is_nan_bits(bits: u64) -> bool {
    magnitude(bits) > INFINITY_BITS as int
}

/// Rank of a 64-bit IEEE pattern in the order that samples are compared by:
/// numeric order on the reals and infinities, `-0.0` just below `+0.0`, and
/// every NaN, whatever its sign, above positive infinity.
pub open spec fn key_of(bits: u64) -> int {
    if is_nan_bits(bits) {
        magnitude(bits)
    } else if bits < SIGN_BIT {
        bits as int
    } else {
        -1 - magnitude(bits)
    }
}

/// Maps the bit pattern of a sample to its order key.
pub fn sample_key(bits: u64) -> (k: i64)
    ensures
        k as int == key_of(bits),
{
    let mag: u64 = bits % SIGN_BIT;
    if mag > INFINITY_BITS {
        mag as i64
    } else if bits < SIGN_BIT {
        bits as i64
    } else {
        -1 - (mag as i64)
    }
}

/// The bit pattern that a key stands for: the inverse of `key_of` on every pattern
/// that is not a NaN with its sign bit set.
pub open spec fn bits_of(key: int) -> int {
    if key >= 0 {
        key
    } else {
        SIGN_BIT as int + (-1 - key)
    }
}

/// Maps an order key back to the bit pattern of its sample.
pub fn sample_bits(key: i64) -> (bits: u64)
    ensures
        bits as int == bits_of(key as int),
{
    if key >= 0 {
        key as u64
    } else {
        SIGN_BIT + ((-1 - key) as u64)
    }
}

/// Decoding the key of a sample gives back the sample, except that a NaN comes back
/// with its sign bit cleared.
pub proof fn lemma_key_round_trip(bits: u64)
    ensures
        !is_nan_bits(bits) ==> bits_of(key_of(bits)) == bits as int,
        is_nan_bits(bits) ==> bits_of(key_of(bits)) == magnitude(bits),
{
}

/// Every key that some sample has decodes to a pattern whose key it is.
pub proof fn lemma_bits_round_trip(key: int)
    requires
        -1 - (INFINITY_BITS as int) <= key <= i64::MAX,
    ensures
        0 <= bits_of(key) <= u64::MAX,
        key_of(bits_of(key) as u64) == key,
{
}

} // verus!
