//! Address arithmetic of the routing puzzles: destinations come from
//! octet-wise wrapping addition, keys from octet-wise wrapping subtraction,
//! and the 128-bit variant uses exclusive or both ways.

use vstd::prelude::*;

verus! {

/// Destination: each key octet added to the source octet, modulo 256.
pub fn v4_dest(from: (u8, u8, u8, u8), key: (u8, u8, u8, u8)) -> (r: (u8, u8, u8, u8))
    ensures
        r.0 == (from.0 + key.0) % 256,
        r.1 == (from.1 + key.1) % 256,
        r.2 == (from.2 + key.2) % 256,
        r.3 == (from.3 + key.3) % 256,
{
    (
        from.0.wrapping_add(key.0),
        from.1.wrapping_add(key.1),
        from.2.wrapping_add(key.2),
        from.3.wrapping_add(key.3),
    )
}

/// Key: each source octet subtracted from the destination octet, modulo
/// 256 — the inverse of `v4_dest`.
pub fn v4_key(from: (u8, u8, u8, u8), to: (u8, u8, u8, u8)) -> (r: (u8, u8, u8, u8))
    ensures
        r.0 == (to.0 - from.0) % 256,
        r.1 == (to.1 - from.1) % 256,
        r.2 == (to.2 - from.2) % 256,
        r.3 == (to.3 - from.3) % 256,
{
    (
        to.0.wrapping_sub(from.0),
        to.1.wrapping_sub(from.1),
        to.2.wrapping_sub(from.2),
        to.3.wrapping_sub(from.3),
    )
}

/// The 128-bit variant: destination and key both come from exclusive or,
/// which is its own inverse.
pub fn v6_xor(from: u128, other: u128) -> (r: u128)
    ensures
        r == from ^ other,
{
    from ^ other
}

/// Octet-wise wrapping addition and subtraction invert each other: the key
/// recovered from a destination reproduces the key, and the destination
/// built with a recovered key reproduces the destination.
pub proof fn lemma_v4_round_trip(f: u8, k: u8)
    ensures
        (((f + k) % 256) - f) % 256 == k as int,
        ((f + ((k - f) % 256)) % 256) == k as int,
{
    assert((((f + k) % 256) - f) % 256 == k as int) by (nonlinear_arith)
        requires 0 <= f < 256, 0 <= k < 256;
    assert(((f + ((k - f) % 256)) % 256) == k as int) by (nonlinear_arith)
        requires 0 <= f < 256, 0 <= k < 256;
}

/// Exclusive or undoes itself.
pub proof fn lemma_v6_round_trip(a: u128, b: u128)
    ensures
        (a ^ b) ^ a == b,
{
    assert((a ^ b) ^ a == b) by (bit_vector);
}

} // verus!
