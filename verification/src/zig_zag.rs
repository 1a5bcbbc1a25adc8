//! The zigzag mapping between signed and unsigned 64-bit integers.
//!
//! Folding a signed value through [`into`] keeps small magnitudes
//! numerically small, so they take few bytes as varints: `0, -1, 1, -2,
//! 2, ...` map to `0, 1, 2, 3, 4, ...`. [`from`] is the exact inverse.

use vstd::prelude::*;

verus! {

/// The zigzag image of a signed 64-bit value: `2 * n` for non-negative
/// `n`, `2 * (-n) - 1` for negative `n`.
pub open spec fn spec_zigzag(n: i64) -> u64 {
    if n >= 0 {
        (2 * (n as int)) as u64
    } else {
        (2 * (-(n as int)) - 1) as u64
    }
}

/// The inverse of [`spec_zigzag`]: even values unfold to `u / 2`, odd
/// values to `-(u / 2) - 1`.
pub open spec fn spec_unzigzag(u: u64) -> i64 {
    if u % 2 == 0 {
        ((u as int) / 2) as i64
    } else {
        (-((u as int) / 2) - 1) as i64
    }
}

/// Folds a signed value into its zigzag image.
pub fn into(n: i64) -> (r: u64)
    ensures
        r == spec_zigzag(n),
{
    if n >= 0 {
        2 * (n as u64)
    } else {
        let m: u64 = (-(n + 1)) as u64;
        2 * m + 1
    }
}

/// Unfolds a zigzag image back into the signed value.
pub fn from(u: u64) -> (r: i64)
    ensures
        r == spec_unzigzag(u),
{
    let half: u64 = u / 2;
    if u % 2 == 0 {
        half as i64
    } else {
        -((half) as i64) - 1
    }
}

/// Zigzag is a bijection: unfolding the image of any signed value gives
/// that value back, and folding the preimage of any unsigned value gives
/// that value back.
pub proof fn lemma_zigzag_bijection(n: i64, u: u64)
    ensures
        spec_unzigzag(spec_zigzag(n)) == n,
        spec_zigzag(spec_unzigzag(u)) == u,
{
}

} // verus!
