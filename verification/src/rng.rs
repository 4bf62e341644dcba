//! The single injectable source of randomness. Every randomized decision in
//! the simulation consumes per-mille draws; the deterministic step functions
//! take them as arguments, and the per-tick drivers obtain them here.

use vstd::prelude::*;

use rand::Rng;

verus! {

/// Relies on `rand::Rng::random_range` over `rand::rng()`: a draw uniformly
/// distributed below 1000. Nothing more than the bound can be promised of a
/// random value.
#[verifier::external_body]
pub fn random_milli() -> (r: u32)
    ensures
        r < 1000,
{
    rand::rng().random_range(0u32..1000u32)
}

} // verus!
