//! A small integer mixing hash for deterministic pseudo-random values.

use vstd::prelude::*;

verus! {

/// A modular multiply by the mixing constant.
pub open spec fn spec_mul(x: u32) -> u32 {
    ((x * 2654435769) % 0x1_0000_0000) as u32
}

/// The high half folded back into the low half.
pub open spec fn spec_fold(x: u32) -> u32 {
    x ^ (x / 0x1_0000)
}

/// The full mix of a seed: three multiplies with the high bits folded
/// back in between them.
pub open spec fn spec_hash(seed: u32) -> u32 {
    spec_mul(spec_fold(spec_mul(spec_fold(spec_mul(seed ^ 2747636419u32)))))
}

fn mix_mul(x: u32) -> (r: u32)
    ensures
        r == spec_mul(x),
{
    ((x as u64 * 2654435769u64) % 0x1_0000_0000) as u32
}

fn mix_fold(x: u32) -> (r: u32)
    ensures
        r == spec_fold(x),
{
    x ^ (x / 0x1_0000)
}

/// Mixes a seed into a well-distributed 32-bit value.
pub fn hash(seed: u32) -> (r: u32)
    ensures
        r == spec_hash(seed),
{
    mix_mul(mix_fold(mix_mul(mix_fold(mix_mul(seed ^ 2747636419)))))
}

} // verus!
