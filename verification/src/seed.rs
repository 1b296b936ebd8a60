use vstd::prelude::*;

use crate::hash::{rotl32, spec_rotl32};

verus! {

/// Explicit seed of every sampler; there is no global random state.
#[derive(Debug, Clone, Copy, PartialEq, Eq, Hash, PartialOrd, Ord, Default, Structural)]
pub struct NoiseSeed(pub u32);

/// The seed that `split` derives from a seed and a salt.
pub open spec fn spec_split(seed: u32, salt: u32) -> u32 {
    seed ^ spec_rotl32(salt, 13).wrapping_mul(0x9E37_79B9u32)
}

impl NoiseSeed {
    pub fn new(value: u32) -> (s: Self)
        ensures
            s.0 == value,
    {
        NoiseSeed(value)
    }

    /// Derives an independent seed for a sub-stream named by `salt`.
    pub fn split(self, salt: u32) -> (s: Self)
        ensures
            s.0 == spec_split(self.0, salt),
            spec_split(s.0, salt) == self.0,
            s.0 ^ self.0 == spec_split(0, salt),
    {
        proof {
            lemma_split_is_xor_with_salt_mask(self.0, 0, salt);
        }
        NoiseSeed(self.0 ^ rotl32(salt, 13).wrapping_mul(0x9E37_79B9))
    }
}

impl From<u32> for NoiseSeed {
    fn from(value: u32) -> (s: Self) {
        NoiseSeed(value)
    }
}

impl vstd::std_specs::convert::FromSpecImpl<u32> for NoiseSeed {
    open spec fn obeys_from_spec() -> bool {
        true
    }

    open spec fn from_spec(v: u32) -> Self {
        NoiseSeed(v)
    }
}

/// Law: splitting xors the seed with a mask that depends on the salt alone.
/// So for a fixed salt, splitting twice gives the seed back, and the split
/// seeds of two seeds differ exactly where the seeds differ.
pub proof fn lemma_split_is_xor_with_salt_mask(seed: u32, other: u32, salt: u32)
    ensures
        spec_split(spec_split(seed, salt), salt) == seed,
        spec_split(seed, salt) ^ spec_split(other, salt) == seed ^ other,
        spec_split(seed, salt) ^ seed == spec_split(0, salt),
{
    let mask: u32 = spec_rotl32(salt, 13).wrapping_mul(0x9E37_79B9u32);
    assert((seed ^ mask) ^ mask == seed) by (bit_vector);
    assert((seed ^ mask) ^ (other ^ mask) == seed ^ other) by (bit_vector);
    assert((seed ^ mask) ^ seed == (0u32 ^ mask)) by (bit_vector);
}

} // verus!
