use vstd::prelude::*;

use crate::seed::NoiseSeed;

verus! {

/// Rotation of a 32-bit word to the left by `k` places, for `k < 32`.
pub open spec fn spec_rotl32(x: u32, k: u32) -> u32 {
    if k == 0 {
        x
    } else {
        ((x << k) | (x >> ((32 - k) as u32))) as u32
    }
}

/// The avalanche mixer that every lattice hash is built from.
pub open spec fn spec_mix32(v: u32) -> u32 {
    let a = v ^ (v >> 16u32);
    let b = a.wrapping_mul(0x7FEB_352Du32);
    let c = b ^ (b >> 15u32);
    let d = c.wrapping_mul(0x846C_A68Bu32);
    d ^ (d >> 16u32)
}

/// The per-lane salt that keeps `(x, y)` and `(y, x)` apart.
pub open spec fn spec_lane_salt(index: u32) -> u32 {
    spec_rotl32(index.wrapping_mul(0x9E37_79B9u32), index & 15u32)
}

/// Hash of a seed and a sequence of lattice coordinates: the seed is mixed
/// first, then each coordinate is folded in with its lane salt.
pub open spec fn spec_combine(seed: u32, coords: Seq<u32>) -> u32
    decreases coords.len(),
{
    if coords.len() == 0 {
        spec_mix32(seed ^ 0xA511_E9B3u32)
    } else {
        let index = (coords.len() - 1) as u32;
        spec_mix32(spec_combine(seed, coords.drop_last()) ^ coords.last() ^ spec_lane_salt(index))
    }
}

pub open spec fn spec_hash2(seed: NoiseSeed, x: i32, y: i32) -> u32 {
    spec_combine(seed.0, seq![x as u32, y as u32])
}

pub open spec fn spec_hash3(seed: NoiseSeed, x: i32, y: i32, z: i32) -> u32 {
    spec_combine(seed.0, seq![x as u32, y as u32, z as u32])
}

pub open spec fn spec_hash4(seed: NoiseSeed, x: i32, y: i32, z: i32, w: i32) -> u32 {
    spec_combine(seed.0, seq![x as u32, y as u32, z as u32, w as u32])
}

/// Left rotation of a 32-bit word.
pub fn rotl32(x: u32, k: u32) -> (r: u32)
    requires
        k < 32,
    ensures
        r == spec_rotl32(x, k),
{
    if k == 0 {
        x
    } else {
        (x << k) | (x >> (32 - k))
    }
}

/// 32-bit avalanche mixer (xor-shift / multiply rounds).
pub fn mix32(value: u32) -> (r: u32)
    ensures
        r == spec_mix32(value),
        spec_unmix32(r) == value,
{
    proof {
        lemma_unmix32_undoes_mix32(value);
    }
    let mut value = value;
    value = value ^ (value >> 16u32);
    value = value.wrapping_mul(0x7FEB_352D);
    value = value ^ (value >> 15u32);
    value = value.wrapping_mul(0x846C_A68B);
    value = value ^ (value >> 16u32);
    value
}

fn lane_salt(index: u32) -> (r: u32)
    ensures
        r == spec_lane_salt(index),
{
    let k: u32 = index & 15;
    assert(k < 32) by (bit_vector)
        requires
            k == index & 15u32,
    ;
    rotl32(index.wrapping_mul(0x9E37_79B9), k)
}

/// Folds the coordinates of a lattice point into one hash, seeded.
pub fn combine(seed: NoiseSeed, coords: &[u32]) -> (r: u32)
    ensures
        r == spec_combine(seed.0, coords@),
{
    let mut hash: u32 = mix32(seed.0 ^ 0xA511_E9B3);
    let n = coords.len();
    let mut index: usize = 0;
    assert(coords@.take(0) =~= Seq::<u32>::empty());
    while index < n
        invariant
            n == coords@.len(),
            index <= n,
            hash == spec_combine(seed.0, coords@.take(index as int)),
        decreases n - index,
    {
        let lane: u32 = index as u32;
        let salt = lane_salt(lane);
        hash = mix32(hash ^ coords[index] ^ salt);
        proof {
            let next = coords@.take(index + 1);
            assert(next.drop_last() =~= coords@.take(index as int));
            assert(next.last() == coords@[index as int]);
        }
        index = index + 1;
    }
    assert(coords@.take(n as int) =~= coords@);
    hash
}

/// Hash of a 2D lattice point.
pub fn hash2(seed: NoiseSeed, x: i32, y: i32) -> (r: u32)
    ensures
        r == spec_hash2(seed, x, y),
{
    let coords = [x as u32, y as u32];
    let r = combine(seed, coords.as_slice());
    assert(coords@ =~= seq![x as u32, y as u32]);
    r
}

/// Hash of a 3D lattice point.
pub fn hash3(seed: NoiseSeed, x: i32, y: i32, z: i32) -> (r: u32)
    ensures
        r == spec_hash3(seed, x, y, z),
{
    let coords = [x as u32, y as u32, z as u32];
    let r = combine(seed, coords.as_slice());
    assert(coords@ =~= seq![x as u32, y as u32, z as u32]);
    r
}

/// Hash of a 4D lattice point.
pub fn hash4(seed: NoiseSeed, x: i32, y: i32, z: i32, w: i32) -> (r: u32)
    ensures
        r == spec_hash4(seed, x, y, z, w),
{
    let coords = [x as u32, y as u32, z as u32, w as u32];
    let r = combine(seed, coords.as_slice());
    assert(coords@ =~= seq![x as u32, y as u32, z as u32, w as u32]);
    r
}

/// Undoes the mixer, round by round in reverse order.
pub open spec fn spec_unmix32(h: u32) -> u32 {
    let d = h ^ (h >> 16u32);
    let c = d.wrapping_mul(0x4302_1123u32);
    let b = c ^ (c >> 15u32) ^ (c >> 30u32);
    let a = b.wrapping_mul(0x1D69_E2A5u32);
    a ^ (a >> 16u32)
}

proof fn lemma_xorshift16_undone(x: u32)
    ensures
        (x ^ (x >> 16u32)) ^ ((x ^ (x >> 16u32)) >> 16u32) == x,
{
    assert((x ^ (x >> 16u32)) ^ ((x ^ (x >> 16u32)) >> 16u32) == x) by (bit_vector);
}

proof fn lemma_xorshift15_undone(x: u32)
    ensures
        ({
            let c = x ^ (x >> 15u32);
            c ^ (c >> 15u32) ^ (c >> 30u32) == x
        }),
{
    assert((x ^ (x >> 15u32)) ^ ((x ^ (x >> 15u32)) >> 15u32) ^ ((x ^ (x >> 15u32)) >> 30u32) == x)
        by (bit_vector);
}

proof fn lemma_odd_multipliers_undone(x: u32)
    ensures
        x.wrapping_mul(0x7FEB_352Du32).wrapping_mul(0x1D69_E2A5u32) == x,
        x.wrapping_mul(0x846C_A68Bu32).wrapping_mul(0x4302_1123u32) == x,
{
    assert(x.wrapping_mul(0x7FEB_352Du32).wrapping_mul(0x1D69_E2A5u32) == x) by (bit_vector);
    assert(x.wrapping_mul(0x846C_A68Bu32).wrapping_mul(0x4302_1123u32) == x) by (bit_vector);
}

proof fn lemma_unmix32_undoes_mix32(v: u32)
    ensures
        spec_unmix32(spec_mix32(v)) == v,
{
    let a = v ^ (v >> 16u32);
    let b = a.wrapping_mul(0x7FEB_352Du32);
    let c = b ^ (b >> 15u32);
    let d = c.wrapping_mul(0x846C_A68Bu32);
    lemma_xorshift16_undone(d);
    lemma_odd_multipliers_undone(c);
    lemma_xorshift15_undone(b);
    lemma_odd_multipliers_undone(a);
    lemma_xorshift16_undone(v);
}

proof fn lemma_push_separates(seed: u32, prefix: Seq<u32>, a: u32, b: u32)
    ensures
        spec_combine(seed, prefix.push(a)) == spec_combine(seed, prefix.push(b)) ==> a == b,
{
    let h = spec_combine(seed, prefix);
    let salt = spec_lane_salt(prefix.len() as u32);
    assert(prefix.push(a).drop_last() =~= prefix);
    assert(prefix.push(b).drop_last() =~= prefix);
    assert(spec_combine(seed, prefix.push(a)) == spec_mix32(h ^ a ^ salt));
    assert(spec_combine(seed, prefix.push(b)) == spec_mix32(h ^ b ^ salt));
    lemma_mix32_is_invertible(h ^ a ^ salt, h ^ b ^ salt);
    assert((h ^ a ^ salt) == (h ^ b ^ salt) ==> a == b) by (bit_vector);
}

proof fn lemma_empty_point_separates_seeds(seed: u32, other_seed: u32)
    ensures
        spec_combine(seed, Seq::<u32>::empty()) == spec_combine(other_seed, Seq::<u32>::empty())
            ==> seed == other_seed,
{
    lemma_mix32_is_invertible(seed ^ 0xA511_E9B3u32, other_seed ^ 0xA511_E9B3u32);
    assert((seed ^ 0xA511_E9B3u32) == (other_seed ^ 0xA511_E9B3u32) ==> seed == other_seed)
        by (bit_vector);
}

/// Law: a lattice hash tells apart any two points that differ only in their
/// last coordinate, and hashes of the empty point tell apart their seeds; in
/// particular two 2D points in the same column never share a hash.
pub proof fn lemma_combine_separates_last_coordinate(
    seed: u32,
    other_seed: u32,
    prefix: Seq<u32>,
    a: u32,
    b: u32,
    x: i32,
    y: i32,
    z: i32,
)
    ensures
        spec_combine(seed, prefix.push(a)) == spec_combine(seed, prefix.push(b)) ==> a == b,
        spec_combine(seed, Seq::<u32>::empty()) == spec_combine(other_seed, Seq::<u32>::empty())
            ==> seed == other_seed,
        spec_hash2(NoiseSeed(seed), x, y) == spec_hash2(NoiseSeed(seed), x, z) ==> y == z,
{
    lemma_push_separates(seed, prefix, a, b);
    lemma_empty_point_separates_seeds(seed, other_seed);
    lemma_push_separates(seed, seq![x as u32], y as u32, z as u32);
    assert(seq![x as u32, y as u32] =~= seq![x as u32].push(y as u32));
    assert(seq![x as u32, z as u32] =~= seq![x as u32].push(z as u32));
    assert((y as u32) == (z as u32) ==> y == z) by (bit_vector);
}

/// Law: the mixer is a bijection of 32-bit words: `spec_unmix32` undoes it,
/// so distinct inputs always mix to distinct outputs.
pub proof fn lemma_mix32_is_invertible(v: u32, w: u32)
    ensures
        spec_unmix32(spec_mix32(v)) == v,
        spec_mix32(v) == spec_mix32(w) ==> v == w,
{
    lemma_unmix32_undoes_mix32(v);
    lemma_unmix32_undoes_mix32(w);
}

/// Law: rotating left by `k` and then by `32 - k` gives the word back, and
/// rotating moves the lowest bit `k` places up and the highest bit to place
/// `k - 1`.
pub proof fn lemma_rotl32_round_trip(x: u32, k: u32)
    requires
        0 < k < 32,
    ensures
        spec_rotl32(spec_rotl32(x, k), (32 - k) as u32) == x,
        spec_rotl32(1u32, k) == 1u32 << k,
        spec_rotl32(0x8000_0000u32, k) == 1u32 << ((k - 1) as u32),
{
    assert(((1u32 << k) | (1u32 >> ((32 - k) as u32))) == 1u32 << k) by (bit_vector)
        requires
            0 < k < 32,
    ;
    assert(((0x8000_0000u32 << k) | (0x8000_0000u32 >> ((32 - k) as u32))) == 1u32 << ((k
        - 1) as u32)) by (bit_vector)
        requires
            0 < k < 32,
    ;
    let j: u32 = (32 - k) as u32;
    assert(((((x << k) | (x >> j)) << j) | (((x << k) | (x >> j)) >> k)) == x) by (bit_vector)
        requires
            0 < k < 32,
            j == 32 - k,
    ;
}

} // verus!
