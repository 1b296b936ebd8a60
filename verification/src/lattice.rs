use vstd::prelude::*;

use crate::hash::{hash2, hash3, hash4, spec_hash2, spec_hash3, spec_hash4};
use crate::seed::NoiseSeed;

verus! {

/// Offset of lattice corner `corner` along `axis`: bit `axis` of the corner's
/// number, so corner 0 is the cell's own point and the last corner is the
/// opposite one.
pub open spec fn corner_bit(corner: int, axis: int) -> int
    decreases axis,
{
    if axis <= 0 {
        corner % 2
    } else {
        corner_bit(corner / 2, axis - 1)
    }
}

/// Offset of lattice corner `corner` (below 16) along `axis` (below 4).
pub fn corner_offset(corner: usize, axis: usize) -> (o: i32)
    requires
        corner < 16,
        axis < 4,
    ensures
        o == corner_bit(corner as int, axis as int),
        o == 0 || o == 1,
{
    let mut c = corner;
    let mut a: usize = 0;
    while a < axis
        invariant
            a <= axis < 4,
            c < 16,
            corner_bit(corner as int, axis as int) == corner_bit(c as int, (axis - a) as int),
        decreases axis - a,
    {
        c = c / 2;
        a = a + 1;
    }
    (c % 2) as i32
}

/// Index into a gradient table of `count` directions selected by a corner hash.
pub fn gradient_slot(hash: u32, count: usize) -> (slot: usize)
    requires
        count > 0,
    ensures
        slot == hash as nat % count as nat,
        slot < count,
{
    (hash as usize) % count
}

/// Hashes of the four corners of the 2D lattice cell whose lowest point is
/// `(cx, cy)`, corner `k` being offset by the bits of `k`.
pub fn lattice_hashes2(seed: NoiseSeed, cx: i32, cy: i32) -> (h: [u32; 4])
    requires
        cx < i32::MAX,
        cy < i32::MAX,
    ensures
        h@.len() == 4,
        forall|k: int|
            0 <= k < 4 ==> #[trigger] h@[k] == spec_hash2(
                seed,
                (cx + corner_bit(k, 0)) as i32,
                (cy + corner_bit(k, 1)) as i32,
            ),
{
    let mut h: [u32; 4] = [0u32; 4];
    let mut corner: usize = 0;
    while corner < 4
        invariant
            corner <= 4,
            cx < i32::MAX,
            cy < i32::MAX,
            h@.len() == 4,
            forall|k: int|
                0 <= k < corner ==> #[trigger] h@[k] == spec_hash2(
                    seed,
                    (cx + corner_bit(k, 0)) as i32,
                    (cy + corner_bit(k, 1)) as i32,
                ),
        decreases 4 - corner,
    {
        let ox = corner_offset(corner, 0);
        let oy = corner_offset(corner, 1);
        h[corner] = hash2(seed, cx + ox, cy + oy);
        corner = corner + 1;
    }
    h
}

/// Hashes of the eight corners of the 3D lattice cell whose lowest point is
/// `(cx, cy, cz)`, corner `k` being offset by the bits of `k`.
pub fn lattice_hashes3(seed: NoiseSeed, cx: i32, cy: i32, cz: i32) -> (h: [u32; 8])
    requires
        cx < i32::MAX,
        cy < i32::MAX,
        cz < i32::MAX,
    ensures
        h@.len() == 8,
        forall|k: int|
            0 <= k < 8 ==> #[trigger] h@[k] == spec_hash3(
                seed,
                (cx + corner_bit(k, 0)) as i32,
                (cy + corner_bit(k, 1)) as i32,
                (cz + corner_bit(k, 2)) as i32,
            ),
{
    let mut h: [u32; 8] = [0u32; 8];
    let mut corner: usize = 0;
    while corner < 8
        invariant
            corner <= 8,
            cx < i32::MAX,
            cy < i32::MAX,
            cz < i32::MAX,
            h@.len() == 8,
            forall|k: int|
                0 <= k < corner ==> #[trigger] h@[k] == spec_hash3(
                    seed,
                    (cx + corner_bit(k, 0)) as i32,
                    (cy + corner_bit(k, 1)) as i32,
                    (cz + corner_bit(k, 2)) as i32,
                ),
        decreases 8 - corner,
    {
        let ox = corner_offset(corner, 0);
        let oy = corner_offset(corner, 1);
        let oz = corner_offset(corner, 2);
        h[corner] = hash3(seed, cx + ox, cy + oy, cz + oz);
        corner = corner + 1;
    }
    h
}

/// Hashes of the sixteen corners of the 4D lattice cell whose lowest point is
/// `(cx, cy, cz, cw)`, corner `k` being offset by the bits of `k`.
pub fn lattice_hashes4(seed: NoiseSeed, cx: i32, cy: i32, cz: i32, cw: i32) -> (h: [u32; 16])
    requires
        cx < i32::MAX,
        cy < i32::MAX,
        cz < i32::MAX,
        cw < i32::MAX,
    ensures
        h@.len() == 16,
        forall|k: int|
            0 <= k < 16 ==> #[trigger] h@[k] == spec_hash4(
                seed,
                (cx + corner_bit(k, 0)) as i32,
                (cy + corner_bit(k, 1)) as i32,
                (cz + corner_bit(k, 2)) as i32,
                (cw + corner_bit(k, 3)) as i32,
            ),
{
    let mut h: [u32; 16] = [0u32; 16];
    let mut corner: usize = 0;
    while corner < 16
        invariant
            corner <= 16,
            cx < i32::MAX,
            cy < i32::MAX,
            cz < i32::MAX,
            cw < i32::MAX,
            h@.len() == 16,
            forall|k: int|
                0 <= k < corner ==> #[trigger] h@[k] == spec_hash4(
                    seed,
                    (cx + corner_bit(k, 0)) as i32,
                    (cy + corner_bit(k, 1)) as i32,
                    (cz + corner_bit(k, 2)) as i32,
                    (cw + corner_bit(k, 3)) as i32,
                ),
        decreases 16 - corner,
    {
        let ox = corner_offset(corner, 0);
        let oy = corner_offset(corner, 1);
        let oz = corner_offset(corner, 2);
        let ow = corner_offset(corner, 3);
        h[corner] = hash4(seed, cx + ox, cy + oy, cz + oz, cw + ow);
        corner = corner + 1;
    }
    h
}

/// Law: the four axis bits of a corner number rebuild it, so the corners of a
/// cell are pairwise distinct lattice points, each offset by 0 or 1 per axis.
pub proof fn lemma_corner_bits_rebuild_corner(k: int)
    requires
        0 <= k < 16,
    ensures
        corner_bit(k, 0) + 2 * corner_bit(k, 1) + 4 * corner_bit(k, 2) + 8 * corner_bit(k, 3) == k,
        0 <= corner_bit(k, 0) <= 1 && 0 <= corner_bit(k, 1) <= 1,
        0 <= corner_bit(k, 2) <= 1 && 0 <= corner_bit(k, 3) <= 1,
{
    reveal_with_fuel(corner_bit, 5);
}

} // verus!
