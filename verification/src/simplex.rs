use vstd::prelude::*;

use crate::hash::{hash2, hash3, hash4, spec_hash2, spec_hash3, spec_hash4};
use crate::seed::NoiseSeed;

verus! {

/// Integer offset of one corner of a simplex from its base lattice point.
pub type Corner3 = (i32, i32, i32);

/// Integer offset of one corner of a 4D simplex from its base lattice point.
pub type Corner4 = (i32, i32, i32, i32);

/// Ranks of the four local coordinates of a 4D simplex point.
pub type Ranks4 = (u8, u8, u8, u8);

pub open spec fn bit(b: bool) -> int {
    if b { 1 } else { 0 }
}

/// Number of axes whose rank reaches `t`: the axes the corner for `t` steps along.
pub open spec fn steps4(r: (int, int, int, int), t: int) -> int {
    bit(r.0 >= t) + bit(r.1 >= t) + bit(r.2 >= t) + bit(r.3 >= t)
}

pub open spec fn is_unit_offset(v: i32) -> bool {
    v == 0 || v == 1
}

/// Middle corner of the 2D simplex: the triangle is entered along the axis
/// whose local coordinate is larger (x when `x0 > y0`, else y).
pub fn simplex2_middle_corner(x_above_y: bool) -> (c: (i32, i32))
    ensures
        c == (if x_above_y { (1i32, 0i32) } else { (0i32, 1i32) }),
{
    if x_above_y {
        (1, 0)
    } else {
        (0, 1)
    }
}

/// The two intermediate corners of the 3D simplex, chosen from the three
/// comparisons `x0 >= y0`, `y0 >= z0` and `x0 >= z0`.
pub open spec fn spec_simplex3_corners(x_ge_y: bool, y_ge_z: bool, x_ge_z: bool) -> (
    Corner3,
    Corner3,
) {
    if x_ge_y {
        if y_ge_z {
            ((1, 0, 0), (1, 1, 0))
        } else if x_ge_z {
            ((1, 0, 0), (1, 0, 1))
        } else {
            ((0, 0, 1), (1, 0, 1))
        }
    } else if !y_ge_z {
        ((0, 0, 1), (0, 1, 1))
    } else if !x_ge_z {
        ((0, 1, 0), (0, 1, 1))
    } else {
        ((0, 1, 0), (1, 1, 0))
    }
}

pub fn simplex3_corners(x_ge_y: bool, y_ge_z: bool, x_ge_z: bool) -> (r: (Corner3, Corner3))
    ensures
        r == spec_simplex3_corners(x_ge_y, y_ge_z, x_ge_z),
{
    if x_ge_y {
        if y_ge_z {
            ((1, 0, 0), (1, 1, 0))
        } else if x_ge_z {
            ((1, 0, 0), (1, 0, 1))
        } else {
            ((0, 0, 1), (1, 0, 1))
        }
    } else if y_ge_z {
        if x_ge_z {
            ((0, 1, 0), (1, 1, 0))
        } else {
            ((0, 1, 0), (0, 1, 1))
        }
    } else {
        ((0, 0, 1), (0, 1, 1))
    }
}

/// Rank of each local coordinate among the four: the number of pairwise
/// comparisons it wins, where `x > y` is won by x and otherwise by y.
pub open spec fn spec_simplex4_ranks(
    x_gt_y: bool,
    x_gt_z: bool,
    x_gt_w: bool,
    y_gt_z: bool,
    y_gt_w: bool,
    z_gt_w: bool,
) -> (int, int, int, int) {
    (
        bit(x_gt_y) + bit(x_gt_z) + bit(x_gt_w),
        bit(!x_gt_y) + bit(y_gt_z) + bit(y_gt_w),
        bit(!x_gt_z) + bit(!y_gt_z) + bit(z_gt_w),
        bit(!x_gt_w) + bit(!y_gt_w) + bit(!z_gt_w),
    )
}

pub fn simplex4_ranks(
    x_gt_y: bool,
    x_gt_z: bool,
    x_gt_w: bool,
    y_gt_z: bool,
    y_gt_w: bool,
    z_gt_w: bool,
) -> (r: Ranks4)
    ensures
        (r.0 as int, r.1 as int, r.2 as int, r.3 as int) == spec_simplex4_ranks(
            x_gt_y,
            x_gt_z,
            x_gt_w,
            y_gt_z,
            y_gt_w,
            z_gt_w,
        ),
{
    let mut rx: u8 = 0;
    let mut ry: u8 = 0;
    let mut rz: u8 = 0;
    let mut rw: u8 = 0;
    if x_gt_y {
        rx = rx + 1;
    } else {
        ry = ry + 1;
    }
    if x_gt_z {
        rx = rx + 1;
    } else {
        rz = rz + 1;
    }
    if x_gt_w {
        rx = rx + 1;
    } else {
        rw = rw + 1;
    }
    if y_gt_z {
        ry = ry + 1;
    } else {
        rz = rz + 1;
    }
    if y_gt_w {
        ry = ry + 1;
    } else {
        rw = rw + 1;
    }
    if z_gt_w {
        rz = rz + 1;
    } else {
        rw = rw + 1;
    }
    (rx, ry, rz, rw)
}

/// The corner of the 4D simplex reached after stepping along every axis
/// whose rank is at least `threshold`.
pub fn simplex4_corner(ranks: Ranks4, threshold: u8) -> (c: Corner4)
    ensures
        c == ((if ranks.0 >= threshold { 1i32 } else { 0i32 }), (if ranks.1 >= threshold {
            1i32
        } else {
            0i32
        }), (if ranks.2 >= threshold { 1i32 } else { 0i32 }), (if ranks.3 >= threshold {
            1i32
        } else {
            0i32
        })),
{
    (
        if ranks.0 >= threshold { 1 } else { 0 },
        if ranks.1 >= threshold { 1 } else { 0 },
        if ranks.2 >= threshold { 1 } else { 0 },
        if ranks.3 >= threshold { 1 } else { 0 },
    )
}

/// Step along one axis toward the corner for `threshold`: 1 when the axis's
/// rank reaches it.
pub open spec fn step(rank: u8, threshold: int) -> i32 {
    if rank >= threshold {
        1
    } else {
        0
    }
}

/// The corner reached when stepping along every axis whose rank is at least `t`.
pub open spec fn corner_for(ranks: Ranks4, t: int) -> Corner4 {
    (step(ranks.0, t), step(ranks.1, t), step(ranks.2, t), step(ranks.3, t))
}

/// The ranks are a permutation of 0, 1, 2, 3.
pub open spec fn is_rank_permutation(r: Ranks4) -> bool {
    &&& r.0 < 4 && r.1 < 4 && r.2 < 4 && r.3 < 4
    &&& r.0 != r.1 && r.0 != r.2 && r.0 != r.3
    &&& r.1 != r.2 && r.1 != r.3 && r.2 != r.3
}

pub open spec fn corner_weight(c: Corner4) -> int {
    c.0 + c.1 + c.2 + c.3
}

pub open spec fn corner_within(a: Corner4, b: Corner4) -> bool {
    a.0 <= b.0 && a.1 <= b.1 && a.2 <= b.2 && a.3 <= b.3
}

/// The three intermediate corners of the 4D simplex, in the order the
/// simplex visits them: for ranks 3, then 2, then 1 and above. When the ranks
/// are a permutation, the k-th corner steps along k axes, each corner keeps
/// the steps of the one before it, and the first steps along the axis of rank 3.
pub fn simplex4_corners(ranks: Ranks4) -> (c: (Corner4, Corner4, Corner4))
    ensures
        c.0 == corner_for(ranks, 3),
        c.1 == corner_for(ranks, 2),
        c.2 == corner_for(ranks, 1),
        is_rank_permutation(ranks) ==> {
            &&& corner_weight(c.0) == 1
            &&& corner_weight(c.1) == 2
            &&& corner_weight(c.2) == 3
            &&& corner_within(c.0, c.1)
            &&& corner_within(c.1, c.2)
            &&& (c.0.0 == 1 <==> ranks.0 == 3) && (c.0.1 == 1 <==> ranks.1 == 3)
            &&& (c.0.2 == 1 <==> ranks.2 == 3) && (c.0.3 == 1 <==> ranks.3 == 3)
        },
{
    (simplex4_corner(ranks, 3), simplex4_corner(ranks, 2), simplex4_corner(ranks, 1))
}

/// Hashes of the three corners of the 2D simplex with base lattice point
/// `(i, j)` and middle corner `middle`.
pub fn simplex2_corner_hashes(seed: NoiseSeed, i: i32, j: i32, middle: (i32, i32)) -> (r: (
    u32,
    u32,
    u32,
))
    requires
        i < i32::MAX,
        j < i32::MAX,
        is_unit_offset(middle.0),
        is_unit_offset(middle.1),
    ensures
        r == (spec_hash2(seed, i, j), spec_hash2(
            seed,
            (i + middle.0) as i32,
            (j + middle.1) as i32,
        ), spec_hash2(seed, (i + 1) as i32, (j + 1) as i32)),
{
    (hash2(seed, i, j), hash2(seed, i + middle.0, j + middle.1), hash2(seed, i + 1, j + 1))
}

/// Hashes of the four corners of the 3D simplex with base lattice point
/// `(i, j, k)` and intermediate corners `first` and `second`.
pub fn simplex3_corner_hashes(
    seed: NoiseSeed,
    i: i32,
    j: i32,
    k: i32,
    first: Corner3,
    second: Corner3,
) -> (r: (u32, u32, u32, u32))
    requires
        i < i32::MAX,
        j < i32::MAX,
        k < i32::MAX,
        is_unit_offset(first.0),
        is_unit_offset(first.1),
        is_unit_offset(first.2),
        is_unit_offset(second.0),
        is_unit_offset(second.1),
        is_unit_offset(second.2),
    ensures
        r.0 == spec_hash3(seed, i, j, k),
        r.1 == spec_hash3(seed, (i + first.0) as i32, (j + first.1) as i32, (k + first.2) as i32),
        r.2 == spec_hash3(
            seed,
            (i + second.0) as i32,
            (j + second.1) as i32,
            (k + second.2) as i32,
        ),
        r.3 == spec_hash3(seed, (i + 1) as i32, (j + 1) as i32, (k + 1) as i32),
{
    (
        hash3(seed, i, j, k),
        hash3(seed, i + first.0, j + first.1, k + first.2),
        hash3(seed, i + second.0, j + second.1, k + second.2),
        hash3(seed, i + 1, j + 1, k + 1),
    )
}

/// Hash of the 4D lattice point `base + offset`.
pub fn simplex4_corner_hash(
    seed: NoiseSeed,
    i: i32,
    j: i32,
    k: i32,
    l: i32,
    offset: Corner4,
) -> (r: u32)
    requires
        i < i32::MAX,
        j < i32::MAX,
        k < i32::MAX,
        l < i32::MAX,
        is_unit_offset(offset.0),
        is_unit_offset(offset.1),
        is_unit_offset(offset.2),
        is_unit_offset(offset.3),
    ensures
        r == spec_hash4(
            seed,
            (i + offset.0) as i32,
            (j + offset.1) as i32,
            (k + offset.2) as i32,
            (l + offset.3) as i32,
        ),
{
    hash4(seed, i + offset.0, j + offset.1, k + offset.2, l + offset.3)
}

/// Law: the 3D simplex corners follow the order of the local coordinates.
/// Whatever the three comparisons are, the first corner steps along exactly
/// one axis and the second along exactly two, including the first one; when
/// the comparisons come from three numbers, the first step is taken along an
/// axis holding the largest of them and the axis never stepped along holds
/// the smallest.
pub proof fn lemma_simplex3_corners_follow_order(x: int, y: int, z: int)
    ensures
        ({
            let (a, b) = spec_simplex3_corners(x >= y, y >= z, x >= z);
            &&& is_unit_offset(a.0) && is_unit_offset(a.1) && is_unit_offset(a.2)
            &&& is_unit_offset(b.0) && is_unit_offset(b.1) && is_unit_offset(b.2)
            &&& a.0 + a.1 + a.2 == 1
            &&& b.0 + b.1 + b.2 == 2
            &&& a.0 <= b.0 && a.1 <= b.1 && a.2 <= b.2
            &&& (a.0 == 1 ==> x >= y && x >= z)
            &&& (a.1 == 1 ==> y >= x && y >= z)
            &&& (a.2 == 1 ==> z >= x && z >= y)
            &&& (b.0 == 0 ==> x <= y && x <= z)
            &&& (b.1 == 0 ==> y <= x && y <= z)
            &&& (b.2 == 0 ==> z <= x && z <= y)
        }),
{
}

/// Law: when the six comparisons come from four numbers, the ranks are a
/// permutation of 0, 1, 2, 3 that orders the numbers; so the corner for
/// threshold `t` (1, 2 or 3) steps along exactly `4 - t` axes and each corner
/// includes the steps of the one before it.
pub proof fn lemma_simplex4_ranks_are_a_permutation(x: int, y: int, z: int, w: int)
    ensures
        ({
            let r = spec_simplex4_ranks(x > y, x > z, x > w, y > z, y > w, z > w);
            &&& 0 <= r.0 < 4 && 0 <= r.1 < 4 && 0 <= r.2 < 4 && 0 <= r.3 < 4
            &&& r.0 != r.1 && r.0 != r.2 && r.0 != r.3
            &&& r.1 != r.2 && r.1 != r.3 && r.2 != r.3
            &&& (x > y ==> r.0 > r.1) && (x > z ==> r.0 > r.2) && (x > w ==> r.0 > r.3)
            &&& (y > z ==> r.1 > r.2) && (y > w ==> r.1 > r.3) && (z > w ==> r.2 > r.3)
            &&& steps4(r, 3) == 1
            &&& steps4(r, 2) == 2
            &&& steps4(r, 1) == 3
        }),
{
}

} // verus!
