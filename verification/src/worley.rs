use vstd::prelude::*;

use crate::hash::{hash2, hash3, spec_hash2, spec_hash3};
use crate::seed::{spec_split, NoiseSeed};

verus! {

/// How the distance from a point to a feature point is measured.
#[derive(Debug, Clone, Copy, PartialEq, Eq, Default, Structural)]
pub enum WorleyDistanceMetric {
    #[default]
    Euclidean,
    Manhattan,
    Chebyshev,
}

/// Which feature distance a Worley sample returns.
#[derive(Debug, Clone, Copy, PartialEq, Eq, Default, Structural)]
pub enum WorleyReturnType {
    #[default]
    F1,
    F2,
    F2MinusF1,
}

pub open spec fn spec_metric_name(m: WorleyDistanceMetric) -> &'static str {
    match m {
        WorleyDistanceMetric::Euclidean => "Euclidean",
        WorleyDistanceMetric::Manhattan => "Manhattan",
        WorleyDistanceMetric::Chebyshev => "Chebyshev",
    }
}

pub open spec fn spec_return_name(r: WorleyReturnType) -> &'static str {
    match r {
        WorleyReturnType::F1 => "F1",
        WorleyReturnType::F2 => "F2",
        WorleyReturnType::F2MinusF1 => "F2MinusF1",
    }
}

impl WorleyDistanceMetric {
    /// The variant's name, as `{:?}` prints it.
    pub fn debug_name(&self) -> (s: &'static str)
        ensures
            s == spec_metric_name(*self),
    {
        match self {
            WorleyDistanceMetric::Euclidean => "Euclidean",
            WorleyDistanceMetric::Manhattan => "Manhattan",
            WorleyDistanceMetric::Chebyshev => "Chebyshev",
        }
    }
}

impl WorleyReturnType {
    /// The variant's name, as `{:?}` prints it.
    pub fn debug_name(&self) -> (s: &'static str)
        ensures
            s == spec_return_name(*self),
    {
        match self {
            WorleyReturnType::F1 => "F1",
            WorleyReturnType::F2 => "F2",
            WorleyReturnType::F2MinusF1 => "F2MinusF1",
        }
    }
}

/// Salts of the seed streams that jitter a feature point along y, and along
/// y and z in 3D.
pub const SALT_2D_Y: u32 = 0xA341_316Cu32;

pub const SALT_3D_Y: u32 = 0xC801_3EA4u32;

pub const SALT_3D_Z: u32 = 0xAD90_777Du32;

/// The hashes that place the feature point of a 2D cell: one per axis.
pub fn feature_hashes2(seed: NoiseSeed, cx: i32, cy: i32) -> (r: (u32, u32))
    ensures
        r == (spec_hash2(seed, cx, cy), spec_hash2(NoiseSeed(spec_split(seed.0, SALT_2D_Y)), cx, cy)),
{
    (hash2(seed, cx, cy), hash2(seed.split(SALT_2D_Y), cx, cy))
}

/// The hashes that place the feature point of a 3D cell: one per axis.
pub fn feature_hashes3(seed: NoiseSeed, cx: i32, cy: i32, cz: i32) -> (r: (u32, u32, u32))
    ensures
        r == (
            spec_hash3(seed, cx, cy, cz),
            spec_hash3(NoiseSeed(spec_split(seed.0, SALT_3D_Y)), cx, cy, cz),
            spec_hash3(NoiseSeed(spec_split(seed.0, SALT_3D_Z)), cx, cy, cz),
        ),
{
    (
        hash3(seed, cx, cy, cz),
        hash3(seed.split(SALT_3D_Y), cx, cy, cz),
        hash3(seed.split(SALT_3D_Z), cx, cy, cz),
    )
}

/// The 3x3 block of cells around `(bx, by)`, row by row from the lower-left.
pub fn neighborhood2(bx: i32, by: i32) -> (cells: [(i32, i32); 9])
    requires
        i32::MIN < bx < i32::MAX,
        i32::MIN < by < i32::MAX,
    ensures
        cells@.len() == 9,
        forall|k: int|
            0 <= k < 9 ==> #[trigger] cells@[k] == ((bx + k % 3 - 1) as i32, (by + k / 3 - 1) as i32),
{
    let mut cells: [(i32, i32); 9] = [(0i32, 0i32); 9];
    let mut filled: usize = 0;
    let mut oy: i32 = -1;
    while oy <= 1
        invariant
            -1 <= oy <= 2,
            i32::MIN < bx < i32::MAX,
            i32::MIN < by < i32::MAX,
            cells@.len() == 9,
            filled == 3 * (oy + 1),
            forall|k: int|
                0 <= k < filled ==> #[trigger] cells@[k] == (
                    (bx + k % 3 - 1) as i32,
                    (by + k / 3 - 1) as i32,
                ),
        decreases 2 - oy,
    {
        let mut ox: i32 = -1;
        while ox <= 1
            invariant
                -1 <= oy <= 1,
                -1 <= ox <= 2,
                i32::MIN < bx < i32::MAX,
                i32::MIN < by < i32::MAX,
                cells@.len() == 9,
                filled == 3 * (oy + 1) + (ox + 1),
                forall|k: int|
                    0 <= k < filled ==> #[trigger] cells@[k] == (
                        (bx + k % 3 - 1) as i32,
                        (by + k / 3 - 1) as i32,
                    ),
            decreases 2 - ox,
        {
            let ghost k = filled as int;
            cells[filled] = (bx + ox, by + oy);
            filled = filled + 1;
            assert(k % 3 == ox + 1 && k / 3 == oy + 1);
            ox = ox + 1;
        }
        oy = oy + 1;
    }
    cells
}

/// The 3x3x3 block of cells around `(bx, by, bz)`, x fastest, then y, then z.
pub fn neighborhood3(bx: i32, by: i32, bz: i32) -> (cells: [(i32, i32, i32); 27])
    requires
        i32::MIN < bx < i32::MAX,
        i32::MIN < by < i32::MAX,
        i32::MIN < bz < i32::MAX,
    ensures
        cells@.len() == 27,
        forall|k: int|
            0 <= k < 27 ==> #[trigger] cells@[k] == (
                (bx + k % 3 - 1) as i32,
                (by + (k / 3) % 3 - 1) as i32,
                (bz + k / 9 - 1) as i32,
            ),
{
    let mut cells: [(i32, i32, i32); 27] = [(0i32, 0i32, 0i32); 27];
    let mut filled: usize = 0;
    let mut oz: i32 = -1;
    while oz <= 1
        invariant
            -1 <= oz <= 2,
            i32::MIN < bx < i32::MAX,
            i32::MIN < by < i32::MAX,
            i32::MIN < bz < i32::MAX,
            cells@.len() == 27,
            filled == 9 * (oz + 1),
            forall|k: int|
                0 <= k < filled ==> #[trigger] cells@[k] == (
                    (bx + k % 3 - 1) as i32,
                    (by + (k / 3) % 3 - 1) as i32,
                    (bz + k / 9 - 1) as i32,
                ),
        decreases 2 - oz,
    {
        let mut oy: i32 = -1;
        while oy <= 1
            invariant
                -1 <= oz <= 1,
                -1 <= oy <= 2,
                i32::MIN < bx < i32::MAX,
                i32::MIN < by < i32::MAX,
                i32::MIN < bz < i32::MAX,
                cells@.len() == 27,
                filled == 9 * (oz + 1) + 3 * (oy + 1),
                forall|k: int|
                    0 <= k < filled ==> #[trigger] cells@[k] == (
                        (bx + k % 3 - 1) as i32,
                        (by + (k / 3) % 3 - 1) as i32,
                        (bz + k / 9 - 1) as i32,
                    ),
            decreases 2 - oy,
        {
            let mut ox: i32 = -1;
            while ox <= 1
                invariant
                    -1 <= oz <= 1,
                    -1 <= oy <= 1,
                    -1 <= ox <= 2,
                    i32::MIN < bx < i32::MAX,
                    i32::MIN < by < i32::MAX,
                    i32::MIN < bz < i32::MAX,
                    cells@.len() == 27,
                    filled == 9 * (oz + 1) + 3 * (oy + 1) + (ox + 1),
                    forall|k: int|
                        0 <= k < filled ==> #[trigger] cells@[k] == (
                            (bx + k % 3 - 1) as i32,
                            (by + (k / 3) % 3 - 1) as i32,
                            (bz + k / 9 - 1) as i32,
                        ),
                decreases 2 - ox,
            {
                let ghost k = filled as int;
                cells[filled] = (bx + ox, by + oy, bz + oz);
                filled = filled + 1;
                assert(k % 3 == ox + 1 && (k / 3) % 3 == oy + 1 && k / 9 == oz + 1);
                ox = ox + 1;
            }
            oy = oy + 1;
        }
        oz = oz + 1;
    }
    cells
}

/// Bit pattern of `f32::INFINITY`, the distance key no feature is farther than.
pub const FAR_KEY: u32 = 0x7F80_0000u32;

/// The two smallest distance keys seen, scanning in order from `(FAR_KEY, FAR_KEY)`:
/// a key below the nearest becomes the nearest and pushes the old nearest to
/// second; a key between them becomes the second.
pub open spec fn spec_nearest_two(keys: Seq<u32>) -> (u32, u32)
    decreases keys.len(),
{
    if keys.len() == 0 {
        (FAR_KEY, FAR_KEY)
    } else {
        let (f1, f2) = spec_nearest_two(keys.drop_last());
        let d = keys.last();
        if d < f1 {
            (d, f1)
        } else if d < f2 {
            (f1, d)
        } else {
            (f1, f2)
        }
    }
}

/// The nearest (`F1`) and second-nearest (`F2`) feature distances, each given
/// by a key that orders like the distance (the bit pattern of a non-negative
/// `f32` distance).
pub fn nearest_two(keys: &[u32]) -> (r: (u32, u32))
    ensures
        r == spec_nearest_two(keys@),
        r.0 <= r.1 <= FAR_KEY,
        forall|i: int| 0 <= i < keys@.len() ==> r.0 <= #[trigger] keys@[i],
        forall|i: int, j: int|
            0 <= i < j < keys@.len() ==> !(#[trigger] keys@[i] < r.1 && #[trigger] keys@[j] < r.1),
        (r.0 == FAR_KEY || exists|i: int| 0 <= i < keys@.len() && #[trigger] keys@[i] == r.0),
        (r.1 == FAR_KEY || exists|i: int, j: int|
            0 <= i < keys@.len() && 0 <= j < keys@.len() && i != j && #[trigger] keys@[i] == r.0
                && #[trigger] keys@[j] == r.1),
{
    let mut f1: u32 = FAR_KEY;
    let mut f2: u32 = FAR_KEY;
    let mut index: usize = 0;
    assert(keys@.take(0) =~= Seq::<u32>::empty());
    while index < keys.len()
        invariant
            index <= keys@.len(),
            (f1, f2) == spec_nearest_two(keys@.take(index as int)),
        decreases keys@.len() - index,
    {
        let d = keys[index];
        proof {
            let next = keys@.take(index + 1);
            assert(next.drop_last() =~= keys@.take(index as int));
        }
        if d < f1 {
            f2 = f1;
            f1 = d;
        } else if d < f2 {
            f2 = d;
        }
        index = index + 1;
    }
    assert(keys@.take(keys@.len() as int) =~= keys@);
    proof {
        lemma_nearest_two_order(keys@);
    }
    (f1, f2)
}

/// Law: the nearest key never exceeds the second-nearest (`F1 <= F2`), the
/// nearest is at most every key, and at most one key lies below the second;
/// unless it is `FAR_KEY` the nearest is one of the keys, and unless the
/// second is `FAR_KEY` it is another key, at a different index. So they are
/// exactly the smallest and second-smallest keys.
pub proof fn lemma_nearest_two_order(keys: Seq<u32>)
    ensures
        spec_nearest_two(keys).0 <= spec_nearest_two(keys).1 <= FAR_KEY,
        forall|i: int| 0 <= i < keys.len() ==> spec_nearest_two(keys).0 <= #[trigger] keys[i],
        forall|i: int, j: int|
            0 <= i < j < keys.len() ==> !(#[trigger] keys[i] < spec_nearest_two(keys).1
                && #[trigger] keys[j] < spec_nearest_two(keys).1),
        (spec_nearest_two(keys).0 == FAR_KEY || exists|i: int|
            0 <= i < keys.len() && #[trigger] keys[i] == spec_nearest_two(keys).0),
        (spec_nearest_two(keys).1 == FAR_KEY || exists|i: int, j: int|
            0 <= i < keys.len() && 0 <= j < keys.len() && i != j && #[trigger] keys[i]
                == spec_nearest_two(keys).0 && #[trigger] keys[j] == spec_nearest_two(keys).1),
    decreases keys.len(),
{
    if keys.len() > 0 {
        let prefix = keys.drop_last();
        lemma_nearest_two_order(prefix);
        let (f1, f2) = spec_nearest_two(prefix);
        let (g1, g2) = spec_nearest_two(keys);
        let n = keys.len() - 1;
        assert forall|i: int| 0 <= i < keys.len() implies g1 <= #[trigger] keys[i] by {
            if i < n {
                assert(keys[i] == prefix[i]);
            }
        }
        assert forall|i: int, j: int|
            0 <= i < j < keys.len() implies !(#[trigger] keys[i] < g2 && #[trigger] keys[j] < g2) by {
            assert(keys[i] == prefix[i]);
            if j < n {
                assert(keys[j] == prefix[j]);
            } else {
                assert(prefix[i] >= f1);
            }
        }
        let d = keys[n];
        if f1 != FAR_KEY {
            let i0 = choose|i: int| 0 <= i < prefix.len() && #[trigger] prefix[i] == f1;
            assert(keys[i0] == f1);
            if f2 != FAR_KEY {
                let (a, b) = choose|a: int, b: int|
                    0 <= a < prefix.len() && 0 <= b < prefix.len() && a != b && #[trigger] prefix[a]
                        == f1 && #[trigger] prefix[b] == f2;
                assert(keys[a] == f1 && keys[b] == f2);
                if d < f1 {
                    assert(keys[n] == g1 && keys[i0] == g2);
                } else if d < f2 {
                    assert(keys[i0] == g1 && keys[n] == g2);
                } else {
                    assert(keys[a] == g1 && keys[b] == g2);
                }
            } else {
                if d < f1 {
                    assert(keys[n] == g1 && keys[i0] == g2);
                } else if d < f2 {
                    assert(keys[i0] == g1 && keys[n] == g2);
                }
            }
        } else {
            if d < f1 {
                assert(keys[n] == g1);
            }
        }
    }
}

} // verus!
