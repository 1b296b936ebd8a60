use vstd::prelude::*;

verus! {

/// The cells of a `width` x `height` grid in row-major order: x fastest.
pub fn grid_cells2(width: u32, height: u32) -> (cells: Vec<(u32, u32)>)
    requires
        width * height <= u32::MAX,
    ensures
        cells.len() == width * height,
        forall|i: int|
            0 <= i < cells.len() ==> #[trigger] cells@[i] == ((i % width as int) as u32, (i
                / width as int) as u32),
{
    let mut cells: Vec<(u32, u32)> = Vec::new();
    let mut y: u32 = 0;
    while y < height
        invariant
            y <= height,
            width * height <= u32::MAX,
            cells.len() == y * width,
            forall|i: int|
                0 <= i < cells.len() ==> #[trigger] cells@[i] == ((i % width as int) as u32, (i
                    / width as int) as u32),
        decreases height - y,
    {
        let mut x: u32 = 0;
        while x < width
            invariant
                x <= width,
                y < height,
                width * height <= u32::MAX,
                cells.len() == y * width + x,
                forall|i: int|
                    0 <= i < cells.len() ==> #[trigger] cells@[i] == ((i % width as int) as u32, (i
                        / width as int) as u32),
            decreases width - x,
        {
            proof {
                lemma_row_major_position(width as int, x as int, y as int);
            }
            cells.push((x, y));
            x = x + 1;
        }
        proof {
            assert((y + 1) * width == y * width + width) by (nonlinear_arith);
            assert((y + 1) * width <= height * width) by (nonlinear_arith)
                requires
                    y < height,
            ;
        }
        y = y + 1;
    }
    assert(height * width == width * height) by (nonlinear_arith);
    cells
}

/// The cells of a `width` x `height` x `depth` grid: x fastest, then y, then z.
pub fn grid_cells3(width: u32, height: u32, depth: u32) -> (cells: Vec<(u32, u32, u32)>)
    requires
        width * height * depth <= u32::MAX,
    ensures
        cells.len() == width * height * depth,
        forall|i: int|
            0 <= i < cells.len() ==> #[trigger] cells@[i] == (
                (i % width as int) as u32,
                ((i / width as int) % height as int) as u32,
                (i / (width * height) as int) as u32,
            ),
{
    let mut cells: Vec<(u32, u32, u32)> = Vec::new();
    assert(width as int * height as int <= 0xffff_ffffu64 * 0xffff_ffffu64) by (nonlinear_arith)
        requires
            width <= 0xffff_ffffu32,
            height <= 0xffff_ffffu32,
    ;
    let plane: u64 = width as u64 * height as u64;
    let mut z: u32 = 0;
    while z < depth
        invariant
            z <= depth,
            plane == width * height,
            width * height * depth <= u32::MAX,
            cells.len() == z * plane,
            forall|i: int|
                0 <= i < cells.len() ==> #[trigger] cells@[i] == (
                    (i % width as int) as u32,
                    ((i / width as int) % height as int) as u32,
                    (i / (width * height) as int) as u32,
                ),
        decreases depth - z,
    {
        let mut y: u32 = 0;
        while y < height
            invariant
                y <= height,
                z < depth,
                plane == width * height,
                width * height * depth <= u32::MAX,
                cells.len() == z * plane + y * width,
                forall|i: int|
                    0 <= i < cells.len() ==> #[trigger] cells@[i] == (
                        (i % width as int) as u32,
                        ((i / width as int) % height as int) as u32,
                        (i / (width * height) as int) as u32,
                    ),
            decreases height - y,
        {
            let mut x: u32 = 0;
            while x < width
                invariant
                    x <= width,
                    y < height,
                    z < depth,
                    plane == width * height,
                    width * height * depth <= u32::MAX,
                    cells.len() == z * plane + y * width + x,
                    forall|i: int|
                        0 <= i < cells.len() ==> #[trigger] cells@[i] == (
                            (i % width as int) as u32,
                            ((i / width as int) % height as int) as u32,
                            (i / (width * height) as int) as u32,
                        ),
                decreases width - x,
            {
                proof {
                    lemma_volume_position(width as int, height as int, x as int, y as int, z as int);
                    assert(z * plane + y * width + x < width * height * depth) by (nonlinear_arith)
                        requires
                            plane == width * height,
                            x < width,
                            y < height,
                            z < depth,
                    ;
                }
                cells.push((x, y, z));
                x = x + 1;
            }
            proof {
                assert((y + 1) * width == y * width + width) by (nonlinear_arith);
            }
            y = y + 1;
        }
        proof {
            assert(z * plane + height * width == (z + 1) * plane) by (nonlinear_arith)
                requires
                    plane == width * height,
            ;
        }
        z = z + 1;
    }
    assert(depth * plane == width * height * depth) by (nonlinear_arith)
        requires
            plane == width * height,
    ;
    cells
}

/// Row-major index of cell `(x, y)` in a grid `width` cells wide.
pub fn cell_index2(x: u32, y: u32, width: u32) -> (index: usize)
    requires
        y * width + x <= u32::MAX,
    ensures
        index == y * width + x,
{
    proof {
        assert(y * width <= u32::MAX) by (nonlinear_arith)
            requires
                y * width + x <= u32::MAX,
        ;
    }
    (y * width + x) as usize
}

/// Row-major position: index `y * width + x` holds column `x` of row `y`.
pub proof fn lemma_row_major_position(width: int, x: int, y: int)
    requires
        0 <= x < width,
        0 <= y,
    ensures
        (y * width + x) % width == x,
        (y * width + x) / width == y,
{
    vstd::arithmetic::div_mod::lemma_fundamental_div_mod_converse(y * width + x, width, y, x);
}

/// Position in a volume: index `(z * height + y) * width + x` holds `(x, y, z)`.
pub proof fn lemma_volume_position(width: int, height: int, x: int, y: int, z: int)
    requires
        0 <= x < width,
        0 <= y < height,
        0 <= z,
    ensures
        ({
            let i = z * (width * height) + y * width + x;
            &&& i % width == x
            &&& (i / width) % height == y
            &&& i / (width * height) == z
        }),
{
    let i = z * (width * height) + y * width + x;
    assert(z * (width * height) + y * width + x == (z * height + y) * width + x) by (nonlinear_arith);
    lemma_row_major_position(width, x, z * height + y);
    lemma_row_major_position(height, y, z);
    assert(y * width + x < width * height) by (nonlinear_arith)
        requires
            0 <= x < width,
            0 <= y < height,
    ;
    vstd::arithmetic::div_mod::lemma_fundamental_div_mod_converse(
        i,
        width * height,
        z,
        y * width + x,
    );
}

/// Law: the cell a batch sample writes at `cell_index2(x, y, width)` is the
/// cell `(x, y)`: batch sampling in `grid_cells2` order agrees with sampling
/// each cell directly.
pub proof fn lemma_index_of_cell_round_trips(width: u32, height: u32, x: u32, y: u32)
    requires
        x < width,
        y < height,
    ensures
        ({
            let i = y * width + x;
            &&& 0 <= i < width * height
            &&& i % width as int == x
            &&& i / width as int == y
        }),
{
    lemma_row_major_position(width as int, x as int, y as int);
    assert(y * width + x < width * height) by (nonlinear_arith)
        requires
            x < width,
            y < height,
    ;
}

pub const SIGNATURE_BASIS: u64 = 0xcbf2_9ce4_8422_2325u64;

pub const SIGNATURE_PRIME: u64 = 0x100_0000_01b3u64;

/// Signature of a grid from the bit patterns of its values: each value is
/// xored into the running hash, which is then multiplied by the prime.
pub open spec fn spec_signature(bits: Seq<u32>) -> u64
    decreases bits.len(),
{
    if bits.len() == 0 {
        SIGNATURE_BASIS
    } else {
        (spec_signature(bits.drop_last()) ^ (bits.last() as u64)).wrapping_mul(SIGNATURE_PRIME)
    }
}

proof fn lemma_signature_step_undone(h: u64)
    ensures
        h.wrapping_mul(0x100_0000_01b3u64).wrapping_mul(0xce96_5057_aff6_957bu64) == h,
{
    assert(h.wrapping_mul(0x100_0000_01b3u64).wrapping_mul(0xce96_5057_aff6_957bu64) == h)
        by (bit_vector);
}

/// Law: the signature starts from the FNV-1a 64-bit basis, and each value
/// xors its bits into it and multiplies by the FNV prime. Each step can be
/// undone, so grids that differ only in their last value, or that share
/// their last value and differ before it, never share a signature.
pub proof fn lemma_signature_tells_grids_apart(bits: Seq<u32>, other: Seq<u32>, a: u32, b: u32)
    ensures
        spec_signature(Seq::<u32>::empty()) == 0xcbf2_9ce4_8422_2325u64,
        spec_signature(bits.push(a)) == (spec_signature(bits) ^ (a as u64)).wrapping_mul(
            0x100_0000_01b3u64,
        ),
        spec_signature(bits.push(a)) == spec_signature(bits.push(b)) ==> a == b,
        spec_signature(bits.push(a)) == spec_signature(other.push(a)) ==> spec_signature(bits)
            == spec_signature(other),
{
    assert(bits.push(a).drop_last() =~= bits);
    assert(bits.push(b).drop_last() =~= bits);
    assert(other.push(a).drop_last() =~= other);
    let h = spec_signature(bits);
    let g = spec_signature(other);
    lemma_signature_step_undone(h ^ (a as u64));
    lemma_signature_step_undone(h ^ (b as u64));
    lemma_signature_step_undone(g ^ (a as u64));
    assert((h ^ (a as u64)) == (h ^ (b as u64)) ==> a == b) by (bit_vector);
    assert((h ^ (a as u64)) == (g ^ (a as u64)) ==> h == g) by (bit_vector);
}

/// Signature of a grid, given the bit patterns of its values in order.
pub fn signature_of_bits(bits: &[u32]) -> (h: u64)
    ensures
        h == spec_signature(bits@),
{
    let mut hash: u64 = SIGNATURE_BASIS;
    let mut index: usize = 0;
    assert(bits@.take(0) =~= Seq::<u32>::empty());
    while index < bits.len()
        invariant
            index <= bits@.len(),
            hash == spec_signature(bits@.take(index as int)),
        decreases bits@.len() - index,
    {
        proof {
            assert(bits@.take(index + 1).drop_last() =~= bits@.take(index as int));
        }
        hash = (hash ^ (bits[index] as u64)).wrapping_mul(SIGNATURE_PRIME);
        index = index + 1;
    }
    assert(bits@.take(bits@.len() as int) =~= bits@);
    hash
}

/// Number of non-zero cells of a mask.
pub open spec fn spec_active_count(values: Seq<u8>) -> nat
    decreases values.len(),
{
    if values.len() == 0 {
        0
    } else {
        spec_active_count(values.drop_last()) + if values.last() != 0 {
            1nat
        } else {
            0nat
        }
    }
}

/// Number of cells of a mask that are set.
pub fn active_cell_count(values: &[u8]) -> (n: usize)
    ensures
        n == spec_active_count(values@),
        n == values@.filter(|v: u8| v != 0u8).len(),
        n <= values@.len(),
{
    proof {
        lemma_active_count_counts_set_cells(values@);
    }
    let mut count: usize = 0;
    let mut index: usize = 0;
    assert(values@.take(0) =~= Seq::<u8>::empty());
    while index < values.len()
        invariant
            index <= values@.len(),
            count == spec_active_count(values@.take(index as int)),
            count <= index,
        decreases values@.len() - index,
    {
        proof {
            assert(values@.take(index + 1).drop_last() =~= values@.take(index as int));
        }
        if values[index] != 0 {
            count = count + 1;
        }
        index = index + 1;
    }
    assert(values@.take(values@.len() as int) =~= values@);
    count
}

/// Law: the active count is the number of set cells: the length of the
/// subsequence of non-zero cells; a single cell counts 1 exactly when it is
/// set; and putting a cell in front adds 1 exactly when that cell is set.
pub proof fn lemma_active_count_counts_set_cells(values: Seq<u8>)
    ensures
        spec_active_count(values) == values.filter(|v: u8| v != 0u8).len(),
        spec_active_count(Seq::<u8>::empty()) == 0,
        forall|v: u8|
            #[trigger] spec_active_count(seq![v]) == (if v != 0 {
                1nat
            } else {
                0nat
            }),
        forall|v: u8|
            #[trigger] spec_active_count(seq![v] + values) == spec_active_count(values) + (if v
                != 0 {
                1nat
            } else {
                0nat
            }),
    decreases values.len(),
{
    reveal(Seq::filter);
    assert forall|v: u8| #[trigger] spec_active_count(seq![v]) == (if v != 0 {
        1nat
    } else {
        0nat
    }) by {
        assert(seq![v].drop_last() =~= Seq::<u8>::empty());
        assert(seq![v].last() == v);
        assert(spec_active_count(seq![v].drop_last()) == 0);
    }
    if values.len() > 0 {
        lemma_active_count_counts_set_cells(values.drop_last());
        assert forall|v: u8| #[trigger] spec_active_count(seq![v] + values) == spec_active_count(
            values,
        ) + (if v != 0 {
            1nat
        } else {
            0nat
        }) by {
            assert((seq![v] + values).drop_last() =~= seq![v] + values.drop_last());
            assert((seq![v] + values).last() == values.last());
            assert(spec_active_count(seq![v] + values.drop_last()) == spec_active_count(
                values.drop_last(),
            ) + (if v != 0 {
                1nat
            } else {
                0nat
            }));
        }
    } else {
        assert forall|v: u8| #[trigger] spec_active_count(seq![v] + values) == spec_active_count(
            values,
        ) + (if v != 0 {
            1nat
        } else {
            0nat
        }) by {
            assert(seq![v] + values =~= seq![v]);
        }
    }
}

/// Range of cells a brush covers along one axis of a buffer `extent` cells
/// long, from the floor of its lower edge and the ceiling of its upper edge:
/// the lower end is raised to 0 and the upper end lowered to `extent - 1`,
/// both then read as unsigned (a negative end wraps around).
pub fn stamp_span(lower: i32, upper: i32, extent: u32) -> (span: (u32, u32))
    requires
        extent != 0x8000_0000u32,
    ensures
        span.0 == (if lower < 0 { 0 } else { lower }) as u32,
        span.1 == (if upper < (extent as i32) - 1 { upper as int } else { (extent as i32) - 1 }) as u32,
{
    assert((extent as i32) > i32::MIN) by (bit_vector)
        requires
            extent != 0x8000_0000u32,
    ;
    let lo: i32 = if lower < 0 { 0 } else { lower };
    let last: i32 = (extent as i32) - 1;
    let hi: i32 = if upper < last { upper } else { last };
    (lo as u32, hi as u32)
}

} // verus!
