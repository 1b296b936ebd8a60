use saddle_procgen_noise::grid::{
    active_cell_count, cell_index2, grid_cells2, grid_cells3, signature_of_bits, stamp_span,
};
use saddle_procgen_noise::hash::{hash2, hash3, hash4};
use saddle_procgen_noise::seed::NoiseSeed;
use saddle_procgen_noise::simplex::{
    simplex2_corner_hashes, simplex2_middle_corner, simplex3_corner_hashes, simplex3_corners,
    simplex4_corner, simplex4_corner_hash, simplex4_corners, simplex4_ranks,
};
use saddle_procgen_noise::worley::{
    feature_hashes2, feature_hashes3, nearest_two, neighborhood2, neighborhood3, FAR_KEY,
    SALT_2D_Y, SALT_3D_Y, SALT_3D_Z,
};

#[test]
fn simplex2_enters_along_the_larger_axis() {
    assert_eq!(simplex2_middle_corner(true), (1, 0));
    assert_eq!(simplex2_middle_corner(false), (0, 1));
}

#[test]
fn simplex3_corners_follow_coordinate_order() {
    let order = |x: f32, y: f32, z: f32| simplex3_corners(x >= y, y >= z, x >= z);
    assert_eq!(order(0.9, 0.5, 0.1), ((1, 0, 0), (1, 1, 0)));
    assert_eq!(order(0.9, 0.1, 0.5), ((1, 0, 0), (1, 0, 1)));
    assert_eq!(order(0.5, 0.1, 0.9), ((0, 0, 1), (1, 0, 1)));
    assert_eq!(order(0.1, 0.5, 0.9), ((0, 0, 1), (0, 1, 1)));
    assert_eq!(order(0.1, 0.9, 0.5), ((0, 1, 0), (0, 1, 1)));
    assert_eq!(order(0.5, 0.9, 0.1), ((0, 1, 0), (1, 1, 0)));
}

#[test]
fn simplex4_ranks_are_a_permutation_and_corners_nest() {
    let (x, y, z, w) = (0.3f32, 0.9, 0.1, 0.6);
    let ranks = simplex4_ranks(x > y, x > z, x > w, y > z, y > w, z > w);
    assert_eq!(ranks, (1, 3, 0, 2));
    assert_eq!(simplex4_corner(ranks, 3), (0, 1, 0, 0));
    assert_eq!(simplex4_corner(ranks, 2), (0, 1, 0, 1));
    assert_eq!(simplex4_corner(ranks, 1), (1, 1, 0, 1));
    assert_eq!(
        simplex4_corners(ranks),
        ((0, 1, 0, 0), (0, 1, 0, 1), (1, 1, 0, 1))
    );
    let tied = simplex4_ranks(false, false, false, false, false, false);
    assert_eq!(
        simplex4_corners(tied),
        ((0, 0, 0, 1), (0, 0, 1, 1), (0, 1, 1, 1))
    );
    assert_eq!(tied, (0, 1, 2, 3));
}

#[test]
fn simplex_corner_hashes_hash_the_offset_points() {
    let seed = NoiseSeed(11);
    assert_eq!(
        simplex2_corner_hashes(seed, 4, -2, (0, 1)),
        (hash2(seed, 4, -2), hash2(seed, 4, -1), hash2(seed, 5, -1))
    );
    assert_eq!(
        simplex3_corner_hashes(seed, 1, 2, 3, (0, 0, 1), (1, 0, 1)),
        (
            hash3(seed, 1, 2, 3),
            hash3(seed, 1, 2, 4),
            hash3(seed, 2, 2, 4),
            hash3(seed, 2, 3, 4)
        )
    );
    assert_eq!(
        simplex4_corner_hash(seed, 1, 2, 3, 4, (1, 0, 0, 1)),
        hash4(seed, 2, 2, 3, 5)
    );
}

#[test]
fn worley_feature_hashes_use_salted_streams() {
    let seed = NoiseSeed(19);
    assert_eq!(
        feature_hashes2(seed, 3, -4),
        (hash2(seed, 3, -4), hash2(seed.split(SALT_2D_Y), 3, -4))
    );
    assert_eq!(
        feature_hashes3(seed, 3, -4, 5),
        (
            hash3(seed, 3, -4, 5),
            hash3(seed.split(SALT_3D_Y), 3, -4, 5),
            hash3(seed.split(SALT_3D_Z), 3, -4, 5)
        )
    );
}

#[test]
fn worley_neighborhoods_scan_rows_from_the_lower_left() {
    let cells = neighborhood2(10, -5);
    assert_eq!(cells.len(), 9);
    assert_eq!(cells[0], (9, -6));
    assert_eq!(cells[1], (10, -6));
    assert_eq!(cells[4], (10, -5));
    assert_eq!(cells[8], (11, -4));
    let cells3 = neighborhood3(0, 0, 0);
    assert_eq!(cells3.len(), 27);
    assert_eq!(cells3[0], (-1, -1, -1));
    assert_eq!(cells3[13], (0, 0, 0));
    assert_eq!(cells3[26], (1, 1, 1));
    assert_eq!(cells3[5], (1, 0, -1));
}

#[test]
fn nearest_two_keeps_f1_at_most_f2() {
    assert_eq!(nearest_two(&[5, 3, 9, 1]), (1, 3));
    assert_eq!(nearest_two(&[]), (FAR_KEY, FAR_KEY));
    assert_eq!(nearest_two(&[7]), (7, FAR_KEY));
    assert_eq!(nearest_two(&[4, 4]), (4, 4));
    let distances = [0.75f32, 0.25, 1.5, 0.5];
    let keys: Vec<u32> = distances.iter().map(|d| d.to_bits()).collect();
    let (f1, f2) = nearest_two(&keys);
    assert_eq!(f32::from_bits(f1), 0.25);
    assert_eq!(f32::from_bits(f2), 0.5);
    assert!(f32::from_bits(f1) <= f32::from_bits(f2));
    assert_eq!(FAR_KEY, f32::INFINITY.to_bits());
}

#[test]
fn grid_cells_are_row_major() {
    assert_eq!(
        grid_cells2(3, 2),
        vec![(0, 0), (1, 0), (2, 0), (0, 1), (1, 1), (2, 1)]
    );
    assert!(grid_cells2(0, 5).is_empty());
    let cells = grid_cells3(2, 2, 2);
    assert_eq!(cells.len(), 8);
    assert_eq!(cells[0], (0, 0, 0));
    assert_eq!(cells[3], (1, 1, 0));
    assert_eq!(cells[5], (1, 0, 1));
    assert_eq!(cells[7], (1, 1, 1));
}

#[test]
fn batch_index_matches_direct_cell() {
    let width = 12;
    let height = 9;
    let cells = grid_cells2(width, height);
    for y in 0..height {
        for x in 0..width {
            assert_eq!(cells[cell_index2(x, y, width)], (x, y));
        }
    }
}

#[test]
fn signature_is_fnv_over_value_bits() {
    assert_eq!(signature_of_bits(&[]), 14_695_981_039_346_656_037);
    assert_eq!(signature_of_bits(&[1, 2, 3]), 15_035_938_162_879_559_083);
    let bits: Vec<u32> = [-1.0f32, 0.0, 0.5, 1.0].iter().map(|v| v.to_bits()).collect();
    assert_eq!(signature_of_bits(&bits), 8_123_202_392_806_003_701);
    assert_ne!(signature_of_bits(&[1, 2]), signature_of_bits(&[2, 1]));
}

#[test]
fn active_cells_are_counted() {
    assert_eq!(active_cell_count(&[]), 0);
    assert_eq!(active_cell_count(&[0, 1, 0, 2, 255]), 3);
}

#[test]
fn stamp_span_clamps_to_the_buffer() {
    assert_eq!(stamp_span(-3, 10, 5), (0, 4));
    assert_eq!(stamp_span(2, 3, 8), (2, 3));
    assert_eq!(stamp_span(0, 2, 0), (0, u32::MAX));
}
