use saddle_procgen_noise::hash::{combine, hash2, hash3, hash4, mix32, rotl32};
use saddle_procgen_noise::lattice::{
    corner_offset, gradient_slot, lattice_hashes2, lattice_hashes3, lattice_hashes4,
};
use saddle_procgen_noise::seed::NoiseSeed;

#[test]
fn mix32_matches_reference_values() {
    assert_eq!(mix32(0), 0);
    assert_eq!(mix32(1), 1_753_845_952);
    assert_eq!(mix32(0xdead_beef), 3_861_431_939);
}

#[test]
fn rotl32_agrees_with_rotate_left() {
    for x in [0u32, 1, 0x8000_0001, 0xdead_beef, u32::MAX] {
        for k in 0..32u32 {
            assert_eq!(rotl32(x, k), x.rotate_left(k));
        }
    }
}

#[test]
fn lattice_hashes_match_reference_values() {
    let seed = NoiseSeed(7);
    assert_eq!(hash2(seed, 0, 0), 2_486_482_058);
    assert_eq!(hash2(seed, 1, 2), 1_676_872_349);
    assert_eq!(hash2(seed, 2, 1), 1_964_907_630);
    assert_eq!(hash2(seed, -1, 3), 1_586_689_246);
    assert_eq!(hash3(NoiseSeed(13), 2, -3, 4), 3_031_561_042);
    assert_eq!(hash4(NoiseSeed(13), 2, -3, 4, -1), 411_365_375);
}

#[test]
fn hashes_are_deterministic_and_order_and_seed_sensitive() {
    assert_eq!(hash2(NoiseSeed(5), 3, 4), hash2(NoiseSeed(5), 3, 4));
    assert_ne!(hash2(NoiseSeed(5), 3, 4), hash2(NoiseSeed(5), 4, 3));
    assert_ne!(hash2(NoiseSeed(5), 3, 4), hash2(NoiseSeed(6), 3, 4));
    assert_ne!(hash3(NoiseSeed(5), 1, 2, 3), hash3(NoiseSeed(5), 3, 2, 1));
}

#[test]
fn combine_agrees_with_fixed_arity_hashes() {
    let seed = NoiseSeed(99);
    assert_eq!(combine(seed, &[10, (-20i32) as u32]), hash2(seed, 10, -20));
    assert_eq!(combine(seed, &[1, 2, 3]), hash3(seed, 1, 2, 3));
    assert_eq!(combine(seed, &[1, 2, 3, 4]), hash4(seed, 1, 2, 3, 4));
    assert_eq!(combine(seed, &[]), mix32(99 ^ 0xA511_E9B3));
}

#[test]
fn seed_split_and_conversion() {
    assert_eq!(NoiseSeed::new(19).split(0xA341_316C), NoiseSeed(879_585_083));
    assert_eq!(NoiseSeed(0).split(1), NoiseSeed(4_013_367_296));
    assert_eq!(NoiseSeed::from(42u32), NoiseSeed(42));
    assert_eq!(NoiseSeed::new(42).0, 42);
}

#[test]
fn corner_offsets_are_the_bits_of_the_corner() {
    for corner in 0..16usize {
        let rebuilt = corner_offset(corner, 0)
            + 2 * corner_offset(corner, 1)
            + 4 * corner_offset(corner, 2)
            + 8 * corner_offset(corner, 3);
        assert_eq!(rebuilt as usize, corner);
    }
    assert_eq!(corner_offset(6, 0), 0);
    assert_eq!(corner_offset(6, 1), 1);
    assert_eq!(corner_offset(6, 2), 1);
}

#[test]
fn gradient_slot_is_hash_modulo_table_size() {
    assert_eq!(gradient_slot(2_486_482_058, 8), 2);
    assert_eq!(gradient_slot(2_486_482_058, 12), 2_486_482_058 % 12);
    assert_eq!(gradient_slot(31, 32), 31);
    assert_eq!(gradient_slot(u32::MAX, 32), 31);
}

#[test]
fn lattice_cells_hash_their_corners_in_bit_order() {
    let seed = NoiseSeed(13);
    let h2 = lattice_hashes2(seed, 2, -3);
    assert_eq!(
        h2,
        [hash2(seed, 2, -3), hash2(seed, 3, -3), hash2(seed, 2, -2), hash2(seed, 3, -2)]
    );
    let h3 = lattice_hashes3(seed, 2, -3, 4);
    assert_eq!(h3.len(), 8);
    assert_eq!(h3[0], hash3(seed, 2, -3, 4));
    assert_eq!(h3[5], hash3(seed, 3, -3, 5));
    assert_eq!(h3[7], hash3(seed, 3, -2, 5));
    let h4 = lattice_hashes4(seed, 2, -3, 4, -1);
    assert_eq!(h4.len(), 16);
    assert_eq!(h4[0], hash4(seed, 2, -3, 4, -1));
    assert_eq!(h4[10], hash4(seed, 2, -2, 4, 0));
    assert_eq!(h4[15], hash4(seed, 3, -2, 5, 0));
}
