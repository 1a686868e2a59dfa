use riscv_test_runner::sorting::sort_ascending;
use riscv_test_runner::stress_tests::{push_heap_values, push_xorshift_values};
use riscv_test_runner::bits::{count_ones, reverse_bits, rotate_left, rotate_right};
use riscv_test_runner::stress_tests::{
    arithmetic_pipeline, bitwise_signature, generated_checksum, hash_values, FNV_OFFSET,
};
use riscv_test_runner::stress_tests_generation::{heap_values, heapless_values, sorted_values};

#[test]
fn rotations_match_std() {
    for &(x, n) in &[(0x8000_0001u32, 1u32), (1, 0), (1, 31), (0xdead_beef, 13), (0x1234_5678, 32), (7, 65)] {
        assert_eq!(rotate_left(x, n), x.rotate_left(n));
        assert_eq!(rotate_right(x, n), x.rotate_right(n));
    }
    assert_eq!(rotate_left(0x8000_0001, 1), 3);
    assert_eq!(rotate_right(1, 1), 0x8000_0000);
}

#[test]
fn bit_counts_and_reversal_match_std() {
    for &x in &[0u32, 1, 0xff, 0x8000_0000, 0xdead_beef, u32::MAX, 0x1357_9bdf] {
        assert_eq!(count_ones(x), x.count_ones());
        assert_eq!(reverse_bits(x), x.reverse_bits());
    }
    assert_eq!(count_ones(0xff), 8);
    assert_eq!(reverse_bits(1), 0x8000_0000);
}

#[test]
fn hash_of_empty_slice_is_offset() {
    assert_eq!(hash_values(&[]), FNV_OFFSET);
    assert_eq!(hash_values(&[]), 0xcbf2_9ce4_8422_2325);
}

#[test]
fn hash_of_small_slice() {
    assert_eq!(hash_values(&[1, 2, 3]), 0xd0ad_41db_672c_f5ab);
}

#[test]
fn hash_depends_on_position() {
    assert_ne!(hash_values(&[1, 2]), hash_values(&[2, 1]));
}

#[test]
fn arithmetic_pipeline_values() {
    assert_eq!(arithmetic_pipeline(1, 2, 0, 0), 5);
    assert_eq!(arithmetic_pipeline(0x8000_0000, 0, 1, 0), 1);
    assert_eq!(arithmetic_pipeline(0x3c88_596c, 0xa5a5_5a5e, 7, 0x9e37_79b9), 0x0104_2894);
}

#[test]
fn bitwise_signature_values() {
    assert_eq!(bitwise_signature(1, 0), 0x8101_0100);
    assert_eq!(bitwise_signature(0, 5), 0);
    assert_eq!(bitwise_signature(u32::MAX, 3), 0x2020_2020);
    assert_eq!(bitwise_signature(0xd8e8_c2ba, 11), 0x1a08_1a13);
}

#[test]
fn checksum_values() {
    assert_eq!(generated_checksum(0, 0), FNV_OFFSET);
    assert_eq!(generated_checksum(7, 3), 0x37b8_07c9_56c6_78d8);
    assert_eq!(generated_checksum(0xc001_d00c, 256), 0xbf97_0e34_05db_1925);
}

#[test]
fn checksum_equals_hash_of_generated_values() {
    let mut values = Vec::new();
    let mut state = 7u32;
    for _ in 0..3 {
        state = state.wrapping_mul(1_664_525).wrapping_add(1_013_904_223);
        values.push(state);
    }
    assert_eq!(generated_checksum(7, 3), hash_values(&values));
}

#[test]
fn generated_value_streams() {
    assert_eq!(heapless_values(1, 3), vec![1_103_527_590, 2_524_885_223, 662_824_084]);
    assert_eq!(heap_values(1, 3), vec![22_695_478, 2_156_045_615, 2_867_233_980]);
    assert_eq!(sorted_values(1, 5), vec![270_369, 67_634_689, 307_599_695, 2_398_689_233, 2_647_435_461]);
    assert!(heapless_values(9, 0).is_empty());
}

#[test]
fn sorted_values_are_ascending_permutation() {
    let sorted = sorted_values(0xdead_beee, 32);
    assert_eq!(sorted.len(), 32);
    assert!(sorted.windows(2).all(|w| w[0] <= w[1]));
    assert_eq!(hash_values(&sorted), 0xa5fd_cbd8_c214_4251);
}

#[test]
fn sort_ascending_sorts_in_place() {
    let mut values = vec![5u32, 1, 4, 1, u32::MAX, 0, 4];
    sort_ascending(&mut values);
    assert_eq!(values, vec![0, 1, 1, 4, 4, 5, u32::MAX]);
    let mut empty: Vec<u32> = Vec::new();
    sort_ascending(&mut empty);
    assert!(empty.is_empty());
}

#[test]
fn push_generated_values_appends() {
    let mut values = vec![9u32];
    push_heap_values(&mut values, 1, 2);
    assert_eq!(values, vec![9, 22_695_478, 2_156_045_615]);
    let mut values = Vec::new();
    push_xorshift_values(&mut values, 1, 2);
    assert_eq!(values, vec![270_369, 67_634_689]);
}
