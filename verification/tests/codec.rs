//! Tests of the zuniq codec, in both the 64-bit and 32-bit instantiations.

use zuniq_mom::zuniq;
use zuniq_mom::zuniq32;

/// Number of cells at `depth` for the 64-bit codec.
fn n_cells(depth: u8) -> u64 {
    12u64 << (2 * depth as u32)
}

/// Number of cells at `depth` for the 32-bit codec.
fn n_cells32(depth: u8) -> u32 {
    12u32 << (2 * depth as u32)
}

#[test]
fn constants() {
    assert_eq!(zuniq::MAX_DEPTH, 29);
    assert_eq!(zuniq32::MAX_DEPTH, 13);
    assert_eq!(zuniq::N_BITS, 64);
    assert_eq!(zuniq32::N_BITS, 32);
    assert_eq!(zuniq::N_D0_CELLS, 12);
}

#[test]
fn exact_encodings() {
    assert_eq!(zuniq::to_zuniq(0, 0), 1u64 << 58);
    assert_eq!(zuniq::to_zuniq(0, 11), 23u64 << 58);
    assert_eq!(zuniq::to_zuniq(29, 5), 11);
    assert_eq!(zuniq::to_zuniq(2, 47), 0x17c0_0000_0000_0000);
    assert_eq!(zuniq32::to_zuniq(0, 0), 1u32 << 26);
    assert_eq!(zuniq32::to_zuniq(13, 3), 7);
}

#[test]
fn round_trip_u64() {
    for depth in 0..=29u8 {
        let n = n_cells(depth);
        for hash in [0, 1, n / 2, n - 2, n - 1] {
            let hash = hash.min(n - 1);
            let z = zuniq::to_zuniq(depth, hash);
            assert_ne!(z, 0);
            assert_eq!(zuniq::from_zuniq(z), (depth, hash));
            assert_eq!(zuniq::depth_from_zuniq(z), depth);
        }
    }
}

#[test]
fn round_trip_u32() {
    for depth in 0..=13u8 {
        let n = n_cells32(depth);
        for hash in [0, 1, n / 2, n - 2, n - 1] {
            let hash = hash.min(n - 1);
            let z = zuniq32::to_zuniq(depth, hash);
            assert_ne!(z, 0);
            assert_eq!(zuniq32::from_zuniq(z), (depth, hash));
            assert_eq!(zuniq32::depth_from_zuniq(z), depth);
        }
    }
}

#[test]
fn helper_shifts() {
    assert_eq!(zuniq::mult_by_dim(21), 42);
    assert_eq!(zuniq::div_by_dim(43), 21);
    assert_eq!(zuniq::shift(3), 6);
    assert_eq!(zuniq::delta_with_depth_max(29), 0);
    assert_eq!(zuniq::delta_with_depth_max(0), 29);
    assert_eq!(zuniq::shift_from_depth_max(27), 4);
    assert_eq!(zuniq32::shift_from_depth_max(11), 4);
}

#[test]
fn order_disjoint_cells_follow_zorder() {
    // same depth: ascending hash gives ascending zuniq
    for depth in [0u8, 1, 5, 29] {
        let n = n_cells(depth);
        let mut prev = zuniq::to_zuniq(depth, 0);
        for hash in [1, 2, n / 2, n - 1] {
            let z = zuniq::to_zuniq(depth, hash);
            assert!(prev < z);
            prev = z;
        }
    }
    // across depths, non-overlapping cells compare like their prefixes
    assert!(zuniq::to_zuniq(1, 3) < zuniq::to_zuniq(0, 1));
    assert!(zuniq::to_zuniq(0, 1) < zuniq::to_zuniq(2, 40));
    // a cell sits between its second and third child: the codec orders a
    // subtree in-order, keeping it inside one contiguous zuniq interval
    assert!(zuniq::to_zuniq(1, 1) < zuniq::to_zuniq(0, 0));
    assert!(zuniq::to_zuniq(0, 0) < zuniq::to_zuniq(1, 2));
}

#[test]
fn order_parent_below_next_sibling_subtree() {
    // the zuniq of (0, 3) precedes every descendant of its next sibling (0, 4)
    let parent = zuniq::to_zuniq(0, 3);
    for suffix in 0..16u64 {
        assert!(parent < zuniq::to_zuniq(2, (4 << 4) | suffix));
    }
    // and every descendant of (0, 3) itself precedes (0, 4)
    let next = zuniq::to_zuniq(0, 4);
    for suffix in 0..16u64 {
        assert!(zuniq::to_zuniq(2, (3 << 4) | suffix) < next);
    }
}

#[test]
fn overlap_reflexive_and_symmetric() {
    let cells = [(0u8, 7u64), (1, 30), (2, 120), (5, 1000), (29, 42)];
    for &(d, h) in &cells {
        assert!(zuniq::are_overlapping_cells(d, h, d, h));
        let z = zuniq::to_zuniq(d, h);
        assert!(zuniq::are_overlapping(z, z));
    }
    for &(dl, hl) in &cells {
        for &(dr, hr) in &cells {
            assert_eq!(
                zuniq::are_overlapping_cells(dl, hl, dr, hr),
                zuniq::are_overlapping_cells(dr, hr, dl, hl),
            );
            let zl = zuniq::to_zuniq(dl, hl);
            let zr = zuniq::to_zuniq(dr, hr);
            assert_eq!(zuniq::are_overlapping(zl, zr), zuniq::are_overlapping(zr, zl));
        }
    }
}

#[test]
fn ancestor_overlaps_descendants_not_siblings() {
    let (depth, hash) = (1u8, 7u64);
    for depth_d in 2..=4u8 {
        let dd = 2 * (depth_d - depth) as u32;
        for suffix in [0u64, 1, (1 << dd) / 2, (1 << dd) - 1] {
            let hash_d = (hash << dd) | suffix;
            assert!(zuniq::are_overlapping_cells(depth, hash, depth_d, hash_d));
            assert!(zuniq::are_overlapping_cells(depth_d, hash_d, depth, hash));
            assert!(zuniq::are_overlapping(
                zuniq::to_zuniq(depth, hash),
                zuniq::to_zuniq(depth_d, hash_d)
            ));
        }
    }
    // distinct cells at the same depth never overlap
    assert!(!zuniq::are_overlapping_cells(1, 7, 1, 6));
    assert!(!zuniq::are_overlapping_cells(1, 7, 1, 8));
    // a descendant of the sibling does not overlap either
    assert!(!zuniq::are_overlapping_cells(1, 7, 2, 6 << 2));
    assert!(!zuniq::are_overlapping(
        zuniq::to_zuniq(1, 7),
        zuniq::to_zuniq(2, 6 << 2)
    ));
}

#[test]
fn overlap_u32_matches_u64_behaviour() {
    assert!(zuniq32::are_overlapping_cells(0, 2, 3, 2 << 6));
    assert!(zuniq32::are_overlapping_cells(3, (2 << 6) | 63, 0, 2));
    assert!(!zuniq32::are_overlapping_cells(0, 2, 3, 3 << 6));
    assert!(zuniq32::are_overlapping(
        zuniq32::to_zuniq(1, 9),
        zuniq32::to_zuniq(13, 9 << 24)
    ));
    assert!(!zuniq32::are_overlapping(
        zuniq32::to_zuniq(1, 9),
        zuniq32::to_zuniq(1, 10)
    ));
}
