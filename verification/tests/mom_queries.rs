//! Tests of the multi-order map: validation, containment and overlap queries.

use zuniq_mom::mom::{MomError, MomVecImpl};
use zuniq_mom::zuniq;

#[test]
fn empty_mom_answers_everything_with_nothing() {
    let mom: MomVecImpl<u32> = MomVecImpl::new(3, Vec::new());
    assert_eq!(mom.depth_max(), 3);
    assert_eq!(mom.len(), 0);
    assert!(mom.check_is_mom().is_ok());
    assert_eq!(mom.get_cell_containing(zuniq::to_zuniq(3, 5)), Ok(None));
    assert_eq!(mom.get_cell_containing_unsafe(zuniq::to_zuniq(3, 5)), None);
    assert!(mom.get_overlapped_cells(zuniq::to_zuniq(1, 2)).is_empty());
    assert!(mom.zuniqs().is_empty());
    assert!(mom.entries().is_empty());
}

#[test]
fn check_is_mom_accepts_sorted_non_overlapping() {
    // (1, 8) is a child of base cell 2 and (2, 100) a grandchild of base
    // cell 6: no pair overlaps, and the zuniqs ascend
    let entries = vec![
        (zuniq::to_zuniq(0, 1), 10u32),
        (zuniq::to_zuniq(1, 8), 20),
        (zuniq::to_zuniq(2, 100), 30),
    ];
    assert!(entries[0].0 < entries[1].0 && entries[1].0 < entries[2].0);
    let mom = MomVecImpl::new(2, entries);
    assert_eq!(mom.check_is_mom(), Ok(()));
    assert_eq!(mom.zuniqs(), vec![
        zuniq::to_zuniq(0, 1),
        zuniq::to_zuniq(1, 8),
        zuniq::to_zuniq(2, 100),
    ]);
    let entries = mom.entries();
    assert_eq!(entries.len(), 3);
    assert_eq!(entries[1], (zuniq::to_zuniq(1, 8), &20));
}

#[test]
fn check_is_mom_rejects_overlapping_adjacent_pair() {
    // (1, 4) is the first child of (0, 1); its zuniq sorts before its parent's
    let child = zuniq::to_zuniq(1, 4);
    let parent = zuniq::to_zuniq(0, 1);
    assert!(child < parent);
    let mom = MomVecImpl::new(1, vec![(child, 1u32), (parent, 2)]);
    assert_eq!(
        mom.check_is_mom(),
        Err(MomError::OverlappingEntries {
            left: child,
            right: parent,
            left_depth: 1,
            left_hash: 4,
            right_depth: 0,
            right_hash: 1,
        })
    );
}

#[test]
fn check_is_mom_rejects_out_of_order_entries() {
    let za = zuniq::to_zuniq(0, 2);
    let zb = zuniq::to_zuniq(0, 1);
    let mom = MomVecImpl::new(0, vec![(za, 1u32), (zb, 2)]);
    assert_eq!(mom.check_is_mom(), Err(MomError::NotSorted { left: za, right: zb }));
    // a duplicated entry is out of order as well
    let mom = MomVecImpl::new(0, vec![(zb, 1u32), (zb, 2)]);
    assert_eq!(mom.check_is_mom(), Err(MomError::NotSorted { left: zb, right: zb }));
}

#[test]
fn check_is_mom_rejects_entry_deeper_than_depth_max() {
    let deep = zuniq::to_zuniq(2, 100);
    let mom = MomVecImpl::new(1, vec![(deep, 1u32)]);
    assert_eq!(
        mom.check_is_mom(),
        Err(MomError::DepthTooDeep { zuniq: deep, depth: 2, depth_max: 1 })
    );
}

#[test]
fn check_zuniq_depth_validation() {
    let mom: MomVecImpl<u32> = MomVecImpl::new(2, Vec::new());
    assert_eq!(mom.check_zuniq_depth_is_depth_max(zuniq::to_zuniq(2, 0)), Ok(()));
    let shallow = zuniq::to_zuniq(1, 0);
    assert_eq!(
        mom.check_zuniq_depth_is_depth_max(shallow),
        Err(MomError::WrongDepth { zuniq: shallow, expected: 2, actual: 1 })
    );
}

#[test]
fn containment_scenario() {
    // hash 47 at depth 2 descends from base cell 2, not from base cell 3,
    // and its zuniq sorts before the one of (0, 3)
    let za = zuniq::to_zuniq(0, 3);
    let zb = zuniq::to_zuniq(2, 47);
    assert!(!zuniq::are_overlapping(za, zb));
    assert!(zb < za);
    let mom = MomVecImpl::new(2, vec![(zb, "B"), (za, "A")]);
    assert_eq!(mom.check_is_mom(), Ok(()));
    // every depth-2 descendant of (0, 3) is found in "A"
    for suffix in 0..16u64 {
        let q = zuniq::to_zuniq(2, (3 << 4) | suffix);
        assert_eq!(mom.get_cell_containing(q), Ok(Some((za, &"A"))));
    }
    // the exact cell of "B" is found in "B"
    assert_eq!(mom.get_cell_containing(zb), Ok(Some((zb, &"B"))));
    // a cell covered by neither entry is found nowhere
    assert_eq!(mom.get_cell_containing(zuniq::to_zuniq(2, 0)), Ok(None));
    // a query not expressed at the maximum depth is rejected
    let shallow = zuniq::to_zuniq(1, 12);
    assert_eq!(
        mom.get_cell_containing(shallow),
        Err(MomError::WrongDepth { zuniq: shallow, expected: 2, actual: 1 })
    );
    // the unchecked variant answers a coarser query all the same
    assert_eq!(mom.get_cell_containing_unsafe(shallow), Some((za, &"A")));
}

/// A deterministic pseudo-random sequence for building varied valid maps.
fn lcg(state: &mut u64) -> u64 {
    *state = state
        .wrapping_mul(6364136223846793005)
        .wrapping_add(1442695040888963407);
    *state >> 33
}

/// Builds a valid map by tiling every base cell, splitting pseudo-randomly
/// down to depth 2. Generation follows the z-order, with no cell and its
/// descendant both kept, so the result is sorted and non-overlapping.
fn random_mom(seed: u64) -> MomVecImpl<u64> {
    let mut state = seed;
    let mut entries: Vec<(u64, u64)> = Vec::new();
    for base in 0..12u64 {
        if lcg(&mut state) % 3 == 0 {
            entries.push((zuniq::to_zuniq(0, base), base));
        } else {
            for child in (base << 2)..((base + 1) << 2) {
                if lcg(&mut state) % 2 == 0 {
                    entries.push((zuniq::to_zuniq(1, child), child));
                } else {
                    for grandchild in (child << 2)..((child + 1) << 2) {
                        entries.push((zuniq::to_zuniq(2, grandchild), grandchild));
                    }
                }
            }
        }
    }
    MomVecImpl::new(2, entries)
}

#[test]
fn overlap_queries_return_one_contiguous_run() {
    for seed in 0..8u64 {
        let mom = random_mom(seed);
        assert_eq!(mom.check_is_mom(), Ok(()));
        let zuniqs = mom.zuniqs();
        for depth in 0..=2u8 {
            for hash in 0..(12u64 << (2 * depth as u32)) {
                let q = zuniq::to_zuniq(depth, hash);
                let found = mom.get_overlapped_cells(q);
                // the result is exactly the overlapping entries, ascending
                let expect: Vec<u64> = zuniqs
                    .iter()
                    .copied()
                    .filter(|&z| zuniq::are_overlapping(z, q))
                    .collect();
                let got: Vec<u64> = found.iter().map(|e| e.0).collect();
                assert_eq!(got, expect);
                // and it forms one contiguous run of the stored sequence
                if let Some(first) = got.first() {
                    let start = zuniqs.iter().position(|z| z == first).unwrap();
                    for (offset, z) in got.iter().enumerate() {
                        assert_eq!(zuniqs[start + offset], *z);
                    }
                }
            }
        }
    }
}

#[test]
fn containment_agrees_with_overlap_queries_at_depth_max() {
    let mom = random_mom(5);
    for hash in 0..(12u64 << 4) {
        let q = zuniq::to_zuniq(2, hash);
        let contained = mom.get_cell_containing(q).unwrap();
        let overlapped = mom.get_overlapped_cells(q);
        match contained {
            Some((z, v)) => {
                assert_eq!(overlapped.len(), 1);
                assert_eq!(overlapped[0], (z, v));
            }
            None => assert!(overlapped.is_empty()),
        }
    }
}

#[test]
fn leftmost_entry_is_found_by_expansion() {
    // a query overlapping the entry at position 0 must reach it: the run
    // expansion stops exactly at the left edge
    let entries = vec![(zuniq::to_zuniq(1, 0), 0u32), (zuniq::to_zuniq(1, 1), 1)];
    let mom = MomVecImpl::new(1, entries);
    assert_eq!(mom.check_is_mom(), Ok(()));
    // the coarse query (0, 0) overlaps both stored children of base cell 0
    let found = mom.get_overlapped_cells(zuniq::to_zuniq(0, 0));
    let got: Vec<u64> = found.iter().map(|e| e.0).collect();
    assert_eq!(got, vec![zuniq::to_zuniq(1, 0), zuniq::to_zuniq(1, 1)]);
    // containment at depth 1: the exact leftmost entry
    assert_eq!(
        mom.get_cell_containing(zuniq::to_zuniq(1, 0)),
        Ok(Some((zuniq::to_zuniq(1, 0), &0)))
    );
}
