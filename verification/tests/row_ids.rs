use lance_index::row_ids::{fragment_id, RowIdSet};

#[test]
fn test_fragment_id_is_the_upper_bits() {
    assert_eq!(fragment_id(0), 0);
    assert_eq!(fragment_id((3u64 << 32) | 17), 3);
    assert_eq!(fragment_id(u64::MAX), u32::MAX);
}

#[test]
fn test_row_id_set_is_sorted_and_deduplicated() {
    let mut set = RowIdSet::new();
    assert!(set.is_empty());
    for id in [100u64, 5, 0, 3, 100, 5] {
        set.insert(id);
    }
    assert_eq!(set.len(), 4);
    assert!(!set.is_empty());
    assert_eq!(set.to_vec(), vec![0, 3, 5, 100]);
    assert!(set.contains(3));
    assert!(!set.contains(4));

    // Canonical order makes equality set equality.
    let mut other = RowIdSet::new();
    for id in [0u64, 3, 5, 100] {
        other.insert(id);
    }
    assert_eq!(set, other);
}
