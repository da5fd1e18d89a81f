use lance_index::feature_flags::{
    apply_feature_flags, can_read_dataset, can_write_dataset, has_deprecated_v2_feature_flag,
    Fragment, Manifest, FLAG_DELETION_FILES, FLAG_MOVE_STABLE_ROW_IDS, FLAG_TABLE_CONFIG,
    FLAG_UNKNOWN, FLAG_USE_V2_FORMAT_DEPRECATED,
};

fn manifest(fragments: Vec<Fragment>, config: Vec<(String, String)>) -> Manifest {
    Manifest {
        fragments,
        config,
        reader_feature_flags: 0,
        writer_feature_flags: 0,
    }
}

fn frag(has_deletion_file: bool, has_row_id_meta: bool) -> Fragment {
    Fragment {
        has_deletion_file,
        has_row_id_meta,
    }
}

#[test]
fn test_read_check() {
    assert!(can_read_dataset(0));
    assert!(can_read_dataset(FLAG_DELETION_FILES));
    assert!(can_read_dataset(FLAG_MOVE_STABLE_ROW_IDS));
    assert!(can_read_dataset(FLAG_USE_V2_FORMAT_DEPRECATED));
    assert!(can_read_dataset(
        FLAG_DELETION_FILES | FLAG_MOVE_STABLE_ROW_IDS | FLAG_USE_V2_FORMAT_DEPRECATED
    ));
    assert!(!can_read_dataset(FLAG_UNKNOWN));
}

#[test]
fn test_write_check() {
    assert!(can_write_dataset(0));
    assert!(can_write_dataset(FLAG_DELETION_FILES));
    assert!(can_write_dataset(FLAG_MOVE_STABLE_ROW_IDS));
    assert!(can_write_dataset(FLAG_USE_V2_FORMAT_DEPRECATED));
    assert!(can_write_dataset(FLAG_TABLE_CONFIG));
    assert!(can_write_dataset(
        FLAG_DELETION_FILES
            | FLAG_MOVE_STABLE_ROW_IDS
            | FLAG_USE_V2_FORMAT_DEPRECATED
            | FLAG_TABLE_CONFIG
    ));
    assert!(!can_write_dataset(FLAG_UNKNOWN));
}

#[test]
fn test_deprecated_v2_flag() {
    assert!(!has_deprecated_v2_feature_flag(0));
    assert!(!has_deprecated_v2_feature_flag(
        FLAG_DELETION_FILES | FLAG_TABLE_CONFIG
    ));
    assert!(has_deprecated_v2_feature_flag(FLAG_USE_V2_FORMAT_DEPRECATED));
    assert!(has_deprecated_v2_feature_flag(
        FLAG_USE_V2_FORMAT_DEPRECATED | FLAG_DELETION_FILES
    ));
}

#[test]
fn test_apply_sets_deletion_and_config_bits() {
    let mut m = manifest(
        vec![frag(true, false), frag(false, false)],
        vec![("key".to_owned(), "value".to_owned())],
    );
    apply_feature_flags(&mut m, false).unwrap();
    assert_eq!(m.reader_feature_flags, FLAG_DELETION_FILES);
    assert_eq!(
        m.writer_feature_flags,
        FLAG_DELETION_FILES | FLAG_TABLE_CONFIG
    );
}

#[test]
fn test_apply_sets_stable_row_id_bit() {
    let mut m = manifest(vec![frag(false, true), frag(false, true)], vec![]);
    apply_feature_flags(&mut m, false).unwrap();
    assert_eq!(m.reader_feature_flags, FLAG_MOVE_STABLE_ROW_IDS);
    assert_eq!(m.writer_feature_flags, FLAG_MOVE_STABLE_ROW_IDS);
}

#[test]
fn test_apply_rejects_inconsistent_row_id_meta() {
    let mut m = manifest(vec![frag(true, true), frag(false, false)], vec![]);
    let err = apply_feature_flags(&mut m, false).unwrap_err();
    assert!(matches!(
        err,
        lance_index::error::Error::InvalidInput { .. }
    ));
    // The deletion bit has already been applied to the reset words.
    assert_eq!(m.reader_feature_flags, FLAG_DELETION_FILES);
    assert_eq!(m.writer_feature_flags, FLAG_DELETION_FILES);
}

#[test]
fn test_apply_rejects_requested_row_ids_without_meta() {
    let mut m = manifest(vec![frag(false, false)], vec![]);
    assert!(apply_feature_flags(&mut m, true).is_err());
}

#[test]
fn test_apply_is_idempotent() {
    let mut m = manifest(
        vec![frag(true, true)],
        vec![("key".to_owned(), "value".to_owned())],
    );
    apply_feature_flags(&mut m, true).unwrap();
    let reader = m.reader_feature_flags;
    let writer = m.writer_feature_flags;
    apply_feature_flags(&mut m, true).unwrap();
    assert_eq!(m.reader_feature_flags, reader);
    assert_eq!(m.writer_feature_flags, writer);
}

#[test]
fn test_can_read_monotone_over_known_bits() {
    for bit in [
        FLAG_DELETION_FILES,
        FLAG_MOVE_STABLE_ROW_IDS,
        FLAG_USE_V2_FORMAT_DEPRECATED,
        FLAG_TABLE_CONFIG,
    ] {
        for flags in 0..FLAG_UNKNOWN {
            if can_read_dataset(flags) {
                assert!(can_read_dataset(flags | bit));
            }
        }
    }
}
