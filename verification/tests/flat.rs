use std::collections::HashMap;

use lance_index::error::Error;
use lance_index::flat::{
    batch_has_null, remap_batch, FlatIndex, FlatIndexMetadata, RangeBound, SargableQuery,
    SearchResult, ValueBatch,
};
use lance_index::row_ids::{fragment_id, RowIdSet};
use lance_index::schema::ElementType;

fn batch(values: Vec<Option<i64>>, row_ids: Vec<u64>) -> ValueBatch {
    ValueBatch { values, row_ids }
}

fn example_index() -> FlatIndex {
    FlatIndex::new(batch(
        vec![Some(10), Some(100), Some(1000), Some(1234)],
        vec![5, 0, 3, 100],
    ))
}

fn row_id_set(ids: &[u64]) -> RowIdSet {
    let mut set = RowIdSet::new();
    for id in ids {
        set.insert(*id);
    }
    set
}

fn check_index(query: &SargableQuery, expected: &[u64]) {
    let index = example_index();
    let actual = index.search(query).unwrap();
    let SearchResult::Exact(actual_row_ids) = actual else {
        panic!("Expected exact search result");
    };
    assert_eq!(actual_row_ids, row_id_set(expected));
}

#[test]
fn test_equality() {
    check_index(&SargableQuery::Equals(Some(100)), &[0]);
    check_index(&SargableQuery::Equals(Some(10)), &[5]);
    check_index(&SargableQuery::Equals(Some(5)), &[]);
}

#[test]
fn test_range() {
    check_index(
        &SargableQuery::Range(RangeBound::Included(100), RangeBound::Excluded(1234)),
        &[0, 3],
    );
    check_index(
        &SargableQuery::Range(RangeBound::Unbounded, RangeBound::Excluded(1000)),
        &[5, 0],
    );
    check_index(
        &SargableQuery::Range(RangeBound::Included(0), RangeBound::Unbounded),
        &[5, 0, 3, 100],
    );
    check_index(
        &SargableQuery::Range(RangeBound::Included(100000), RangeBound::Unbounded),
        &[],
    );
}

#[test]
fn test_range_is_conjunction_of_single_bounds() {
    let index = example_index();
    let exact = |query: &SargableQuery| -> Vec<u64> {
        let SearchResult::Exact(ids) = index.search(query).unwrap() else {
            panic!("Expected exact search result");
        };
        ids.to_vec()
    };
    let both = exact(&SargableQuery::Range(
        RangeBound::Included(100),
        RangeBound::Excluded(1234),
    ));
    let lower_only = exact(&SargableQuery::Range(
        RangeBound::Included(100),
        RangeBound::Unbounded,
    ));
    let upper_only = exact(&SargableQuery::Range(
        RangeBound::Unbounded,
        RangeBound::Excluded(1234),
    ));
    let intersection: Vec<u64> = lower_only
        .iter()
        .copied()
        .filter(|id| upper_only.contains(id))
        .collect();
    assert_eq!(both, intersection);
}

#[test]
fn test_is_in() {
    check_index(
        &SargableQuery::IsIn(vec![Some(100), Some(1234), Some(3000)]),
        &[0, 100],
    );
}

#[test]
fn test_remap() {
    let index = example_index();
    // 0 -> 2000
    // 3 -> delete
    // Keep remaining as is
    let mapping = HashMap::<u64, Option<u64>>::from_iter(vec![(0, Some(2000)), (3, None)]);
    let metadata = FlatIndexMetadata::new(ElementType::Int32);
    let serialized = batch(index.values().clone(), index.ids().clone());
    let remapped = metadata.remap_subindex(&serialized, &mapping).unwrap();

    let expected = batch(
        vec![Some(10), Some(100), Some(1234)],
        vec![5, 2000, 100],
    );
    assert_eq!(remapped, expected);
}

// It's possible, during compaction, that an entire page of values is deleted.
// We just serialize it as an empty batch.
#[test]
fn test_remap_to_nothing() {
    let index = example_index();
    let mapping = HashMap::<u64, Option<u64>>::from_iter(vec![
        (5, None),
        (0, None),
        (3, None),
        (100, None),
    ]);
    let metadata = FlatIndexMetadata::new(ElementType::Int32);
    let serialized = batch(index.values().clone(), index.ids().clone());
    let remapped = metadata.remap_subindex(&serialized, &mapping).unwrap();
    assert_eq!(remapped.num_rows(), 0);
}

#[test]
fn test_remap_empty_mapping_is_identity() {
    let mapping = HashMap::<u64, Option<u64>>::new();
    let original = batch(vec![Some(1), None, Some(3)], vec![7, 8, 9]);
    let remapped = remap_batch(&original, &mapping).unwrap();
    assert_eq!(remapped, original);
}

#[test]
fn test_search_null_semantics() {
    let index = FlatIndex::new(batch(
        vec![Some(10), None, Some(30), None],
        vec![1, 2, 3, 4],
    ));
    let SearchResult::Exact(nulls) = index.search(&SargableQuery::IsNull).unwrap() else {
        panic!("Expected exact search result");
    };
    assert_eq!(nulls, row_id_set(&[2, 4]));

    // An equality query on null degenerates to the null check.
    let SearchResult::Exact(eq_null) = index.search(&SargableQuery::Equals(None)).unwrap() else {
        panic!("Expected exact search result");
    };
    assert_eq!(eq_null, row_id_set(&[2, 4]));

    // Range queries exclude nulls.
    let SearchResult::Exact(range) = index
        .search(&SargableQuery::Range(
            RangeBound::Unbounded,
            RangeBound::Included(100),
        ))
        .unwrap()
    else {
        panic!("Expected exact search result");
    };
    assert_eq!(range, row_id_set(&[1, 3]));

    // A membership query matches nulls only when the list holds a null.
    let SearchResult::Exact(without_null) = index
        .search(&SargableQuery::IsIn(vec![Some(10)]))
        .unwrap()
    else {
        panic!("Expected exact search result");
    };
    assert_eq!(without_null, row_id_set(&[1]));
    let SearchResult::Exact(with_null) = index
        .search(&SargableQuery::IsIn(vec![Some(10), None]))
        .unwrap()
    else {
        panic!("Expected exact search result");
    };
    assert_eq!(with_null, row_id_set(&[1, 2, 4]));
}

#[test]
fn test_full_text_search_rejected() {
    let index = example_index();
    let err = index
        .search(&SargableQuery::FullTextSearch("quantizer".to_owned()))
        .unwrap_err();
    assert!(matches!(err, Error::InvalidInput { .. }));
}

#[test]
fn test_can_answer_exact_and_vector_capability() {
    let index = example_index();
    assert!(index.can_answer_exact(&SargableQuery::IsNull));
    assert!(matches!(
        index.as_vector_index(),
        Err(Error::NotSupported { .. })
    ));
    assert_eq!(index.num_values(), 4);
}

#[test]
fn test_metadata_schema_and_train() {
    let metadata = FlatIndexMetadata::new(ElementType::Int32);
    let schema = metadata.schema();
    assert_eq!(schema.fields.len(), 2);
    assert_eq!(schema.fields[0].name, "values");
    assert_eq!(schema.fields[0].data_type, ElementType::Int32);
    assert!(schema.fields[0].nullable);
    assert_eq!(schema.fields[1].name, "row_ids");
    assert_eq!(schema.fields[1].data_type, ElementType::UInt64);

    let data = batch(vec![Some(1), Some(2)], vec![10, 11]);
    let trained = metadata.train(data.clone()).unwrap();
    assert_eq!(trained, data);
    let retrieved = metadata.retrieve_data(trained).unwrap();
    assert_eq!(retrieved, data);
}

#[test]
fn test_load_subindex_computes_nulls() {
    let metadata = FlatIndexMetadata::new(ElementType::Int32);
    let with_null = batch(vec![Some(1), None], vec![0, 1]);
    assert!(batch_has_null(&with_null));
    let index = metadata.load_subindex(with_null).unwrap();
    let SearchResult::Exact(nulls) = index.search(&SargableQuery::IsNull).unwrap() else {
        panic!("Expected exact search result");
    };
    assert_eq!(nulls, row_id_set(&[1]));
    assert!(!batch_has_null(&batch(vec![Some(1)], vec![0])));
}

#[test]
fn test_calculate_included_frags() {
    let row_in_fragment = |frag: u64, offset: u64| (frag << 32) | offset;
    assert_eq!(fragment_id(row_in_fragment(7, 3)), 7);

    let index = FlatIndex::new(batch(
        vec![Some(1), Some(2), Some(3), Some(4)],
        vec![
            row_in_fragment(2, 0),
            row_in_fragment(0, 5),
            row_in_fragment(2, 9),
            row_in_fragment(5, 1),
        ],
    ));
    let frags = index.calculate_included_frags().unwrap();
    let listed: Vec<u32> = frags.iter().collect();
    assert_eq!(listed, vec![0, 2, 5]);
}
