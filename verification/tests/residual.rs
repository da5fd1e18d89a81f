use lance_index::error::Error;
use lance_index::pq::VectorBlock;
use lance_index::residual::{
    residual_column, Batch, Column, ColumnData, ResidualStep, ResidualTransform,
};
use lance_index::schema::ElementType;

#[test]
fn test_residual_column_name() {
    assert_eq!(residual_column(), "__residual_vector");
}

fn f32s_to_bytes(values: &[f32]) -> Vec<u8> {
    let mut bytes = Vec::with_capacity(values.len() * 4);
    for v in values {
        bytes.extend_from_slice(&v.to_le_bytes());
    }
    bytes
}

fn bytes_to_f32s(bytes: &[u8]) -> Vec<f32> {
    bytes
        .chunks_exact(4)
        .map(|b| f32::from_le_bytes([b[0], b[1], b[2], b[3]]))
        .collect()
}

fn f32_block(values: &[f32], value_length: usize) -> VectorBlock {
    assert_eq!(values.len() % value_length, 0);
    VectorBlock {
        value_type: ElementType::Float32,
        value_length,
        num_rows: values.len() / value_length,
        data: f32s_to_bytes(values),
    }
}

fn column(name: &str, data: ColumnData) -> Column {
    Column {
        name: name.to_owned(),
        data,
    }
}

fn centroids() -> Vec<f32> {
    vec![
        0.0, 1.0, // partition 0
        10.0, 11.0, // partition 1
        20.0, 21.0, // partition 2
    ]
}

fn transform() -> ResidualTransform {
    ResidualTransform::new(f32_block(&centroids(), 2), "__ivf_part_id", "vector")
}

#[test]
fn test_transform_leaves_quantized_batch_alone() {
    let t = transform();
    let batch = Batch {
        columns: vec![column(
            "__pq_code",
            ColumnData::FixedSizeList(VectorBlock {
                value_type: ElementType::UInt8,
                value_length: 2,
                num_rows: 1,
                data: vec![0, 0],
            }),
        )],
    };
    assert!(matches!(
        t.transform(&batch).unwrap(),
        ResidualStep::AlreadyQuantized
    ));
}

#[test]
fn test_transform_computes_residuals() {
    let t = transform();
    let vectors = vec![1.0f32, 2.0, 30.0, 31.0, 11.0, 13.0];
    let batch = Batch {
        columns: vec![
            column("__ivf_part_id", ColumnData::UInt32(vec![0, 2, 1])),
            column("vector", ColumnData::FixedSizeList(f32_block(&vectors, 2))),
        ],
    };
    let step = t.transform(&batch).unwrap();
    let ResidualStep::Subtract {
        column_index,
        centroid_rows,
        promoted,
    } = step
    else {
        panic!("expected a subtraction step");
    };
    assert_eq!(column_index, 1);
    assert!(!promoted);
    assert_eq!(centroid_rows.num_rows, 3);
    assert_eq!(centroid_rows.value_length, 2);
    let gathered = bytes_to_f32s(&centroid_rows.data);
    assert_eq!(gathered, vec![0.0, 1.0, 20.0, 21.0, 10.0, 11.0]);

    // The caller's floating-point side: the element-wise subtraction.
    let residuals: Vec<f32> = vectors
        .iter()
        .zip(gathered.iter())
        .map(|(v, c)| v - c)
        .collect();
    assert_eq!(residuals, vec![1.0, 1.0, 10.0, 10.0, 1.0, 2.0]);
}

#[test]
fn test_transform_promotes_int8_vectors() {
    let t = transform();
    let batch = Batch {
        columns: vec![
            column("__ivf_part_id", ColumnData::UInt32(vec![1])),
            column(
                "vector",
                ColumnData::FixedSizeList(VectorBlock {
                    value_type: ElementType::Int8,
                    value_length: 2,
                    num_rows: 1,
                    data: vec![3, 5],
                }),
            ),
        ],
    };
    let ResidualStep::Subtract { promoted, .. } = t.transform(&batch).unwrap() else {
        panic!("expected a subtraction step");
    };
    assert!(promoted);
}

#[test]
fn test_transform_errors() {
    let t = transform();

    // Partition column missing.
    let no_part = Batch {
        columns: vec![column(
            "vector",
            ColumnData::FixedSizeList(f32_block(&[0.0, 0.0], 2)),
        )],
    };
    assert!(matches!(t.transform(&no_part), Err(Error::Index { .. })));

    // Vector column missing.
    let no_vec = Batch {
        columns: vec![column("__ivf_part_id", ColumnData::UInt32(vec![]))],
    };
    assert!(matches!(t.transform(&no_vec), Err(Error::Index { .. })));

    // Vector column is not a fixed-size list.
    let not_fsl = Batch {
        columns: vec![
            column("__ivf_part_id", ColumnData::UInt32(vec![])),
            column("vector", ColumnData::Other),
        ],
    };
    assert!(matches!(t.transform(&not_fsl), Err(Error::Index { .. })));

    // A vector length that does not match the centroids breaks the caller's
    // contract: InvalidInput, not an internal error.
    let bad_len = Batch {
        columns: vec![
            column("__ivf_part_id", ColumnData::UInt32(vec![0])),
            column(
                "vector",
                ColumnData::FixedSizeList(f32_block(&[0.0, 0.0, 0.0], 3)),
            ),
        ],
    };
    assert!(matches!(
        t.transform(&bad_len),
        Err(Error::InvalidInput { .. })
    ));

    // Element types outside the type matrix.
    let bad_type = Batch {
        columns: vec![
            column("__ivf_part_id", ColumnData::UInt32(vec![0])),
            column(
                "vector",
                ColumnData::FixedSizeList(VectorBlock {
                    value_type: ElementType::Float16,
                    value_length: 2,
                    num_rows: 1,
                    data: vec![0u8; 4],
                }),
            ),
        ],
    };
    assert!(matches!(t.transform(&bad_type), Err(Error::Index { .. })));
}

#[test]
fn test_gather_centroids_order() {
    let t = transform();
    let gathered = t.gather_centroids(&vec![2, 2, 0]);
    assert_eq!(gathered.num_rows, 3);
    assert_eq!(
        bytes_to_f32s(&gathered.data),
        vec![20.0, 21.0, 20.0, 21.0, 0.0, 1.0]
    );
}
