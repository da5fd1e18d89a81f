use lance_index::error::Error;
use lance_index::pq::{
    transpose_codes, BuildOutcome, DistanceTableKind, DistanceType, PQBuildParams, Pq,
    ProductQuantizer, ScoreAdjustment, Tensor, VectorBlock,
};
use lance_index::schema::ElementType;

/// A small deterministic generator for test vectors in `[0, 1)`.
struct Lcg(u64);

impl Lcg {
    fn next_f32(&mut self) -> f32 {
        self.0 = self
            .0
            .wrapping_mul(6364136223846793005)
            .wrapping_add(1442695040888963407);
        ((self.0 >> 40) as f32) / ((1u64 << 24) as f32)
    }

    fn vector(&mut self, n: usize) -> Vec<f32> {
        (0..n).map(|_| self.next_f32()).collect()
    }
}

fn f32s_to_bytes(values: &[f32]) -> Vec<u8> {
    let mut bytes = Vec::with_capacity(values.len() * 4);
    for v in values {
        bytes.extend_from_slice(&v.to_le_bytes());
    }
    bytes
}

fn f32_block(values: &[f32], value_length: usize) -> VectorBlock {
    assert_eq!(values.len() % value_length, 0);
    VectorBlock {
        value_type: ElementType::Float32,
        value_length,
        num_rows: values.len() / value_length,
        data: f32s_to_bytes(values),
    }
}

fn l2_squared(a: &[f32], b: &[f32]) -> f32 {
    a.iter().zip(b.iter()).map(|(x, y)| (x - y) * (x - y)).sum()
}

/// Encode a non-negative distance as an order key: for non-negative IEEE
/// floats the bit pattern orders exactly as the value does.
fn distance_key(d: f32) -> u64 {
    d.to_bits() as u64
}

#[test]
fn test_f16_pq_to_protobuf() {
    let pq = ProductQuantizer::new(
        4,
        8,
        16,
        VectorBlock {
            value_type: ElementType::Float16,
            value_length: 16,
            num_rows: 256,
            data: vec![0u8; 256 * 16 * 2],
        },
        DistanceType::L2,
    );
    let proto: Pq = pq.to_proto();
    assert_eq!(proto.num_bits, 8);
    assert_eq!(proto.num_sub_vectors, 4);
    assert_eq!(proto.dimension, 16);
    assert!(proto.codebook.is_empty());
    assert!(proto.codebook_tensor.is_some());

    let tensor = proto.codebook_tensor.as_ref().unwrap();
    assert_eq!(tensor.data_type, ElementType::Float16);
    assert_eq!(tensor.shape, vec![256, 16]);
    assert_eq!(tensor.data.len(), 256 * 16 * 2);
}

#[test]
fn test_l2_distance() {
    const DIM: usize = 512;
    const TOTAL: usize = 66; // 64 + 2 to make sure the remainder is handled correctly.
    const NUM_SUB_VECTORS: usize = 16;
    const SUB_DIM: usize = DIM / NUM_SUB_VECTORS;
    let mut rng = Lcg(42);
    let codebook = rng.vector(256 * DIM);
    let pq = ProductQuantizer::new(
        NUM_SUB_VECTORS,
        8,
        DIM,
        f32_block(&codebook, DIM),
        DistanceType::L2,
    );
    let pq_code: Vec<u8> = (0..NUM_SUB_VECTORS * TOTAL).map(|v| v as u8).collect();
    let query = rng.vector(DIM);

    let transposed_pq_codes = transpose_codes(&pq_code, TOTAL, NUM_SUB_VECTORS);
    let plan = pq
        .compute_distances(&f32_block(&query, DIM), &transposed_pq_codes)
        .unwrap();
    assert_eq!(plan.num_vectors, TOTAL);
    assert_eq!(plan.table, DistanceTableKind::L2);
    assert_eq!(plan.adjustment, ScoreAdjustment::Identity);
    assert_eq!(plan.table_length, NUM_SUB_VECTORS * 256);
    assert_eq!(plan.lookup_indices.len(), TOTAL * NUM_SUB_VECTORS);

    // The floating-point side of the evaluation: build the L2 table the plan
    // names, then sum the entries at the plan's lookup positions.
    let mut table = vec![0.0f32; plan.table_length];
    for i in 0..NUM_SUB_VECTORS {
        for c in 0..256 {
            let query_sub = &query[i * SUB_DIM..(i + 1) * SUB_DIM];
            let centroid_sub = &codebook[c * DIM + i * SUB_DIM..c * DIM + (i + 1) * SUB_DIM];
            table[i * 256 + c] = l2_squared(query_sub, centroid_sub);
        }
    }
    let dists: Vec<f32> = (0..plan.num_vectors)
        .map(|j| {
            (0..NUM_SUB_VECTORS)
                .map(|i| table[plan.lookup_indices[j * NUM_SUB_VECTORS + i]])
                .sum()
        })
        .collect();

    let expected: Vec<f32> = pq_code
        .chunks(NUM_SUB_VECTORS)
        .map(|code| {
            code.iter()
                .enumerate()
                .map(|(sub_idx, c)| {
                    let query_sub = &query[sub_idx * SUB_DIM..(sub_idx + 1) * SUB_DIM];
                    let centroid_sub = &codebook[*c as usize * DIM + sub_idx * SUB_DIM
                        ..*c as usize * DIM + (sub_idx + 1) * SUB_DIM];
                    l2_squared(query_sub, centroid_sub)
                })
                .sum()
        })
        .collect();
    assert_eq!(dists.len(), expected.len());
    // One finite, non-negative squared L2 score per code row.
    for v in dists.iter() {
        assert!(v.is_finite() && *v >= 0.0);
    }
    for (v, e) in dists.iter().zip(expected.iter()) {
        assert!(
            (v - e).abs() <= 1e-4 * e.abs().max(1.0),
            "distance {v} differs from reference {e}"
        );
    }
}

#[test]
fn test_pq_transform() {
    const DIM: usize = 16;
    const TOTAL: usize = 64;
    const NUM_SUB_VECTORS: usize = 4;
    const SUB_DIM: usize = DIM / NUM_SUB_VECTORS;
    let mut rng = Lcg(7);
    let codebook = rng.vector(DIM * 256);
    let pq = ProductQuantizer::new(
        NUM_SUB_VECTORS,
        8,
        DIM,
        f32_block(&codebook, DIM),
        DistanceType::L2,
    );

    let vectors = rng.vector(DIM * TOTAL);

    // The floating-point side of encoding: one row of order keys per
    // (vector, sub-vector) pair, one key per centroid.
    let mut keys: Vec<Vec<u64>> = Vec::with_capacity(TOTAL * NUM_SUB_VECTORS);
    for vec in vectors.chunks_exact(DIM) {
        for (sub_idx, sub_vec) in vec.chunks_exact(SUB_DIM).enumerate() {
            keys.push(
                (0..256)
                    .map(|c| {
                        let centroid_sub = &codebook[c * DIM + sub_idx * SUB_DIM
                            ..c * DIM + (sub_idx + 1) * SUB_DIM];
                        distance_key(l2_squared(sub_vec, centroid_sub))
                    })
                    .collect(),
            );
        }
    }
    let pq_code = pq.quantize(&f32_block(&vectors, DIM), &keys).unwrap();

    let mut expected = Vec::with_capacity(TOTAL * NUM_SUB_VECTORS);
    vectors.chunks_exact(DIM).for_each(|vec| {
        vec.chunks_exact(SUB_DIM)
            .enumerate()
            .for_each(|(sub_idx, sub_vec)| {
                let mut best = 0usize;
                let mut best_dist = f32::INFINITY;
                for c in 0..256 {
                    let centroid_sub =
                        &codebook[c * DIM + sub_idx * SUB_DIM..c * DIM + (sub_idx + 1) * SUB_DIM];
                    let dist = l2_squared(sub_vec, centroid_sub);
                    if dist < best_dist {
                        best_dist = dist;
                        best = c;
                    }
                }
                expected.push(best as u8);
            });
    });

    assert_eq!(pq_code.num_rows, TOTAL);
    assert_eq!(pq_code.value_length, NUM_SUB_VECTORS);
    assert_eq!(pq_code.value_type, ElementType::UInt8);
    assert_eq!(pq_code.data, expected);
}

#[test]
fn test_quantize_packs_nibbles() {
    // Two sub-vectors at 4 bits pack into one byte: the second sub-vector's
    // code in the high nibble, the first in the low nibble.
    let pq = ProductQuantizer::new(
        2,
        4,
        2,
        VectorBlock {
            value_type: ElementType::Float32,
            value_length: 2,
            num_rows: 16,
            data: vec![0u8; 16 * 2 * 4],
        },
        DistanceType::L2,
    );
    let mut key_row_0 = vec![10u64; 16];
    key_row_0[3] = 1;
    let mut key_row_1 = vec![10u64; 16];
    key_row_1[9] = 1;
    let vectors = f32_block(&[0.0, 0.0], 2);
    let codes = pq.quantize(&vectors, &vec![key_row_0, key_row_1]).unwrap();
    assert_eq!(codes.value_length, 1);
    assert_eq!(codes.data, vec![(9u8 << 4) | 3u8]);
}

#[test]
fn test_quantize_ties_prefer_first_centroid() {
    let pq = ProductQuantizer::new(
        1,
        8,
        2,
        VectorBlock {
            value_type: ElementType::Float32,
            value_length: 2,
            num_rows: 256,
            data: vec![0u8; 256 * 2 * 4],
        },
        DistanceType::L2,
    );
    let mut key_row = vec![5u64; 256];
    key_row[40] = 2;
    key_row[200] = 2;
    let codes = pq
        .quantize(&f32_block(&[0.0, 0.0], 2), &vec![key_row])
        .unwrap();
    assert_eq!(codes.data, vec![40u8]);
}

#[test]
fn test_quantize_errors() {
    let block = |num_rows: usize| VectorBlock {
        value_type: ElementType::Float32,
        value_length: 4,
        num_rows,
        data: vec![0u8; num_rows * 4 * 4],
    };
    // Unknown code width.
    let pq = ProductQuantizer::new(2, 3, 4, block(8), DistanceType::L2);
    let keys = vec![vec![0u64; 8]; 2];
    assert!(matches!(
        pq.quantize(&block(1), &keys),
        Err(Error::Index { .. })
    ));
    // 4-bit codes need an even number of sub-vectors.
    let pq = ProductQuantizer::new(1, 4, 4, block(16), DistanceType::L2);
    let keys = vec![vec![0u64; 16]; 1];
    assert!(matches!(
        pq.quantize(&block(1), &keys),
        Err(Error::Index { .. })
    ));
    // Non-floating vectors are not encodable.
    let pq = ProductQuantizer::new(2, 8, 4, block(256), DistanceType::L2);
    let int_vectors = VectorBlock {
        value_type: ElementType::Int8,
        value_length: 4,
        num_rows: 1,
        data: vec![0u8; 4],
    };
    let keys = vec![vec![0u64; 256]; 2];
    assert!(matches!(
        pq.quantize(&int_vectors, &keys),
        Err(Error::Index { .. })
    ));
}

#[test]
fn test_transpose_codes() {
    // Two rows of three bytes each.
    let codes = vec![1u8, 2, 3, 4, 5, 6];
    let transposed = transpose_codes(&codes, 2, 3);
    assert_eq!(transposed, vec![1, 4, 2, 5, 3, 6]);
    assert_eq!(transpose_codes(&transposed, 3, 2), codes);
}

#[test]
fn test_compute_distances_unpacks_nibbles() {
    let pq = ProductQuantizer::new(
        2,
        4,
        2,
        VectorBlock {
            value_type: ElementType::Float32,
            value_length: 2,
            num_rows: 16,
            data: vec![0u8; 16 * 2 * 4],
        },
        DistanceType::L2,
    );
    let query = f32_block(&[0.0, 0.0], 2);
    // Two vectors, one packed byte each, already transposed.
    let code = vec![(9u8 << 4) | 3u8, (2u8 << 4) | 1u8];
    let plan = pq.compute_distances(&query, &code).unwrap();
    assert_eq!(plan.num_vectors, 2);
    assert_eq!(plan.table_length, 2 * 16);
    assert_eq!(plan.lookup_indices, vec![3, 16 + 9, 1, 16 + 2]);
}

#[test]
fn test_compute_distances_adjustments() {
    let codebook = VectorBlock {
        value_type: ElementType::Float32,
        value_length: 8,
        num_rows: 256,
        data: vec![0u8; 256 * 8 * 4],
    };
    let query = f32_block(&[0.0; 8], 8);
    let code = vec![0u8; 4 * 3];

    let dot = ProductQuantizer::new(4, 8, 8, codebook.clone(), DistanceType::Dot);
    let plan = dot.compute_distances(&query, &code).unwrap();
    assert_eq!(plan.table, DistanceTableKind::Dot);
    assert_eq!(plan.adjustment, ScoreAdjustment::SubtractBias { bias: 3 });

    let cosine = ProductQuantizer::new(4, 8, 8, codebook.clone(), DistanceType::Cosine);
    let plan = cosine.compute_distances(&query, &code).unwrap();
    assert_eq!(plan.table, DistanceTableKind::L2);
    assert_eq!(plan.adjustment, ScoreAdjustment::Halve);

    let int_query = VectorBlock {
        value_type: ElementType::Int8,
        value_length: 8,
        num_rows: 1,
        data: vec![0u8; 8],
    };
    let int_codebook = VectorBlock {
        value_type: ElementType::Int8,
        value_length: 8,
        num_rows: 256,
        data: vec![0u8; 256 * 8],
    };
    let int_pq = ProductQuantizer::new(4, 8, 8, int_codebook, DistanceType::L2);
    assert!(matches!(
        int_pq.compute_distances(&int_query, &code),
        Err(Error::Index { .. })
    ));
}

#[test]
fn test_compute_distances_empty_code_block() {
    // An empty code block succeeds with an empty result before the query or
    // the distance type is looked at: a non-float query and even the
    // unsupported Hamming distance are fine here.
    let int_codebook = VectorBlock {
        value_type: ElementType::Int8,
        value_length: 8,
        num_rows: 256,
        data: vec![0u8; 256 * 8],
    };
    let int_query = VectorBlock {
        value_type: ElementType::Int8,
        value_length: 8,
        num_rows: 1,
        data: vec![0u8; 8],
    };
    let empty: Vec<u8> = Vec::new();
    let pq = ProductQuantizer::new(4, 8, 8, int_codebook.clone(), DistanceType::Hamming);
    let plan = pq.compute_distances(&int_query, &empty).unwrap();
    assert_eq!(plan.num_vectors, 0);
    assert!(plan.lookup_indices.is_empty());

    // With code rows present the same query is refused.
    let int_pq = ProductQuantizer::new(4, 8, 8, int_codebook, DistanceType::L2);
    let code = vec![0u8; 4];
    assert!(matches!(
        int_pq.compute_distances(&int_query, &code),
        Err(Error::Index { .. })
    ));
}

#[test]
fn test_centroids_slices_the_codebook() {
    const DIM: usize = 4;
    const NUM_SUB_VECTORS: usize = 2;
    const SUB_DIM: usize = DIM / NUM_SUB_VECTORS;
    let data: Vec<u8> = (0..256 * DIM * 4).map(|i| (i % 251) as u8).collect();
    let pq = ProductQuantizer::new(
        NUM_SUB_VECTORS,
        8,
        DIM,
        VectorBlock {
            value_type: ElementType::Float32,
            value_length: DIM,
            num_rows: 256,
            data: data.clone(),
        },
        DistanceType::L2,
    );
    for sub_idx in 0..NUM_SUB_VECTORS {
        let slice = pq.centroids(sub_idx);
        let sub_width = SUB_DIM * 4;
        assert_eq!(slice.len(), 256 * sub_width);
        for c in 0..256 {
            for b in 0..sub_width {
                assert_eq!(
                    slice[c * sub_width + b],
                    data[c * DIM * 4 + sub_idx * sub_width + b]
                );
            }
        }
    }
}

#[test]
fn test_from_proto_tensor() {
    let tensor = Tensor {
        data_type: ElementType::Float16,
        shape: vec![256, 16],
        data: vec![0u8; 256 * 16 * 2],
    };
    let proto = Pq {
        num_bits: 8,
        num_sub_vectors: 4,
        dimension: 16,
        codebook: vec![],
        codebook_tensor: Some(tensor),
    };
    let pq = ProductQuantizer::from_proto(&proto, DistanceType::Cosine).unwrap();
    assert_eq!(pq.num_bits, 8);
    assert_eq!(pq.num_sub_vectors, 4);
    assert_eq!(pq.dimension, 16);
    // Cosine is normalized into L2 at the quantizer boundary.
    assert_eq!(pq.distance_type, DistanceType::L2);
    assert_eq!(pq.codebook.value_type, ElementType::Float16);
    assert_eq!(pq.codebook.num_rows, 256);
    assert_eq!(pq.codebook.value_length, 16);
}

#[test]
fn test_from_proto_legacy_codebook() {
    let proto = Pq {
        num_bits: 8,
        num_sub_vectors: 2,
        dimension: 4,
        codebook: vec![0u8; 256 * 4 * 4],
        codebook_tensor: None,
    };
    let pq = ProductQuantizer::from_proto(&proto, DistanceType::L2).unwrap();
    assert_eq!(pq.codebook.value_type, ElementType::Float32);
    assert_eq!(pq.codebook.value_length, 4);
    assert_eq!(pq.codebook.num_rows, 256);
}

#[test]
fn test_from_proto_rejects_inconsistent_tensor() {
    let tensor = Tensor {
        data_type: ElementType::Float32,
        shape: vec![256, 16],
        data: vec![0u8; 10],
    };
    let proto = Pq {
        num_bits: 8,
        num_sub_vectors: 4,
        dimension: 16,
        codebook: vec![],
        codebook_tensor: Some(tensor),
    };
    assert!(matches!(
        ProductQuantizer::from_proto(&proto, DistanceType::L2),
        Err(Error::Index { .. })
    ));

    let ragged = Pq {
        num_bits: 8,
        num_sub_vectors: 4,
        dimension: 16,
        codebook: vec![0u8; 100],
        codebook_tensor: None,
    };
    assert!(matches!(
        ProductQuantizer::from_proto(&ragged, DistanceType::L2),
        Err(Error::Index { .. })
    ));
}

#[test]
fn test_proto_round_trip() {
    let mut rng = Lcg(11);
    let codebook = rng.vector(256 * 8);
    let pq = ProductQuantizer::new(2, 8, 8, f32_block(&codebook, 8), DistanceType::L2);
    let restored = ProductQuantizer::from_proto(&pq.to_proto(), DistanceType::L2).unwrap();
    assert_eq!(restored.num_bits, pq.num_bits);
    assert_eq!(restored.num_sub_vectors, pq.num_sub_vectors);
    assert_eq!(restored.dimension, pq.dimension);
    assert_eq!(restored.codebook, pq.codebook);
}

#[test]
fn test_metadata_round_trip() {
    let mut rng = Lcg(13);
    let codebook = rng.vector(256 * 8);
    let pq = ProductQuantizer::new(2, 8, 8, f32_block(&codebook, 8), DistanceType::L2);
    let metadata = pq.metadata(None);
    assert_eq!(metadata.codebook_position, 0);
    assert_eq!(metadata.nbits, 8);
    assert!(!metadata.transposed);
    let restored = ProductQuantizer::from_metadata(&metadata, DistanceType::Cosine).unwrap();
    assert_eq!(restored.distance_type, DistanceType::L2);
    assert_eq!(restored.codebook, pq.codebook);
    assert_eq!(restored.num_sub_vectors, 2);
}

#[test]
fn test_build() {
    let mut rng = Lcg(17);
    let data = f32_block(&rng.vector(8 * 10), 8);
    let codebook = f32_block(&rng.vector(8 * 256), 8);

    let with_codebook = PQBuildParams {
        num_sub_vectors: 2,
        num_bits: 8,
        codebook: Some(codebook.clone()),
    };
    match ProductQuantizer::build(&data, DistanceType::Cosine, &with_codebook).unwrap() {
        BuildOutcome::Built(pq) => {
            assert_eq!(pq.dimension, 8);
            assert_eq!(pq.num_sub_vectors, 2);
            assert_eq!(pq.distance_type, DistanceType::L2);
            assert_eq!(pq.codebook, codebook);
        }
        BuildOutcome::NeedsTraining => panic!("expected a built quantizer"),
    }

    let training = PQBuildParams {
        num_sub_vectors: 2,
        num_bits: 8,
        codebook: None,
    };
    assert!(matches!(
        ProductQuantizer::build(&data, DistanceType::L2, &training).unwrap(),
        BuildOutcome::NeedsTraining
    ));

    let mismatched = PQBuildParams {
        num_sub_vectors: 2,
        num_bits: 8,
        codebook: Some(f32_block(&rng.vector(4 * 256), 4)),
    };
    assert!(matches!(
        ProductQuantizer::build(&data, DistanceType::L2, &mismatched),
        Err(Error::Index { .. })
    ));
}

#[test]
fn test_field_and_accessors() {
    let pq = ProductQuantizer::new(
        4,
        8,
        16,
        VectorBlock {
            value_type: ElementType::Float32,
            value_length: 16,
            num_rows: 256,
            data: vec![0u8; 256 * 16 * 4],
        },
        DistanceType::L2,
    );
    assert_eq!(pq.code_dim(), 4);
    assert_eq!(pq.column(), "__pq_code");
    assert_eq!(pq.num_centroids(), 256);
    let field = pq.field();
    assert_eq!(field.name, "__pq_code");
    assert_eq!(field.data_type, ElementType::UInt8);
    assert_eq!(field.list_size, Some(4));
    assert!(field.nullable);
    assert!(ProductQuantizer::use_residual(DistanceType::L2));
    assert!(ProductQuantizer::use_residual(DistanceType::Cosine));
    assert!(!ProductQuantizer::use_residual(DistanceType::Dot));
}

/// Encoding a vector that sits exactly on a centroid decodes back to that
/// centroid: the reconstruction error cannot exceed the quantization error,
/// which is zero here.
#[test]
fn test_quantize_reconstructs_centroid_exactly() {
    const DIM: usize = 8;
    const SUB_DIM: usize = 4;
    let mut rng = Lcg(23);
    let codebook = rng.vector(256 * DIM);
    let pq = ProductQuantizer::new(2, 8, DIM, f32_block(&codebook, DIM), DistanceType::L2);

    // The vector is centroid 77's row.
    let vector: Vec<f32> = codebook[77 * DIM..78 * DIM].to_vec();
    let mut keys: Vec<Vec<u64>> = Vec::new();
    for (sub_idx, sub_vec) in vector.chunks_exact(SUB_DIM).enumerate() {
        keys.push(
            (0..256)
                .map(|c| {
                    let centroid_sub =
                        &codebook[c * DIM + sub_idx * SUB_DIM..c * DIM + (sub_idx + 1) * SUB_DIM];
                    distance_key(l2_squared(sub_vec, centroid_sub))
                })
                .collect(),
        );
    }
    let codes = pq.quantize(&f32_block(&vector, DIM), &keys).unwrap();

    // Decode by centroid lookup and compare with the original vector.
    let mut decoded = Vec::with_capacity(DIM);
    for (sub_idx, code) in codes.data.iter().enumerate() {
        let c = *code as usize;
        decoded
            .extend_from_slice(&codebook[c * DIM + sub_idx * SUB_DIM..c * DIM + (sub_idx + 1) * SUB_DIM]);
    }
    assert_eq!(decoded, vector);
}
