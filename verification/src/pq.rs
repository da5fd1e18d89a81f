//! Product quantization.
//!
//! A product quantizer owns a codebook of shape `[num_centroids, dimension]`
//! whose rows are conceptually split into `num_sub_vectors` equal sub-vectors.
//! It compresses each input vector to one code per sub-vector — the index of
//! the nearest centroid within that sub-vector's slice — and prepares the
//! sub-vector-major lookup tables through which bulk approximate distances
//! are evaluated.
//!
//! Element payloads are carried as raw little-endian bytes tagged with their
//! element type; every decision the quantizer makes — slicing, code
//! selection, packing, table layout — is over plain values.  The
//! floating-point distance primitive itself is an external collaborator: its
//! results enter as order keys and leave as table entries that the caller
//! sums.

use vstd::prelude::*;

use crate::error::Error;
use crate::schema::{ElementType, Field};
use vstd::arithmetic::power2::pow2;

verus! {

/// The distance measures the surrounding system knows.
#[derive(Clone, Copy, Debug, PartialEq, Eq, Structural)]
pub enum DistanceType {
    L2,
    Cosine,
    Dot,
    Hamming,
}

/// A fixed-size-list column of elements, held as raw little-endian bytes:
/// `num_rows` rows of `value_length` elements each.
#[derive(Clone, Debug, PartialEq, Eq)]
pub struct VectorBlock {
    pub value_type: ElementType,
    pub value_length: usize,
    pub num_rows: usize,
    pub data: Vec<u8>,
}

impl VectorBlock {
    /// Rows are non-empty and the byte payload covers the rows exactly.
    pub open spec fn wf(&self) -> bool {
        &&& self.value_length >= 1
        &&& self.data@.len() == self.num_rows * self.value_length
            * self.value_type.spec_byte_width()
    }

    /// Bytes per row.
    pub open spec fn spec_row_width(&self) -> int {
        self.value_length * self.value_type.spec_byte_width()
    }
}

/// A product quantizer: the codebook and the shape parameters that give it
/// meaning.  Immutable once built; retraining replaces the whole value.
#[derive(Clone, Debug)]
pub struct ProductQuantizer {
    pub num_sub_vectors: usize,
    pub num_bits: u32,
    pub dimension: usize,
    pub codebook: VectorBlock,
    pub distance_type: DistanceType,
}

/// The number of centroids a code of `num_bits` bits can address.
pub open spec fn spec_num_centroids(num_bits: u32) -> int {
    pow2(num_bits as nat) as int
}

/// The bytes each packed code row occupies: one byte per sub-vector at 8
/// bits, one byte per pair of sub-vectors at 4 bits.
pub open spec fn spec_code_dim_bytes(num_sub_vectors: int, num_bits: u32) -> int {
    num_sub_vectors * num_bits as int / 8
}

impl ProductQuantizer {
    /// The descriptor invariants: the codebook rows are the `2^num_bits`
    /// centroids of the full dimension, and the dimension splits evenly into
    /// the sub-vectors.
    pub open spec fn wf(&self) -> bool {
        &&& self.codebook.wf()
        &&& self.codebook.value_length == self.dimension
        &&& self.codebook.num_rows == spec_num_centroids(self.num_bits)
        &&& 1 <= self.num_sub_vectors <= self.dimension
        &&& self.dimension % self.num_sub_vectors == 0
        &&& self.num_bits <= 8
    }

    /// Elements in each sub-vector.
    pub open spec fn spec_sub_dim(&self) -> int {
        self.dimension as int / self.num_sub_vectors as int
    }

    pub fn new(
        num_sub_vectors: usize,
        num_bits: u32,
        dimension: usize,
        codebook: VectorBlock,
        distance_type: DistanceType,
    ) -> (pq: ProductQuantizer)
        ensures
            pq.num_sub_vectors == num_sub_vectors,
            pq.num_bits == num_bits,
            pq.dimension == dimension,
            pq.codebook == codebook,
            pq.distance_type == distance_type,
    {
        ProductQuantizer { num_sub_vectors, num_bits, dimension, codebook, distance_type }
    }

    /// The number of centroids of this quantizer's codebook.
    pub fn num_centroids(&self) -> (n: usize)
        requires
            self.wf(),
        ensures
            n == spec_num_centroids(self.num_bits),
    {
        self.codebook.num_rows
    }

    /// The code dimension: one code per sub-vector.
    pub fn code_dim(&self) -> (n: usize)
        ensures
            n == self.num_sub_vectors,
    {
        self.num_sub_vectors
    }

    /// The name of the column the quantizer writes.
    pub fn column(&self) -> (name: &'static str)
        ensures
            name@ == "__pq_code"@,
    {
        "__pq_code"
    }

    /// Whether vectors should be rewritten as residuals against their coarse
    /// centroid before quantization.
    pub fn use_residual(distance_type: DistanceType) -> (r: bool)
        ensures
            r == (distance_type is L2 || distance_type is Cosine),
    {
        match distance_type {
            DistanceType::L2 => true,
            DistanceType::Cosine => true,
            _ => false,
        }
    }

    /// The schema of the quantizer's output column: a nullable fixed-size
    /// list of `num_sub_vectors * num_bits / 8` bytes per row.
    pub fn field(&self) -> (f: Field)
        requires
            self.num_bits == 4 || self.num_bits == 8,
            self.num_bits == 4 ==> self.num_sub_vectors % 2 == 0,
        ensures
            f.name@ == "__pq_code"@,
            f.data_type == ElementType::UInt8,
            f.list_size == Some(
                spec_code_dim_bytes(self.num_sub_vectors as int, self.num_bits) as usize,
            ),
            f.nullable,
    {
        let bytes_per_row: usize = if self.num_bits == 4 {
            self.num_sub_vectors / 2
        } else {
            self.num_sub_vectors
        };
        proof {
            assert(self.num_bits == 4 ==> self.num_sub_vectors * 4int / 8int
                == self.num_sub_vectors as int / 2) by (nonlinear_arith);
            assert(self.num_bits == 8 ==> self.num_sub_vectors * 8int / 8int
                == self.num_sub_vectors as int) by (nonlinear_arith);
        }
        Field {
            name: "__pq_code".to_owned(),
            data_type: ElementType::UInt8,
            list_size: Some(bytes_per_row),
            nullable: true,
        }
    }

    /// The contiguous byte slice of the codebook that holds sub-vector
    /// `sub_vector_idx` of every centroid, centroid after centroid.
    ///
    /// Output byte `k` is byte `k % sub_width` of the sub-vector slice of
    /// centroid `k / sub_width`, where `sub_width` is the sub-vector's width
    /// in bytes.
    pub fn centroids(&self, sub_vector_idx: usize) -> (r: Vec<u8>)
        requires
            self.wf(),
            sub_vector_idx < self.num_sub_vectors,
        ensures
            r@ == spec_sub_vector_centroids(
                self.codebook.data@,
                self.codebook.spec_row_width(),
                sub_vector_idx * self.spec_sub_dim() * self.codebook.value_type.spec_byte_width(),
                self.spec_sub_dim() * self.codebook.value_type.spec_byte_width(),
                self.codebook.num_rows as int,
            ),
    {
        let width = self.codebook.value_type.byte_width();
        let sub_dim = self.dimension / self.num_sub_vectors;
        let num_centroids = self.codebook.num_rows;
        let n = self.codebook.data.len();
        proof {
            lemma_centroid_slice_bounds(
                self.dimension as int,
                self.num_sub_vectors as int,
                sub_vector_idx as int,
                width as int,
                num_centroids as int,
            );
            vstd::arithmetic::power2::lemma_pow2_pos(self.num_bits as nat);
            let rows = num_centroids as int;
            let d = self.dimension as int;
            let w = width as int;
            assert(n as int == rows * d * w);
            assert(rows * d * w == rows * (d * w) && d * w <= rows * (d * w))
                by (nonlinear_arith)
                requires
                    rows >= 1,
                    d >= 0,
                    w >= 0,
            ;
        }
        let row_width = self.dimension * width;
        let sub_width = sub_dim * width;
        let start = sub_vector_idx * sub_width;
        let ghost target = spec_sub_vector_centroids(
            self.codebook.data@,
            row_width as int,
            start as int,
            sub_width as int,
            num_centroids as int,
        );
        let mut r: Vec<u8> = Vec::new();
        let mut c: usize = 0;
        let mut row_off: usize = 0;
        while c < num_centroids
            invariant
                0 <= c <= num_centroids,
                row_off == c * row_width,
                self.wf(),
                sub_vector_idx < self.num_sub_vectors,
                width == self.codebook.value_type.spec_byte_width(),
                row_width == self.codebook.spec_row_width(),
                sub_width >= 1,
                start + sub_width <= row_width,
                num_centroids == self.codebook.num_rows,
                self.codebook.data@.len() == num_centroids * row_width,
                self.codebook.data@.len() <= usize::MAX,
                target == spec_sub_vector_centroids(
                    self.codebook.data@,
                    row_width as int,
                    start as int,
                    sub_width as int,
                    num_centroids as int,
                ),
                r@ == target.take(c * sub_width),
            decreases num_centroids - c,
        {
            proof {
                assert((c + 1) * row_width <= num_centroids * row_width && c * sub_width + sub_width
                    <= num_centroids * sub_width) by (nonlinear_arith)
                    requires
                        c < num_centroids,
                        row_width >= 0,
                        sub_width >= 0,
                ;
                assert((c + 1) * row_width == c * row_width + row_width) by (nonlinear_arith);
                assert((c + 1) * sub_width == c * sub_width + sub_width) by (nonlinear_arith);
            }
            let mut b: usize = 0;
            while b < sub_width
                invariant
                    0 <= b <= sub_width,
                    0 <= c < num_centroids,
                    row_off == c * row_width,
                    row_off + row_width <= self.codebook.data@.len(),
                    self.codebook.data@.len() <= usize::MAX,
                    start + sub_width <= row_width,
                    c * sub_width + sub_width <= num_centroids * sub_width,
                    target == spec_sub_vector_centroids(
                        self.codebook.data@,
                        row_width as int,
                        start as int,
                        sub_width as int,
                        num_centroids as int,
                    ),
                    target.len() == num_centroids * sub_width,
                    r@ == target.take(c * sub_width + b),
                decreases sub_width - b,
            {
                proof {
                    let k = c * sub_width + b;
                    assert(k / sub_width as int == c && k % sub_width as int == b)
                        by (nonlinear_arith)
                        requires
                            0 <= b < sub_width,
                            0 <= c,
                            k == c * sub_width + b,
                    ;
                    assert(target[k] == self.codebook.data@[c * row_width + start + b]);
                    assert(target.take(k + 1) =~= target.take(k).push(target[k]));
                }
                r.push(self.codebook.data[row_off + start + b]);
                b = b + 1;
            }
            row_off = row_off + row_width;
            c = c + 1;
        }
        proof {
            assert(r@ =~= target);
            let sd = self.spec_sub_dim();
            let w = width as int;
            let si = sub_vector_idx as int;
            assert(si * (sd * w) == si * sd * w) by (nonlinear_arith);
        }
        r
    }
}

/// The gathered sub-vector slice of every centroid: output byte `k` comes
/// from byte `start + (k % sub_width)` of codebook row `k / sub_width`.
pub open spec fn spec_sub_vector_centroids(
    data: Seq<u8>,
    row_width: int,
    start: int,
    sub_width: int,
    num_centroids: int,
) -> Seq<u8> {
    Seq::new(
        (num_centroids * sub_width) as nat,
        |k: int| data[(k / sub_width) * row_width + start + (k % sub_width)],
    )
}

proof fn lemma_centroid_slice_bounds(
    dimension: int,
    num_sub_vectors: int,
    sub_vector_idx: int,
    width: int,
    num_centroids: int,
)
    requires
        1 <= num_sub_vectors <= dimension,
        dimension % num_sub_vectors == 0,
        0 <= sub_vector_idx < num_sub_vectors,
        1 <= width,
        0 <= num_centroids,
    ensures
        1 <= (dimension / num_sub_vectors) * width,
        sub_vector_idx * ((dimension / num_sub_vectors) * width) + (dimension / num_sub_vectors)
            * width <= dimension * width,
{
    let sub_dim = dimension / num_sub_vectors;
    assert(sub_dim * num_sub_vectors == dimension && sub_dim >= 1) by (nonlinear_arith)
        requires
            1 <= num_sub_vectors <= dimension,
            dimension % num_sub_vectors == 0,
            sub_dim == dimension / num_sub_vectors,
    ;
    assert((sub_vector_idx + 1) * (sub_dim * width) <= num_sub_vectors * (sub_dim * width))
        by (nonlinear_arith)
        requires
            sub_vector_idx + 1 <= num_sub_vectors,
            sub_dim >= 1,
            width >= 1,
    ;
    assert(num_sub_vectors * (sub_dim * width) == dimension * width && (sub_vector_idx + 1) * (
    sub_dim * width) == sub_vector_idx * (sub_dim * width) + sub_dim * width) by (nonlinear_arith)
        requires
            sub_dim * num_sub_vectors == dimension,
    ;
    assert(sub_dim * width >= 1) by (nonlinear_arith)
        requires
            sub_dim >= 1,
            width >= 1,
    ;
}

/// The first position of the smallest key: later equal keys never displace
/// an earlier one.
pub open spec fn seq_argmin(s: Seq<u64>) -> int
    recommends
        s.len() >= 1,
    decreases s.len(),
{
    if s.len() <= 1 {
        0
    } else {
        let m = seq_argmin(s.drop_last());
        if s.last() < s[m] {
            s.len() - 1
        } else {
            m
        }
    }
}

/// What `seq_argmin` selects: an in-range position holding a smallest key,
/// and the first such position.
pub proof fn lemma_seq_argmin_properties(s: Seq<u64>)
    requires
        s.len() >= 1,
    ensures
        0 <= seq_argmin(s) < s.len(),
        forall|k: int| 0 <= k < s.len() ==> s[seq_argmin(s)] <= #[trigger] s[k],
        forall|k: int| 0 <= k < seq_argmin(s) ==> s[seq_argmin(s)] < #[trigger] s[k],
    decreases s.len(),
{
    if s.len() == 1 {
    } else {
        let prefix = s.drop_last();
        lemma_seq_argmin_properties(prefix);
        assert(forall|k: int| 0 <= k < prefix.len() ==> prefix[k] == s[k]);
    }
}

/// The position of the smallest key, earliest position on ties.
fn argmin_key(keys: &Vec<u64>) -> (r: usize)
    requires
        keys@.len() >= 1,
    ensures
        r == seq_argmin(keys@),
        r < keys@.len(),
{
    let n = keys.len();
    let mut best: usize = 0;
    let mut i: usize = 1;
    proof {
        assert(keys@.take(1).len() == 1);
    }
    while i < n
        invariant
            1 <= i <= n,
            n == keys@.len(),
            best < i,
            best == seq_argmin(keys@.take(i as int)),
        decreases n - i,
    {
        proof {
            assert(keys@.take(i + 1).drop_last() =~= keys@.take(i as int));
            assert(keys@.take(i + 1).last() == keys@[i as int]);
            assert(keys@.take(i + 1)[best as int] == keys@[best as int]);
        }
        if keys[i] < keys[best] {
            best = i;
        }
        i = i + 1;
    }
    proof {
        assert(keys@.take(n as int) =~= keys@);
    }
    best
}

/// The packed code rows of a block of distance keys, one key row per
/// (vector, sub-vector) pair, vector-major.  At 8 bits each code byte is the
/// nearest-centroid position of one key row; at 4 bits adjacent positions
/// pack into one byte, the second in the high nibble and the first in the
/// low nibble.
pub open spec fn spec_quantized_codes(keys: Seq<Seq<u64>>, num_bits: u32) -> Seq<u8> {
    if num_bits == 4 {
        Seq::new(
            keys.len() / 2,
            |t: int|
                (((seq_argmin(keys[2 * t + 1]) as u8) << 4u8) | (seq_argmin(keys[2 * t]) as u8)),
        )
    } else {
        Seq::new(keys.len(), |t: int| seq_argmin(keys[t]) as u8)
    }
}

impl ProductQuantizer {
    /// Compress vectors to packed codes.
    ///
    /// The caller hands, for every vector and sub-vector in vector-major
    /// order, one row of `2^num_bits` order keys, one per centroid: a key
    /// row is the external distance primitive's output for that sub-vector
    /// against this quantizer's centroid slice, encoded so that nearer
    /// centroids carry smaller keys and ties keep the centroid order.  The
    /// emitted column holds, per vector, `num_sub_vectors` nearest-centroid
    /// codes packed to `num_sub_vectors * num_bits / 8` bytes.
    #[verifier::rlimit(20)]
    pub fn quantize(&self, vectors: &VectorBlock, distance_keys: &Vec<Vec<u64>>) -> (r: Result<
        VectorBlock,
        Error,
    >)
        requires
            self.wf(),
            vectors.wf(),
            vectors.value_length == self.dimension,
            vectors.value_type == self.codebook.value_type,
            distance_keys@.len() == vectors.num_rows * self.num_sub_vectors,
            forall|t: int|
                0 <= t < distance_keys@.len() ==> (#[trigger] distance_keys@[t])@.len()
                    == spec_num_centroids(self.num_bits),
        ensures
            r is Ok <==> ((self.num_bits == 4 || self.num_bits == 8) && (self.num_bits == 4
                ==> self.num_sub_vectors % 2 == 0) && vectors.value_type.spec_is_float()),
            r is Err ==> r->Err_0 is Index,
            r is Ok ==> r->Ok_0.value_type == ElementType::UInt8,
            r is Ok ==> r->Ok_0.value_length == spec_code_dim_bytes(
                self.num_sub_vectors as int,
                self.num_bits,
            ),
            r is Ok ==> r->Ok_0.num_rows == vectors.num_rows,
            r is Ok ==> r->Ok_0.wf(),
            r is Ok ==> r->Ok_0.data@ == spec_quantized_codes(
                distance_keys.deep_view(),
                self.num_bits,
            ),
    {
        if !(self.num_bits == 4 || self.num_bits == 8) {
            return Err(Error::index("ProductQuantization: num_bits not supported"));
        }
        if self.num_bits == 4 && self.num_sub_vectors % 2 != 0 {
            return Err(
                Error::index("PQ: num_sub_vectors must be divisible by 2 for num_bits=4"),
            );
        }
        if !vectors.value_type.is_float() {
            return Err(Error::index("unsupported data type"));
        }
        let ghost keys = distance_keys.deep_view();
        let ghost target = spec_quantized_codes(keys, self.num_bits);
        proof {
            assert(keys.len() == distance_keys@.len());
            assert forall|t: int| 0 <= t < keys.len() implies #[trigger] keys[t].len()
                == spec_num_centroids(self.num_bits) by {
                assert(keys[t] == distance_keys@[t]@);
            }
            vstd::arithmetic::power2::lemma2_to64();
        }
        let total = distance_keys.len();
        let mut data: Vec<u8> = Vec::new();
        if self.num_bits == 4 {
            proof {
                let rows = vectors.num_rows as int;
                let nsv = self.num_sub_vectors as int;
                let h = nsv / 2;
                assert(nsv == 2 * h);
                assert(rows * (2 * h) == 2 * (rows * h)) by (nonlinear_arith);
                assert(total == 2 * (rows * h));
            }
            let half = total / 2;
            let mut t: usize = 0;
            while t < half
                invariant
                    0 <= t <= half,
                    keys == distance_keys.deep_view(),
                    keys.len() == distance_keys@.len(),
                    distance_keys@.len() <= usize::MAX,
                    half * 2 <= keys.len(),
                    half == keys.len() / 2,
                    self.num_bits == 4,
                    forall|u: int|
                        0 <= u < keys.len() ==> #[trigger] keys[u].len() == spec_num_centroids(4),
                    spec_num_centroids(4) == 16,
                    target == spec_quantized_codes(keys, 4),
                    target.len() == half,
                    data@ == target.take(t as int),
                decreases half - t,
            {
                proof {
                    assert(2 * t + 1 < keys.len()) by (nonlinear_arith)
                        requires
                            0 <= t < half,
                            half * 2 <= keys.len(),
                    ;
                    assert(keys[2 * (t as int)] == distance_keys@[2 * (t as int)]@);
                    assert(keys[2 * (t as int) + 1] == distance_keys@[2 * (t as int) + 1]@);
                    lemma_seq_argmin_properties(keys[2 * (t as int)]);
                    lemma_seq_argmin_properties(keys[2 * (t as int) + 1]);
                    assert(target.take(t + 1) =~= target.take(t as int).push(target[t as int]));
                }
                let lo = argmin_key(&distance_keys[2 * t]);
                let hi = argmin_key(&distance_keys[2 * t + 1]);
                let byte: u8 = ((hi as u8) << 4u8) | (lo as u8);
                data.push(byte);
                t = t + 1;
            }
            proof {
                assert(data@ =~= target);
                assert(data@ == spec_quantized_codes(distance_keys.deep_view(), self.num_bits));
                let rows = vectors.num_rows as int;
                let nsv = self.num_sub_vectors as int;
                let h = nsv / 2;
                assert(nsv == 2 * h);
                assert(nsv * 4 / 8 == h && rows * h * 1 == rows * h && rows * (2 * h) == 2 * (rows
                    * h)) by (nonlinear_arith)
                    requires
                        nsv == 2 * h,
                        h >= 0,
                        rows >= 0,
                ;
                assert(total == 2 * (rows * h));
                assert(total / 2 == rows * h) by (nonlinear_arith)
                    requires
                        total == 2 * (rows * h),
                ;
            }
            Ok(
                VectorBlock {
                    value_type: ElementType::UInt8,
                    value_length: self.num_sub_vectors / 2,
                    num_rows: vectors.num_rows,
                    data,
                },
            )
        } else {
            let mut t: usize = 0;
            while t < total
                invariant
                    0 <= t <= total,
                    keys == distance_keys.deep_view(),
                    keys.len() == distance_keys@.len(),
                    total == keys.len(),
                    self.num_bits == 8,
                    forall|u: int|
                        0 <= u < keys.len() ==> #[trigger] keys[u].len() == spec_num_centroids(8),
                    spec_num_centroids(8) == 256,
                    target == spec_quantized_codes(keys, 8),
                    target.len() == total,
                    data@ == target.take(t as int),
                decreases total - t,
            {
                proof {
                    assert(keys[t as int] == distance_keys@[t as int]@);
                    lemma_seq_argmin_properties(keys[t as int]);
                    assert(target.take(t + 1) =~= target.take(t as int).push(target[t as int]));
                }
                let code = argmin_key(&distance_keys[t]);
                data.push(code as u8);
                t = t + 1;
            }
            proof {
                assert(data@ =~= target);
                assert(data@ == spec_quantized_codes(distance_keys.deep_view(), self.num_bits));
                let rows = vectors.num_rows as int;
                let nsv = self.num_sub_vectors as int;
                assert(rows * nsv * 8 / 8 == rows * nsv && nsv * 8 / 8 == nsv && rows * nsv * 1
                    == rows * nsv) by (nonlinear_arith);
            }
            Ok(
                VectorBlock {
                    value_type: ElementType::UInt8,
                    value_length: self.num_sub_vectors,
                    num_rows: vectors.num_rows,
                    data,
                },
            )
        }
    }
}

/// The transposed layout of a code block: output position `t` holds the
/// code byte of row `t % num_rows` at column `t / num_rows`, so that all
/// rows' byte 0 come first, then all rows' byte 1, and so on.
pub open spec fn spec_transposed(codes: Seq<u8>, num_rows: int, num_cols: int) -> Seq<u8> {
    Seq::new((num_rows * num_cols) as nat, |t: int| codes[(t % num_rows) * num_cols + t / num_rows])
}

/// Transpose a row-major code block of `num_rows` rows of `num_cols` bytes
/// each into the sub-vector-major layout that bulk distance evaluation
/// consumes.
pub fn transpose_codes(codes: &Vec<u8>, num_rows: usize, num_cols: usize) -> (r: Vec<u8>)
    requires
        codes@.len() == num_rows * num_cols,
    ensures
        r@ == spec_transposed(codes@, num_rows as int, num_cols as int),
{
    let ghost target = spec_transposed(codes@, num_rows as int, num_cols as int);
    let total = codes.len();
    proof {
        assert(num_cols * num_rows == num_rows * num_cols) by (nonlinear_arith);
        assert(total == codes@.len());
    }
    let mut r: Vec<u8> = Vec::with_capacity(total);
    let mut i: usize = 0;
    while i < num_cols
        invariant
            0 <= i <= num_cols,
            codes@.len() == num_rows * num_cols,
            codes@.len() <= usize::MAX,
            num_cols * num_rows == num_rows * num_cols,
            target == spec_transposed(codes@, num_rows as int, num_cols as int),
            r@ == target.take(i * num_rows),
        decreases num_cols - i,
    {
        proof {
            assert((i + 1) * num_rows == i * num_rows + num_rows && (i + 1) * num_rows <= num_cols
                * num_rows) by (nonlinear_arith)
                requires
                    0 <= i < num_cols,
                    num_rows >= 0,
            ;
        }
        let mut j: usize = 0;
        let mut row_base: usize = 0;
        while j < num_rows
            invariant
                0 <= j <= num_rows,
                0 <= i < num_cols,
                row_base == j * num_cols,
                row_base <= codes@.len(),
                codes@.len() == num_rows * num_cols,
                codes@.len() <= usize::MAX,
                i * num_rows + num_rows <= num_cols * num_rows,
                num_cols * num_rows == num_rows * num_cols,
                target == spec_transposed(codes@, num_rows as int, num_cols as int),
                target.len() == num_rows * num_cols,
                r@ == target.take(i * num_rows + j),
            decreases num_rows - j,
        {
            proof {
                let t = i * num_rows + j;
                assert(t / num_rows as int == i && t % num_rows as int == j) by (nonlinear_arith)
                    requires
                        0 <= j < num_rows,
                        0 <= i,
                        t == i * num_rows + j,
                ;
                assert(j * num_cols + i < num_rows * num_cols && (j + 1) * num_cols == j * num_cols
                    + num_cols && (j + 1) * num_cols <= num_rows * num_cols) by (nonlinear_arith)
                    requires
                        0 <= j < num_rows,
                        0 <= i < num_cols,
                ;
                assert(target[t] == codes@[j * num_cols + i]);
                assert(target.take(t + 1) =~= target.take(t).push(target[t]));
            }
            r.push(codes[row_base + i]);
            row_base = row_base + num_cols;
            j = j + 1;
        }
        i = i + 1;
    }
    proof {
        assert(r@ =~= target);
    }
    r
}

/// Which table the caller must build for the query before summing: squared
/// L2 distances per (sub-vector, centroid) pair, or inner products with the
/// per-sub-vector positive bias.
#[derive(Clone, Copy, Debug, PartialEq, Eq, Structural)]
pub enum DistanceTableKind {
    L2,
    Dot,
}

/// What the caller applies to each accumulated sum after the table lookups.
#[derive(Clone, Copy, Debug, PartialEq, Eq, Structural)]
pub enum ScoreAdjustment {
    /// Squared L2 sums are the scores themselves.
    Identity,
    /// Cosine was converted to L2 over normalized vectors upstream; a sum
    /// that still arrives under the cosine label is halved.
    Halve,
    /// Dot tables carry a positive bias of one per sub-vector; subtracting
    /// `num_sub_vectors - 1` restores the true dot product.
    SubtractBias { bias: usize },
}

/// The verified part of one bulk distance evaluation: which table to build,
/// its length, how many vectors the transposed code block holds, the table
/// position to look up for every (vector, sub-vector) pair in vector-major
/// order, and the adjustment of each accumulated sum.
#[derive(Clone, Debug)]
pub struct DistanceComputation {
    pub table: DistanceTableKind,
    pub table_length: usize,
    pub num_vectors: usize,
    pub lookup_indices: Vec<usize>,
    pub adjustment: ScoreAdjustment,
}

/// The code of sub-vector `i` of vector `j` in a transposed block of
/// `num_vectors` code rows: the stream is laid out byte-position-major, and
/// at 4 bits the even sub-vector sits in the low nibble, the odd one in the
/// high nibble.
pub open spec fn spec_code_of(code: Seq<u8>, num_vectors: int, num_bits: u32, j: int, i: int) -> u8 {
    if num_bits == 4 {
        let byte = code[(i / 2) * num_vectors + j];
        if i % 2 == 0 {
            byte & 0xf
        } else {
            byte >> 4u8
        }
    } else {
        code[i * num_vectors + j]
    }
}

/// The table position for entry `t` (vector `t / nsv`, sub-vector
/// `t % nsv`): sub-vector times centroid count, plus the unpacked code.
pub open spec fn spec_lookup_indices(
    code: Seq<u8>,
    num_vectors: int,
    num_sub_vectors: int,
    num_bits: u32,
    num_centroids: int,
) -> Seq<usize> {
    Seq::new(
        (num_vectors * num_sub_vectors) as nat,
        |t: int|
            ((t % num_sub_vectors) * num_centroids + spec_code_of(
                code,
                num_vectors,
                num_bits,
                t / num_sub_vectors,
                t % num_sub_vectors,
            )) as usize,
    )
}

impl ProductQuantizer {
    /// Prepare the bulk distance evaluation of a query against a transposed
    /// code block.
    ///
    /// The caller builds the named table of `num_sub_vectors * num_centroids`
    /// entries for the query — entry `i * num_centroids + c` speaks of
    /// sub-vector `i` and centroid `c` — then, for each of the `num_vectors`
    /// code rows, sums the entries at that row's `num_sub_vectors` lookup
    /// positions and applies the adjustment.  The positions unpack 4-bit
    /// codes on the fly and all fall inside the table, so every score is a
    /// sum of `num_sub_vectors` table entries and the output keeps the order
    /// of the code block, one score per vector.
    ///
    /// An empty code block succeeds with an empty plan before the query or
    /// the distance type is even looked at.
    pub fn compute_distances(&self, query: &VectorBlock, code: &Vec<u8>) -> (r: Result<
        DistanceComputation,
        Error,
    >)
        requires
            self.wf(),
            self.num_bits == 4 || self.num_bits == 8,
            self.num_bits == 4 ==> self.num_sub_vectors % 2 == 0,
            code@.len() != 0 ==> !(self.distance_type is Hamming),
            code@.len() != 0 ==> query.wf(),
            code@.len() != 0 ==> query.num_rows == 1,
            code@.len() != 0 ==> query.value_length == self.dimension,
            code@.len() != 0 ==> query.value_type == self.codebook.value_type,
            code@.len() as int % spec_code_dim_bytes(self.num_sub_vectors as int, self.num_bits) == 0,
        ensures
            r is Ok <==> (code@.len() == 0 || query.value_type.spec_is_float()),
            r is Err ==> r->Err_0 is Index,
            r is Ok ==> r->Ok_0.num_vectors == code@.len() as int / spec_code_dim_bytes(
                self.num_sub_vectors as int,
                self.num_bits,
            ),
            r is Ok ==> r->Ok_0.table_length == self.num_sub_vectors * spec_num_centroids(
                self.num_bits,
            ),
            r is Ok ==> r->Ok_0.lookup_indices@ == spec_lookup_indices(
                code@,
                r->Ok_0.num_vectors as int,
                self.num_sub_vectors as int,
                self.num_bits,
                spec_num_centroids(self.num_bits),
            ),
            r is Ok ==> forall|t: int|
                0 <= t < r->Ok_0.lookup_indices@.len() ==> #[trigger] r->Ok_0.lookup_indices@[t]
                    < r->Ok_0.table_length,
            r is Ok && self.distance_type is L2 ==> r->Ok_0.table is L2 && r->Ok_0.adjustment
                is Identity,
            r is Ok && self.distance_type is Cosine ==> r->Ok_0.table is L2 && r->Ok_0.adjustment
                is Halve,
            r is Ok && self.distance_type is Dot ==> r->Ok_0.table is Dot && r->Ok_0.adjustment
                == (ScoreAdjustment::SubtractBias { bias: (self.num_sub_vectors - 1) as usize }),
    {
        let num_sub_vectors = self.num_sub_vectors;
        let num_centroids = self.codebook.num_rows;
        let code_dim: usize = if self.num_bits == 4 {
            num_sub_vectors / 2
        } else {
            num_sub_vectors
        };
        proof {
            let nsv = num_sub_vectors as int;
            assert(self.num_bits == 4 ==> nsv * 4 / 8 == nsv / 2) by (nonlinear_arith)
                requires
                    nsv >= 0,
            ;
            assert(self.num_bits == 8 ==> nsv * 8 / 8 == nsv) by (nonlinear_arith);
            assert(code_dim >= 1);
        }
        let cb_len = self.codebook.data.len();
        proof {
            let nsv = num_sub_vectors as int;
            let ncent = num_centroids as int;
            let d = self.dimension as int;
            let w = self.codebook.value_type.spec_byte_width() as int;
            assert(nsv * ncent <= d * w * ncent && ncent * d * w == d * w * ncent)
                by (nonlinear_arith)
                requires
                    1 <= nsv <= d,
                    1 <= w,
                    0 <= ncent,
            ;
            assert(cb_len as int == ncent * d * w);
            vstd::arithmetic::power2::lemma2_to64();
        }
        let num_vectors = code.len() / code_dim;
        let table_length = num_sub_vectors * num_centroids;
        proof {
            let len = code@.len() as int;
            let cd = code_dim as int;
            assert(cd == spec_code_dim_bytes(self.num_sub_vectors as int, self.num_bits));
            assert(len % cd == 0);
            vstd::arithmetic::div_mod::lemma_fundamental_div_mod(len, cd);
            assert(len == cd * (len / cd));
            assert(num_vectors as int == len / cd);
            assert(len == num_vectors * cd) by (nonlinear_arith)
                requires
                    len == cd * (len / cd),
                    num_vectors as int == len / cd,
            ;
        }
        let adjustment = match self.distance_type {
            DistanceType::L2 => ScoreAdjustment::Identity,
            DistanceType::Cosine => ScoreAdjustment::Halve,
            DistanceType::Dot => ScoreAdjustment::SubtractBias { bias: num_sub_vectors - 1 },
            DistanceType::Hamming => ScoreAdjustment::Identity,
        };
        let table = match self.distance_type {
            DistanceType::Dot => DistanceTableKind::Dot,
            _ => DistanceTableKind::L2,
        };
        if code.len() == 0 {
            let lookup_indices: Vec<usize> = Vec::new();
            proof {
                assert(num_vectors == 0);
                assert(lookup_indices@ =~= spec_lookup_indices(
                    code@,
                    num_vectors as int,
                    num_sub_vectors as int,
                    self.num_bits,
                    num_centroids as int,
                ));
            }
            return Ok(
                DistanceComputation { table, table_length, num_vectors, lookup_indices, adjustment },
            );
        }
        if !query.value_type.is_float() {
            return Err(Error::index("unsupported data type"));
        }
        let ghost target = spec_lookup_indices(
            code@,
            num_vectors as int,
            num_sub_vectors as int,
            self.num_bits,
            num_centroids as int,
        );
        let n = code.len();
        let mut lookup_indices: Vec<usize> = Vec::new();
        let mut j: usize = 0;
        while j < num_vectors
            invariant
                0 <= j <= num_vectors,
                num_sub_vectors == self.num_sub_vectors,
                num_centroids == spec_num_centroids(self.num_bits),
                1 <= num_sub_vectors,
                self.num_bits == 4 || self.num_bits == 8,
                self.num_bits == 4 ==> num_sub_vectors % 2 == 0 && code_dim == num_sub_vectors / 2
                    && num_centroids == 16,
                self.num_bits == 8 ==> code_dim == num_sub_vectors && num_centroids == 256,
                1 <= code_dim,
                n == code@.len(),
                n <= usize::MAX,
                n == num_vectors * code_dim,
                table_length == num_sub_vectors * num_centroids,
                table_length <= usize::MAX,
                target == spec_lookup_indices(
                    code@,
                    num_vectors as int,
                    num_sub_vectors as int,
                    self.num_bits,
                    num_centroids as int,
                ),
                target.len() == num_vectors * num_sub_vectors,
                lookup_indices@ == target.take(j * num_sub_vectors),
            decreases num_vectors - j,
        {
            proof {
                assert((j + 1) * num_sub_vectors == j * num_sub_vectors + num_sub_vectors && (j + 1)
                    * num_sub_vectors <= num_vectors * num_sub_vectors) by (nonlinear_arith)
                    requires
                        0 <= j < num_vectors,
                        num_sub_vectors >= 1,
                ;
            }
            let mut i: usize = 0;
            while i < num_sub_vectors
                invariant
                    0 <= i <= num_sub_vectors,
                    0 <= j < num_vectors,
                    num_sub_vectors == self.num_sub_vectors,
                    num_centroids == spec_num_centroids(self.num_bits),
                    self.num_bits == 4 || self.num_bits == 8,
                    self.num_bits == 4 ==> num_sub_vectors % 2 == 0 && code_dim == num_sub_vectors
                        / 2 && num_centroids == 16,
                    self.num_bits == 8 ==> code_dim == num_sub_vectors && num_centroids == 256,
                    1 <= code_dim,
                    n == code@.len(),
                    n <= usize::MAX,
                    n == num_vectors * code_dim,
                    table_length == num_sub_vectors * num_centroids,
                    table_length <= usize::MAX,
                    j * num_sub_vectors + num_sub_vectors <= num_vectors * num_sub_vectors,
                    target == spec_lookup_indices(
                        code@,
                        num_vectors as int,
                        num_sub_vectors as int,
                        self.num_bits,
                        num_centroids as int,
                    ),
                    target.len() == num_vectors * num_sub_vectors,
                    lookup_indices@ == target.take(j * num_sub_vectors + i),
                decreases num_sub_vectors - i,
            {
                proof {
                    let t = j * num_sub_vectors + i;
                    assert(t / num_sub_vectors as int == j && t % num_sub_vectors as int == i)
                        by (nonlinear_arith)
                        requires
                            0 <= i < num_sub_vectors,
                            0 <= j,
                            t == j * num_sub_vectors + i,
                    ;
                    assert(target.take(t + 1) =~= target.take(t).push(target[t]));
                    assert(i / 2 < code_dim ==> (i / 2) * num_vectors + j < code_dim * num_vectors
                        && code_dim * num_vectors == num_vectors * code_dim) by (nonlinear_arith)
                        requires
                            0 <= j < num_vectors,
                            0 <= i / 2,
                    ;
                    assert(i < code_dim ==> i * num_vectors + j < code_dim * num_vectors
                        && code_dim * num_vectors == num_vectors * code_dim) by (nonlinear_arith)
                        requires
                            0 <= j < num_vectors,
                            0 <= i,
                    ;
                    assert(self.num_bits == 4 ==> i / 2 < code_dim);
                    assert((i + 1) * num_centroids <= num_sub_vectors * num_centroids && i
                        * num_centroids + num_centroids == (i + 1) * num_centroids)
                        by (nonlinear_arith)
                        requires
                            0 <= i < num_sub_vectors,
                            num_centroids >= 0,
                    ;
                }
                let c: u8 = if self.num_bits == 4 {
                    let byte = code[(i / 2) * num_vectors + j];
                    if i % 2 == 0 {
                        byte & 0xf
                    } else {
                        byte >> 4u8
                    }
                } else {
                    code[i * num_vectors + j]
                };
                proof {
                    assert(c < num_centroids) by {
                        if self.num_bits == 4 {
                            let byte = code@[(i as int / 2) * num_vectors + j];
                            assert((byte & 0xf) < 16 && (byte >> 4u8) < 16) by (bit_vector);
                        }
                    }
                }
                lookup_indices.push(i * num_centroids + c as usize);
                i = i + 1;
            }
            j = j + 1;
        }
        proof {
            assert(lookup_indices@ =~= target);
            assert forall|t: int| 0 <= t < target.len() implies #[trigger] target[t]
                < table_length by {
                let i = t % num_sub_vectors as int;
                let c = spec_code_of(
                    code@,
                    num_vectors as int,
                    self.num_bits,
                    t / num_sub_vectors as int,
                    i,
                );
                if self.num_bits == 4 {
                    let byte = code@[(i / 2) * num_vectors as int + t / num_sub_vectors as int];
                    assert((byte & 0xf) < 16 && (byte >> 4u8) < 16) by (bit_vector);
                    assert(c == byte & 0xf || c == byte >> 4u8);
                } else {
                    assert(c < 256);
                }
                assert(0 <= i < num_sub_vectors as int) by (nonlinear_arith)
                    requires
                        num_sub_vectors as int >= 1,
                        0 <= t,
                        i == t % num_sub_vectors as int,
                ;
                assert((i + 1) * num_centroids <= num_sub_vectors * num_centroids && i
                    * num_centroids + num_centroids == (i + 1) * num_centroids)
                    by (nonlinear_arith)
                    requires
                        0 <= i < num_sub_vectors,
                        num_centroids >= 0,
                ;
            }
        }
        Ok(
            DistanceComputation {
                table,
                table_length,
                num_vectors,
                lookup_indices,
                adjustment,
            },
        )
    }
}

/// Quantize, transpose, evaluate: unpacking the transposed code block reads
/// back, for every vector and sub-vector, exactly the nearest-centroid
/// position that quantization selected.  Packing, transposition, and the
/// on-the-fly unpacking of the lookup plan therefore compose without mixing
/// up the two layouts.
pub proof fn lemma_transposed_codes_round_trip(
    keys: Seq<Seq<u64>>,
    num_vectors: int,
    num_sub_vectors: int,
    num_bits: u32,
)
    requires
        num_bits == 4 || num_bits == 8,
        num_bits == 4 ==> num_sub_vectors % 2 == 0,
        num_sub_vectors >= 1,
        num_vectors >= 0,
        keys.len() == num_vectors * num_sub_vectors,
        forall|t: int|
            0 <= t < keys.len() ==> (#[trigger] keys[t]).len() == spec_num_centroids(num_bits),
    ensures
        forall|j: int, i: int|
            #![trigger keys[j * num_sub_vectors + i]]
            0 <= j < num_vectors && 0 <= i < num_sub_vectors ==> spec_code_of(
                spec_transposed(
                    spec_quantized_codes(keys, num_bits),
                    num_vectors,
                    spec_code_dim_bytes(num_sub_vectors, num_bits),
                ),
                num_vectors,
                num_bits,
                j,
                i,
            ) == seq_argmin(keys[j * num_sub_vectors + i]) as u8,
{
    let code_dim = spec_code_dim_bytes(num_sub_vectors, num_bits);
    let codes = spec_quantized_codes(keys, num_bits);
    let transposed = spec_transposed(codes, num_vectors, code_dim);
    vstd::arithmetic::power2::lemma2_to64();
    if num_bits == 8 {
        assert(code_dim == num_sub_vectors) by (nonlinear_arith)
            requires
                code_dim == num_sub_vectors * 8int / 8int,
        ;
        assert forall|j: int, i: int|
            0 <= j < num_vectors && 0 <= i < num_sub_vectors implies spec_code_of(
            transposed,
            num_vectors,
            num_bits,
            j,
            i,
        ) == seq_argmin(#[trigger] keys[j * num_sub_vectors + i]) as u8 by {
            let t = i * num_vectors + j;
            assert(t % num_vectors == j && t / num_vectors == i && 0 <= t < num_vectors
                * num_sub_vectors) by (nonlinear_arith)
                requires
                    0 <= j < num_vectors,
                    0 <= i < num_sub_vectors,
                    t == i * num_vectors + j,
            ;
            assert(0 <= j * num_sub_vectors + i < num_vectors * num_sub_vectors)
                by (nonlinear_arith)
                requires
                    0 <= j < num_vectors,
                    0 <= i < num_sub_vectors,
            ;
            assert(transposed[t] == codes[j * num_sub_vectors + i]);
        }
    } else {
        let half_sub = num_sub_vectors / 2;
        assert(num_sub_vectors == 2 * half_sub);
        assert(code_dim == half_sub && codes.len() == keys.len() / 2 && keys.len() / 2
            == num_vectors * half_sub) by (nonlinear_arith)
            requires
                code_dim == num_sub_vectors * 4int / 8int,
                num_sub_vectors == 2 * half_sub,
                half_sub >= 0,
                num_vectors >= 0,
                keys.len() == num_vectors * num_sub_vectors,
                codes.len() == keys.len() / 2,
        ;
        assert forall|j: int, i: int|
            0 <= j < num_vectors && 0 <= i < num_sub_vectors implies spec_code_of(
            transposed,
            num_vectors,
            num_bits,
            j,
            i,
        ) == seq_argmin(#[trigger] keys[j * num_sub_vectors + i]) as u8 by {
            let t = (i / 2) * num_vectors + j;
            assert(0 <= i / 2 < half_sub && t % num_vectors == j && t / num_vectors == i / 2 && 0
                <= t < num_vectors * half_sub) by (nonlinear_arith)
                requires
                    0 <= j < num_vectors,
                    0 <= i < num_sub_vectors,
                    num_sub_vectors == 2 * half_sub,
                    t == (i / 2) * num_vectors + j,
            ;
            let u = j * half_sub + i / 2;
            assert(0 <= u < num_vectors * half_sub && 2 * u + i % 2 == j * num_sub_vectors + i && 0
                <= j * num_sub_vectors + i < keys.len() && 2 * u + 1 < keys.len())
                by (nonlinear_arith)
                requires
                    0 <= j < num_vectors,
                    0 <= i < num_sub_vectors,
                    num_sub_vectors == 2 * half_sub,
                    u == j * half_sub + i / 2,
                    keys.len() == num_vectors * num_sub_vectors,
            ;
            assert(transposed[t] == codes[u]);
            let lo = seq_argmin(keys[2 * u]);
            let hi = seq_argmin(keys[2 * u + 1]);
            lemma_seq_argmin_properties(keys[2 * u]);
            lemma_seq_argmin_properties(keys[2 * u + 1]);
            assert(0 <= lo < 16 && 0 <= hi < 16);
            let lo8 = lo as u8;
            let hi8 = hi as u8;
            assert((((hi8 << 4u8) | lo8) & 0xf) == lo8 && (((hi8 << 4u8) | lo8) >> 4u8) == hi8)
                by (bit_vector)
                requires
                    lo8 < 16,
                    hi8 < 16,
            ;
            if i % 2 == 0 {
                assert(j * num_sub_vectors + i == 2 * u);
            } else {
                assert(j * num_sub_vectors + i == 2 * u + 1);
            }
        }
    }
}

/// The tensor message of the serialized codebook: an element type, a shape
/// of `[num_centroids, dimension]`, and the raw little-endian element bytes.
#[derive(Clone, Debug)]
pub struct Tensor {
    pub data_type: ElementType,
    pub shape: Vec<u64>,
    pub data: Vec<u8>,
}

/// The wire message a product quantizer round-trips through.  The `codebook`
/// field is the legacy flat form, raw little-endian 32-bit floating elements;
/// writers leave it empty and emit the tensor.
#[derive(Clone, Debug)]
pub struct Pq {
    pub num_bits: u32,
    pub num_sub_vectors: u32,
    pub dimension: u32,
    pub codebook: Vec<u8>,
    pub codebook_tensor: Option<Tensor>,
}

/// Whether a tensor is a two-dimensional array whose byte payload covers its
/// shape exactly, with a non-empty row that fits in memory.
pub open spec fn tensor_shape_ok(t: Tensor) -> bool {
    &&& t.shape@.len() == 2
    &&& 1 <= t.shape@[1]
    &&& t.shape@[0] <= usize::MAX
    &&& t.shape@[1] <= usize::MAX
    &&& t.data@.len() == t.shape@[0] * t.shape@[1] * t.data_type.spec_byte_width()
}

/// Read a codebook out of a tensor message: rows become centroids, the
/// second shape entry the row length.
pub fn codebook_from_tensor(tensor: &Tensor) -> (r: Result<VectorBlock, Error>)
    ensures
        r is Ok <==> tensor_shape_ok(*tensor),
        r is Err ==> r->Err_0 is Index,
        r is Ok ==> {
            &&& r->Ok_0.value_type == tensor.data_type
            &&& r->Ok_0.num_rows == tensor.shape@[0]
            &&& r->Ok_0.value_length == tensor.shape@[1]
            &&& r->Ok_0.data@ == tensor.data@
            &&& r->Ok_0.wf()
        },
{
    if tensor.shape.len() != 2 {
        return Err(Error::index("codebook tensor must have a two-dimensional shape"));
    }
    let rows_u64 = tensor.shape[0];
    let cols_u64 = tensor.shape[1];
    if cols_u64 == 0 {
        return Err(Error::index("codebook tensor must have a non-empty row"));
    }
    if rows_u64 > usize::MAX as u64 || cols_u64 > usize::MAX as u64 {
        return Err(Error::index("codebook tensor shape does not fit in memory"));
    }
    let rows = rows_u64 as usize;
    let cols = cols_u64 as usize;
    let width = tensor.data_type.byte_width();
    let data_len = tensor.data.len();
    let row_elems = match rows.checked_mul(cols) {
        Some(p) => p,
        None => {
            proof {
                let w = width as int;
                assert(rows * cols <= rows * cols * w) by (nonlinear_arith)
                    requires
                        w >= 1,
                        rows >= 0,
                        cols >= 0,
                ;
                assert(data_len < rows * cols * w);
            }
            return Err(Error::index("codebook tensor does not cover its shape"));
        },
    };
    let total = match row_elems.checked_mul(width) {
        Some(p) => p,
        None => {
            proof {
                assert(data_len < rows * cols * width);
            }
            return Err(Error::index("codebook tensor does not cover its shape"));
        },
    };
    if total != tensor.data.len() {
        return Err(Error::index("codebook tensor does not cover its shape"));
    }
    Ok(
        VectorBlock {
            value_type: tensor.data_type,
            value_length: cols,
            num_rows: rows,
            data: tensor.data.clone(),
        },
    )
}

/// The distance type under which a quantizer operates: cosine is normalized
/// into L2 at the quantizer boundary, callers having L2-normalized their
/// vectors upstream.
pub open spec fn spec_substituted_distance_type(distance_type: DistanceType) -> DistanceType {
    if distance_type is Cosine {
        DistanceType::L2
    } else {
        distance_type
    }
}

fn substituted_distance_type(distance_type: DistanceType) -> (r: DistanceType)
    ensures
        r == spec_substituted_distance_type(distance_type),
{
    match distance_type {
        DistanceType::Cosine => DistanceType::L2,
        _ => distance_type,
    }
}

/// Whether a wire message can be read back into a quantizer: the tensor,
/// when present, must cover its shape; the legacy flat form must split into
/// rows of `dimension` 32-bit floating elements.
pub open spec fn pq_message_ok(proto: Pq) -> bool {
    match proto.codebook_tensor {
        Some(t) => tensor_shape_ok(t),
        None => proto.dimension >= 1 && proto.codebook@.len() as int % (4 * proto.dimension) == 0,
    }
}

impl ProductQuantizer {
    /// Read a quantizer back from its wire message, preferring the tensor
    /// form of the codebook and falling back to the legacy flat form, which
    /// is assumed to hold 32-bit floating elements in `dimension` columns.
    pub fn from_proto(proto: &Pq, distance_type: DistanceType) -> (r: Result<
        ProductQuantizer,
        Error,
    >)
        ensures
            r is Ok <==> pq_message_ok(*proto),
            r is Err ==> r->Err_0 is Index,
            r is Ok ==> {
                let pq = r->Ok_0;
                &&& pq.num_bits == proto.num_bits
                &&& pq.num_sub_vectors == proto.num_sub_vectors
                &&& pq.dimension == proto.dimension
                &&& pq.distance_type == spec_substituted_distance_type(distance_type)
                &&& pq.codebook.wf()
            },
            r is Ok && proto.codebook_tensor is Some ==> {
                let t = proto.codebook_tensor->Some_0;
                let cb = r->Ok_0.codebook;
                &&& cb.value_type == t.data_type
                &&& cb.num_rows == t.shape@[0]
                &&& cb.value_length == t.shape@[1]
                &&& cb.data@ == t.data@
            },
            r is Ok && proto.codebook_tensor is None ==> {
                let cb = r->Ok_0.codebook;
                &&& cb.value_type == ElementType::Float32
                &&& cb.value_length == proto.dimension
                &&& cb.num_rows == proto.codebook@.len() as int / (4 * proto.dimension as int)
                &&& cb.data@ == proto.codebook@
            },
    {
        let distance_type = substituted_distance_type(distance_type);
        let codebook = match &proto.codebook_tensor {
            Some(tensor) => {
                match codebook_from_tensor(tensor) {
                    Ok(cb) => cb,
                    Err(e) => {
                        return Err(e);
                    },
                }
            },
            None => {
                if proto.dimension == 0 {
                    return Err(Error::index("legacy codebook requires a non-zero dimension"));
                }
                let row_bytes_u64: u64 = 4u64 * proto.dimension as u64;
                let len_u64: u64 = proto.codebook.len() as u64;
                if len_u64 % row_bytes_u64 != 0 {
                    return Err(
                        Error::index("legacy codebook does not split into rows of the dimension"),
                    );
                }
                let num_rows_u64 = len_u64 / row_bytes_u64;
                proof {
                    let len = len_u64 as int;
                    let rb = row_bytes_u64 as int;
                    vstd::arithmetic::div_mod::lemma_fundamental_div_mod(len, rb);
                    assert(len / rb <= len) by (nonlinear_arith)
                        requires
                            rb >= 1,
                            len >= 0,
                    ;
                    assert((len / rb) * (4 * proto.dimension as int) == len
                        && (len / rb) * proto.dimension as int * 4 == len) by (nonlinear_arith)
                        requires
                            len == rb * (len / rb),
                            rb == 4 * proto.dimension as int,
                    ;
                }
                VectorBlock {
                    value_type: ElementType::Float32,
                    value_length: proto.dimension as usize,
                    num_rows: num_rows_u64 as usize,
                    data: proto.codebook.clone(),
                }
            },
        };
        Ok(
            ProductQuantizer {
                num_bits: proto.num_bits,
                num_sub_vectors: proto.num_sub_vectors as usize,
                dimension: proto.dimension as usize,
                codebook,
                distance_type,
            },
        )
    }

    /// Serialize the quantizer to its wire message: the tensor form of the
    /// codebook, shaped `[num_centroids, dimension]`, with the legacy flat
    /// field left empty.
    pub fn to_proto(&self) -> (p: Pq)
        requires
            self.num_sub_vectors <= u32::MAX,
            self.dimension <= u32::MAX,
        ensures
            p.num_bits == self.num_bits,
            p.num_sub_vectors == self.num_sub_vectors,
            p.dimension == self.dimension,
            p.codebook@.len() == 0,
            p.codebook_tensor is Some,
            p.codebook_tensor->Some_0.data_type == self.codebook.value_type,
            p.codebook_tensor->Some_0.shape@ == seq![
                self.codebook.num_rows as u64,
                self.codebook.value_length as u64,
            ],
            p.codebook_tensor->Some_0.data@ == self.codebook.data@,
    {
        let mut shape: Vec<u64> = Vec::new();
        shape.push(self.codebook.num_rows as u64);
        shape.push(self.codebook.value_length as u64);
        proof {
            assert(shape@ =~= seq![
                self.codebook.num_rows as u64,
                self.codebook.value_length as u64,
            ]);
        }
        let tensor = Tensor {
            data_type: self.codebook.value_type,
            shape,
            data: self.codebook.data.clone(),
        };
        Pq {
            num_bits: self.num_bits,
            num_sub_vectors: self.num_sub_vectors as u32,
            dimension: self.dimension as u32,
            codebook: Vec::new(),
            codebook_tensor: Some(tensor),
        }
    }
}

/// The caller-supplied positioning of a serialized codebook.
#[derive(Clone, Copy, Debug)]
pub struct QuantizationMetadata {
    pub codebook_position: Option<usize>,
    pub transposed: bool,
}

/// The stored description of a product quantizer: its shape parameters and
/// its codebook, either in place or as a tensor message.
#[derive(Clone, Debug)]
pub struct ProductQuantizationMetadata {
    pub codebook_position: usize,
    pub nbits: u32,
    pub num_sub_vectors: usize,
    pub dimension: usize,
    pub codebook: Option<VectorBlock>,
    pub codebook_tensor: Option<Tensor>,
    pub transposed: bool,
}

impl ProductQuantizer {
    /// Describe this quantizer for storage.  The codebook is carried in
    /// place and no tensor is emitted.
    pub fn metadata(&self, args: Option<QuantizationMetadata>) -> (m: ProductQuantizationMetadata)
        requires
            args is Some ==> args->Some_0.codebook_position is Some,
        ensures
            m.codebook_position == (if args is Some {
                args->Some_0.codebook_position->Some_0
            } else {
                0
            }),
            m.nbits == self.num_bits,
            m.num_sub_vectors == self.num_sub_vectors,
            m.dimension == self.dimension,
            m.codebook is Some,
            m.codebook->Some_0.value_type == self.codebook.value_type,
            m.codebook->Some_0.value_length == self.codebook.value_length,
            m.codebook->Some_0.num_rows == self.codebook.num_rows,
            m.codebook->Some_0.data@ == self.codebook.data@,
            m.codebook_tensor is None,
            m.transposed == (if args is Some {
                args->Some_0.transposed
            } else {
                false
            }),
    {
        let (codebook_position, transposed) = match &args {
            Some(args) => {
                let position = match args.codebook_position {
                    Some(p) => p,
                    None => 0,
                };
                (position, args.transposed)
            },
            None => (0, false),
        };
        ProductQuantizationMetadata {
            codebook_position,
            nbits: self.num_bits,
            num_sub_vectors: self.num_sub_vectors,
            dimension: self.dimension,
            codebook: Some(
                VectorBlock {
                    value_type: self.codebook.value_type,
                    value_length: self.codebook.value_length,
                    num_rows: self.codebook.num_rows,
                    data: self.codebook.data.clone(),
                },
            ),
            codebook_tensor: Option::None,
            transposed,
        }
    }

    /// Rebuild a quantizer from its stored description, taking the in-place
    /// codebook when present and reading the tensor otherwise.
    pub fn from_metadata(metadata: &ProductQuantizationMetadata, distance_type: DistanceType) -> (r:
        Result<ProductQuantizer, Error>)
        ensures
            r is Ok <==> (metadata.codebook is Some || (metadata.codebook_tensor is Some
                && tensor_shape_ok(metadata.codebook_tensor->Some_0))),
            r is Err ==> r->Err_0 is Index,
            r is Ok ==> {
                let pq = r->Ok_0;
                &&& pq.num_bits == metadata.nbits
                &&& pq.num_sub_vectors == metadata.num_sub_vectors
                &&& pq.dimension == metadata.dimension
                &&& pq.distance_type == spec_substituted_distance_type(distance_type)
            },
            r is Ok && metadata.codebook is Some ==> {
                let given = metadata.codebook->Some_0;
                let cb = r->Ok_0.codebook;
                &&& cb.value_type == given.value_type
                &&& cb.value_length == given.value_length
                &&& cb.num_rows == given.num_rows
                &&& cb.data@ == given.data@
            },
            r is Ok && metadata.codebook is None ==> {
                let t = metadata.codebook_tensor->Some_0;
                let cb = r->Ok_0.codebook;
                &&& cb.value_type == t.data_type
                &&& cb.num_rows == t.shape@[0]
                &&& cb.value_length == t.shape@[1]
                &&& cb.data@ == t.data@
            },
    {
        let distance_type = substituted_distance_type(distance_type);
        let codebook = match &metadata.codebook {
            Some(cb) => VectorBlock {
                value_type: cb.value_type,
                value_length: cb.value_length,
                num_rows: cb.num_rows,
                data: cb.data.clone(),
            },
            None => {
                match &metadata.codebook_tensor {
                    Some(tensor) => {
                        match codebook_from_tensor(tensor) {
                            Ok(cb) => cb,
                            Err(e) => {
                                return Err(e);
                            },
                        }
                    },
                    None => {
                        return Err(
                            Error::index("product quantization metadata carries no codebook"),
                        );
                    },
                }
            },
        };
        Ok(
            ProductQuantizer {
                num_bits: metadata.nbits,
                num_sub_vectors: metadata.num_sub_vectors,
                dimension: metadata.dimension,
                codebook,
                distance_type,
            },
        )
    }
}

/// What a quantizer is built from: the shape parameters and either a
/// user-supplied codebook or, when none is given, a directive to train one.
#[derive(Clone, Debug)]
pub struct PQBuildParams {
    pub num_sub_vectors: usize,
    pub num_bits: usize,
    pub codebook: Option<VectorBlock>,
}

/// The outcome of `ProductQuantizer::build`: a quantizer wrapped around the
/// supplied codebook, or the directive to hand the data to the external
/// k-means trainer.
#[derive(Clone, Debug)]
pub enum BuildOutcome {
    Built(ProductQuantizer),
    NeedsTraining,
}

impl ProductQuantizer {
    /// The parameters under which this quantizer is retrained: the shape it
    /// already has, with its codebook as the training seed.  Retraining runs
    /// in the external k-means trainer and replaces the whole descriptor
    /// atomically; the caller hands these parameters and the data to the
    /// trainer and adopts what comes back.
    pub fn retrain_params(&self) -> (p: PQBuildParams)
        ensures
            p.num_sub_vectors == self.num_sub_vectors,
            p.num_bits == self.num_bits,
            p.codebook is Some,
            p.codebook->Some_0.value_type == self.codebook.value_type,
            p.codebook->Some_0.value_length == self.codebook.value_length,
            p.codebook->Some_0.num_rows == self.codebook.num_rows,
            p.codebook->Some_0.data@ == self.codebook.data@,
    {
        PQBuildParams {
            num_sub_vectors: self.num_sub_vectors,
            num_bits: self.num_bits as usize,
            codebook: Some(
                VectorBlock {
                    value_type: self.codebook.value_type,
                    value_length: self.codebook.value_length,
                    num_rows: self.codebook.num_rows,
                    data: self.codebook.data.clone(),
                },
            ),
        }
    }

    /// Build a quantizer over a column of vectors.  A supplied codebook is
    /// adopted as it stands, provided its rows have the vectors\' length;
    /// without one the codebook must come from the external k-means trainer,
    /// which is the caller\'s to run.
    pub fn build(data: &VectorBlock, distance_type: DistanceType, params: &PQBuildParams) -> (r:
        Result<BuildOutcome, Error>)
        requires
            data.wf(),
            params.num_bits <= u32::MAX,
        ensures
            r is Ok <==> (params.codebook is None || params.codebook->Some_0.value_length
                == data.value_length),
            r is Err ==> r->Err_0 is Index,
            r is Ok && params.codebook is None ==> r->Ok_0 is NeedsTraining,
            r is Ok && params.codebook is Some ==> {
                let given = params.codebook->Some_0;
                let pq = r->Ok_0->Built_0;
                &&& r->Ok_0 is Built
                &&& pq.num_sub_vectors == params.num_sub_vectors
                &&& pq.num_bits == params.num_bits
                &&& pq.dimension == data.value_length
                &&& pq.codebook.value_type == given.value_type
                &&& pq.codebook.value_length == given.value_length
                &&& pq.codebook.num_rows == given.num_rows
                &&& pq.codebook.data@ == given.data@
                &&& pq.distance_type == spec_substituted_distance_type(distance_type)
            },
    {
        let distance_type = substituted_distance_type(distance_type);
        match &params.codebook {
            Some(codebook) => {
                if codebook.value_length != data.value_length {
                    return Err(
                        Error::index("supplied codebook rows do not match the vector length"),
                    );
                }
                Ok(
                    BuildOutcome::Built(
                        ProductQuantizer {
                            num_sub_vectors: params.num_sub_vectors,
                            num_bits: params.num_bits as u32,
                            dimension: data.value_length,
                            codebook: VectorBlock {
                                value_type: codebook.value_type,
                                value_length: codebook.value_length,
                                num_rows: codebook.num_rows,
                                data: codebook.data.clone(),
                            },
                            distance_type,
                        },
                    ),
                )
            },
            None => Ok(BuildOutcome::NeedsTraining),
        }
    }
}

} // verus!
