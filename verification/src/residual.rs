//! Residual transform.
//!
//! Inside an inverted-file pipeline each vector is assigned to a coarse
//! partition; quantization becomes accurate when the vector is first rewritten
//! as its offset from the assigned partition's centroid.  The transform
//! decides, per batch, whether residuals are still owed, locates the partition
//! and vector columns, checks the element-type matrix, and gathers the
//! centroid row of every vector; the element-wise floating-point subtraction
//! of the gathered rows from the vectors is the caller's, as is every other
//! floating-point kernel.

use vstd::prelude::*;

use crate::error::Error;
use crate::pq::VectorBlock;
use crate::schema::ElementType;

verus! {

/// One column of a record batch, as the residual transform reads it: a
/// partition-id column, a fixed-size-list vector column, or something it
/// never touches.
#[derive(Clone, Debug)]
pub enum ColumnData {
    UInt32(Vec<u32>),
    FixedSizeList(VectorBlock),
    Other,
}

/// A named column.
#[derive(Clone, Debug)]
pub struct Column {
    pub name: String,
    pub data: ColumnData,
}

/// A record batch: an ordered list of named columns.
#[derive(Clone, Debug)]
pub struct Batch {
    pub columns: Vec<Column>,
}

/// The position of the first column carrying a name, if any.
pub open spec fn spec_find_column(columns: Seq<Column>, name: Seq<char>) -> Option<int>
    decreases columns.len(),
{
    if columns.len() == 0 {
        None
    } else if columns[0].name@ == name {
        Some(0int)
    } else {
        match spec_find_column(columns.drop_first(), name) {
            Some(i) => Some(i + 1),
            None => None,
        }
    }
}

proof fn lemma_find_column_some(columns: Seq<Column>, name: Seq<char>, i: int)
    requires
        0 <= i < columns.len(),
        columns[i].name@ == name,
        forall|j: int| 0 <= j < i ==> (#[trigger] columns[j]).name@ != name,
    ensures
        spec_find_column(columns, name) == Some(i),
    decreases i,
{
    if i == 0 {
    } else {
        let rest = columns.drop_first();
        assert(rest[i - 1] == columns[i]);
        assert forall|j: int| 0 <= j < i - 1 implies (#[trigger] rest[j]).name@ != name by {
            assert(rest[j] == columns[j + 1]);
        }
        lemma_find_column_some(rest, name, i - 1);
    }
}

proof fn lemma_find_column_none(columns: Seq<Column>, name: Seq<char>)
    requires
        forall|j: int| 0 <= j < columns.len() ==> (#[trigger] columns[j]).name@ != name,
    ensures
        spec_find_column(columns, name) is None,
    decreases columns.len(),
{
    if columns.len() == 0 {
    } else {
        let rest = columns.drop_first();
        assert forall|j: int| 0 <= j < rest.len() implies (#[trigger] rest[j]).name@ != name by {
            assert(rest[j] == columns[j + 1]);
        }
        lemma_find_column_none(rest, name);
    }
}

/// What `spec_find_column` selects, where it selects anything: an in-range
/// position carrying the name, before which no position carries it.
pub proof fn lemma_find_column_properties(columns: Seq<Column>, name: Seq<char>)
    ensures
        match spec_find_column(columns, name) {
            Some(i) => 0 <= i < columns.len() && columns[i].name@ == name && forall|j: int|
                0 <= j < i ==> (#[trigger] columns[j]).name@ != name,
            None => forall|j: int| 0 <= j < columns.len() ==> (#[trigger] columns[j]).name@ != name,
        },
    decreases columns.len(),
{
    if columns.len() == 0 {
    } else if columns[0].name@ == name {
    } else {
        let rest = columns.drop_first();
        lemma_find_column_properties(rest, name);
        match spec_find_column(rest, name) {
            Some(i) => {
                assert(rest[i] == columns[i + 1]);
                assert forall|j: int| 0 <= j < i + 1 implies (#[trigger] columns[j]).name@
                    != name by {
                    if j > 0 {
                        assert(rest[j - 1] == columns[j]);
                    }
                }
            },
            None => {
                assert forall|j: int| 0 <= j < columns.len() implies (#[trigger] columns[j]).name@
                    != name by {
                    if j > 0 {
                        assert(rest[j - 1] == columns[j]);
                    }
                }
            },
        }
    }
}

/// Find the first column carrying a name.
fn find_column(columns: &Vec<Column>, name: &String) -> (r: Option<usize>)
    ensures
        match r {
            Some(i) => spec_find_column(columns@, name@) == Some(i as int),
            None => spec_find_column(columns@, name@) is None,
        },
{
    let n = columns.len();
    let mut i: usize = 0;
    while i < n
        invariant
            0 <= i <= n,
            n == columns@.len(),
            forall|j: int| 0 <= j < i ==> (#[trigger] columns@[j]).name@ != name@,
        decreases n - i,
    {
        if columns[i].name == *name {
            proof {
                lemma_find_column_some(columns@, name@, i as int);
            }
            return Some(i);
        }
        i = i + 1;
    }
    proof {
        lemma_find_column_none(columns@, name@);
    }
    None
}

/// The permitted pairs of (centroid element type, vector element type):
/// matching floating types, or 8-bit integer vectors promoted to 32-bit
/// floating residuals.
pub open spec fn spec_type_matrix_ok(centroid_type: ElementType, vector_type: ElementType) -> bool {
    ||| (centroid_type is Float16 && vector_type is Float16)
    ||| (centroid_type is Float32 && vector_type is Float32)
    ||| (centroid_type is Float64 && vector_type is Float64)
    ||| (centroid_type is Float32 && vector_type is Int8)
}

fn type_matrix_ok(centroid_type: &ElementType, vector_type: &ElementType) -> (r: bool)
    ensures
        r == spec_type_matrix_ok(*centroid_type, *vector_type),
{
    match (centroid_type, vector_type) {
        (ElementType::Float16, ElementType::Float16) => true,
        (ElementType::Float32, ElementType::Float32) => true,
        (ElementType::Float64, ElementType::Float64) => true,
        (ElementType::Float32, ElementType::Int8) => true,
        _ => false,
    }
}

/// The centroid rows gathered per input row: output byte `k` is byte
/// `k % row_width` of the centroid row assigned to input row
/// `k / row_width`.
pub open spec fn spec_gathered_centroids(
    data: Seq<u8>,
    row_width: int,
    part_ids: Seq<u32>,
) -> Seq<u8> {
    Seq::new(
        (part_ids.len() * row_width) as nat,
        |k: int| data[part_ids[k / row_width] * row_width + k % row_width],
    )
}

/// The canonical name of a residual vector column.
pub fn residual_column() -> (name: &'static str)
    ensures
        name@ == "__residual_vector"@,
{
    "__residual_vector"
}

/// What the caller does with a batch the transform has examined.
#[derive(Clone, Debug)]
pub enum ResidualStep {
    /// The batch already carries the quantizer's code column; residuals were
    /// computed earlier in the pipeline and the batch stands unchanged.
    AlreadyQuantized,
    /// Subtract, element by element, the gathered centroid rows from the
    /// vector column at `column_index` and put the difference in its place —
    /// promoting the vectors to the centroid element type first when
    /// `promoted` is set — and update the schema's element type accordingly.
    Subtract { column_index: usize, centroid_rows: VectorBlock, promoted: bool },
}

/// Rewrites a batch's vector column into residuals against the assigned
/// coarse centroids.  Holds the centroid matrix by value, and the names of
/// the partition-id and vector columns.
#[derive(Clone, Debug)]
pub struct ResidualTransform {
    centroids: VectorBlock,
    part_col: String,
    vec_col: String,
}

impl ResidualTransform {
    /// The centroid matrix is well formed and holds at least one partition.
    pub closed spec fn wf(&self) -> bool {
        &&& self.centroids.wf()
        &&& self.centroids.num_rows >= 1
    }

    /// The centroid matrix.
    pub closed spec fn spec_centroids(&self) -> VectorBlock {
        self.centroids
    }

    /// The name of the partition-id column.
    pub closed spec fn spec_part_col(&self) -> Seq<char> {
        self.part_col@
    }

    /// The name of the vector column.
    pub closed spec fn spec_vec_col(&self) -> Seq<char> {
        self.vec_col@
    }

    /// The name of the partition-id column, for callers that must check a
    /// batch against this transform's preconditions.
    pub fn part_column(&self) -> (name: &String)
        ensures
            name@ == self.spec_part_col(),
    {
        &self.part_col
    }

    /// The name of the vector column.
    pub fn vec_column(&self) -> (name: &String)
        ensures
            name@ == self.spec_vec_col(),
    {
        &self.vec_col
    }

    /// The number of coarse partitions: every partition id must lie below it.
    pub fn num_partitions(&self) -> (n: usize)
        requires
            self.wf(),
        ensures
            n == self.spec_centroids().num_rows,
            n >= 1,
    {
        self.centroids.num_rows
    }

    pub fn new(centroids: VectorBlock, part_col: &str, column: &str) -> (t: ResidualTransform)
        requires
            centroids.wf(),
            centroids.num_rows >= 1,
        ensures
            t.wf(),
            t.spec_centroids() == centroids,
            t.spec_part_col() == part_col@,
            t.spec_vec_col() == column@,
    {
        ResidualTransform {
            centroids,
            part_col: part_col.to_owned(),
            vec_col: column.to_owned(),
        }
    }

    /// Gather, for each input row, the centroid row its partition id names.
    pub fn gather_centroids(&self, part_ids: &Vec<u32>) -> (r: VectorBlock)
        requires
            self.wf(),
            forall|k: int| 0 <= k < part_ids@.len() ==> part_ids@[k] < self.spec_centroids().num_rows,
        ensures
            r.value_type == self.spec_centroids().value_type,
            r.value_length == self.spec_centroids().value_length,
            r.num_rows == part_ids@.len(),
            r.wf(),
            r.data@ == spec_gathered_centroids(
                self.spec_centroids().data@,
                self.spec_centroids().spec_row_width(),
                part_ids@,
            ),
    {
        let width = self.centroids.value_type.byte_width();
        let num_rows = part_ids.len();
        let cb_len = self.centroids.data.len();
        proof {
            let rows = self.centroids.num_rows as int;
            let d = self.centroids.value_length as int;
            let w = width as int;
            assert(rows * d * w == rows * (d * w) && d * w <= rows * (d * w) && d * w >= 1)
                by (nonlinear_arith)
                requires
                    rows >= 1,
                    d >= 1,
                    w >= 1,
            ;
            assert(cb_len as int == rows * (d * w));
        }
        let row_width = self.centroids.value_length * width;
        let ghost target = spec_gathered_centroids(
            self.centroids.data@,
            row_width as int,
            part_ids@,
        );
        let mut data: Vec<u8> = Vec::new();
        let mut r: usize = 0;
        while r < num_rows
            invariant
                0 <= r <= num_rows,
                num_rows == part_ids@.len(),
                num_rows <= usize::MAX,
                self.wf(),
                width == self.centroids.value_type.spec_byte_width(),
                row_width == self.centroids.spec_row_width(),
                row_width >= 1,
                cb_len == self.centroids.data@.len(),
                cb_len <= usize::MAX,
                cb_len as int == self.centroids.num_rows * row_width,
                forall|k: int|
                    0 <= k < part_ids@.len() ==> part_ids@[k] < self.spec_centroids().num_rows,
                target == spec_gathered_centroids(
                    self.centroids.data@,
                    row_width as int,
                    part_ids@,
                ),
                target.len() == num_rows * row_width,
                data@ == target.take(r * row_width),
            decreases num_rows - r,
        {
            let part = part_ids[r];
            proof {
                let p = part as int;
                let rows = self.centroids.num_rows as int;
                let rw = row_width as int;
                assert(p * rw + rw <= rows * rw && (p + 1) * rw == p * rw + rw)
                    by (nonlinear_arith)
                    requires
                        0 <= p < rows,
                        rw >= 0,
                ;
                assert((r + 1) * rw == r * rw + rw && (r + 1) * rw <= num_rows * rw)
                    by (nonlinear_arith)
                    requires
                        0 <= r < num_rows,
                        rw >= 0,
                ;
            }
            let row_off = (part as usize) * row_width;
            let mut b: usize = 0;
            while b < row_width
                invariant
                    0 <= b <= row_width,
                    0 <= r < num_rows,
                    row_off == part * row_width,
                    row_off + row_width <= cb_len,
                    cb_len == self.centroids.data@.len(),
                    cb_len <= usize::MAX,
                    r * row_width + row_width <= num_rows * row_width,
                    part == part_ids@[r as int],
                    target == spec_gathered_centroids(
                        self.centroids.data@,
                        row_width as int,
                        part_ids@,
                    ),
                    target.len() == num_rows * row_width,
                    row_width >= 1,
                    data@ == target.take(r * row_width + b),
                decreases row_width - b,
            {
                proof {
                    let k = r * row_width + b;
                    assert(k / row_width as int == r && k % row_width as int == b)
                        by (nonlinear_arith)
                        requires
                            0 <= b < row_width,
                            0 <= r,
                            k == r * row_width + b,
                    ;
                    assert(target[k] == self.centroids.data@[part * row_width + b]);
                    assert(target.take(k + 1) =~= target.take(k).push(target[k]));
                }
                data.push(self.centroids.data[row_off + b]);
                b = b + 1;
            }
            r = r + 1;
        }
        proof {
            assert(data@ =~= target);
            let rows = num_rows as int;
            let rw = row_width as int;
            let d = self.centroids.value_length as int;
            let w = width as int;
            assert(rows * d * w == rows * (d * w)) by (nonlinear_arith);
        }
        VectorBlock {
            value_type: self.centroids.value_type,
            value_length: self.centroids.value_length,
            num_rows,
            data,
        }
    }

    /// Whether a batch that does not yet carry the quantizer's code column
    /// has both named columns, a fixed-size-list vector column of some
    /// length, but one that differs from the centroids' — the one documented
    /// caller contract violation, answered with `InvalidInput`.
    pub open spec fn spec_shape_mismatch(&self, batch: Batch) -> bool {
        let cols = batch.columns@;
        let part = spec_find_column(cols, self.spec_part_col());
        let vec = spec_find_column(cols, self.spec_vec_col());
        &&& part is Some
        &&& vec is Some
        &&& cols[vec->Some_0].data is FixedSizeList
        &&& cols[vec->Some_0].data->FixedSizeList_0.value_length
            != self.spec_centroids().value_length
    }

    /// Whether the transform can compute residuals for a batch that does not
    /// yet carry the quantizer's code column: both named columns are present,
    /// the vector column is a fixed-size list of the centroids' length, and
    /// the element types stand in the type matrix.
    pub open spec fn spec_transform_ok(&self, batch: Batch) -> bool {
        let cols = batch.columns@;
        let part = spec_find_column(cols, self.spec_part_col());
        let vec = spec_find_column(cols, self.spec_vec_col());
        &&& part is Some
        &&& vec is Some
        &&& cols[vec->Some_0].data is FixedSizeList
        &&& cols[vec->Some_0].data->FixedSizeList_0.value_length
            == self.spec_centroids().value_length
        &&& spec_type_matrix_ok(
            self.spec_centroids().value_type,
            cols[vec->Some_0].data->FixedSizeList_0.value_type,
        )
    }

    /// Examine a batch and decide the residual step.
    ///
    /// A batch already carrying the quantizer's code column is left
    /// unchanged.  Otherwise the partition and vector columns are located and
    /// checked, and the step hands back the gathered centroid row of every
    /// vector, ready for the caller's element-wise subtraction; the vector
    /// column's element type is promoted exactly when the type matrix says
    /// so.  A vector column whose length differs from the centroids' breaks
    /// the caller's contract and answers with `InvalidInput`; every other
    /// failure is an internal `Index` error.
    pub fn transform(&self, batch: &Batch) -> (r: Result<ResidualStep, Error>)
        requires
            self.wf(),
            ({
                let part = spec_find_column(batch.columns@, self.spec_part_col());
                part is Some ==> batch.columns@[part->Some_0].data is UInt32
            }),
            ({
                let cols = batch.columns@;
                let part = spec_find_column(cols, self.spec_part_col());
                let vec = spec_find_column(cols, self.spec_vec_col());
                (part is Some && vec is Some && cols[vec->Some_0].data is FixedSizeList)
                    ==> cols[part->Some_0].data->UInt32_0@.len()
                    == cols[vec->Some_0].data->FixedSizeList_0.num_rows
            }),
            ({
                let cols = batch.columns@;
                let part = spec_find_column(cols, self.spec_part_col());
                part is Some ==> forall|k: int|
                    0 <= k < cols[part->Some_0].data->UInt32_0@.len()
                        ==> #[trigger] cols[part->Some_0].data->UInt32_0@[k]
                        < self.spec_centroids().num_rows
            }),
        ensures
            r is Err ==> (r->Err_0 is InvalidInput <==> self.spec_shape_mismatch(*batch)),
            r is Err ==> r->Err_0 is InvalidInput || r->Err_0 is Index,
            spec_find_column(batch.columns@, "__pq_code"@) is Some ==> r is Ok && r->Ok_0
                is AlreadyQuantized,
            spec_find_column(batch.columns@, "__pq_code"@) is None ==> {
                &&& (r is Ok <==> self.spec_transform_ok(*batch))
                &&& r is Ok ==> {
                    let cols = batch.columns@;
                    let part = spec_find_column(cols, self.spec_part_col());
                    let vec = spec_find_column(cols, self.spec_vec_col());
                    let part_ids = cols[part->Some_0].data->UInt32_0;
                    let vectors = cols[vec->Some_0].data->FixedSizeList_0;
                    &&& r->Ok_0 matches ResidualStep::Subtract {
                        column_index,
                        centroid_rows,
                        promoted,
                    } && {
                        &&& column_index == vec->Some_0
                        &&& promoted == (vectors.value_type is Int8)
                        &&& centroid_rows.value_type == self.spec_centroids().value_type
                        &&& centroid_rows.value_length == self.spec_centroids().value_length
                        &&& centroid_rows.num_rows == vectors.num_rows
                        &&& centroid_rows.wf()
                        &&& centroid_rows.data@ == spec_gathered_centroids(
                            self.spec_centroids().data@,
                            self.spec_centroids().spec_row_width(),
                            part_ids@,
                        )
                    }
                }
            },
    {
        let pq_code_name: String = "__pq_code".to_owned();
        if find_column(&batch.columns, &pq_code_name).is_some() {
            return Ok(ResidualStep::AlreadyQuantized);
        }
        proof {
            lemma_find_column_properties(batch.columns@, self.spec_part_col());
            lemma_find_column_properties(batch.columns@, self.spec_vec_col());
        }
        let part_idx = match find_column(&batch.columns, &self.part_col) {
            Some(i) => i,
            None => {
                return Err(Error::index("Compute residual vector: partition id column not found"));
            },
        };
        let vec_idx = match find_column(&batch.columns, &self.vec_col) {
            Some(i) => i,
            None => {
                return Err(
                    Error::index("Compute residual vector: original vector column not found"),
                );
            },
        };
        let vectors = match &batch.columns[vec_idx].data {
            ColumnData::FixedSizeList(b) => b,
            _ => {
                return Err(
                    Error::index(
                        "Compute residual vector: original vector column is not fixed size list",
                    ),
                );
            },
        };
        if vectors.value_length != self.centroids.value_length {
            return Err(
                Error::invalid_input("Compute residual vector: centroid and vector length mismatch"),
            );
        }
        if !type_matrix_ok(&self.centroids.value_type, &vectors.value_type) {
            return Err(
                Error::index("Compute residual vector: centroids and vector type mismatch"),
            );
        }
        let promoted = match vectors.value_type {
            ElementType::Int8 => true,
            _ => false,
        };
        let part_ids = match &batch.columns[part_idx].data {
            ColumnData::UInt32(v) => v,
            _ => {
                proof {
                    assert(false);
                }
                return Err(Error::index("Compute residual vector: partition id column not found"));
            },
        };
        let centroid_rows = self.gather_centroids(part_ids);
        Ok(ResidualStep::Subtract { column_index: vec_idx, centroid_rows, promoted })
    }
}

} // verus!
