//! Matrix-multiply kernel engine over configurable numeric precisions.
//!
//! Matrices are held flat in row-major order; every element is the bit
//! pattern of a 32-bit IEEE-754 value, stored as a `u32` so that the
//! integer kernels, the seeded generator and the hashing pipeline can be
//! reasoned about exactly. Floating-point arithmetic itself (the fp32, fp16
//! and int8 kernels) is supplied by an injected backend; everything around
//! it — validation, dispatch, the exact u8i8 kernels, hashing, caching and
//! the seeded generator — is verified here.

use vstd::prelude::*;

pub mod backend;
pub mod bits;
pub mod cache;
pub mod compute;
pub mod clock;
pub mod error;
pub mod generator;
pub mod hashing;
pub mod kernel;
pub mod laws;
pub mod text;
pub mod types;

pub use backend::KernelBackend;
pub use compute::{add_timing_breakdown, compute_matmul, compute_workload, hash_matches, verify_correctness};
pub use error::Error;
pub use generator::{generate_matrices_from_seed, generate_matrices_from_seed_hex};
pub use hashing::compute_hash;
pub use kernel::{dot_i8, matmul_u8i8, matmul_u8i8_16x16, max_abs_bits};

verus! {

/// Row-major flat matrix. `data[i * cols + j]` is the bit pattern of the
/// element at row `i`, column `j`.
#[derive(Debug, Clone)]
pub struct FlatMatrix {
    pub data: Vec<u32>,
    pub rows: usize,
    pub cols: usize,
}

impl FlatMatrix {
    /// The buffer holds exactly `rows * cols` elements.
    pub open spec fn wf(&self) -> bool {
        self.data@.len() == self.rows * self.cols
    }

    /// Bit pattern of the element at row `i`, column `j`.
    pub open spec fn entry(&self, i: int, j: int) -> u32 {
        self.data@[i * self.cols + j]
    }

    /// Logical shape as (rows, cols).
    pub fn shape(&self) -> (r: (usize, usize))
        ensures
            r.0 == self.rows,
            r.1 == self.cols,
    {
        (self.rows, self.cols)
    }

    /// Reads the element at row `i`, column `j`.
    pub fn get(&self, i: usize, j: usize) -> (r: u32)
        requires
            self.wf(),
            i < self.rows,
            j < self.cols,
        ensures
            r == self.entry(i as int, j as int),
    {
        let _len = self.data.len();
        proof {
            lemma_row_major_index_in_range(
                self.rows as int,
                self.cols as int,
                i as int,
                j as int,
            );
        }
        self.data[i * self.cols + j]
    }

    /// Flattens nested rows into a matrix, validating that every row has the
    /// same length; zero rows give the empty 0-by-0 matrix.
    pub fn from_rows(nested: &Vec<Vec<u32>>) -> (r: Result<FlatMatrix, Error>)
        ensures
            match r {
                Ok(m) => {
                    &&& m.wf()
                    &&& m.rows == nested@.len()
                    &&& m.cols == (if nested@.len() == 0 {
                        0int
                    } else {
                        nested@[0]@.len() as int
                    })
                    &&& forall|i: int|
                        0 <= i < nested@.len() ==> #[trigger] nested@[i]@.len() == m.cols
                    &&& forall|i: int, j: int|
                        0 <= i < m.rows && 0 <= j < m.cols ==> m.entry(i, j) == nested@[i]@[j]
                },
                Err(e) => {
                    &&& e is MalformedInput
                    &&& exists|i: int|
                        0 <= i < nested@.len() && #[trigger] nested@[i]@.len()
                            != nested@[0]@.len()
                },
            },
    {
        let rows = nested.len();
        if rows == 0 {
            return Ok(FlatMatrix { data: Vec::new(), rows: 0, cols: 0 });
        }
        let cols = nested[0].len();
        let mut data: Vec<u32> = Vec::new();
        let mut i: usize = 0;
        while i < rows
            invariant
                0 <= i <= rows,
                rows == nested@.len(),
                rows > 0,
                cols == nested@[0]@.len(),
                data@.len() == i * cols,
                forall|r: int| 0 <= r < i ==> #[trigger] nested@[r]@.len() == cols,
                forall|r: int, c: int|
                    0 <= r < i && 0 <= c < cols ==> data@[r * cols + c] == nested@[r]@[c],
            decreases rows - i,
        {
            let row = &nested[i];
            if row.len() != cols {
                return Err(Error::MalformedInput);
            }
            let mut j: usize = 0;
            while j < cols
                invariant
                    0 <= j <= cols,
                    i < rows,
                    rows == nested@.len(),
                    row@ == nested@[i as int]@,
                    cols == nested@[i as int]@.len(),
                    data@.len() == i * cols + j,
                    forall|r: int| 0 <= r < i ==> #[trigger] nested@[r]@.len() == cols,
                    forall|r: int, c: int|
                        0 <= r < i && 0 <= c < cols ==> data@[r * cols + c] == nested@[r]@[c],
                    forall|c: int| 0 <= c < j ==> data@[i * cols + c] == nested@[i as int]@[c],
                decreases cols - j,
            {
                data.push(row[j]);
                proof {
                    assert forall|r: int, c: int|
                        0 <= r < i && 0 <= c < cols implies data@[r * cols + c]
                        == nested@[r]@[c] by {
                        lemma_row_major_index_in_range(i as int, cols as int, r, c);
                    }
                }
                j = j + 1;
            }
            proof {
                assert forall|r: int, c: int|
                    0 <= r < i + 1 && 0 <= c < cols implies data@[r * cols + c] == nested@[r]@[c]
                by {
                    if r < i {
                        lemma_row_major_index_in_range(i as int, cols as int, r, c);
                    }
                }
                assert((i + 1) * cols == i * cols + cols) by (nonlinear_arith);
            }
            i = i + 1;
        }
        let m = FlatMatrix { data, rows, cols };
        Ok(m)
    }

    /// Expands the matrix back into nested rows.
    pub fn to_rows(&self) -> (r: Vec<Vec<u32>>)
        requires
            self.wf(),
        ensures
            r@.len() == self.rows,
            forall|i: int| 0 <= i < self.rows ==> #[trigger] r@[i]@.len() == self.cols,
            forall|i: int, j: int|
                0 <= i < self.rows && 0 <= j < self.cols ==> r@[i]@[j] == self.entry(i, j),
    {
        let mut out: Vec<Vec<u32>> = Vec::new();
        let mut i: usize = 0;
        while i < self.rows
            invariant
                0 <= i <= self.rows,
                self.wf(),
                out@.len() == i,
                forall|r: int| 0 <= r < i ==> #[trigger] out@[r]@.len() == self.cols,
                forall|r: int, c: int|
                    0 <= r < i && 0 <= c < self.cols ==> out@[r]@[c] == self.entry(r, c),
            decreases self.rows - i,
        {
            let mut row: Vec<u32> = Vec::new();
            let mut j: usize = 0;
            while j < self.cols
                invariant
                    0 <= j <= self.cols,
                    i < self.rows,
                    self.wf(),
                    row@.len() == j,
                    forall|c: int| 0 <= c < j ==> row@[c] == self.entry(i as int, c),
                decreases self.cols - j,
            {
                row.push(self.get(i, j));
                j = j + 1;
            }
            out.push(row);
            i = i + 1;
        }
        out
    }
}

/// In a `rows`-by-`cols` row-major buffer the flat index of `(i, j)` lies
/// inside the buffer.
pub proof fn lemma_row_major_index_in_range(rows: int, cols: int, i: int, j: int)
    requires
        0 <= i < rows,
        0 <= j < cols,
    ensures
        0 <= i * cols + j < rows * cols,
        i * cols + j < i * cols + cols,
{
    assert(0 <= i * cols + j && i * cols + j < rows * cols) by (nonlinear_arith)
        requires
            0 <= i < rows,
            0 <= j < cols,
    ;
}

/// Row-major flat indices are distinct for distinct coordinates.
pub proof fn lemma_row_major_injective(cols: int, i0: int, j0: int, i1: int, j1: int)
    requires
        0 <= i0,
        0 <= i1,
        0 <= j0 < cols,
        0 <= j1 < cols,
        i0 * cols + j0 == i1 * cols + j1,
    ensures
        i0 == i1,
        j0 == j1,
{
    assert(i0 == i1 && j0 == j1) by (nonlinear_arith)
        requires
            0 <= i0,
            0 <= i1,
            0 <= j0 < cols,
            0 <= j1 < cols,
            i0 * cols + j0 == i1 * cols + j1,
    ;
}

} // verus!
