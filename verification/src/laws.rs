//! The engine's cross-cutting guarantees, stated and proved over the same
//! specifications its public functions carry.

use vstd::prelude::*;
use vstd::arithmetic::power2::pow2;

use crate::FlatMatrix;
use crate::bits::{
    cast_bits_to_u8,
    cast_bits_to_i8,
    lemma_cast_u8_roundtrip,
    lemma_cast_i8_roundtrip,
    lemma_encode_exact,
    trunc_int,
};
use crate::compute::compute_ok_spec;
use crate::generator::{blake3_xof, generated_pair_spec};
use crate::kernel::{dot_u8i8, lemma_u8i8_result_data, u8i8_result_seq, u8i8_result_spec};
use crate::types::{Input, Output};

verus! {

/// Two matrices of the same shape whose entries agree everywhere hold the
/// same buffer.
pub proof fn lemma_matrix_data_from_entries(r1: &FlatMatrix, r2: &FlatMatrix)
    requires
        r1.wf(),
        r2.wf(),
        r1.rows == r2.rows,
        r1.cols == r2.cols,
        forall|i: int, j: int|
            0 <= i < r1.rows && 0 <= j < r1.cols ==> r1.entry(i, j) == r2.entry(i, j),
    ensures
        r1.data@ =~= r2.data@,
{
    assert forall|t: int| 0 <= t < r1.data@.len() implies r1.data@[t] == r2.data@[t] by {
        let n = r1.cols as int;
        if n > 0 {
            let i = t / n;
            let j = t % n;
            vstd::arithmetic::div_mod::lemma_fundamental_div_mod(t, n);
            vstd::arithmetic::div_mod::lemma_mod_bound(t, n);
            assert(0 <= i < r1.rows) by (nonlinear_arith)
                requires
                    t == n * i + j,
                    0 <= j < n,
                    0 <= t < r1.rows * n,
            ;
            assert(t == i * n + j);
            assert(r1.data@[t] == r1.entry(i, j));
            assert(r2.data@[t] == r2.entry(i, j));
        }
    }
}

/// Determinism of the exact path: two successful u8i8 computations over
/// identical operands produce identical result buffers and identical
/// hashes. (For the floating-point precisions the result is whatever the
/// injected backend computes, so the same statement is exercised by test
/// rather than proof.)
pub proof fn lemma_compute_deterministic_u8i8(
    i1: &Input,
    i2: &Input,
    o1: &Output,
    o2: &Output,
)
    requires
        i1.matrix_a.data@ == i2.matrix_a.data@,
        i1.matrix_a.rows == i2.matrix_a.rows,
        i1.matrix_a.cols == i2.matrix_a.cols,
        i1.matrix_b.data@ == i2.matrix_b.data@,
        i1.matrix_b.rows == i2.matrix_b.rows,
        i1.matrix_b.cols == i2.matrix_b.cols,
        i1.precision@ == "u8i8"@,
        i2.precision@ == "u8i8"@,
        compute_ok_spec(i1, o1),
        compute_ok_spec(i2, o2),
    ensures
        o1.result_matrix.data@ =~= o2.result_matrix.data@,
        o1.result_hash@ == o2.result_hash@,
{
    lemma_matrix_data_from_entries(&o1.result_matrix, &o2.result_matrix);
    assert(o1.result_matrix.data@ == o2.result_matrix.data@);
}

/// u8i8 exactness, the no-rounding guarantee: wherever the integer inner
/// product's magnitude stays within 2^24, the stored bit pattern truncates
/// back to exactly that integer — the encoding loses nothing.
pub proof fn lemma_u8i8_result_exact(
    a: &FlatMatrix,
    b: &FlatMatrix,
    r: &FlatMatrix,
    i: int,
    j: int,
)
    requires
        u8i8_result_spec(a, b, r),
        0 <= i < r.rows,
        0 <= j < r.cols,
        -pow2(24) <= dot_u8i8(a.data@, b.data@, i, j, a.cols as int, b.cols as int) <= pow2(24),
    ensures
        trunc_int(r.entry(i, j)) == dot_u8i8(
            a.data@,
            b.data@,
            i,
            j,
            a.cols as int,
            b.cols as int,
        ),
{
    lemma_encode_exact(dot_u8i8(a.data@, b.data@, i, j, a.cols as int, b.cols as int));
}

/// The generator's convention and the kernel's casts fit together exactly:
/// every element of a generated pair decodes back to the stream byte it was
/// built from — A as the unsigned byte, B as the byte shifted down by 128.
pub proof fn lemma_generated_bytes_recovered(
    seed: Seq<u8>,
    rows_a: nat,
    cols_a: nat,
    rows_b: nat,
    cols_b: nat,
    a: &FlatMatrix,
    b: &FlatMatrix,
)
    requires
        generated_pair_spec(seed, rows_a, cols_a, rows_b, cols_b, a, b),
    ensures
        forall|t: int|
            0 <= t < rows_a * cols_a ==> cast_bits_to_u8(#[trigger] a.data@[t]) as int
                == blake3_xof(seed, rows_a * cols_a + rows_b * cols_b)[t] as int,
        forall|t: int|
            0 <= t < rows_b * cols_b ==> cast_bits_to_i8(#[trigger] b.data@[t]) as int
                == blake3_xof(seed, rows_a * cols_a + rows_b * cols_b)[rows_a * cols_a + t] as int
                - 128,
{
    let stream = blake3_xof(seed, rows_a * cols_a + rows_b * cols_b);
    assert forall|t: int| 0 <= t < rows_a * cols_a implies cast_bits_to_u8(
        #[trigger] a.data@[t],
    ) as int == stream[t] as int by {
        lemma_cast_u8_roundtrip(stream[t] as nat);
    }
    assert forall|t: int| 0 <= t < rows_b * cols_b implies cast_bits_to_i8(
        #[trigger] b.data@[t],
    ) as int == stream[rows_a * cols_a + t] as int - 128 by {
        lemma_cast_i8_roundtrip(stream[rows_a * cols_a + t] as int - 128);
    }
}

/// Round-trip verification on the exact path: the hash a successful u8i8
/// computation reports is the fingerprint of the u8i8 result sequence —
/// the very sequence whose fingerprint `verify_correctness`'s u8i8 clause
/// compares against the expected string. Verifying the same operands at
/// the u8i8 precision against a computed hash therefore answers true, and
/// against any string other than that fingerprint answers false.
pub proof fn lemma_u8i8_round_trip(input: &Input, out: &Output)
    requires
        input.precision@ == "u8i8"@,
        compute_ok_spec(input, out),
    ensures
        out.result_hash@ == crate::hashing::spec_hash_of(
            u8i8_result_seq(&input.matrix_a, &input.matrix_b),
        ),
{
    lemma_u8i8_result_data(&input.matrix_a, &input.matrix_b, &out.result_matrix);
    assert(out.result_matrix.data@ == u8i8_result_seq(&input.matrix_a, &input.matrix_b));
}

/// The exact integer inner product of the generator's raw stream bytes:
/// the first `p` terms of row `i` of the A block (bytes taken unsigned)
/// against column `j` of the B block (bytes shifted down by 128), where
/// `a_count` is where the B block starts in the stream.
pub open spec fn seed_dot(
    stream: Seq<u8>,
    a_count: int,
    i: int,
    j: int,
    k: int,
    n: int,
    p: int,
) -> int
    decreases p,
{
    if p <= 0 {
        0
    } else {
        seed_dot(stream, a_count, i, j, k, n, p - 1) + (stream[i * k + (p - 1)] as int) * (
        stream[a_count + (p - 1) * n + j] as int - 128)
    }
}

/// On a generated pair, the kernel's decoded inner product coincides term
/// by term with the raw byte product of the stream.
proof fn lemma_dot_matches_seed_bytes(
    seed: Seq<u8>,
    rows_a: nat,
    cols_a: nat,
    rows_b: nat,
    cols_b: nat,
    a: &FlatMatrix,
    b: &FlatMatrix,
    i: int,
    j: int,
    p: int,
)
    requires
        generated_pair_spec(seed, rows_a, cols_a, rows_b, cols_b, a, b),
        cols_a == rows_b,
        0 <= i < rows_a,
        0 <= j < cols_b,
        0 <= p <= cols_a,
    ensures
        crate::kernel::dot_u8i8_prefix(a.data@, b.data@, i, j, cols_a as int, cols_b as int, p)
            == seed_dot(
            blake3_xof(seed, rows_a * cols_a + rows_b * cols_b),
            (rows_a * cols_a) as int,
            i,
            j,
            cols_a as int,
            cols_b as int,
            p,
        ),
    decreases p,
{
    if p > 0 {
        lemma_dot_matches_seed_bytes(
            seed,
            rows_a,
            cols_a,
            rows_b,
            cols_b,
            a,
            b,
            i,
            j,
            p - 1,
        );
        let stream = blake3_xof(seed, rows_a * cols_a + rows_b * cols_b);
        let k = cols_a as int;
        let n = cols_b as int;
        crate::lemma_row_major_index_in_range(rows_a as int, k, i, p - 1);
        crate::lemma_row_major_index_in_range(rows_b as int, n, p - 1, j);
        lemma_cast_u8_roundtrip(stream[i * k + (p - 1)] as nat);
        lemma_cast_i8_roundtrip(stream[rows_a * cols_a + (p - 1) * n + j] as int - 128);
    }
}

/// u8i8 exactness on seeded workloads, end to end: on a pair derived from
/// a seed, any u8i8 result element whose raw-byte inner product stays
/// within 2^24 truncates back to exactly that integer — the engine
/// reproduces the seed's integer arithmetic with no rounding at all.
pub proof fn lemma_seeded_u8i8_exact(
    seed: Seq<u8>,
    rows_a: nat,
    cols_a: nat,
    rows_b: nat,
    cols_b: nat,
    a: &FlatMatrix,
    b: &FlatMatrix,
    r: &FlatMatrix,
    i: int,
    j: int,
)
    requires
        generated_pair_spec(seed, rows_a, cols_a, rows_b, cols_b, a, b),
        cols_a == rows_b,
        u8i8_result_spec(a, b, r),
        0 <= i < rows_a,
        0 <= j < cols_b,
        -pow2(24) <= seed_dot(
            blake3_xof(seed, rows_a * cols_a + rows_b * cols_b),
            (rows_a * cols_a) as int,
            i,
            j,
            cols_a as int,
            cols_b as int,
            cols_a as int,
        ) <= pow2(24),
    ensures
        trunc_int(r.entry(i, j)) == seed_dot(
            blake3_xof(seed, rows_a * cols_a + rows_b * cols_b),
            (rows_a * cols_a) as int,
            i,
            j,
            cols_a as int,
            cols_b as int,
            cols_a as int,
        ),
{
    lemma_dot_matches_seed_bytes(
        seed,
        rows_a,
        cols_a,
        rows_b,
        cols_b,
        a,
        b,
        i,
        j,
        cols_a as int,
    );
    lemma_u8i8_result_exact(a, b, r, i, j);
}

} // verus!
