//! The precision kernel dispatcher and the operations the engine exposes:
//! validate a request, run the right kernel variant, hash the result and
//! assemble the output record with its measurements.

use vstd::prelude::*;
use vstd::string::StringExecFns;

use crate::FlatMatrix;
use crate::backend::KernelBackend;
use crate::clock::{instant_now, elapsed_nanos};
use crate::error::Error;
use crate::hashing::{compute_hash, spec_hash_of};
use crate::kernel::{matmul_u8i8, matmul_u8i8_16x16, u8i8_result_spec};
use crate::types::{Input, InputMetadata, Metrics, Output, OutputMetadata};

verus! {

/// The workload type is accepted: absent (defaulting to matmul) or the
/// literal "matmul".
pub open spec fn workload_ok(w: &Option<String>) -> bool {
    match w {
        Some(s) => s@ == "matmul"@,
        None => true,
    }
}

/// The precision tag is one of the four supported ones.
pub open spec fn precision_supported(p: Seq<char>) -> bool {
    ||| p == "fp32"@
    ||| p == "fp16"@
    ||| p == "int8"@
    ||| p == "u8i8"@
}

/// The inner dimensions agree.
pub open spec fn dims_ok(a: &FlatMatrix, b: &FlatMatrix) -> bool {
    a.cols == b.rows
}

/// Rough memory estimate: both operands and the result at four bytes per
/// element.
pub open spec fn spec_memory_bytes(ra: int, ca: int, rb: int, cb: int) -> int {
    (ra * ca + rb * cb + ra * cb) * 4
}

/// The compiler flags passed through from the request metadata.
pub open spec fn spec_meta_flags(m: &Option<InputMetadata>) -> Option<String> {
    match m {
        Some(md) => md.compiler_flags,
        None => None,
    }
}

/// The libraries list passed through from the request metadata.
pub open spec fn spec_meta_libs(m: &Option<InputMetadata>) -> Option<Vec<String>> {
    match m {
        Some(md) => md.libraries,
        None => None,
    }
}

/// What the machine's limits force on a request before the engine can run
/// it: well-formed buffers, a result and an operation count that fit, and
/// an inner dimension small enough for 32-bit accumulation on the exact
/// u8i8 path.
pub open spec fn compute_requires(a: &FlatMatrix, b: &FlatMatrix, precision: Seq<char>) -> bool {
    &&& a.wf()
    &&& b.wf()
    &&& (a.rows as int) * (b.cols as int) <= usize::MAX
    &&& (a.rows as int) * (a.cols as int) * (b.cols as int) <= u64::MAX
    &&& spec_memory_bytes(a.rows as int, a.cols as int, b.rows as int, b.cols as int) <= u64::MAX
    &&& (precision == "u8i8"@ ==> (a.cols as int) * 32640 <= 0x7fff_ffff)
}

/// Everything a successful computation owes: the result has the right
/// shape; on the u8i8 precision it is the exact integer product; the hash
/// is the canonical fingerprint of the result buffer; the measurements and
/// metadata describe exactly this request.
pub open spec fn matmul_ok_spec(
    a: &FlatMatrix,
    b: &FlatMatrix,
    precision: Seq<char>,
    metadata: &Option<InputMetadata>,
    out: &Output,
) -> bool {
    &&& out.result_matrix.wf()
    &&& out.result_matrix.rows == a.rows
    &&& out.result_matrix.cols == b.cols
    &&& (precision == "u8i8"@ ==> u8i8_result_spec(a, b, &out.result_matrix))
    &&& out.result_hash@ == spec_hash_of(out.result_matrix.data@)
    &&& out.metrics.total_ops as int == (a.rows as int) * (a.cols as int) * (b.cols as int)
    &&& (out.metrics.memory_usage_bytes matches Some(mb) && mb as int == spec_memory_bytes(
        a.rows as int,
        a.cols as int,
        b.rows as int,
        b.cols as int,
    ))
    &&& out.metrics.kernel_time_nanos == Some(out.metrics.latency_nanos)
    &&& out.metrics.parse_time_nanos is None
    &&& out.metrics.serialize_time_nanos is None
    &&& out.metadata.precision@ == precision
    &&& out.metadata.matrix_a_shape == (a.rows, a.cols)
    &&& out.metadata.matrix_b_shape == (b.rows, b.cols)
    &&& out.metadata.result_shape == (a.rows, b.cols)
    &&& out.metadata.compiler_flags == spec_meta_flags(metadata)
    &&& out.metadata.libraries == spec_meta_libs(metadata)
}

/// Which error a rejected request owes, in the order the checks run:
/// workload type first, then the shapes, then the precision tag.
pub open spec fn compute_err_spec(input: &Input, e: &Error) -> bool {
    if !workload_ok(&input.workload_type) {
        &&& e matches Error::UnsupportedWorkload { workload_type: w }
        &&& input.workload_type matches Some(orig) && w == orig
    } else if !dims_ok(&input.matrix_a, &input.matrix_b) {
        e == (Error::DimensionMismatch {
            rows_a: input.matrix_a.rows,
            cols_a: input.matrix_a.cols,
            rows_b: input.matrix_b.rows,
            cols_b: input.matrix_b.cols,
        })
    } else {
        &&& !precision_supported(input.precision@)
        &&& e matches Error::UnsupportedPrecision { precision: p } && p == input.precision
    }
}

/// The success specification at the level of a whole request.
pub open spec fn compute_ok_spec(input: &Input, out: &Output) -> bool {
    matmul_ok_spec(
        &input.matrix_a,
        &input.matrix_b,
        input.precision@,
        &input.metadata,
        out,
    )
}

/// Validates the shapes, dispatches the precision kernel and assembles the
/// full output record, or fails with the applicable typed error.
fn compute_matmul_internal<B: KernelBackend>(
    matrix_a: FlatMatrix,
    matrix_b: FlatMatrix,
    precision: String,
    metadata: Option<InputMetadata>,
    backend: &B,
) -> (r: Result<Output, Error>)
    requires
        compute_requires(&matrix_a, &matrix_b, precision@),
    ensures
        r is Ok <==> (dims_ok(&matrix_a, &matrix_b) && precision_supported(precision@)),
        r matches Ok(out) ==> matmul_ok_spec(&matrix_a, &matrix_b, precision@, &metadata, &out),
        r matches Err(e) ==> (if !dims_ok(&matrix_a, &matrix_b) {
            e == (Error::DimensionMismatch {
                rows_a: matrix_a.rows,
                cols_a: matrix_a.cols,
                rows_b: matrix_b.rows,
                cols_b: matrix_b.cols,
            })
        } else {
            &&& !precision_supported(precision@)
            &&& e matches Error::UnsupportedPrecision { precision: p } && p == precision
        }),
{
    let rows_a = matrix_a.rows;
    let cols_a = matrix_a.cols;
    let rows_b = matrix_b.rows;
    let cols_b = matrix_b.cols;
    let _a_len = matrix_a.data.len();
    let _b_len = matrix_b.data.len();

    if cols_a != rows_b {
        return Err(
            Error::DimensionMismatch { rows_a, cols_a, rows_b, cols_b },
        );
    }

    let fast = rows_a == 16 && cols_b == 16;
    let fp32 = String::from_str("fp32");
    let fp16 = String::from_str("fp16");
    let int8 = String::from_str("int8");
    let u8i8 = String::from_str("u8i8");

    let result: FlatMatrix;
    let elapsed: u64;
    if precision == fp32 {
        let (bits, nanos) = if fast {
            backend.matmul_fp32_16x16(&matrix_a, &matrix_b)
        } else {
            backend.matmul_fp32_blocked(&matrix_a, &matrix_b)
        };
        result = FlatMatrix { data: bits, rows: rows_a, cols: cols_b };
        elapsed = nanos;
    } else if precision == fp16 {
        if fast {
            let (bits, nanos) = backend.matmul_fp16_16x16(&matrix_a, &matrix_b);
            result = FlatMatrix { data: bits, rows: rows_a, cols: cols_b };
            elapsed = nanos;
        } else {
            let start = instant_now();
            let bits = backend.matmul_fp16_generic(&matrix_a, &matrix_b);
            elapsed = elapsed_nanos(&start);
            result = FlatMatrix { data: bits, rows: rows_a, cols: cols_b };
        }
    } else if precision == int8 {
        if fast {
            let (bits, nanos) = backend.matmul_int8_16x16(&matrix_a, &matrix_b);
            result = FlatMatrix { data: bits, rows: rows_a, cols: cols_b };
            elapsed = nanos;
        } else {
            let start = instant_now();
            let bits = backend.matmul_int8_generic(&matrix_a, &matrix_b);
            elapsed = elapsed_nanos(&start);
            result = FlatMatrix { data: bits, rows: rows_a, cols: cols_b };
        }
    } else if precision == u8i8 {
        if fast {
            let (res, nanos) = matmul_u8i8_16x16(&matrix_a, &matrix_b);
            result = res;
            elapsed = nanos;
        } else {
            let start = instant_now();
            result = matmul_u8i8(&matrix_a, &matrix_b);
            elapsed = elapsed_nanos(&start);
        }
    } else {
        return Err(Error::UnsupportedPrecision { precision });
    }

    proof {
        reveal_strlit("fp32");
        reveal_strlit("fp16");
        reveal_strlit("int8");
        reveal_strlit("u8i8");
        assert("fp32"@[0] != "u8i8"@[0]);
        assert("fp16"@[0] != "u8i8"@[0]);
        assert("int8"@[0] != "u8i8"@[0]);
    }
    let result_hash = compute_hash(&result);

    let a_elems = rows_a as u64 * cols_a as u64;
    let total_ops = a_elems * cols_b as u64;
    let memory_usage_bytes = estimate_memory_usage(rows_a, cols_a, rows_b, cols_b);

    let (compiler_flags, libraries) = match metadata {
        Some(md) => (md.compiler_flags, md.libraries),
        None => (None, None),
    };

    Ok(
        Output {
            result_matrix: result,
            result_hash,
            metrics: Metrics {
                latency_nanos: elapsed,
                total_ops,
                memory_usage_bytes: Some(memory_usage_bytes),
                parse_time_nanos: None,
                kernel_time_nanos: Some(elapsed),
                serialize_time_nanos: None,
            },
            metadata: OutputMetadata {
                precision,
                matrix_a_shape: (rows_a, cols_a),
                matrix_b_shape: (rows_b, cols_b),
                result_shape: (rows_a, cols_b),
                compiler_flags,
                libraries,
            },
        },
    )
}

/// Estimates the bytes held by the two operands and the result, at four
/// bytes per element.
fn estimate_memory_usage(rows_a: usize, cols_a: usize, rows_b: usize, cols_b: usize) -> (r: u64)
    requires
        (rows_a as int) * (cols_a as int) <= usize::MAX,
        (rows_b as int) * (cols_b as int) <= usize::MAX,
        (rows_a as int) * (cols_b as int) <= usize::MAX,
        spec_memory_bytes(rows_a as int, cols_a as int, rows_b as int, cols_b as int)
            <= u64::MAX,
    ensures
        r as int == spec_memory_bytes(rows_a as int, cols_a as int, rows_b as int, cols_b as int),
{
    let a_elems = rows_a as u64 * cols_a as u64;
    let b_elems = rows_b as u64 * cols_b as u64;
    let r_elems = rows_a as u64 * cols_b as u64;
    (a_elems + b_elems + r_elems) * 4
}

/// Runs a request end to end: validates the workload type, the shapes and
/// the precision tag in that order, then computes, hashes and assembles the
/// output.
pub fn compute_workload<B: KernelBackend>(input: Input, backend: &B) -> (r: Result<
    Output,
    Error,
>)
    requires
        compute_requires(&input.matrix_a, &input.matrix_b, input.precision@),
    ensures
        r is Ok <==> (workload_ok(&input.workload_type) && dims_ok(
            &input.matrix_a,
            &input.matrix_b,
        ) && precision_supported(input.precision@)),
        r matches Ok(out) ==> compute_ok_spec(&input, &out),
        r matches Err(e) ==> compute_err_spec(&input, &e),
{
    let Input { matrix_a, matrix_b, workload_type, precision, metadata } = input;
    match workload_type {
        None => {},
        Some(w) => {
            let matmul = String::from_str("matmul");
            if !(w == matmul) {
                return Err(Error::UnsupportedWorkload { workload_type: w });
            }
        },
    }
    compute_matmul_internal(matrix_a, matrix_b, precision, metadata, backend)
}

/// The engine's original entry point, kept as an alias of
/// `compute_workload`.
pub fn compute_matmul<B: KernelBackend>(input: Input, backend: &B) -> (r: Result<Output, Error>)
    requires
        compute_requires(&input.matrix_a, &input.matrix_b, input.precision@),
    ensures
        r is Ok <==> (workload_ok(&input.workload_type) && dims_ok(
            &input.matrix_a,
            &input.matrix_b,
        ) && precision_supported(input.precision@)),
        r matches Ok(out) ==> compute_ok_spec(&input, &out),
        r matches Err(e) ==> compute_err_spec(&input, &e),
{
    compute_workload(input, backend)
}

/// Sets the boundary-layer phase timings on an output, leaving everything
/// else untouched.
pub fn add_timing_breakdown(
    output: Output,
    parse_time_nanos: Option<u64>,
    serialize_time_nanos: Option<u64>,
) -> (r: Output)
    ensures
        r.metrics.parse_time_nanos == parse_time_nanos,
        r.metrics.serialize_time_nanos == serialize_time_nanos,
        r.metrics.latency_nanos == output.metrics.latency_nanos,
        r.metrics.total_ops == output.metrics.total_ops,
        r.metrics.memory_usage_bytes == output.metrics.memory_usage_bytes,
        r.metrics.kernel_time_nanos == output.metrics.kernel_time_nanos,
        r.result_matrix == output.result_matrix,
        r.result_hash == output.result_hash,
        r.metadata == output.metadata,
{
    let mut out = output;
    out.metrics.parse_time_nanos = parse_time_nanos;
    out.metrics.serialize_time_nanos = serialize_time_nanos;
    out
}

/// Whether a result buffer's canonical fingerprint equals an expected hash
/// string. This is the whole comparison the verifier rests on, stated
/// exactly over whatever buffer a kernel handed back.
pub fn hash_matches(result: &FlatMatrix, expected_hash: &str) -> (r: bool)
    ensures
        r == (spec_hash_of(result.data@) == expected_hash@),
{
    let h = compute_hash(result);
    let e = expected_hash.to_owned();
    h == e
}

/// The recomputed buffer and the expected hash relate as the returned
/// boolean says: the canonical fingerprint of some buffer of the result
/// shape was compared against the expected string.
pub open spec fn verified_against_some_buffer(
    matrix_a: &FlatMatrix,
    matrix_b: &FlatMatrix,
    expected_hash: Seq<char>,
    b: bool,
) -> bool {
    exists|buf: Seq<u32>|
        buf.len() == (matrix_a.rows as int) * (matrix_b.cols as int) && b == (spec_hash_of(buf)
            == expected_hash)
}

/// Recomputes the product by re-running the dispatcher on the original
/// operands and precision — the specialized fixed-shape kernel at the
/// canonical 16-by-16 output shape, the generic path otherwise — and
/// compares the canonical hash of the recomputed buffer against the
/// expected one. Succeeds on every supported precision. On the exact u8i8
/// path the returned boolean is pinned outright; on the floating-point
/// precisions it is the hash comparison of the buffer the backend
/// recomputed.
pub fn verify_correctness<B: KernelBackend>(
    matrix_a: &FlatMatrix,
    matrix_b: &FlatMatrix,
    precision: &str,
    expected_hash: &str,
    backend: &B,
) -> (r: Result<bool, Error>)
    requires
        matrix_a.wf(),
        matrix_b.wf(),
        matrix_a.cols == matrix_b.rows,
        (matrix_a.rows as int) * (matrix_b.cols as int) <= usize::MAX,
        precision@ == "u8i8"@ ==> (matrix_a.cols as int) * 32640 <= 0x7fff_ffff,
    ensures
        r is Ok <==> precision_supported(precision@),
        r matches Err(e) ==> e matches Error::UnsupportedPrecision { precision: p } && p@
            == precision@,
        r matches Ok(b) ==> verified_against_some_buffer(matrix_a, matrix_b, expected_hash@, b),
        precision@ == "u8i8"@ ==> (r matches Ok(b) && (b <==> spec_hash_of(
            crate::kernel::u8i8_result_seq(matrix_a, matrix_b),
        ) == expected_hash@)),
{
    proof {
        reveal_strlit("fp32");
        reveal_strlit("fp16");
        reveal_strlit("int8");
        reveal_strlit("u8i8");
        assert("fp32"@[0] != "u8i8"@[0]);
        assert("fp16"@[0] != "u8i8"@[0]);
        assert("int8"@[0] != "u8i8"@[0]);
    }
    let p = precision.to_owned();
    let fp32 = String::from_str("fp32");
    let fp16 = String::from_str("fp16");
    let int8 = String::from_str("int8");
    let u8i8 = String::from_str("u8i8");
    let fast = matrix_a.rows == 16 && matrix_b.cols == 16;

    let result: FlatMatrix;
    if p == fp32 {
        let (bits, _nanos) = if fast {
            backend.matmul_fp32_16x16(matrix_a, matrix_b)
        } else {
            backend.matmul_fp32_blocked(matrix_a, matrix_b)
        };
        result = FlatMatrix { data: bits, rows: matrix_a.rows, cols: matrix_b.cols };
    } else if p == fp16 {
        if fast {
            let (bits, _nanos) = backend.matmul_fp16_16x16(matrix_a, matrix_b);
            result = FlatMatrix { data: bits, rows: matrix_a.rows, cols: matrix_b.cols };
        } else {
            let bits = backend.matmul_fp16_generic(matrix_a, matrix_b);
            result = FlatMatrix { data: bits, rows: matrix_a.rows, cols: matrix_b.cols };
        }
    } else if p == int8 {
        if fast {
            let (bits, _nanos) = backend.matmul_int8_16x16(matrix_a, matrix_b);
            result = FlatMatrix { data: bits, rows: matrix_a.rows, cols: matrix_b.cols };
        } else {
            let bits = backend.matmul_int8_generic(matrix_a, matrix_b);
            result = FlatMatrix { data: bits, rows: matrix_a.rows, cols: matrix_b.cols };
        }
    } else if p == u8i8 {
        if fast {
            let (res, _nanos) = crate::kernel::matmul_u8i8_16x16(matrix_a, matrix_b);
            result = res;
        } else {
            result = matmul_u8i8(matrix_a, matrix_b);
        }
        proof {
            crate::kernel::lemma_u8i8_result_data(matrix_a, matrix_b, &result);
        }
    } else {
        return Err(Error::UnsupportedPrecision { precision: p });
    }

    let matched = hash_matches(&result, expected_hash);
    proof {
        if precision@ == "u8i8"@ {
            assert(result.data@ == crate::kernel::u8i8_result_seq(matrix_a, matrix_b));
        }
        assert(result.data@.len() == (matrix_a.rows as int) * (matrix_b.cols as int));
        assert(verified_against_some_buffer(matrix_a, matrix_b, expected_hash@, matched));
    }
    Ok(matched)
}

} // verus!
