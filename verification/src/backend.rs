//! The injectable floating-point kernel backend.
//!
//! The fp32, fp16 and int8 kernels do floating-point arithmetic, which this
//! library does not model; they are supplied by an implementation of this
//! trait, selected by the embedding program. The contract an implementation
//! must honour states only the shape of the buffer it returns — nothing
//! proved in this library depends on the numeric values a backend produces.
//! Buffers hold 32-bit IEEE-754 bit patterns in row-major order; the paths
//! that also return a `u64` measure their own inner compute loop in
//! nanoseconds, while the generic fp16 and int8 paths are timed by the
//! caller around the whole call.

use vstd::prelude::*;

use crate::FlatMatrix;

verus! {

/// One floating-point kernel per precision and dispatch variant.
pub trait KernelBackend {
    /// Cache-blocked generic fp32 multiplication; times its own loop.
    fn matmul_fp32_blocked(&self, a: &FlatMatrix, b: &FlatMatrix) -> (r: (Vec<u32>, u64))
        requires
            a.wf(),
            b.wf(),
            a.cols == b.rows,
            (a.rows as int) * (b.cols as int) <= usize::MAX,
        ensures
            r.0@.len() == (a.rows as int) * (b.cols as int),
    ;

    /// Specialized fp32 fast path for a 16-by-16 output; times its own
    /// inner loop.
    fn matmul_fp32_16x16(&self, a: &FlatMatrix, b: &FlatMatrix) -> (r: (Vec<u32>, u64))
        requires
            a.wf(),
            b.wf(),
            a.cols == b.rows,
            a.rows == 16,
            b.cols == 16,
        ensures
            r.0@.len() == 256,
    ;

    /// Generic fp16 multiplication: operands quantized to 16-bit floating
    /// point, accumulated in that representation, widened back for output.
    fn matmul_fp16_generic(&self, a: &FlatMatrix, b: &FlatMatrix) -> (r: Vec<u32>)
        requires
            a.wf(),
            b.wf(),
            a.cols == b.rows,
            (a.rows as int) * (b.cols as int) <= usize::MAX,
        ensures
            r@.len() == (a.rows as int) * (b.cols as int),
    ;

    /// Specialized fp16 fast path for a 16-by-16 output, free to reuse a
    /// packed copy of B; times its own inner loop.
    fn matmul_fp16_16x16(&self, a: &FlatMatrix, b: &FlatMatrix) -> (r: (Vec<u32>, u64))
        requires
            a.wf(),
            b.wf(),
            a.cols == b.rows,
            a.rows == 16,
            b.cols == 16,
        ensures
            r.0@.len() == 256,
    ;

    /// Generic int8 multiplication with symmetric per-tensor dynamic
    /// quantization and 32-bit accumulation.
    fn matmul_int8_generic(&self, a: &FlatMatrix, b: &FlatMatrix) -> (r: Vec<u32>)
        requires
            a.wf(),
            b.wf(),
            a.cols == b.rows,
            (a.rows as int) * (b.cols as int) <= usize::MAX,
        ensures
            r@.len() == (a.rows as int) * (b.cols as int),
    ;

    /// Specialized int8 fast path for a 16-by-16 output, free to reuse a
    /// quantized copy of B; times its own inner loop.
    fn matmul_int8_16x16(&self, a: &FlatMatrix, b: &FlatMatrix) -> (r: (Vec<u32>, u64))
        requires
            a.wf(),
            b.wf(),
            a.cols == b.rows,
            a.rows == 16,
            b.cols == 16,
        ensures
            r.0@.len() == 256,
    ;
}

} // verus!
