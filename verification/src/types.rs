//! The input and output records the engine exchanges with its callers.
//!
//! Timing and size figures are carried as exact integers (nanoseconds,
//! operation counts, bytes); boundary layers derive their floating-point
//! milliseconds-and-megabytes views from these.

use vstd::prelude::*;

pub use crate::FlatMatrix;

verus! {

/// A compute request: two operands, a precision tag, an optional workload
/// type (defaulting to matmul) and optional pass-through metadata.
#[derive(Debug)]
pub struct Input {
    pub matrix_a: FlatMatrix,
    pub matrix_b: FlatMatrix,
    pub workload_type: Option<String>,
    pub precision: String,
    pub metadata: Option<InputMetadata>,
}

/// Caller-supplied build and environment details, passed through to the
/// output metadata.
#[derive(Debug)]
pub struct InputMetadata {
    pub compiler_flags: Option<String>,
    pub libraries: Option<Vec<String>>,
    pub cache_enabled: Option<bool>,
}

/// A completed computation: the result, its canonical hash, measurements
/// and descriptive metadata.
#[derive(Debug)]
pub struct Output {
    pub result_matrix: FlatMatrix,
    pub result_hash: String,
    pub metrics: Metrics,
    pub metadata: OutputMetadata,
}

/// Exact measurements of one call. `latency_nanos` is the measured kernel
/// duration; `total_ops` counts multiply-add operations
/// (`rows_a * cols_a * cols_b`); `memory_usage_bytes` estimates the three
/// buffers at four bytes per element. Parse and serialize phases are filled
/// in by the boundary layer, not by the engine.
#[derive(Debug)]
pub struct Metrics {
    pub latency_nanos: u64,
    pub total_ops: u64,
    pub memory_usage_bytes: Option<u64>,
    pub parse_time_nanos: Option<u64>,
    pub kernel_time_nanos: Option<u64>,
    pub serialize_time_nanos: Option<u64>,
}

/// What was computed: the precision and the three shapes, with any
/// pass-through build details.
#[derive(Debug)]
pub struct OutputMetadata {
    pub precision: String,
    pub matrix_a_shape: (usize, usize),
    pub matrix_b_shape: (usize, usize),
    pub result_shape: (usize, usize),
    pub compiler_flags: Option<String>,
    pub libraries: Option<Vec<String>>,
}

} // verus!
