//! The failure taxonomy of the engine. Every error is a local validation
//! failure, detected before or during a computation and never retried; each
//! renders to a descriptive message naming the offending shapes or values.

use vstd::prelude::*;
use vstd::string::StringExecFns;

use crate::text::{dec_str, u64_to_string};

verus! {

/// A typed validation failure.
#[derive(Debug, Clone)]
pub enum Error {
    /// The inner dimensions of the two operands disagree.
    DimensionMismatch { rows_a: usize, cols_a: usize, rows_b: usize, cols_b: usize },
    /// The precision tag is not one of the supported ones.
    UnsupportedPrecision { precision: String },
    /// The workload type is not one of the supported ones.
    UnsupportedWorkload { workload_type: String },
    /// The seed string is not valid hex; the detail comes from the decoder.
    InvalidSeed { detail: String },
    /// Nested rows of inconsistent length cannot be flattened.
    MalformedInput,
}

impl Error {
    /// The message that describes this error, naming the offending
    /// shapes and values.
    pub open spec fn spec_message(&self) -> Seq<char> {
        match self {
            Error::DimensionMismatch { rows_a, cols_a, rows_b, cols_b } => "Matrix dimensions incompatible: A is "@ + dec_str(
                *rows_a as nat,
            ) + "x"@ + dec_str(*cols_a as nat) + ", B is "@ + dec_str(*rows_b as nat) + "x"@
                + dec_str(*cols_b as nat),
            Error::UnsupportedPrecision { precision } => "Unsupported precision: "@ + precision@,
            Error::UnsupportedWorkload { workload_type } => "Unsupported workload type: "@
                + workload_type@ + ". Currently only 'matmul' is supported."@,
            Error::InvalidSeed { detail } => "Invalid hex seed: "@ + detail@,
            Error::MalformedInput => "Inconsistent row lengths"@,
        }
    }

    /// Renders the descriptive message.
    pub fn message(&self) -> (r: String)
        ensures
            r@ == self.spec_message(),
    {
        match self {
            Error::DimensionMismatch { rows_a, cols_a, rows_b, cols_b } => {
                let mut s = String::from_str("Matrix dimensions incompatible: A is ");
                let ra = u64_to_string(*rows_a as u64);
                s.append(ra.as_str());
                s.append("x");
                let ca = u64_to_string(*cols_a as u64);
                s.append(ca.as_str());
                s.append(", B is ");
                let rb = u64_to_string(*rows_b as u64);
                s.append(rb.as_str());
                s.append("x");
                let cb = u64_to_string(*cols_b as u64);
                s.append(cb.as_str());
                proof {
                    assert(s@ =~= self.spec_message());
                }
                s
            },
            Error::UnsupportedPrecision { precision } => {
                let mut s = String::from_str("Unsupported precision: ");
                s.append(precision.as_str());
                proof {
                    assert(s@ =~= self.spec_message());
                }
                s
            },
            Error::UnsupportedWorkload { workload_type } => {
                let mut s = String::from_str("Unsupported workload type: ");
                s.append(workload_type.as_str());
                s.append(". Currently only 'matmul' is supported.");
                proof {
                    assert(s@ =~= self.spec_message());
                }
                s
            },
            Error::InvalidSeed { detail } => {
                let mut s = String::from_str("Invalid hex seed: ");
                s.append(detail.as_str());
                proof {
                    assert(s@ =~= self.spec_message());
                }
                s
            },
            Error::MalformedInput => { String::from_str("Inconsistent row lengths") },
        }
    }
}

} // verus!
