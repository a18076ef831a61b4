//! Tensor core modelling.
//!
//! Tensor cores are dedicated units within each compute-unit subpartition
//! that accelerate matrix multiply-accumulate operations. Here only the
//! unit and its configured precision are modelled; the floating-point
//! multiply-accumulate helper itself is an optional collaborator outside
//! this library's verified core.

use vstd::prelude::*;

verus! {

/// Supported matrix element precisions.
#[derive(Debug, Clone, Copy, PartialEq, Eq, Structural)]
pub enum Precision {
    FP8,
    FP16,
    BF16,
    TF32,
    FP64,
}

/// A tensor core unit, configured for one precision.
pub struct TensorCore {
    pub precision: Precision,
}

impl TensorCore {
    pub fn new() -> (t: TensorCore)
        ensures
            t.precision == Precision::BF16,
    {
        TensorCore { precision: Precision::BF16 }
    }
}

} // verus!
