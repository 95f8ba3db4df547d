//! Quantised weights.

use vstd::prelude::*;

use crate::dtype::DType;

verus! {

/// Where the packed bytes of a weight are.
#[derive(Clone, Copy, Debug, PartialEq, Eq, Structural)]
pub enum Packed {
    Released,
    Host,
    Device,
}

/// A quantised weight of `n` rows and `k` columns.
#[derive(Clone, Copy, Debug, PartialEq, Eq, Structural)]
pub struct QuantWeight {
    pub dtype: DType,
    pub n: usize,
    pub k: usize,
    pub packed: Packed,
    /// The scales are device memory.
    pub scales_cuda: bool,
    /// The layout that the matrix kernels read was built already.
    pub shuffled: bool,
}

} // verus!
