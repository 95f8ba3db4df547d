//! The matrix instruction of four-bit products.

use vstd::prelude::*;

verus! {

/// The warp-level product of 16 by 8 by 64 four-bit elements with block scales and single-float
/// sums, as the kernels write it out.
pub const MMA_MXF4NVF4_M16N8K64: &'static str =
    "mma.sync.aligned.kind::mxf4nvf4.block_scale.scale_vec::4X.m16n8k64.row.col.f32.e2m1.e2m1.f32.ue4m3";

} // verus!
