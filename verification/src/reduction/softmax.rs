//! Softmax along rows.

use vstd::prelude::*;

use crate::arith::{max2, max_u32};
use crate::dtype::{float_entry, is_float3, spec_float_entry, DType};
use crate::error::KernelError;
use crate::launch::{launch1, spec_launch1, Launch};

verus! {

/// Threads of a block.
pub const BLOCK: u32 = 256;

/// A softmax over rows.
#[derive(Clone, Copy, Debug, PartialEq, Eq)]
pub struct SoftmaxLaunch {
    pub launch: Launch,
    pub hidden: i32,
    pub batch: i32,
}

/// The outcome of a request for the softmax of rows.
pub open spec fn softmax_plan(
    batch: u32,
    hidden: u32,
    dtype: DType,
) -> Result<SoftmaxLaunch, KernelError> {
    if !is_float3(dtype) {
        Err(KernelError::CudaDType("softmax: unsupported dtype {}", dtype))
    } else {
        Ok(
            SoftmaxLaunch {
                launch: spec_launch1(
                    spec_float_entry(dtype, "softmax_f32", "softmax_f16", "softmax_bf16")->0,
                    max2(batch as int, 1),
                    BLOCK,
                ),
                hidden: hidden as i32,
                batch: batch as i32,
            },
        )
    }
}

/// Plans the softmax of `batch` rows of `hidden` elements, one block per row.
pub fn run_softmax(batch: u32, hidden: u32, dtype: DType) -> (r: Result<SoftmaxLaunch, KernelError>)
    ensures
        r == softmax_plan(batch, hidden, dtype),
{
    match float_entry(dtype, "softmax_f32", "softmax_f16", "softmax_bf16") {
        None => Err(KernelError::CudaDType("softmax: unsupported dtype {}", dtype)),
        Some(kernel) => Ok(
            SoftmaxLaunch {
                launch: launch1(kernel, max_u32(batch, 1), BLOCK),
                hidden: hidden as i32,
                batch: batch as i32,
            },
        ),
    }
}

} // verus!
