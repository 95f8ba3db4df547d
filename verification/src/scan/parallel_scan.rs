//! Prefix sums of rows, one block per row.

use vstd::prelude::*;

use crate::arith::{max2, max_u32};
use crate::dtype::{float_entry, is_float3, spec_float_entry, DType};
use crate::error::KernelError;
use crate::launch::{launch1, spec_launch1, Launch};

verus! {

/// Threads of a block.
pub const BLOCK: u32 = 256;

/// Elements of a row that one thread takes at most.
pub const MAX_PER_THREAD: u32 = 32;

/// Elements of the longest row.
pub const MAX_N: u32 = 8192;

/// A prefix sum over rows.
#[derive(Clone, Copy, Debug, PartialEq, Eq)]
pub struct ScanLaunch {
    pub launch: Launch,
    pub batch: i32,
    pub n: i32,
    pub inclusive: i32,
}

/// The outcome of a request for prefix sums.
pub open spec fn prefix_sum_plan(
    batch: u32,
    n: u32,
    inclusive: bool,
    dtype: DType,
) -> Result<ScanLaunch, KernelError> {
    if n == 0 || n > MAX_N {
        Err(KernelError::Cuda2("parallel_scan: N={} must be in [1, {}]", n as u64, 8192))
    } else if !is_float3(dtype) {
        Err(KernelError::Unsupported("parallel_scan: dtype must be F32/F16/BF16"))
    } else {
        Ok(
            ScanLaunch {
                launch: spec_launch1(
                    spec_float_entry(dtype, "scan_sum_f32", "scan_sum_f16", "scan_sum_bf16")->0,
                    max2(batch as int, 1),
                    BLOCK,
                ),
                batch: batch as i32,
                n: n as i32,
                inclusive: if inclusive { 1 } else { 0 },
            },
        )
    }
}

/// Plans the prefix sums of `batch` rows of `n` elements.
pub fn run(
    batch: u32,
    n: u32,
    inclusive: bool,
    dtype: DType,
) -> (r: Result<ScanLaunch, KernelError>)
    ensures
        r == prefix_sum_plan(batch, n, inclusive, dtype),
{
    if n == 0 || n > MAX_N {
        return Err(KernelError::Cuda2("parallel_scan: N={} must be in [1, {}]", n as u64, 8192));
    }
    match float_entry(dtype, "scan_sum_f32", "scan_sum_f16", "scan_sum_bf16") {
        None => Err(KernelError::Unsupported("parallel_scan: dtype must be F32/F16/BF16")),
        Some(kernel) => Ok(
            ScanLaunch {
                launch: launch1(kernel, max_u32(batch, 1), BLOCK),
                batch: batch as i32,
                n: n as i32,
                inclusive: if inclusive {
                    1
                } else {
                    0
                },
            },
        ),
    }
}

/// As `run`, for single floats.
pub fn run_f32(batch: u32, n: u32, inclusive: bool) -> (r: Result<ScanLaunch, KernelError>)
    ensures
        r == prefix_sum_plan(batch, n, inclusive, DType::F32),
{
    run(batch, n, inclusive, DType::F32)
}

/// As `run`, for half floats.
pub fn run_f16(batch: u32, n: u32, inclusive: bool) -> (r: Result<ScanLaunch, KernelError>)
    ensures
        r == prefix_sum_plan(batch, n, inclusive, DType::F16),
{
    run(batch, n, inclusive, DType::F16)
}

/// As `run`, for brain floats.
pub fn run_bf16(batch: u32, n: u32, inclusive: bool) -> (r: Result<ScanLaunch, KernelError>)
    ensures
        r == prefix_sum_plan(batch, n, inclusive, DType::BF16),
{
    run(batch, n, inclusive, DType::BF16)
}

/// The threads of a block have room for every row that is accepted.
pub proof fn row_fits_block(n: u32)
    requires
        n <= MAX_N,
    ensures
        n <= BLOCK * MAX_PER_THREAD,
{
}

} // verus!
