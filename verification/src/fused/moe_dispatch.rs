//! Rows sent to experts and brought back.

use vstd::prelude::*;

use crate::arith::{ceil_div, div_ceil_u64};
use crate::dtype::{float_entry, spec_float_entry, DType};
use crate::error::KernelError;
use crate::launch::{launch1, spec_launch1, Launch};

verus! {

/// A move of `n` rows of `d` elements: a thread per element.
#[derive(Clone, Copy, Debug, PartialEq, Eq)]
pub struct MoeMove {
    pub launch: Launch,
    pub n: i32,
    pub d: i32,
}

/// The move by a kernel, or nothing for no elements.
pub open spec fn moe_move(kernel: &'static str, n: u32, d: u32) -> Option<MoeMove> {
    if n == 0 || d == 0 {
        None
    } else {
        Some(
            MoeMove {
                launch: spec_launch1(kernel, ceil_div(n * d, 256), 256),
                n: n as i32,
                d: d as i32,
            },
        )
    }
}

fn launch(kernel: &'static str, n: u32, d: u32) -> (r: Option<MoeMove>)
    ensures
        r == moe_move(kernel, n, d),
{
    if n == 0 || d == 0 {
        return None;
    }
    proof {
        assert(0 <= n * d <= u32::MAX * u32::MAX) by (nonlinear_arith)
            requires
                0 <= n <= u32::MAX,
                0 <= d <= u32::MAX,
        ;
    }
    let total: u64 = (n as u64) * (d as u64);
    Some(
        MoeMove {
            launch: launch1(kernel, div_ceil_u64(total, 256) as u32, 256),
            n: n as i32,
            d: d as i32,
        },
    )
}

/// The outcome of a request to send rows.
pub open spec fn moe_scatter_plan(
    n: u32,
    d: u32,
    dtype: DType,
) -> Result<Option<MoeMove>, KernelError> {
    match spec_float_entry(dtype, "moe_scatter_f32", "moe_scatter_f16", "moe_scatter_bf16") {
        None => Err(KernelError::CudaDType("moe_scatter: unsupported dtype {}", dtype)),
        Some(kernel) => Ok(moe_move(kernel, n, d)),
    }
}

/// Plans `out[i] = x[idx[i]]` of `n` rows.
pub fn moe_scatter(n: u32, d: u32, dtype: DType) -> (r: Result<Option<MoeMove>, KernelError>)
    ensures
        r == moe_scatter_plan(n, d, dtype),
{
    match float_entry(dtype, "moe_scatter_f32", "moe_scatter_f16", "moe_scatter_bf16") {
        None => Err(KernelError::CudaDType("moe_scatter: unsupported dtype {}", dtype)),
        Some(kernel) => Ok(launch(kernel, n, d)),
    }
}

/// As `moe_scatter`, for single floats.
pub fn moe_scatter_f32(n: u32, d: u32) -> (r: Result<Option<MoeMove>, KernelError>)
    ensures
        r == moe_scatter_plan(n, d, DType::F32),
{
    moe_scatter(n, d, DType::F32)
}

/// As `moe_scatter`, for half floats.
pub fn moe_scatter_f16(n: u32, d: u32) -> (r: Result<Option<MoeMove>, KernelError>)
    ensures
        r == moe_scatter_plan(n, d, DType::F16),
{
    moe_scatter(n, d, DType::F16)
}

/// As `moe_scatter`, for brain floats.
pub fn moe_scatter_bf16(n: u32, d: u32) -> (r: Result<Option<MoeMove>, KernelError>)
    ensures
        r == moe_scatter_plan(n, d, DType::BF16),
{
    moe_scatter(n, d, DType::BF16)
}

/// The outcome of a request to bring rows back.
pub open spec fn moe_gather_plan(
    n: u32,
    d: u32,
    dtype: DType,
) -> Result<Option<MoeMove>, KernelError> {
    match spec_float_entry(dtype, "moe_gather_f32", "moe_gather_f16", "moe_gather_bf16") {
        None => Err(KernelError::CudaDType("moe_gather: unsupported dtype {}", dtype)),
        Some(kernel) => Ok(moe_move(kernel, n, d)),
    }
}

/// Plans `out[idx[i]] = x[i]` of `n` rows.
pub fn moe_gather(n: u32, d: u32, dtype: DType) -> (r: Result<Option<MoeMove>, KernelError>)
    ensures
        r == moe_gather_plan(n, d, dtype),
{
    match float_entry(dtype, "moe_gather_f32", "moe_gather_f16", "moe_gather_bf16") {
        None => Err(KernelError::CudaDType("moe_gather: unsupported dtype {}", dtype)),
        Some(kernel) => Ok(launch(kernel, n, d)),
    }
}

/// As `moe_gather`, for single floats.
pub fn moe_gather_f32(n: u32, d: u32) -> (r: Result<Option<MoeMove>, KernelError>)
    ensures
        r == moe_gather_plan(n, d, DType::F32),
{
    moe_gather(n, d, DType::F32)
}

/// As `moe_gather`, for half floats.
pub fn moe_gather_f16(n: u32, d: u32) -> (r: Result<Option<MoeMove>, KernelError>)
    ensures
        r == moe_gather_plan(n, d, DType::F16),
{
    moe_gather(n, d, DType::F16)
}

/// As `moe_gather`, for brain floats.
pub fn moe_gather_bf16(n: u32, d: u32) -> (r: Result<Option<MoeMove>, KernelError>)
    ensures
        r == moe_gather_plan(n, d, DType::BF16),
{
    moe_gather(n, d, DType::BF16)
}

} // verus!
