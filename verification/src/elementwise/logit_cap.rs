//! Soft capping of logits.

use vstd::prelude::*;

use crate::arith::{ceil_div, div_ceil_u32};
use crate::dtype::{float_entry, is_float3, spec_float_entry, DType};
use crate::error::KernelError;
use crate::launch::{launch1, spec_launch1, Launch};

verus! {

/// Threads of a block.
pub const BLOCK: u32 = 256;

/// A capping of `n` elements.
#[derive(Clone, Copy, Debug, PartialEq, Eq)]
pub struct LogitCapLaunch {
    pub launch: Launch,
    pub n: i32,
}

/// The outcome of a request to cap logits.
pub open spec fn logit_cap_plan(
    cap_is_zero: bool,
    n: u32,
    dtype: DType,
) -> Result<Option<LogitCapLaunch>, KernelError> {
    if cap_is_zero {
        Err(KernelError::Cuda("logit_cap: cap должен быть ненулевым"))
    } else if n == 0 {
        Ok(None)
    } else if !is_float3(dtype) {
        Err(KernelError::CudaDType("logit_cap: unsupported dtype {}", dtype))
    } else {
        Ok(
            Some(
                LogitCapLaunch {
                    launch: spec_launch1(
                        spec_float_entry(
                            dtype,
                            "logit_cap_f32",
                            "logit_cap_f16",
                            "logit_cap_bf16",
                        )->0,
                        ceil_div(n as int, 256),
                        BLOCK,
                    ),
                    n: n as i32,
                },
            ),
        )
    }
}

/// Plans the capping of `n` logits; a cap of zero is refused, and nothing is launched for no
/// elements.
pub fn logit_cap(cap_is_zero: bool, n: u32, dtype: DType) -> (r: Result<
    Option<LogitCapLaunch>,
    KernelError,
>)
    ensures
        r == logit_cap_plan(cap_is_zero, n, dtype),
{
    if cap_is_zero {
        return Err(KernelError::Cuda("logit_cap: cap должен быть ненулевым"));
    }
    if n == 0 {
        return Ok(None);
    }
    match float_entry(dtype, "logit_cap_f32", "logit_cap_f16", "logit_cap_bf16") {
        None => Err(KernelError::CudaDType("logit_cap: unsupported dtype {}", dtype)),
        Some(kernel) => Ok(
            Some(
                LogitCapLaunch {
                    launch: launch1(kernel, div_ceil_u32(n, BLOCK), BLOCK),
                    n: n as i32,
                },
            ),
        ),
    }
}

/// As `logit_cap`, for single floats.
pub fn logit_cap_f32(cap_is_zero: bool, n: u32) -> (r: Result<Option<LogitCapLaunch>, KernelError>)
    ensures
        r == logit_cap_plan(cap_is_zero, n, DType::F32),
{
    logit_cap(cap_is_zero, n, DType::F32)
}

/// As `logit_cap`, for half floats.
pub fn logit_cap_f16(cap_is_zero: bool, n: u32) -> (r: Result<Option<LogitCapLaunch>, KernelError>)
    ensures
        r == logit_cap_plan(cap_is_zero, n, DType::F16),
{
    logit_cap(cap_is_zero, n, DType::F16)
}

/// As `logit_cap`, for brain floats.
pub fn logit_cap_bf16(cap_is_zero: bool, n: u32) -> (r: Result<Option<LogitCapLaunch>, KernelError>)
    ensures
        r == logit_cap_plan(cap_is_zero, n, DType::BF16),
{
    logit_cap(cap_is_zero, n, DType::BF16)
}

} // verus!
