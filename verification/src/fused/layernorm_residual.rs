//! Addition of a residual and the layer norm of the sum.

use vstd::prelude::*;

use crate::dtype::{float_entry, is_float3, spec_float_entry, DType};
use crate::error::KernelError;
use crate::launch::{launch1, spec_launch1, Launch};

verus! {

/// A norm of `batch` rows of `hidden` elements: a block per row.
#[derive(Clone, Copy, Debug, PartialEq, Eq)]
pub struct LayerNormResidual {
    pub launch: Launch,
    /// One where there is a shift; else the scale stands in its place and is not read.
    pub has_beta: i32,
    pub batch: i32,
    pub hidden: i32,
}

/// The outcome of a request for the addition and the norm.
pub open spec fn layernorm_residual_plan(
    batch: u32,
    hidden: u32,
    has_beta: bool,
    dtype: DType,
) -> Result<Option<LayerNormResidual>, KernelError> {
    if batch == 0 || hidden == 0 {
        Ok(None)
    } else if !is_float3(dtype) {
        Err(KernelError::CudaDType("layernorm_residual: unsupported dtype {}", dtype))
    } else {
        Ok(
            Some(
                LayerNormResidual {
                    launch: spec_launch1(
                        spec_float_entry(
                            dtype,
                            "layernorm_residual_f32",
                            "layernorm_residual_f16",
                            "layernorm_residual_bf16",
                        )->0,
                        batch as int,
                        256,
                    ),
                    has_beta: if has_beta { 1 } else { 0 },
                    batch: batch as i32,
                    hidden: hidden as i32,
                },
            ),
        )
    }
}

/// Plans the addition and the norm; nothing is launched for no elements.
pub fn layernorm_residual(batch: u32, hidden: u32, has_beta: bool, dtype: DType) -> (r: Result<
    Option<LayerNormResidual>,
    KernelError,
>)
    ensures
        r == layernorm_residual_plan(batch, hidden, has_beta, dtype),
{
    if batch == 0 || hidden == 0 {
        return Ok(None);
    }
    match float_entry(
        dtype,
        "layernorm_residual_f32",
        "layernorm_residual_f16",
        "layernorm_residual_bf16",
    ) {
        None => Err(KernelError::CudaDType("layernorm_residual: unsupported dtype {}", dtype)),
        Some(kernel) => Ok(
            Some(
                LayerNormResidual {
                    launch: launch1(kernel, batch, 256),
                    has_beta: if has_beta {
                        1
                    } else {
                        0
                    },
                    batch: batch as i32,
                    hidden: hidden as i32,
                },
            ),
        ),
    }
}

/// As `layernorm_residual`, for single floats.
pub fn layernorm_residual_f32(
    batch: u32,
    hidden: u32,
    has_beta: bool,
) -> (r: Result<Option<LayerNormResidual>, KernelError>)
    ensures
        r == layernorm_residual_plan(batch, hidden, has_beta, DType::F32),
{
    layernorm_residual(batch, hidden, has_beta, DType::F32)
}

/// As `layernorm_residual`, for half floats.
pub fn layernorm_residual_f16(
    batch: u32,
    hidden: u32,
    has_beta: bool,
) -> (r: Result<Option<LayerNormResidual>, KernelError>)
    ensures
        r == layernorm_residual_plan(batch, hidden, has_beta, DType::F16),
{
    layernorm_residual(batch, hidden, has_beta, DType::F16)
}

/// As `layernorm_residual`, for brain floats.
pub fn layernorm_residual_bf16(
    batch: u32,
    hidden: u32,
    has_beta: bool,
) -> (r: Result<Option<LayerNormResidual>, KernelError>)
    ensures
        r == layernorm_residual_plan(batch, hidden, has_beta, DType::BF16),
{
    layernorm_residual(batch, hidden, has_beta, DType::BF16)
}

} // verus!
