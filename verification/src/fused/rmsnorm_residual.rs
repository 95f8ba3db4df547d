//! Addition of a residual and the root-mean-square norm of the sum.

use vstd::prelude::*;

use crate::arith::{lemma_mul_le_factor, max2, max_u32};
use crate::dtype::{float_bytes, float_entry, float_size, is_float3, spec_float_entry, DType};
use crate::error::KernelError;
use crate::launch::{launch1, span, spec_launch1, spec_span, Launch, Span};
use crate::reduction::rmsnorm::{launch_cfg, norm_launch, RmsVariant};

verus! {

/// A norm of `batch` rows of `hidden` elements: a block per row.
#[derive(Clone, Copy, Debug, PartialEq, Eq)]
pub struct RmsNormResidual {
    pub launch: Launch,
    pub batch: i32,
    pub hidden: i32,
    pub qwen: i32,
}

/// A norm of rows of given buffers; the sum goes to a buffer of its own.
#[derive(Clone, Copy, Debug, PartialEq, Eq)]
pub struct RmsNormResidualU8 {
    pub norm: RmsNormResidual,
    pub x: Span,
    pub residual: Span,
    pub w: Span,
    pub hidden_out: Span,
    pub y: Span,
}

/// The entry that leaves the residual as it is.
pub open spec fn split_entry(dtype: DType) -> Option<&'static str> {
    spec_float_entry(
        dtype,
        "rmsnorm_residual_split_f32",
        "rmsnorm_residual_split_f16",
        "rmsnorm_residual_split_bf16",
    )
}

/// The norm that leaves the residual as it is.
pub open spec fn split_plan(
    batch: u32,
    hidden: u32,
    variant: RmsVariant,
    dtype: DType,
) -> RmsNormResidual {
    RmsNormResidual {
        launch: norm_launch(split_entry(dtype)->0, batch, hidden),
        batch: batch as i32,
        hidden: hidden as i32,
        qwen: variant.code(),
    }
}

/// The outcome of a request for the addition into the residual and the norm.
pub open spec fn residual_norm_plan(
    batch: u32,
    hidden: u32,
    variant: RmsVariant,
    dtype: DType,
) -> Result<RmsNormResidual, KernelError> {
    if !is_float3(dtype) {
        Err(KernelError::CudaDType("rmsnorm_residual: unsupported dtype {}", dtype))
    } else {
        Ok(
            RmsNormResidual {
                launch: spec_launch1(
                    spec_float_entry(
                        dtype,
                        "rmsnorm_residual_f32",
                        "rmsnorm_residual_f16",
                        "rmsnorm_residual_bf16",
                    )->0,
                    max2(batch as int, 1),
                    256,
                ),
                batch: batch as i32,
                hidden: hidden as i32,
                qwen: variant.code(),
            },
        )
    }
}

/// Plans the addition into the residual and the norm.
pub fn run(batch: u32, hidden: u32, variant: RmsVariant, dtype: DType) -> (r: Result<
    RmsNormResidual,
    KernelError,
>)
    ensures
        r == residual_norm_plan(batch, hidden, variant, dtype),
{
    match float_entry(
        dtype,
        "rmsnorm_residual_f32",
        "rmsnorm_residual_f16",
        "rmsnorm_residual_bf16",
    ) {
        None => Err(KernelError::CudaDType("rmsnorm_residual: unsupported dtype {}", dtype)),
        Some(kernel) => Ok(
            RmsNormResidual {
                launch: launch1(kernel, max_u32(batch, 1), 256),
                batch: batch as i32,
                hidden: hidden as i32,
                qwen: variant.as_i32(),
            },
        ),
    }
}

/// As `run`, for single floats.
pub fn run_f32(
    batch: u32,
    hidden: u32,
    variant: RmsVariant,
) -> (r: Result<RmsNormResidual, KernelError>)
    ensures
        r == residual_norm_plan(batch, hidden, variant, DType::F32),
{
    run(batch, hidden, variant, DType::F32)
}

/// As `run`, for half floats.
pub fn run_f16(
    batch: u32,
    hidden: u32,
    variant: RmsVariant,
) -> (r: Result<RmsNormResidual, KernelError>)
    ensures
        r == residual_norm_plan(batch, hidden, variant, DType::F16),
{
    run(batch, hidden, variant, DType::F16)
}

/// As `run`, for brain floats.
pub fn run_bf16(
    batch: u32,
    hidden: u32,
    variant: RmsVariant,
) -> (r: Result<RmsNormResidual, KernelError>)
    ensures
        r == residual_norm_plan(batch, hidden, variant, DType::BF16),
{
    run(batch, hidden, variant, DType::BF16)
}

/// Plans the addition into a buffer of its own and the norm; few rows get larger blocks.
pub fn run_split(batch: u32, hidden: u32, variant: RmsVariant, dtype: DType) -> (r: Result<
    RmsNormResidual,
    KernelError,
>)
    ensures
        r == (if !is_float3(dtype) {
            Err(KernelError::CudaDType("rmsnorm_residual_split: unsupported dtype {}", dtype))
        } else {
            Ok(split_plan(batch, hidden, variant, dtype))
        }),
{
    match float_entry(
        dtype,
        "rmsnorm_residual_split_f32",
        "rmsnorm_residual_split_f16",
        "rmsnorm_residual_split_bf16",
    ) {
        None => Err(KernelError::CudaDType("rmsnorm_residual_split: unsupported dtype {}", dtype)),
        Some(kernel) => Ok(
            RmsNormResidual {
                launch: launch_cfg(kernel, batch, hidden),
                batch: batch as i32,
                hidden: hidden as i32,
                qwen: variant.as_i32(),
            },
        ),
    }
}

/// The outcome of a request over buffers of bytes.
pub open spec fn split_u8_plan(
    batch: u32,
    hidden: u32,
    variant: RmsVariant,
    dtype: DType,
) -> Result<Option<RmsNormResidualU8>, KernelError> {
    if batch == 0 || hidden == 0 {
        Ok(None)
    } else if !is_float3(dtype) {
        Err(KernelError::Unsupported("rmsnorm_residual_split_u8: dtype"))
    } else {
        let rows = spec_span(0, batch * hidden, float_size(dtype));
        Ok(
            Some(
                RmsNormResidualU8 {
                    norm: split_plan(batch, hidden, variant, dtype),
                    x: rows,
                    residual: rows,
                    w: spec_span(0, hidden as int, float_size(dtype)),
                    hidden_out: rows,
                    y: rows,
                },
            ),
        )
    }
}

/// Plans the same over buffers of bytes, from their starts on; nothing is launched for no
/// elements.
pub fn run_split_u8(batch: u32, hidden: u32, variant: RmsVariant, dtype: DType) -> (r: Result<
    Option<RmsNormResidualU8>,
    KernelError,
>)
    requires
        split_u8_plan(batch, hidden, variant, dtype) matches Ok(Some(_)) ==> {
            &&& hidden * float_size(dtype) <= usize::MAX
            &&& batch * hidden * float_size(dtype) <= usize::MAX
        },
    ensures
        r == split_u8_plan(batch, hidden, variant, dtype),
{
    if batch == 0 || hidden == 0 {
        return Ok(None);
    }
    match run_split(batch, hidden, variant, dtype) {
        Err(_) => Err(KernelError::Unsupported("rmsnorm_residual_split_u8: dtype")),
        Ok(norm) => {
            proof {
                lemma_mul_le_factor(batch as int, hidden as int, float_size(dtype));
            }
            let esz: usize = float_bytes(dtype);
            let rows = span(0, (batch as usize) * (hidden as usize), esz);
            Ok(
                Some(
                    RmsNormResidualU8 {
                        norm,
                        x: rows,
                        residual: rows,
                        w: span(0, hidden as usize, esz),
                        hidden_out: rows,
                        y: rows,
                    },
                ),
            )
        },
    }
}

} // verus!
