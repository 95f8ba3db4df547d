//! Layer norms of rows.

use vstd::prelude::*;

use crate::arith::{lemma_mul_le_factor, max2, max_u32};
use crate::dtype::{float_bytes, float_entry, float_size, is_float3, spec_float_entry, DType};
use crate::error::KernelError;
use crate::launch::{launch1, span, spec_launch1, spec_span, Launch, Span};

verus! {

/// Threads of a block.
pub const BLOCK: u32 = 256;

/// The integer parameters of a norm.
#[derive(Clone, Copy, Debug, PartialEq, Eq, Structural)]
pub struct LayerNormParams {
    pub batch: i32,
    pub hidden: i32,
    pub has_beta: i32,
    pub x_offset: i64,
    pub w_offset: i64,
    pub b_offset: i64,
    pub y_offset: i64,
    pub x_row_stride: i64,
    pub y_row_stride: i64,
}

/// A norm of rows.
#[derive(Clone, Copy, Debug, PartialEq, Eq)]
pub struct LayerNormLaunch {
    pub launch: Launch,
    pub params: LayerNormParams,
}

/// A norm of rows of given buffers.
#[derive(Clone, Copy, Debug, PartialEq, Eq)]
pub struct LayerNormU8 {
    pub norm: LayerNormLaunch,
    pub x: Span,
    pub w: Span,
    pub beta: Option<Span>,
    pub y: Span,
}

/// The parameters for dense rows.
pub open spec fn spec_params(batch: u32, hidden: u32, has_beta: bool) -> LayerNormParams {
    LayerNormParams {
        batch: batch as i32,
        hidden: hidden as i32,
        has_beta: if has_beta { 1 } else { 0 },
        x_offset: 0,
        w_offset: 0,
        b_offset: 0,
        y_offset: 0,
        x_row_stride: hidden as i64,
        y_row_stride: hidden as i64,
    }
}

fn build_params(batch: u32, hidden: u32, has_beta: bool) -> (r: LayerNormParams)
    ensures
        r == spec_params(batch, hidden, has_beta),
{
    LayerNormParams {
        batch: batch as i32,
        hidden: hidden as i32,
        has_beta: if has_beta {
            1
        } else {
            0
        },
        x_offset: 0,
        w_offset: 0,
        b_offset: 0,
        y_offset: 0,
        x_row_stride: hidden as i64,
        y_row_stride: hidden as i64,
    }
}

/// The norm of `batch` rows: one block per row.
pub open spec fn layer_norm(
    batch: u32,
    hidden: u32,
    has_beta: bool,
    dtype: DType,
) -> LayerNormLaunch {
    LayerNormLaunch {
        launch: spec_launch1(
            spec_float_entry(dtype, "layernorm_f32", "layernorm_f16", "layernorm_bf16")->0,
            max2(batch as int, 1),
            BLOCK,
        ),
        params: spec_params(batch, hidden, has_beta),
    }
}

/// The outcome of a request for the norm of rows.
pub open spec fn layer_norm_plan(
    batch: u32,
    hidden: u32,
    has_beta: bool,
    dtype: DType,
) -> Result<LayerNormLaunch, KernelError> {
    if !is_float3(dtype) {
        Err(KernelError::Unsupported("layernorm: dtype must be F32/F16/BF16"))
    } else {
        Ok(layer_norm(batch, hidden, has_beta, dtype))
    }
}

/// Plans the norm of `batch` rows of `hidden` elements, with or without a shift.
pub fn run(batch: u32, hidden: u32, has_beta: bool, dtype: DType) -> (r: Result<
    LayerNormLaunch,
    KernelError,
>)
    ensures
        r == layer_norm_plan(batch, hidden, has_beta, dtype),
{
    match float_entry(dtype, "layernorm_f32", "layernorm_f16", "layernorm_bf16") {
        None => Err(KernelError::Unsupported("layernorm: dtype must be F32/F16/BF16")),
        Some(kernel) => Ok(
            LayerNormLaunch {
                launch: launch1(kernel, max_u32(batch, 1), BLOCK),
                params: build_params(batch, hidden, has_beta),
            },
        ),
    }
}

/// As `run`, for single floats.
pub fn run_f32(batch: u32, hidden: u32, has_beta: bool) -> (r: Result<LayerNormLaunch, KernelError>)
    ensures
        r == layer_norm_plan(batch, hidden, has_beta, DType::F32),
{
    run(batch, hidden, has_beta, DType::F32)
}

/// As `run`, for half floats.
pub fn run_f16(batch: u32, hidden: u32, has_beta: bool) -> (r: Result<LayerNormLaunch, KernelError>)
    ensures
        r == layer_norm_plan(batch, hidden, has_beta, DType::F16),
{
    run(batch, hidden, has_beta, DType::F16)
}

/// As `run`, for brain floats.
pub fn run_bf16(
    batch: u32,
    hidden: u32,
    has_beta: bool,
) -> (r: Result<LayerNormLaunch, KernelError>)
    ensures
        r == layer_norm_plan(batch, hidden, has_beta, DType::BF16),
{
    run(batch, hidden, has_beta, DType::BF16)
}

/// The outcome of a request for the norm of rows in buffers of bytes.
pub open spec fn layer_norm_u8_plan(
    x_off: usize,
    w_off: usize,
    beta_off: Option<usize>,
    y_off: usize,
    batch: u32,
    hidden: u32,
    dtype: DType,
) -> Result<Option<LayerNormU8>, KernelError> {
    if batch == 0 || hidden == 0 {
        Ok(None)
    } else if !is_float3(dtype) {
        Err(KernelError::Unsupported("layernorm_u8: dtype"))
    } else {
        Ok(
            Some(
                LayerNormU8 {
                    norm: layer_norm(batch, hidden, beta_off is Some, dtype),
                    x: spec_span(x_off as int, batch * hidden, float_size(dtype)),
                    w: spec_span(w_off as int, hidden as int, float_size(dtype)),
                    beta: match beta_off {
                        Some(b) => Some(spec_span(b as int, hidden as int, float_size(dtype))),
                        None => None,
                    },
                    y: spec_span(y_off as int, batch * hidden, float_size(dtype)),
                },
            ),
        )
    }
}

/// Plans the norm of rows in buffers of bytes, from the given offsets on; nothing is launched
/// for no elements.
pub fn run_u8(
    x_off: usize,
    w_off: usize,
    beta_off: Option<usize>,
    y_off: usize,
    batch: u32,
    hidden: u32,
    dtype: DType,
) -> (r: Result<Option<LayerNormU8>, KernelError>)
    requires
        layer_norm_u8_plan(x_off, w_off, beta_off, y_off, batch, hidden, dtype)
            matches Ok(Some(_)) ==> {
            &&& x_off + batch * hidden * float_size(dtype) <= usize::MAX
            &&& w_off + hidden * float_size(dtype) <= usize::MAX
            &&& (beta_off matches Some(b) ==> b + hidden * float_size(dtype) <= usize::MAX)
            &&& y_off + batch * hidden * float_size(dtype) <= usize::MAX
        },
    ensures
        r == layer_norm_u8_plan(x_off, w_off, beta_off, y_off, batch, hidden, dtype),
{
    if batch == 0 || hidden == 0 {
        return Ok(None);
    }
    let kernel = match float_entry(dtype, "layernorm_f32", "layernorm_f16", "layernorm_bf16") {
        None => {
            return Err(KernelError::Unsupported("layernorm_u8: dtype"));
        },
        Some(k) => k,
    };
    proof {
        lemma_mul_le_factor(batch as int, hidden as int, float_size(dtype));
    }
    let esz: usize = float_bytes(dtype);
    let xn: usize = (batch as usize) * (hidden as usize);
    let beta = match beta_off {
        Some(b) => Some(span(b, hidden as usize, esz)),
        None => None,
    };
    Ok(
        Some(
            LayerNormU8 {
                norm: LayerNormLaunch {
                    launch: launch1(kernel, max_u32(batch, 1), BLOCK),
                    params: build_params(batch, hidden, beta_off.is_some()),
                },
                x: span(x_off, xn, esz),
                w: span(w_off, hidden as usize, esz),
                beta,
                y: span(y_off, xn, esz),
            },
        ),
    )
}

} // verus!
