//! Root-mean-square norms of rows.

use vstd::prelude::*;

use crate::arith::{
    clamp3, clamp_u32, lemma_ceil_div, lemma_mul_le_factor, max2, max_u32, round_up, round_up_u32,
};
use crate::coverage::block_each;
use crate::dtype::{
    float_bytes, float_entry, float_size, is_float3, spec_float_entry, DType,
};
use crate::error::KernelError;
use crate::launch::{launch1, span, spec_launch1, spec_span, Launch, Span};

verus! {

/// Threads of a block for many rows.
pub const BLOCK: u32 = 256;

/// How the weight enters the norm: as it is, or with one added.
#[derive(Clone, Copy, Debug, PartialEq, Eq, Structural)]
pub enum RmsVariant {
    Plain,
    Qwen,
}

impl RmsVariant {
    pub open spec fn code(self) -> i32 {
        match self {
            RmsVariant::Plain => 0,
            RmsVariant::Qwen => 1,
        }
    }

    /// The number by which the kernels know the variant.
    pub fn as_i32(self) -> (r: i32)
        ensures
            r == self.code(),
    {
        match self {
            RmsVariant::Plain => 0,
            RmsVariant::Qwen => 1,
        }
    }
}

/// The integer parameters of a norm.
#[derive(Clone, Copy, Debug, PartialEq, Eq, Structural)]
pub struct RmsNormParams {
    pub batch: i32,
    pub hidden: i32,
    pub variant: i32,
    pub x_offset: i64,
    pub w_offset: i64,
    pub g_offset: i64,
    pub y_offset: i64,
    pub x_row_stride: i64,
    pub g_row_stride: i64,
    pub y_row_stride: i64,
}

/// A norm of rows.
#[derive(Clone, Copy, Debug, PartialEq, Eq)]
pub struct RmsNormLaunch {
    pub launch: Launch,
    pub params: RmsNormParams,
}

/// A norm of rows of given buffers.
#[derive(Clone, Copy, Debug, PartialEq, Eq)]
pub struct RmsNormU8 {
    pub norm: RmsNormLaunch,
    pub x: Span,
    pub w: Span,
    pub y: Span,
}

/// Threads of a block: up to 1024 for eight rows or fewer, else 256.
pub open spec fn row_block(batch: int, hidden: int) -> int {
    if batch <= 8 { clamp3(round_up(hidden, 32), 256, 1024) } else { 256 }
}

/// A block is a whole number of warps and one that the device takes; one of fewer than 1024
/// threads for few rows has a thread for every element, unless it has 256.
pub proof fn row_block_whole_warps(batch: u32, hidden: u32)
    ensures
        row_block(batch as int, hidden as int) % 32 == 0,
        256 <= row_block(batch as int, hidden as int) <= 1024,
        batch <= 8 && hidden <= 1024 ==> row_block(batch as int, hidden as int) >= hidden,
{
    lemma_ceil_div(hidden as int, 32);
}

pub fn row_block_threads(batch: u32, hidden: u32) -> (r: u32)
    ensures
        r == row_block(batch as int, hidden as int),
{
    proof {
        lemma_ceil_div(hidden as int, 32);
    }
    if batch <= 8 {
        if hidden > 1024 {
            1024
        } else {
            clamp_u32(round_up_u32(hidden, 32), BLOCK, 1024)
        }
    } else {
        BLOCK
    }
}

/// The launch of a norm of `batch` rows: one block per row.
pub open spec fn norm_launch(kernel: &'static str, batch: u32, hidden: u32) -> Launch {
    spec_launch1(
        kernel,
        max2(batch as int, 1),
        row_block(batch as int, hidden as int) as u32,
    )
}

pub fn launch_cfg(kernel: &'static str, batch: u32, hidden: u32) -> (r: Launch)
    ensures
        r == norm_launch(kernel, batch, hidden),
{
    launch1(kernel, max_u32(batch, 1), row_block_threads(batch, hidden))
}

/// The parameters for dense rows; `gated` norms read a gate of the same shape.
pub open spec fn spec_params(
    batch: u32,
    hidden: u32,
    variant: RmsVariant,
    gated: bool,
) -> RmsNormParams {
    RmsNormParams {
        batch: batch as i32,
        hidden: hidden as i32,
        variant: variant.code(),
        x_offset: 0,
        w_offset: 0,
        g_offset: 0,
        y_offset: 0,
        x_row_stride: hidden as i64,
        g_row_stride: if gated { hidden as i64 } else { 0 },
        y_row_stride: hidden as i64,
    }
}

fn build_params(batch: u32, hidden: u32, variant: RmsVariant, gated: bool) -> (r: RmsNormParams)
    ensures
        r == spec_params(batch, hidden, variant, gated),
{
    RmsNormParams {
        batch: batch as i32,
        hidden: hidden as i32,
        variant: variant.as_i32(),
        x_offset: 0,
        w_offset: 0,
        g_offset: 0,
        y_offset: 0,
        x_row_stride: hidden as i64,
        g_row_stride: if gated {
            hidden as i64
        } else {
            0
        },
        y_row_stride: hidden as i64,
    }
}

/// Plans the norm of `batch` rows of `hidden` elements.
pub fn run_rms_norm(batch: u32, hidden: u32, variant: RmsVariant, dtype: DType) -> (r: Result<
    RmsNormLaunch,
    KernelError,
>)
    ensures
        r == (if !is_float3(dtype) {
            Err(KernelError::Unsupported("rms_norm: dtype must be F32/F16/BF16"))
        } else {
            Ok(
                RmsNormLaunch {
                    launch: norm_launch(
                        spec_float_entry(dtype, "rms_norm_f32", "rms_norm_f16", "rms_norm_bf16")->0,
                        batch,
                        hidden,
                    ),
                    params: spec_params(batch, hidden, variant, false),
                },
            )
        }),
        r matches Ok(p) ==> {
            &&& batch > 0 ==> block_each(p.launch, batch as int)
            &&& p.params.x_row_stride == hidden && p.params.y_row_stride == hidden
            &&& p.params.g_row_stride == 0
            &&& batch <= i32::MAX ==> p.params.batch == batch
            &&& hidden <= i32::MAX ==> p.params.hidden == hidden
            &&& p.params.variant == variant.code()
        },
{
    proof {
        row_block_whole_warps(batch, hidden);
    }
    match float_entry(dtype, "rms_norm_f32", "rms_norm_f16", "rms_norm_bf16") {
        None => Err(KernelError::Unsupported("rms_norm: dtype must be F32/F16/BF16")),
        Some(kernel) => Ok(
            RmsNormLaunch {
                launch: launch_cfg(kernel, batch, hidden),
                params: build_params(batch, hidden, variant, false),
            },
        ),
    }
}

/// Plans the norm of `batch` rows of `hidden` elements with a gate.
pub fn run_rms_norm_gated(batch: u32, hidden: u32, dtype: DType) -> (r: Result<
    RmsNormLaunch,
    KernelError,
>)
    ensures
        r == (if !is_float3(dtype) {
            Err(KernelError::Unsupported("rms_norm_gated: dtype must be F32/F16/BF16"))
        } else {
            Ok(
                RmsNormLaunch {
                    launch: norm_launch(
                        spec_float_entry(
                            dtype,
                            "rms_norm_gated_f32",
                            "rms_norm_gated_f16",
                            "rms_norm_gated_bf16",
                        )->0,
                        batch,
                        hidden,
                    ),
                    params: spec_params(batch, hidden, RmsVariant::Plain, true),
                },
            )
        }),
        r matches Ok(p) ==> {
            &&& batch > 0 ==> block_each(p.launch, batch as int)
            &&& p.params.x_row_stride == hidden && p.params.y_row_stride == hidden
            &&& p.params.g_row_stride == hidden
            &&& batch <= i32::MAX ==> p.params.batch == batch
            &&& hidden <= i32::MAX ==> p.params.hidden == hidden
            &&& p.params.variant == RmsVariant::Plain.code()
        },
{
    proof {
        row_block_whole_warps(batch, hidden);
    }
    match float_entry(dtype, "rms_norm_gated_f32", "rms_norm_gated_f16", "rms_norm_gated_bf16") {
        None => Err(KernelError::Unsupported("rms_norm_gated: dtype must be F32/F16/BF16")),
        Some(kernel) => Ok(
            RmsNormLaunch {
                launch: launch_cfg(kernel, batch, hidden),
                params: build_params(batch, hidden, RmsVariant::Plain, true),
            },
        ),
    }
}

/// The outcome of a request for the norm of rows in buffers of bytes.
pub open spec fn rms_norm_u8_plan(
    x_off: usize,
    w_off: usize,
    y_off: usize,
    batch: u32,
    hidden: u32,
    variant: RmsVariant,
    dtype: DType,
) -> Result<Option<RmsNormU8>, KernelError> {
    if batch == 0 || hidden == 0 {
        Ok(None)
    } else if !is_float3(dtype) {
        Err(KernelError::Unsupported("rms_norm_u8: dtype"))
    } else {
        Ok(
            Some(
                RmsNormU8 {
                    norm: RmsNormLaunch {
                        launch: norm_launch(
                            spec_float_entry(
                                dtype,
                                "rms_norm_f32",
                                "rms_norm_f16",
                                "rms_norm_bf16",
                            )->0,
                            batch,
                            hidden,
                        ),
                        params: spec_params(batch, hidden, variant, false),
                    },
                    x: spec_span(x_off as int, batch * hidden, float_size(dtype)),
                    w: spec_span(w_off as int, hidden as int, float_size(dtype)),
                    y: spec_span(y_off as int, batch * hidden, float_size(dtype)),
                },
            ),
        )
    }
}

/// Plans the norm of rows in buffers of bytes, from the given offsets on; nothing is launched
/// for no elements.
pub fn run_rms_norm_u8(
    x_off: usize,
    w_off: usize,
    y_off: usize,
    batch: u32,
    hidden: u32,
    variant: RmsVariant,
    dtype: DType,
) -> (r: Result<Option<RmsNormU8>, KernelError>)
    requires
        rms_norm_u8_plan(x_off, w_off, y_off, batch, hidden, variant, dtype)
            matches Ok(Some(_)) ==> {
            &&& x_off + batch * hidden * float_size(dtype) <= usize::MAX
            &&& w_off + hidden * float_size(dtype) <= usize::MAX
            &&& y_off + batch * hidden * float_size(dtype) <= usize::MAX
        },
    ensures
        r == rms_norm_u8_plan(x_off, w_off, y_off, batch, hidden, variant, dtype),
{
    if batch == 0 || hidden == 0 {
        return Ok(None);
    }
    let kernel = match float_entry(dtype, "rms_norm_f32", "rms_norm_f16", "rms_norm_bf16") {
        None => {
            return Err(KernelError::Unsupported("rms_norm_u8: dtype"));
        },
        Some(k) => k,
    };
    proof {
        lemma_mul_le_factor(batch as int, hidden as int, float_size(dtype));
    }
    let esz: usize = float_bytes(dtype);
    let xn: usize = (batch as usize) * (hidden as usize);
    Ok(
        Some(
            RmsNormU8 {
                norm: RmsNormLaunch {
                    launch: launch_cfg(kernel, batch, hidden),
                    params: build_params(batch, hidden, variant, false),
                },
                x: span(x_off, xn, esz),
                w: span(w_off, hidden as usize, esz),
                y: span(y_off, xn, esz),
            },
        ),
    )
}

} // verus!
