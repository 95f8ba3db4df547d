//! Norms along the channels of each point of an image.

use vstd::prelude::*;

use crate::arith::{ceil_div, div_ceil_u64, lemma_ceil_div, lemma_mul_le_factor};
use crate::dtype::{float_bytes, float_entry, float_size, is_float3, spec_float_entry, DType};
use crate::error::KernelError;
use crate::launch::{span, spec_span, Launch, Span};

verus! {

/// Threads of a block.
pub const BLOCK: u32 = 256;

/// The integer parameters of a norm.
#[derive(Clone, Copy, Debug, PartialEq, Eq, Structural)]
pub struct PixelNormParams {
    pub c: i32,
    pub s: i64,
    pub apply_silu: i32,
}

/// A norm of given buffers.
#[derive(Clone, Copy, Debug, PartialEq, Eq)]
pub struct PixelNormU8 {
    pub launch: Launch,
    pub params: PixelNormParams,
    pub x: Span,
    pub y: Span,
}

/// Points that one thread takes: as many as sixteen bytes hold.
pub open spec fn points_per_thread(dtype: DType) -> int {
    if dtype == DType::F32 { 4 } else { 8 }
}

/// The outcome of a request for the norm of points in buffers of bytes.
pub open spec fn pixel_norm_u8_plan(
    x_off: usize,
    y_off: usize,
    b: u32,
    c: u32,
    s: u64,
    apply_silu: bool,
    dtype: DType,
) -> Result<Option<PixelNormU8>, KernelError> {
    if b == 0 || c == 0 || s == 0 {
        Ok(None)
    } else if !is_float3(dtype) {
        Err(KernelError::Unsupported("pixel_norm_u8: dtype"))
    } else {
        Ok(
            Some(
                PixelNormU8 {
                    launch: Launch {
                        kernel: spec_float_entry(
                            dtype,
                            "pixel_norm_f32",
                            "pixel_norm_f16",
                            "pixel_norm_bf16",
                        )->0,
                        grid: (
                            ceil_div(s as int, points_per_thread(dtype) * 256) as u32,
                            b,
                            1,
                        ),
                        block: (BLOCK, 1, 1),
                        shared_mem_bytes: 0,
                    },
                    params: PixelNormParams {
                        c: c as i32,
                        s: s as i64,
                        apply_silu: if apply_silu { 1 } else { 0 },
                    },
                    x: spec_span(x_off as int, b * c * s, float_size(dtype)),
                    y: spec_span(y_off as int, b * c * s, float_size(dtype)),
                },
            ),
        )
    }
}

/// Plans the norm of `b` images of `c` channels and `s` points; nothing is launched for no
/// elements.
pub fn run_u8(
    x_off: usize,
    y_off: usize,
    b: u32,
    c: u32,
    s: u64,
    apply_silu: bool,
    dtype: DType,
) -> (r: Result<Option<PixelNormU8>, KernelError>)
    requires
        pixel_norm_u8_plan(x_off, y_off, b, c, s, apply_silu, dtype) matches Ok(Some(_)) ==> {
            &&& s <= usize::MAX
            &&& b * c <= usize::MAX
            &&& x_off + b * c * s * float_size(dtype) <= usize::MAX
            &&& y_off + b * c * s * float_size(dtype) <= usize::MAX
        },
    ensures
        r == pixel_norm_u8_plan(x_off, y_off, b, c, s, apply_silu, dtype),
{
    if b == 0 || c == 0 || s == 0 {
        return Ok(None);
    }
    let kernel = match float_entry(dtype, "pixel_norm_f32", "pixel_norm_f16", "pixel_norm_bf16") {
        None => {
            return Err(KernelError::Unsupported("pixel_norm_u8: dtype"));
        },
        Some(k) => k,
    };
    proof {
        lemma_mul_le_factor(b as int, c as int, s as int);
        lemma_mul_le_factor(b * c, s as int, float_size(dtype));
    }
    let esz: usize = float_bytes(dtype);
    let xn: usize = (b as usize) * (c as usize) * (s as usize);
    let vec_n: u64 = if dtype == DType::F32 {
        4
    } else {
        8
    };
    Ok(
        Some(
            PixelNormU8 {
                launch: Launch {
                    kernel,
                    grid: (div_ceil_u64(s, vec_n * 256) as u32, b, 1),
                    block: (BLOCK, 1, 1),
                    shared_mem_bytes: 0,
                },
                params: PixelNormParams {
                    c: c as i32,
                    s: s as i64,
                    apply_silu: if apply_silu {
                        1
                    } else {
                        0
                    },
                },
                x: span(x_off, xn, esz),
                y: span(y_off, xn, esz),
            },
        ),
    )
}

/// The threads of the first axis take every point of an image.
pub proof fn points_covered(s: u64, dtype: DType)
    ensures
        ceil_div(s as int, points_per_thread(dtype) * 256) * 256 * points_per_thread(dtype) >= s,
{
    lemma_ceil_div(s as int, points_per_thread(dtype) * 256);
    let c = ceil_div(s as int, points_per_thread(dtype) * 256);
    assert(c * 256 * 4 == c * (4 * 256) && c * 256 * 8 == c * (8 * 256)) by (nonlinear_arith);
}

} // verus!
