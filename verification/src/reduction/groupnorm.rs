//! Group norms of images.

use vstd::prelude::*;

use crate::arith::lemma_mul_le_factor;
use crate::dtype::{float_bytes, float_entry, float_size, is_float3, spec_float_entry, DType};
use crate::error::KernelError;
use crate::launch::{launch1, span, spec_launch1, spec_span, Launch, Span};

verus! {

/// Threads of a block.
pub const BLOCK: u32 = 256;

/// The integer parameters of a norm.
#[derive(Clone, Copy, Debug, PartialEq, Eq, Structural)]
pub struct GroupNormParams {
    pub c: i32,
    pub hw: i32,
    pub g: i32,
    pub has_affine: i32,
    pub apply_silu: i32,
    pub x_offset: i64,
    pub w_offset: i64,
    pub b_offset: i64,
    pub y_offset: i64,
}

/// A norm of given buffers.
#[derive(Clone, Copy, Debug, PartialEq, Eq)]
pub struct GroupNormU8 {
    pub launch: Launch,
    pub params: GroupNormParams,
    pub x: Span,
    /// Weight and bias.
    pub affine: Option<(Span, Span)>,
    pub y: Span,
}

/// The entry for an element type and an order of axes.
pub open spec fn entry(dtype: DType, nhwc: bool) -> Option<&'static str> {
    if nhwc {
        spec_float_entry(dtype, "group_norm_nhwc_f32", "group_norm_nhwc_f16", "group_norm_nhwc_bf16")
    } else {
        spec_float_entry(dtype, "group_norm_f32", "group_norm_f16", "group_norm_bf16")
    }
}

/// The outcome of a request for the norm of groups in buffers of bytes.
pub open spec fn group_norm_u8_plan(
    x_off: usize,
    affine: Option<(usize, usize)>,
    y_off: usize,
    b: u32,
    c: u32,
    hw: u32,
    g: u32,
    apply_silu: bool,
    nhwc: bool,
    dtype: DType,
) -> Result<Option<GroupNormU8>, KernelError> {
    if b == 0 || c == 0 || hw == 0 || g == 0 {
        Ok(None)
    } else if !is_float3(dtype) {
        Err(KernelError::Unsupported("group_norm_u8: dtype"))
    } else {
        Ok(
            Some(
                GroupNormU8 {
                    launch: spec_launch1(entry(dtype, nhwc)->0, b * g, BLOCK),
                    params: GroupNormParams {
                        c: c as i32,
                        hw: hw as i32,
                        g: g as i32,
                        has_affine: if affine is Some { 1 } else { 0 },
                        apply_silu: if apply_silu { 1 } else { 0 },
                        x_offset: 0,
                        w_offset: 0,
                        b_offset: 0,
                        y_offset: 0,
                    },
                    x: spec_span(x_off as int, b * c * hw, float_size(dtype)),
                    affine: match affine {
                        Some((w, s)) => Some(
                            (
                                spec_span(w as int, c as int, float_size(dtype)),
                                spec_span(s as int, c as int, float_size(dtype)),
                            ),
                        ),
                        None => None,
                    },
                    y: spec_span(y_off as int, b * c * hw, float_size(dtype)),
                },
            ),
        )
    }
}

/// Plans the norm of `b` images of `c` channels and `hw` points in `g` groups, one block per
/// image and group; nothing is launched for no elements. `affine` holds the offsets of weight and
/// bias.
pub fn run_u8(
    x_off: usize,
    affine: Option<(usize, usize)>,
    y_off: usize,
    b: u32,
    c: u32,
    hw: u32,
    g: u32,
    apply_silu: bool,
    nhwc: bool,
    dtype: DType,
) -> (r: Result<Option<GroupNormU8>, KernelError>)
    requires
        group_norm_u8_plan(x_off, affine, y_off, b, c, hw, g, apply_silu, nhwc, dtype)
            matches Ok(Some(_)) ==> {
            &&& b * g <= u32::MAX
            &&& b * c <= usize::MAX
            &&& x_off + b * c * hw * float_size(dtype) <= usize::MAX
            &&& y_off + b * c * hw * float_size(dtype) <= usize::MAX
            &&& (affine matches Some((w, s)) ==> w + c * float_size(dtype) <= usize::MAX && s + c
                * float_size(dtype) <= usize::MAX)
        },
    ensures
        r == group_norm_u8_plan(x_off, affine, y_off, b, c, hw, g, apply_silu, nhwc, dtype),
{
    if b == 0 || c == 0 || hw == 0 || g == 0 {
        return Ok(None);
    }
    let entry = if nhwc {
        float_entry(dtype, "group_norm_nhwc_f32", "group_norm_nhwc_f16", "group_norm_nhwc_bf16")
    } else {
        float_entry(dtype, "group_norm_f32", "group_norm_f16", "group_norm_bf16")
    };
    let kernel = match entry {
        None => {
            return Err(KernelError::Unsupported("group_norm_u8: dtype"));
        },
        Some(k) => k,
    };
    proof {
        lemma_mul_le_factor(b as int, c as int, hw as int);
        lemma_mul_le_factor(b * c, hw as int, float_size(dtype));
    }
    let esz: usize = float_bytes(dtype);
    let xn: usize = (b as usize) * (c as usize) * (hw as usize);
    let spans = match affine {
        Some((w, s)) => Some((span(w, c as usize, esz), span(s, c as usize, esz))),
        None => None,
    };
    Ok(
        Some(
            GroupNormU8 {
                launch: launch1(kernel, b * g, BLOCK),
                params: GroupNormParams {
                    c: c as i32,
                    hw: hw as i32,
                    g: g as i32,
                    has_affine: if affine.is_some() {
                        1
                    } else {
                        0
                    },
                    apply_silu: if apply_silu {
                        1
                    } else {
                        0
                    },
                    x_offset: 0,
                    w_offset: 0,
                    b_offset: 0,
                    y_offset: 0,
                },
                x: span(x_off, xn, esz),
                affine: spans,
                y: span(y_off, xn, esz),
            },
        ),
    )
}

} // verus!
