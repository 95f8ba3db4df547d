//! Gated activation of rows that hold gate and value side by side.

use vstd::prelude::*;

use crate::arith::{ceil_div, div_ceil_u64, lemma_ceil_div, max2, min2};
use crate::dtype::{float_bytes, float_entry, float_size, is_float3, spec_float_entry, DType};
use crate::error::KernelError;
use crate::launch::{launch1, span, spec_launch1, spec_span, Launch, Span};

verus! {

/// An activation of `t` rows of twice `inner` elements.
#[derive(Clone, Copy, Debug, PartialEq, Eq)]
pub struct GegluSplit {
    pub launch: Launch,
    pub input: Span,
    pub out: Span,
    pub t: i64,
    pub inner: i32,
}

/// The outcome of a request for the activation over buffers of bytes.
pub open spec fn geglu_split_plan(
    inp_off: usize,
    out_off: usize,
    t: u64,
    inner: u32,
    dtype: DType,
) -> Result<Option<GegluSplit>, KernelError> {
    if t == 0 || inner == 0 {
        Ok(None)
    } else if !is_float3(dtype) {
        Err(KernelError::CudaDType("geglu_split: dtype {}", dtype))
    } else {
        Ok(
            Some(
                GegluSplit {
                    launch: spec_launch1(
                        spec_float_entry(
                            dtype,
                            "geglu_split_f32",
                            "geglu_split_f16",
                            "geglu_split_bf16",
                        )->0,
                        max2(min2(ceil_div(t * inner, 256), 65535), 1),
                        256,
                    ),
                    input: spec_span(inp_off as int, t * inner * 2, float_size(dtype)),
                    out: spec_span(out_off as int, t * inner, float_size(dtype)),
                    t: t as i64,
                    inner: inner as i32,
                },
            ),
        )
    }
}

/// Plans the activation; the threads walk the elements in strides where there are more than the
/// grid holds. Nothing is launched for no elements.
pub fn run_geglu_split_u8(inp_off: usize, out_off: usize, t: u64, inner: u32, dtype: DType) -> (r:
    Result<Option<GegluSplit>, KernelError>)
    requires
        t <= usize::MAX,
        t * inner <= usize::MAX,
        geglu_split_plan(inp_off, out_off, t, inner, dtype) matches Ok(Some(_)) ==> {
            &&& t * inner * 2 <= usize::MAX
            &&& inp_off + t * inner * 2 * float_size(dtype) <= usize::MAX
            &&& out_off + t * inner * float_size(dtype) <= usize::MAX
        },
    ensures
        r == geglu_split_plan(inp_off, out_off, t, inner, dtype),
{
    proof {
        assert(0 <= t * inner && (t * inner == 0 <==> t == 0 || inner == 0)) by (nonlinear_arith);
    }
    let n_out: usize = (t as usize) * (inner as usize);
    if n_out == 0 {
        return Ok(None);
    }
    let kernel = match float_entry(
        dtype,
        "geglu_split_f32",
        "geglu_split_f16",
        "geglu_split_bf16",
    ) {
        None => {
            return Err(KernelError::CudaDType("geglu_split: dtype {}", dtype));
        },
        Some(k) => k,
    };
    proof {
        lemma_ceil_div(n_out as int, 256);
    }
    let blocks: u64 = div_ceil_u64(n_out as u64, 256);
    let grid: u32 = if blocks > 65535 {
        65535
    } else {
        blocks as u32
    };
    let esz: usize = float_bytes(dtype);
    Ok(
        Some(
            GegluSplit {
                launch: launch1(kernel, grid, 256),
                input: span(inp_off, n_out * 2, esz),
                out: span(out_off, n_out, esz),
                t: t as i64,
                inner: inner as i32,
            },
        ),
    )
}

} // verus!
