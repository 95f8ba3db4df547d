//! Convolutions along one axis, each channel with a filter of its own.

use vstd::prelude::*;

use crate::arith::{ceil_div, div_ceil_u64, lemma_ceil_div, min2};
use crate::dtype::{float_entry, is_float3, spec_float_entry, DType};
use crate::error::KernelError;
use crate::launch::{launch1, spec_launch1, Launch};
use crate::layout::{lemma_volume_bounds, Operand};

verus! {

/// A convolution of `[B, C, L]` with `[C, 1, K]` into `[B, C, Lo]`: a thread per element of the
/// result.
#[derive(Clone, Copy, Debug, PartialEq, Eq)]
pub struct Dwconv1dPlan {
    pub launch: Launch,
    pub c: i32,
    pub l: i32,
    pub k: i32,
    pub lo: i32,
    pub stride: i32,
    /// The transposed kernels take no padding.
    pub pad: Option<i32>,
    pub total: i64,
    /// There is a bias.
    pub bias: bool,
}

/// The operand starts at the first element of its buffer and has no gaps.
pub open spec fn plain(x: Operand) -> bool {
    x.layout.contiguous && x.layout.offset == 0
}

/// The entry of a convolution.
pub open spec fn dwconv_entry(transpose: bool, dtype: DType) -> Option<&'static str> {
    if transpose {
        spec_float_entry(dtype, "dwconvt1d_f32", "dwconvt1d_f16", "dwconvt1d_bf16")
    } else {
        spec_float_entry(dtype, "dwconv1d_f32", "dwconv1d_f16", "dwconv1d_bf16")
    }
}

/// What is wrong with the element types or the layouts, if anything.
pub open spec fn dwconv1d_early(input: Operand, weight: Operand, out: Operand) -> Option<KernelError> {
    let dtype = input.layout.dtype;
    if weight.layout.dtype != dtype || out.layout.dtype != dtype {
        Some(KernelError::Unsupported("dwconv1d: dtype mismatch"))
    } else if !plain(input) || !plain(weight) {
        Some(KernelError::Unsupported("dwconv1d: non-contiguous"))
    } else {
        None
    }
}

/// The outcome of a request.
pub open spec fn dwconv1d_plan(
    input: Operand,
    weight: Operand,
    bias: Option<Operand>,
    out: Operand,
    stride: usize,
    pad: usize,
    transpose: bool,
) -> Result<Dwconv1dPlan, KernelError> {
    let dtype = input.layout.dtype;
    if dwconv1d_early(input, weight, out) is Some {
        Err(dwconv1d_early(input, weight, out)->0)
    } else if !input.cuda {
        Err(KernelError::Unsupported("dwconv1d: x non-cuda"))
    } else if !weight.cuda {
        Err(KernelError::Unsupported("dwconv1d: w non-cuda"))
    } else if !out.cuda {
        Err(KernelError::Unsupported("dwconv1d: out non-cuda"))
    } else if bias matches Some(b) && (b.layout.dtype != dtype || !plain(b)) {
        Err(KernelError::Unsupported("dwconv1d: bias layout"))
    } else if bias matches Some(b) && !b.cuda {
        Err(KernelError::Unsupported("dwconv1d: bias non-cuda"))
    } else if !is_float3(dtype) {
        Err(KernelError::Unsupported("dwconv1d: dtype"))
    } else {
        Ok(
            Dwconv1dPlan {
                launch: spec_launch1(
                    dwconv_entry(transpose, dtype)->0,
                    min2(ceil_div(out.layout.numel as int, 256), u32::MAX as int),
                    256,
                ),
                c: input.layout.dims@[1] as i32,
                l: input.layout.dims@[2] as i32,
                k: weight.layout.dims@[2] as i32,
                lo: out.layout.dims@[2] as i32,
                stride: stride as i32,
                pad: if transpose { None } else { Some(pad as i32) },
                total: out.layout.numel as i64,
                bias: bias is Some,
            },
        )
    }
}

/// Plans a convolution, or a transposed one of full length.
pub fn run_dwconv1d(
    input: &Operand,
    weight: &Operand,
    bias: Option<&Operand>,
    out: &Operand,
    stride: usize,
    pad: usize,
    transpose: bool,
) -> (r: Result<Dwconv1dPlan, KernelError>)
    requires
        input.wf(),
        weight.wf(),
        out.wf(),
        dwconv1d_early(*input, *weight, *out) is None ==> {
            &&& input.layout.dims@.len() >= 3
            &&& weight.layout.dims@.len() >= 3
            &&& out.layout.dims@.len() >= 3
        },
    ensures
        r == dwconv1d_plan(
            *input,
            *weight,
            match bias {
                Some(b) => Some(*b),
                None => None,
            },
            *out,
            stride,
            pad,
            transpose,
        ),
{
    let dtype = input.layout.dtype;
    if weight.layout.dtype != dtype || out.layout.dtype != dtype {
        return Err(KernelError::Unsupported("dwconv1d: dtype mismatch"));
    }
    if !input.layout.contiguous || input.layout.offset != 0 || !weight.layout.contiguous
        || weight.layout.offset != 0 {
        return Err(KernelError::Unsupported("dwconv1d: non-contiguous"));
    }
    if !input.cuda {
        return Err(KernelError::Unsupported("dwconv1d: x non-cuda"));
    }
    if !weight.cuda {
        return Err(KernelError::Unsupported("dwconv1d: w non-cuda"));
    }
    if !out.cuda {
        return Err(KernelError::Unsupported("dwconv1d: out non-cuda"));
    }
    match bias {
        Some(b) => {
            if b.layout.dtype != dtype || !b.layout.contiguous || b.layout.offset != 0 {
                return Err(KernelError::Unsupported("dwconv1d: bias layout"));
            }
            if !b.cuda {
                return Err(KernelError::Unsupported("dwconv1d: bias non-cuda"));
            }
        },
        None => {},
    }
    let entry = if transpose {
        float_entry(dtype, "dwconvt1d_f32", "dwconvt1d_f16", "dwconvt1d_bf16")
    } else {
        float_entry(dtype, "dwconv1d_f32", "dwconv1d_f16", "dwconv1d_bf16")
    };
    let kernel = match entry {
        None => {
            return Err(KernelError::Unsupported("dwconv1d: dtype"));
        },
        Some(k) => k,
    };
    proof {
        lemma_volume_bounds(out.layout.dims@);
        lemma_ceil_div(out.layout.numel as int, 256);
    }
    let blocks: u64 = div_ceil_u64(out.layout.numel as u64, 256);
    let grid: u32 = if blocks > u32::MAX as u64 {
        u32::MAX
    } else {
        blocks as u32
    };
    Ok(
        Dwconv1dPlan {
            launch: launch1(kernel, grid, 256),
            c: input.layout.dims[1] as i32,
            l: input.layout.dims[2] as i32,
            k: weight.layout.dims[2] as i32,
            lo: out.layout.dims[2] as i32,
            stride: stride as i32,
            pad: if transpose {
                None
            } else {
                Some(pad as i32)
            },
            total: out.layout.numel as i64,
            bias: bias.is_some(),
        },
    )
}

} // verus!
