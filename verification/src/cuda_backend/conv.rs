//! Convolutions and what goes with them.

use vstd::prelude::*;

use crate::cuda_backend::attention::half_float;
use crate::cuda_backend::linear_attn::one_of_three;
use crate::cuda_backend::optional::{
    given, has_gaps, is_not_a_row, is_not_of_size, is_off_device, is_starting_later, is_with_gaps,
    not_a_row, not_of_size, off_device, start, start_of, starts_later,
};
use crate::cuda_backend::conv_laws::reads_given;
use crate::cuda_backend::CudaBackend;
use crate::dtype::{is_float3, is_half, DType};
use crate::error::KernelError;
use crate::layout::{lemma_four, same_dims, Layout, Operand};

verus! {

/// A convolution of `[b, c_in, h, w]` with `[c_out, c_in, kh, kw]`.
#[derive(Clone, Copy, Debug, PartialEq, Eq)]
pub struct Conv2dPlan {
    pub dtype: DType,
    pub b: u32,
    pub c_in: u32,
    pub h: u32,
    pub w: u32,
    pub c_out: u32,
    pub kh: u32,
    pub kw: u32,
    pub stride: (u32, u32),
    pub padding: (u32, u32),
    pub in_off: usize,
    pub w_off: usize,
    pub bias_off: Option<usize>,
}

/// The outcome of a request for a convolution over two axes.
pub open spec fn conv2d_plan(
    input: Operand,
    weight: Operand,
    bias: Option<Operand>,
    out: Operand,
    stride: (usize, usize),
    padding: (usize, usize),
) -> Result<Conv2dPlan, KernelError> {
    let (il, wl) = (input.layout, weight.layout);
    let d = il.dims@;
    let wd = wl.dims@;
    if !is_float3(il.dtype) {
        Err(KernelError::Unsupported("cuda conv2d: dtype"))
    } else if wl.dtype != il.dtype {
        Err(KernelError::Unsupported("cuda conv2d: dtype mismatch x/w"))
    } else if d.len() != 4 || wd.len() != 4 {
        Err(KernelError::Unsupported("cuda conv2d: rank != 4"))
    } else if !il.contiguous || !wl.contiguous {
        Err(KernelError::NonContiguous)
    } else if wd[1] != d[1] {
        Err(KernelError::Unsupported("cuda conv2d: c_in mismatch"))
    } else if not_a_row(bias, il.dtype, wd[0]) {
        Err(KernelError::Unsupported("cuda conv2d: bias shape/dtype"))
    } else if has_gaps(bias) {
        Err(KernelError::NonContiguous)
    } else if !input.cuda {
        Err(KernelError::Unsupported("cuda conv2d: in non-cuda"))
    } else if !weight.cuda {
        Err(KernelError::Unsupported("cuda conv2d: w non-cuda"))
    } else if off_device(bias) {
        Err(KernelError::Unsupported("cuda conv2d: bias non-cuda"))
    } else if !out.cuda {
        Err(KernelError::Unsupported("cuda conv2d: out non-cuda"))
    } else {
        Ok(
            Conv2dPlan {
                dtype: il.dtype,
                b: d[0] as u32,
                c_in: d[1] as u32,
                h: d[2] as u32,
                w: d[3] as u32,
                c_out: wd[0] as u32,
                kh: wd[2] as u32,
                kw: wd[3] as u32,
                stride: (stride.0 as u32, stride.1 as u32),
                padding: (padding.0 as u32, padding.1 as u32),
                in_off: il.byte_offset,
                w_off: wl.byte_offset,
                bias_off: start_of(bias),
            },
        )
    }
}

/// A convolution of `[b, c_in, d, h, w]` with `[c_out, c_in, kd, kh, kw]`.
#[derive(Clone, Copy, Debug, PartialEq, Eq)]
pub struct Conv3dPlan {
    pub dtype: DType,
    pub b: u32,
    pub c_in: u32,
    pub d: u32,
    pub h: u32,
    pub w: u32,
    pub c_out: u32,
    pub kd: u32,
    pub kh: u32,
    pub kw: u32,
    pub stride: (u32, u32, u32),
    pub padding: (u32, u32, u32),
    pub in_off: usize,
    pub w_off: usize,
    pub bias_off: Option<usize>,
}

/// The outcome of a request for a convolution over three axes.
pub open spec fn conv3d_plan(
    input: Operand,
    weight: Operand,
    bias: Option<Operand>,
    out: Operand,
    stride: (usize, usize, usize),
    padding: (usize, usize, usize),
) -> Result<Conv3dPlan, KernelError> {
    let (il, wl) = (input.layout, weight.layout);
    let d = il.dims@;
    let wd = wl.dims@;
    if !is_float3(il.dtype) {
        Err(KernelError::Unsupported("cuda conv3d: dtype"))
    } else if wl.dtype != il.dtype {
        Err(KernelError::Unsupported("cuda conv3d: dtype mismatch x/w"))
    } else if d.len() != 5 || wd.len() != 5 {
        Err(KernelError::Unsupported("cuda conv3d: rank != 5"))
    } else if !il.contiguous || !wl.contiguous {
        Err(KernelError::NonContiguous)
    } else if wd[1] != d[1] {
        Err(KernelError::Unsupported("cuda conv3d: c_in mismatch"))
    } else if not_a_row(bias, il.dtype, wd[0]) {
        Err(KernelError::Unsupported("cuda conv3d: bias shape/dtype"))
    } else if has_gaps(bias) {
        Err(KernelError::NonContiguous)
    } else if !input.cuda {
        Err(KernelError::Unsupported("cuda conv3d: in non-cuda"))
    } else if !weight.cuda {
        Err(KernelError::Unsupported("cuda conv3d: w non-cuda"))
    } else if off_device(bias) {
        Err(KernelError::Unsupported("cuda conv3d: bias non-cuda"))
    } else if !out.cuda {
        Err(KernelError::Unsupported("cuda conv3d: out non-cuda"))
    } else {
        Ok(
            Conv3dPlan {
                dtype: il.dtype,
                b: d[0] as u32,
                c_in: d[1] as u32,
                d: d[2] as u32,
                h: d[3] as u32,
                w: d[4] as u32,
                c_out: wd[0] as u32,
                kd: wd[2] as u32,
                kh: wd[3] as u32,
                kw: wd[4] as u32,
                stride: (stride.0 as u32, stride.1 as u32, stride.2 as u32),
                padding: (padding.0 as u32, padding.1 as u32, padding.2 as u32),
                in_off: il.byte_offset,
                w_off: wl.byte_offset,
                bias_off: start_of(bias),
            },
        )
    }
}

/// The windows of `[b, c_in, h, w]` as rows, `m_count` of them from `m_offset` on.
#[derive(Clone, Copy, Debug, PartialEq, Eq)]
pub struct Im2colPlan {
    pub dtype: DType,
    pub b: u32,
    pub c_in: u32,
    pub h: u32,
    pub w: u32,
    pub kh: u32,
    pub kw: u32,
    pub h_out: u32,
    pub w_out: u32,
    pub stride: (u32, u32),
    pub padding: (u32, u32),
    pub m_offset: u64,
    pub m_count: u64,
    pub in_off: usize,
}

/// The outcome of a request for windows as rows.
pub open spec fn im2col_plan(
    input: Operand,
    col: Operand,
    kh: usize,
    kw: usize,
    h_out: usize,
    w_out: usize,
    stride: (usize, usize),
    padding: (usize, usize),
    m_offset: u64,
    m_count: u64,
) -> Result<Im2colPlan, KernelError> {
    let il = input.layout;
    let d = il.dims@;
    if !is_float3(il.dtype) {
        Err(KernelError::Unsupported("cuda im2col: dtype"))
    } else if d.len() != 4 {
        Err(KernelError::Unsupported("cuda im2col: rank != 4"))
    } else if !il.contiguous {
        Err(KernelError::NonContiguous)
    } else if !input.cuda {
        Err(KernelError::Unsupported("cuda im2col: in non-cuda"))
    } else if !col.cuda {
        Err(KernelError::Unsupported("cuda im2col: col non-cuda"))
    } else {
        Ok(
            Im2colPlan {
                dtype: il.dtype,
                b: d[0] as u32,
                c_in: d[1] as u32,
                h: d[2] as u32,
                w: d[3] as u32,
                kh: kh as u32,
                kw: kw as u32,
                h_out: h_out as u32,
                w_out: w_out as u32,
                stride: (stride.0 as u32, stride.1 as u32),
                padding: (padding.0 as u32, padding.1 as u32),
                m_offset,
                m_count,
                in_off: il.byte_offset,
            },
        )
    }
}

/// An operation on images of `[b, c, h, w]`.
#[derive(Clone, Copy, Debug, PartialEq, Eq)]
pub struct ImagePlan {
    pub dtype: DType,
    pub b: u32,
    pub c: u32,
    pub h: u32,
    pub w: u32,
    pub in_off: usize,
}

/// The outcome of a request to move channels to the last axis.
pub open spec fn to_nhwc_plan(
    src: Operand,
    dst: Operand,
) -> Result<ImagePlan, KernelError> {
    let il = src.layout;
    let d = il.dims@;
    if !is_float3(il.dtype) {
        Err(KernelError::Unsupported("cuda nchw_to_nhwc: dtype"))
    } else if d.len() != 4 || !il.contiguous {
        Err(KernelError::NonContiguous)
    } else if !src.cuda {
        Err(KernelError::Unsupported("cuda nchw_to_nhwc: src non-cuda"))
    } else if !dst.cuda {
        Err(KernelError::Unsupported("cuda nchw_to_nhwc: dst non-cuda"))
    } else {
        Ok(
            ImagePlan {
                dtype: il.dtype,
                b: d[0] as u32,
                c: d[1] as u32,
                h: d[2] as u32,
                w: d[3] as u32,
                in_off: il.byte_offset,
            },
        )
    }
}

/// The outcome of a request to move channels back behind the batch.
pub open spec fn to_nchw_plan(
    src: Operand,
    dst: Operand,
) -> Result<ImagePlan, KernelError> {
    let il = src.layout;
    let d = dst.layout.dims@;
    if !is_float3(il.dtype) {
        Err(KernelError::Unsupported("cuda nhwc_to_nchw: dtype"))
    } else if il.dims@.len() != 4 || !il.dense {
        Err(KernelError::NonContiguous)
    } else if !src.cuda {
        Err(KernelError::Unsupported("cuda nhwc_to_nchw: src non-cuda"))
    } else if !dst.cuda {
        Err(KernelError::Unsupported("cuda nhwc_to_nchw: dst non-cuda"))
    } else {
        Ok(
            ImagePlan {
                dtype: il.dtype,
                b: d[0] as u32,
                c: d[1] as u32,
                h: d[2] as u32,
                w: d[3] as u32,
                in_off: il.byte_offset,
            },
        )
    }
}

/// The outcome of a request to double both sides.
pub open spec fn upsample_plan(
    input: Operand,
    out: Operand,
) -> Result<ImagePlan, KernelError> {
    let il = input.layout;
    let d = il.dims@;
    if !is_float3(il.dtype) {
        Err(KernelError::Unsupported("cuda upsample2x: dtype"))
    } else if d.len() != 4 {
        Err(KernelError::Unsupported("cuda upsample2x: rank != 4"))
    } else if !il.contiguous {
        Err(KernelError::NonContiguous)
    } else if !input.cuda {
        Err(KernelError::Unsupported("cuda upsample2x: in non-cuda"))
    } else if !out.cuda {
        Err(KernelError::Unsupported("cuda upsample2x: out non-cuda"))
    } else {
        Ok(
            ImagePlan {
                dtype: il.dtype,
                b: d[0] as u32,
                c: d[1] as u32,
                h: d[2] as u32,
                w: d[3] as u32,
                in_off: il.byte_offset,
            },
        )
    }
}

/// A convolution of `[n, h, w, c]` with `[k, r, s, c]` into `p` rows of `q` points, as one matrix
/// product. What is added to the result is read from the start of its buffer.
#[derive(Clone, Copy, Debug, PartialEq, Eq)]
pub struct ImplicitConvPlan {
    pub dtype: DType,
    pub n: u32,
    pub h: u32,
    pub w: u32,
    pub c: u32,
    pub k: u32,
    pub r: u32,
    pub s: u32,
    pub p: u32,
    pub q: u32,
    pub padding: (u32, u32),
    pub stride: (u32, u32),
    pub in_off: usize,
    pub f_off: usize,
    pub bias: bool,
    pub residual: bool,
    pub temb: bool,
    pub out_nhwc: bool,
}

/// The outcome of a request for a convolution as one matrix product.
pub open spec fn implicit_conv_plan(
    input_nhwc: Operand,
    filter_krsc: Operand,
    bias: Option<Operand>,
    residual: Option<Operand>,
    temb: Option<Operand>,
    out: Operand,
    out_nhwc: bool,
    stride: (usize, usize),
    padding: (usize, usize),
) -> Result<ImplicitConvPlan, KernelError> {
    let (il, fl, ol) = (input_nhwc.layout, filter_krsc.layout, out.layout);
    let d = il.dims@;
    let fd = fl.dims@;
    let od = ol.dims@;
    if !is_half(il.dtype) {
        Err(KernelError::Unsupported("conv2d_implicit: dtype F16/BF16"))
    } else if fl.dtype != il.dtype {
        Err(KernelError::Unsupported("conv2d_implicit: filter dtype"))
    } else if d.len() != 4 || fd.len() != 4 || od.len() != 4 {
        Err(KernelError::Unsupported("conv2d_implicit: rank != 4"))
    } else if !il.dense || !fl.contiguous {
        Err(KernelError::NonContiguous)
    } else if fd[3] != d[3] {
        Err(KernelError::Unsupported("conv2d_implicit: C mismatch"))
    } else if out_nhwc && (od[0] != d[0] || od[3] != fd[0]) {
        Err(KernelError::Unsupported("conv2d_implicit: out shape nhwc"))
    } else if !out_nhwc && (od[0] != d[0] || od[1] != fd[0]) {
        Err(KernelError::Unsupported("conv2d_implicit: out shape"))
    } else if !input_nhwc.cuda {
        Err(KernelError::Unsupported("conv2d_implicit: in non-cuda"))
    } else if !filter_krsc.cuda {
        Err(KernelError::Unsupported("conv2d_implicit: f non-cuda"))
    } else if not_of_size(bias, il.dtype, fd[0] as int) {
        Err(KernelError::Unsupported("conv2d_implicit: bias shape"))
    } else if off_device(bias) {
        Err(KernelError::Unsupported("conv2d_implicit: bias non-cuda"))
    } else if not_of_size(residual, il.dtype, od[0] * od[1] * od[2] * od[3]) || starts_later(residual) {
        Err(KernelError::Unsupported("conv2d_implicit: residual shape"))
    } else if off_device(residual) {
        Err(KernelError::Unsupported("conv2d_implicit: residual non-cuda"))
    } else if not_of_size(temb, il.dtype, d[0] * fd[0]) {
        Err(KernelError::Unsupported("conv2d_implicit: temb shape"))
    } else if off_device(temb) {
        Err(KernelError::Unsupported("conv2d_implicit: temb non-cuda"))
    } else if !out.cuda {
        Err(KernelError::Unsupported("conv2d_implicit: out non-cuda"))
    } else {
        Ok(
            ImplicitConvPlan {
                dtype: il.dtype,
                n: d[0] as u32,
                h: d[1] as u32,
                w: d[2] as u32,
                c: d[3] as u32,
                k: fd[0] as u32,
                r: fd[1] as u32,
                s: fd[2] as u32,
                p: (if out_nhwc { od[1] } else { od[2] }) as u32,
                q: (if out_nhwc { od[2] } else { od[3] }) as u32,
                padding: (padding.0 as u32, padding.1 as u32),
                stride: (stride.0 as u32, stride.1 as u32),
                in_off: il.byte_offset,
                f_off: fl.byte_offset,
                bias: bias is Some,
                residual: residual is Some,
                temb: temb is Some,
                out_nhwc,
            },
        )
    }
}

/// There is an operand, and it is not of the shape `dims` and the type `dtype`.
pub open spec fn not_shaped(o: Option<Operand>, dtype: DType, dims: Seq<usize>) -> bool {
    match o {
        Some(x) => x.layout.dtype != dtype || x.layout.dims@ != dims,
        None => false,
    }
}

fn is_not_shaped(o: Option<&Operand>, dtype: DType, dims: &Vec<usize>) -> (r: bool)
    ensures
        r == not_shaped(given(o), dtype, dims@),
{
    match o {
        Some(x) => x.layout.dtype != dtype || !same_dims(&x.layout.dims, dims),
        None => false,
    }
}

/// What is added behind a convolution as a matrix product, and the move to `[b, c, h, w]`.
#[derive(Clone, Copy, Debug, PartialEq, Eq)]
pub struct ConvEpiloguePlan {
    pub dtype: DType,
    pub b: u32,
    pub c: u32,
    pub h: u32,
    pub w: u32,
    pub in_off: usize,
    pub bias_off: Option<usize>,
    pub residual_off: Option<usize>,
    pub temb_off: Option<usize>,
}

/// The outcome of a request for what is added behind a convolution.
pub open spec fn conv_epilogue_plan(
    out2d: Operand,
    bias: Option<Operand>,
    residual: Option<Operand>,
    temb_bc: Option<Operand>,
    out: Operand,
    b: usize,
    c: usize,
    h: usize,
    w: usize,
) -> Result<ConvEpiloguePlan, KernelError> {
    let il = out2d.layout;
    if !is_float3(il.dtype) {
        Err(KernelError::Unsupported("cuda conv_epilogue: dtype"))
    } else if !il.contiguous {
        Err(KernelError::NonContiguous)
    } else if not_a_row(bias, il.dtype, c) {
        Err(KernelError::Unsupported("cuda conv_epilogue: bias shape/dtype"))
    } else if has_gaps(bias) {
        Err(KernelError::NonContiguous)
    } else if not_shaped(residual, il.dtype, seq![b, c, h, w]) {
        Err(KernelError::Unsupported("cuda conv_epilogue: residual shape/dtype"))
    } else if has_gaps(residual) {
        Err(KernelError::NonContiguous)
    } else if not_shaped(temb_bc, il.dtype, seq![b, c]) {
        Err(KernelError::Unsupported("cuda conv_epilogue: temb shape/dtype"))
    } else if has_gaps(temb_bc) {
        Err(KernelError::NonContiguous)
    } else if !out2d.cuda {
        Err(KernelError::Unsupported("cuda conv_epilogue: in non-cuda"))
    } else if off_device(bias) {
        Err(KernelError::Unsupported("cuda conv_epilogue: bias non-cuda"))
    } else if off_device(residual) {
        Err(KernelError::Unsupported("cuda conv_epilogue: residual non-cuda"))
    } else if off_device(temb_bc) {
        Err(KernelError::Unsupported("cuda conv_epilogue: temb non-cuda"))
    } else if !out.cuda {
        Err(KernelError::Unsupported("cuda conv_epilogue: out non-cuda"))
    } else {
        Ok(
            ConvEpiloguePlan {
                dtype: il.dtype,
                b: b as u32,
                c: c as u32,
                h: h as u32,
                w: w as u32,
                in_off: il.byte_offset,
                bias_off: start_of(bias),
                residual_off: start_of(residual),
                temb_off: start_of(temb_bc),
            },
        )
    }
}

impl CudaBackend {
    /// Plans a convolution over two axes.
    pub fn conv2d(
        &self,
        input: &Operand,
        weight: &Operand,
        bias: Option<&Operand>,
        out: &Operand,
        stride: (usize, usize),
        padding: (usize, usize),
    ) -> (r: Result<Conv2dPlan, KernelError>)
        ensures
            r == conv2d_plan(*input, *weight, given(bias), *out, stride, padding),
            r matches Ok(p) ==> reads_given(p.bias_off, given(bias)) && (bias is Some <==> p.bias_off is Some),
    {
        let (il, wl): (&Layout, &Layout) = (&input.layout, &weight.layout);
        let (d, wd) = (&il.dims, &wl.dims);
        if !one_of_three(il.dtype) {
            return Err(KernelError::Unsupported("cuda conv2d: dtype"));
        }
        if wl.dtype != il.dtype {
            return Err(KernelError::Unsupported("cuda conv2d: dtype mismatch x/w"));
        }
        if d.len() != 4 || wd.len() != 4 {
            return Err(KernelError::Unsupported("cuda conv2d: rank != 4"));
        }
        if !il.contiguous || !wl.contiguous {
            return Err(KernelError::NonContiguous);
        }
        if wd[1] != d[1] {
            return Err(KernelError::Unsupported("cuda conv2d: c_in mismatch"));
        }
        if is_not_a_row(bias, il.dtype, wd[0]) {
            return Err(KernelError::Unsupported("cuda conv2d: bias shape/dtype"));
        }
        if is_with_gaps(bias) {
            return Err(KernelError::NonContiguous);
        }
        if !input.cuda {
            return Err(KernelError::Unsupported("cuda conv2d: in non-cuda"));
        }
        if !weight.cuda {
            return Err(KernelError::Unsupported("cuda conv2d: w non-cuda"));
        }
        if is_off_device(bias) {
            return Err(KernelError::Unsupported("cuda conv2d: bias non-cuda"));
        }
        if !out.cuda {
            return Err(KernelError::Unsupported("cuda conv2d: out non-cuda"));
        }
        Ok(
            Conv2dPlan {
                dtype: il.dtype,
                b: d[0] as u32,
                c_in: d[1] as u32,
                h: d[2] as u32,
                w: d[3] as u32,
                c_out: wd[0] as u32,
                kh: wd[2] as u32,
                kw: wd[3] as u32,
                stride: (stride.0 as u32, stride.1 as u32),
                padding: (padding.0 as u32, padding.1 as u32),
                in_off: il.byte_offset,
                w_off: wl.byte_offset,
                bias_off: start(bias),
            },
        )
    }

    /// Plans a convolution over three axes.
    pub fn conv3d(
        &self,
        input: &Operand,
        weight: &Operand,
        bias: Option<&Operand>,
        out: &Operand,
        stride: (usize, usize, usize),
        padding: (usize, usize, usize),
    ) -> (r: Result<Conv3dPlan, KernelError>)
        ensures
            r == conv3d_plan(*input, *weight, given(bias), *out, stride, padding),
            r matches Ok(p) ==> reads_given(p.bias_off, given(bias)) && (bias is Some <==> p.bias_off is Some),
    {
        let (il, wl): (&Layout, &Layout) = (&input.layout, &weight.layout);
        let (d, wd) = (&il.dims, &wl.dims);
        if !one_of_three(il.dtype) {
            return Err(KernelError::Unsupported("cuda conv3d: dtype"));
        }
        if wl.dtype != il.dtype {
            return Err(KernelError::Unsupported("cuda conv3d: dtype mismatch x/w"));
        }
        if d.len() != 5 || wd.len() != 5 {
            return Err(KernelError::Unsupported("cuda conv3d: rank != 5"));
        }
        if !il.contiguous || !wl.contiguous {
            return Err(KernelError::NonContiguous);
        }
        if wd[1] != d[1] {
            return Err(KernelError::Unsupported("cuda conv3d: c_in mismatch"));
        }
        if is_not_a_row(bias, il.dtype, wd[0]) {
            return Err(KernelError::Unsupported("cuda conv3d: bias shape/dtype"));
        }
        if is_with_gaps(bias) {
            return Err(KernelError::NonContiguous);
        }
        if !input.cuda {
            return Err(KernelError::Unsupported("cuda conv3d: in non-cuda"));
        }
        if !weight.cuda {
            return Err(KernelError::Unsupported("cuda conv3d: w non-cuda"));
        }
        if is_off_device(bias) {
            return Err(KernelError::Unsupported("cuda conv3d: bias non-cuda"));
        }
        if !out.cuda {
            return Err(KernelError::Unsupported("cuda conv3d: out non-cuda"));
        }
        Ok(
            Conv3dPlan {
                dtype: il.dtype,
                b: d[0] as u32,
                c_in: d[1] as u32,
                d: d[2] as u32,
                h: d[3] as u32,
                w: d[4] as u32,
                c_out: wd[0] as u32,
                kd: wd[2] as u32,
                kh: wd[3] as u32,
                kw: wd[4] as u32,
                stride: (stride.0 as u32, stride.1 as u32, stride.2 as u32),
                padding: (padding.0 as u32, padding.1 as u32, padding.2 as u32),
                in_off: il.byte_offset,
                w_off: wl.byte_offset,
                bias_off: start(bias),
            },
        )
    }

    /// Plans the windows of an image as rows of a matrix.
    pub fn im2col(
        &self,
        input: &Operand,
        col: &Operand,
        kh: usize,
        kw: usize,
        h_out: usize,
        w_out: usize,
        stride: (usize, usize),
        padding: (usize, usize),
        m_offset: u64,
        m_count: u64,
    ) -> (r: Result<Im2colPlan, KernelError>)
        ensures
            r == im2col_plan(*input, *col, kh, kw, h_out, w_out, stride, padding, m_offset, m_count),
    {
        let il = &input.layout;
        let d = &il.dims;
        if !one_of_three(il.dtype) {
            return Err(KernelError::Unsupported("cuda im2col: dtype"));
        }
        if d.len() != 4 {
            return Err(KernelError::Unsupported("cuda im2col: rank != 4"));
        }
        if !il.contiguous {
            return Err(KernelError::NonContiguous);
        }
        if !input.cuda {
            return Err(KernelError::Unsupported("cuda im2col: in non-cuda"));
        }
        if !col.cuda {
            return Err(KernelError::Unsupported("cuda im2col: col non-cuda"));
        }
        Ok(
            Im2colPlan {
                dtype: il.dtype,
                b: d[0] as u32,
                c_in: d[1] as u32,
                h: d[2] as u32,
                w: d[3] as u32,
                kh: kh as u32,
                kw: kw as u32,
                h_out: h_out as u32,
                w_out: w_out as u32,
                stride: (stride.0 as u32, stride.1 as u32),
                padding: (padding.0 as u32, padding.1 as u32),
                m_offset,
                m_count,
                in_off: il.byte_offset,
            },
        )
    }

    /// Plans the move of channels to the last axis.
    pub fn nchw_to_nhwc(
        &self,
        src: &Operand,
        dst: &Operand,
    ) -> (r: Result<ImagePlan, KernelError>)
        ensures
            r == to_nhwc_plan(*src, *dst),
    {
        let il = &src.layout;
        let d = &il.dims;
        if !one_of_three(il.dtype) {
            return Err(KernelError::Unsupported("cuda nchw_to_nhwc: dtype"));
        }
        if d.len() != 4 || !il.contiguous {
            return Err(KernelError::NonContiguous);
        }
        if !src.cuda {
            return Err(KernelError::Unsupported("cuda nchw_to_nhwc: src non-cuda"));
        }
        if !dst.cuda {
            return Err(KernelError::Unsupported("cuda nchw_to_nhwc: dst non-cuda"));
        }
        Ok(
            ImagePlan {
                dtype: il.dtype,
                b: d[0] as u32,
                c: d[1] as u32,
                h: d[2] as u32,
                w: d[3] as u32,
                in_off: il.byte_offset,
            },
        )
    }

    /// Plans the move of channels back behind the batch; the sizes are those of the result.
    pub fn nhwc_to_nchw(
        &self,
        src: &Operand,
        dst: &Operand,
    ) -> (r: Result<ImagePlan, KernelError>)
        requires
            is_float3(src.layout.dtype) && src.layout.dims@.len() == 4 && src.layout.dense
                ==> dst.layout.dims@.len() >= 4,
        ensures
            r == to_nchw_plan(*src, *dst),
    {
        let il = &src.layout;
        let d = &dst.layout.dims;
        if !one_of_three(il.dtype) {
            return Err(KernelError::Unsupported("cuda nhwc_to_nchw: dtype"));
        }
        if il.dims.len() != 4 || !il.dense {
            return Err(KernelError::NonContiguous);
        }
        if !src.cuda {
            return Err(KernelError::Unsupported("cuda nhwc_to_nchw: src non-cuda"));
        }
        if !dst.cuda {
            return Err(KernelError::Unsupported("cuda nhwc_to_nchw: dst non-cuda"));
        }
        Ok(
            ImagePlan {
                dtype: il.dtype,
                b: d[0] as u32,
                c: d[1] as u32,
                h: d[2] as u32,
                w: d[3] as u32,
                in_off: il.byte_offset,
            },
        )
    }

    /// Plans the doubling of both sides of images.
    pub fn upsample_nearest2x(
        &self,
        input: &Operand,
        out: &Operand,
    ) -> (r: Result<ImagePlan, KernelError>)
        ensures
            r == upsample_plan(*input, *out),
    {
        let il = &input.layout;
        let d = &il.dims;
        if !one_of_three(il.dtype) {
            return Err(KernelError::Unsupported("cuda upsample2x: dtype"));
        }
        if d.len() != 4 {
            return Err(KernelError::Unsupported("cuda upsample2x: rank != 4"));
        }
        if !il.contiguous {
            return Err(KernelError::NonContiguous);
        }
        if !input.cuda {
            return Err(KernelError::Unsupported("cuda upsample2x: in non-cuda"));
        }
        if !out.cuda {
            return Err(KernelError::Unsupported("cuda upsample2x: out non-cuda"));
        }
        Ok(
            ImagePlan {
                dtype: il.dtype,
                b: d[0] as u32,
                c: d[1] as u32,
                h: d[2] as u32,
                w: d[3] as u32,
                in_off: il.byte_offset,
            },
        )
    }

    /// Plans a convolution as one matrix product, with a bias, a residual and a term per image and
    /// channel added in the same launch.
    pub fn conv2d_implicit_nhwc(
        &self,
        input_nhwc: &Operand,
        filter_krsc: &Operand,
        bias: Option<&Operand>,
        residual: Option<&Operand>,
        temb: Option<&Operand>,
        out: &Operand,
        out_nhwc: bool,
        stride: (usize, usize),
        padding: (usize, usize),
    ) -> (r: Result<ImplicitConvPlan, KernelError>)
        requires
            out.wf(),
        ensures
            r == implicit_conv_plan(
                *input_nhwc,
                *filter_krsc,
                given(bias),
                given(residual),
                given(temb),
                *out,
                out_nhwc,
                stride,
                padding,
            ),
    {
        let (il, fl, ol): (&Layout, &Layout, &Layout) = (
            &input_nhwc.layout,
            &filter_krsc.layout,
            &out.layout,
        );
        let (d, fd, od) = (&il.dims, &fl.dims, &ol.dims);
        if !half_float(il.dtype) {
            return Err(KernelError::Unsupported("conv2d_implicit: dtype F16/BF16"));
        }
        if fl.dtype != il.dtype {
            return Err(KernelError::Unsupported("conv2d_implicit: filter dtype"));
        }
        if d.len() != 4 || fd.len() != 4 || od.len() != 4 {
            return Err(KernelError::Unsupported("conv2d_implicit: rank != 4"));
        }
        if !il.dense || !fl.contiguous {
            return Err(KernelError::NonContiguous);
        }
        if fd[3] != d[3] {
            return Err(KernelError::Unsupported("conv2d_implicit: C mismatch"));
        }
        if out_nhwc && (od[0] != d[0] || od[3] != fd[0]) {
            return Err(KernelError::Unsupported("conv2d_implicit: out shape nhwc"));
        }
        if !out_nhwc && (od[0] != d[0] || od[1] != fd[0]) {
            return Err(KernelError::Unsupported("conv2d_implicit: out shape"));
        }
        if !input_nhwc.cuda {
            return Err(KernelError::Unsupported("conv2d_implicit: in non-cuda"));
        }
        if !filter_krsc.cuda {
            return Err(KernelError::Unsupported("conv2d_implicit: f non-cuda"));
        }
        if is_not_of_size(bias, il.dtype, fd[0]) {
            return Err(KernelError::Unsupported("conv2d_implicit: bias shape"));
        }
        if is_off_device(bias) {
            return Err(KernelError::Unsupported("conv2d_implicit: bias non-cuda"));
        }
        proof {
            lemma_four(ol.dims@);
        }
        if is_not_of_size(residual, il.dtype, od[0] * od[1] * od[2] * od[3]) || is_starting_later(
            residual,
        ) {
            return Err(KernelError::Unsupported("conv2d_implicit: residual shape"));
        }
        if is_off_device(residual) {
            return Err(KernelError::Unsupported("conv2d_implicit: residual non-cuda"));
        }
        if is_not_of_size(temb, il.dtype, d[0] * fd[0]) {
            return Err(KernelError::Unsupported("conv2d_implicit: temb shape"));
        }
        if is_off_device(temb) {
            return Err(KernelError::Unsupported("conv2d_implicit: temb non-cuda"));
        }
        if !out.cuda {
            return Err(KernelError::Unsupported("conv2d_implicit: out non-cuda"));
        }
        Ok(
            ImplicitConvPlan {
                dtype: il.dtype,
                n: d[0] as u32,
                h: d[1] as u32,
                w: d[2] as u32,
                c: d[3] as u32,
                k: fd[0] as u32,
                r: fd[1] as u32,
                s: fd[2] as u32,
                p: (if out_nhwc { od[1] } else { od[2] }) as u32,
                q: (if out_nhwc { od[2] } else { od[3] }) as u32,
                padding: (padding.0 as u32, padding.1 as u32),
                stride: (stride.0 as u32, stride.1 as u32),
                in_off: il.byte_offset,
                f_off: fl.byte_offset,
                bias: bias.is_some(),
                residual: residual.is_some(),
                temb: temb.is_some(),
                out_nhwc,
            },
        )
    }

    /// Plans what is added behind a convolution as a matrix product.
    pub fn conv_epilogue(
        &self,
        out2d: &Operand,
        bias: Option<&Operand>,
        residual: Option<&Operand>,
        temb_bc: Option<&Operand>,
        out: &Operand,
        b: usize,
        c: usize,
        h: usize,
        w: usize,
    ) -> (r: Result<ConvEpiloguePlan, KernelError>)
        ensures
            r == conv_epilogue_plan(*out2d, given(bias), given(residual), given(temb_bc), *out, b, c, h, w),
            r matches Ok(p) ==> reads_given(p.bias_off, given(bias)) && reads_given(
                p.residual_off,
                given(residual),
            ) && reads_given(p.temb_off, given(temb_bc)),
    {
        let il = &out2d.layout;
        if !one_of_three(il.dtype) {
            return Err(KernelError::Unsupported("cuda conv_epilogue: dtype"));
        }
        if !il.contiguous {
            return Err(KernelError::NonContiguous);
        }
        if is_not_a_row(bias, il.dtype, c) {
            return Err(KernelError::Unsupported("cuda conv_epilogue: bias shape/dtype"));
        }
        if is_with_gaps(bias) {
            return Err(KernelError::NonContiguous);
        }
        if is_not_shaped(residual, il.dtype, &vec![b, c, h, w]) {
            return Err(KernelError::Unsupported("cuda conv_epilogue: residual shape/dtype"));
        }
        if is_with_gaps(residual) {
            return Err(KernelError::NonContiguous);
        }
        if is_not_shaped(temb_bc, il.dtype, &vec![b, c]) {
            return Err(KernelError::Unsupported("cuda conv_epilogue: temb shape/dtype"));
        }
        if is_with_gaps(temb_bc) {
            return Err(KernelError::NonContiguous);
        }
        if !out2d.cuda {
            return Err(KernelError::Unsupported("cuda conv_epilogue: in non-cuda"));
        }
        if is_off_device(bias) {
            return Err(KernelError::Unsupported("cuda conv_epilogue: bias non-cuda"));
        }
        if is_off_device(residual) {
            return Err(KernelError::Unsupported("cuda conv_epilogue: residual non-cuda"));
        }
        if is_off_device(temb_bc) {
            return Err(KernelError::Unsupported("cuda conv_epilogue: temb non-cuda"));
        }
        if !out.cuda {
            return Err(KernelError::Unsupported("cuda conv_epilogue: out non-cuda"));
        }
        Ok(
            ConvEpiloguePlan {
                dtype: il.dtype,
                b: b as u32,
                c: c as u32,
                h: h as u32,
                w: w as u32,
                in_off: il.byte_offset,
                bias_off: start(bias),
                residual_off: start(residual),
                temb_off: start(temb_bc),
            },
        )
    }
}

} // verus!
