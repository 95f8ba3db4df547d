//! What a convolution is made of, and that its plan has all of it.

use vstd::prelude::*;

use crate::cuda_backend::attention_laws::extents_fit;
use crate::cuda_backend::conv::{
    conv2d_plan, conv3d_plan, conv_epilogue_plan, im2col_plan, implicit_conv_plan, to_nchw_plan,
    to_nhwc_plan, upsample_plan,
};
use crate::dtype::DType;
use crate::layout::Operand;

verus! {

/// The operand that a plan reads from byte `off` of its buffer on is the one that was given, and
/// one is read exactly where one was given.
pub open spec fn reads_given(off: Option<usize>, o: Option<Operand>) -> bool {
    &&& off is Some <==> o is Some
    &&& o matches Some(x) ==> off == Some(x.layout.byte_offset)
}

/// There is no operand, or it is one on the device, without gaps and of shape `dims` and type `dtype`.
pub open spec fn fitting(o: Option<Operand>, dtype: DType, dims: Seq<usize>) -> bool {
    o matches Some(x) ==> x.cuda && x.layout.contiguous && x.layout.dtype == dtype && x.layout.dims@
        == dims
}

/// One of the element types that the plain kernels take.
pub open spec fn plain_float(dtype: DType) -> bool {
    dtype == DType::F32 || dtype == DType::F16 || dtype == DType::BF16
}

/// The element of the input, counted along one axis, that meets element `tap` of the kernel for
/// element `o` of the output; outside the input it is zero.
pub open spec fn tapped(o: int, stride: int, padding: int, tap: int) -> int {
    o * stride + tap - padding
}

/// A convolution over three axes that is accepted takes the whole input and the whole weight, moves
/// by the strides and pads by the padding that were asked for, and adds the bias exactly where one
/// was given, from where it starts.
pub proof fn volume_convolution_is_as_asked(
    input: Operand,
    weight: Operand,
    bias: Option<Operand>,
    out: Operand,
    stride: (usize, usize, usize),
    padding: (usize, usize, usize),
)
    ensures
        conv3d_plan(input, weight, bias, out, stride, padding) matches Ok(p) ==> {
            &&& reads_given(p.bias_off, bias)
            &&& p.in_off == input.layout.byte_offset
            &&& p.w_off == weight.layout.byte_offset
            &&& p.dtype == input.layout.dtype
            &&& p.dtype == weight.layout.dtype
            &&& extents_fit(input.layout.dims@) && extents_fit(weight.layout.dims@) ==> {
                &&& input.layout.dims@ =~= seq![
                    p.b as usize,
                    p.c_in as usize,
                    p.d as usize,
                    p.h as usize,
                    p.w as usize,
                ]
                &&& weight.layout.dims@ =~= seq![
                    p.c_out as usize,
                    p.c_in as usize,
                    p.kd as usize,
                    p.kh as usize,
                    p.kw as usize,
                ]
            }
            &&& forall|o: int, tap: int|
                #![trigger tapped(o, stride.0 as int, padding.0 as int, tap)]
                #![trigger tapped(o, stride.1 as int, padding.1 as int, tap)]
                #![trigger tapped(o, stride.2 as int, padding.2 as int, tap)]
                {
                    &&& stride.0 <= u32::MAX && padding.0 <= u32::MAX ==> tapped(
                        o,
                        p.stride.0 as int,
                        p.padding.0 as int,
                        tap,
                    ) == tapped(o, stride.0 as int, padding.0 as int, tap)
                    &&& stride.1 <= u32::MAX && padding.1 <= u32::MAX ==> tapped(
                        o,
                        p.stride.1 as int,
                        p.padding.1 as int,
                        tap,
                    ) == tapped(o, stride.1 as int, padding.1 as int, tap)
                    &&& stride.2 <= u32::MAX && padding.2 <= u32::MAX ==> tapped(
                        o,
                        p.stride.2 as int,
                        p.padding.2 as int,
                        tap,
                    ) == tapped(o, stride.2 as int, padding.2 as int, tap)
                }
        },
        conv3d_plan(input, weight, bias, out, stride, padding) is Ok <==> {
            &&& plain_float(input.layout.dtype) && weight.layout.dtype == input.layout.dtype
            &&& input.cuda && weight.cuda && out.cuda
            &&& input.layout.contiguous && weight.layout.contiguous
            &&& input.layout.dims@.len() == 5 && weight.layout.dims@.len() == 5
            &&& weight.layout.dims@[1] == input.layout.dims@[1]
            &&& fitting(bias, input.layout.dtype, seq![weight.layout.dims@[0]])
        },
{
    if let Some(b) = bias {
        if b.layout.dims@.len() == 1 {
            assert(b.layout.dims@ =~= seq![b.layout.dims@[0]]);
        }
    }
}

/// As `volume_convolution_is_as_asked`, over two axes.
pub proof fn image_convolution_is_as_asked(
    input: Operand,
    weight: Operand,
    bias: Option<Operand>,
    out: Operand,
    stride: (usize, usize),
    padding: (usize, usize),
)
    ensures
        conv2d_plan(input, weight, bias, out, stride, padding) matches Ok(p) ==> {
            &&& reads_given(p.bias_off, bias)
            &&& p.in_off == input.layout.byte_offset
            &&& p.w_off == weight.layout.byte_offset
            &&& p.dtype == input.layout.dtype
            &&& p.dtype == weight.layout.dtype
            &&& extents_fit(input.layout.dims@) && extents_fit(weight.layout.dims@) ==> {
                &&& input.layout.dims@ =~= seq![p.b as usize, p.c_in as usize, p.h as usize, p.w as usize]
                &&& weight.layout.dims@ =~= seq![
                    p.c_out as usize,
                    p.c_in as usize,
                    p.kh as usize,
                    p.kw as usize,
                ]
            }
            &&& forall|o: int, tap: int|
                #![trigger tapped(o, stride.0 as int, padding.0 as int, tap)]
                #![trigger tapped(o, stride.1 as int, padding.1 as int, tap)]
                {
                    &&& stride.0 <= u32::MAX && padding.0 <= u32::MAX ==> tapped(
                        o,
                        p.stride.0 as int,
                        p.padding.0 as int,
                        tap,
                    ) == tapped(o, stride.0 as int, padding.0 as int, tap)
                    &&& stride.1 <= u32::MAX && padding.1 <= u32::MAX ==> tapped(
                        o,
                        p.stride.1 as int,
                        p.padding.1 as int,
                        tap,
                    ) == tapped(o, stride.1 as int, padding.1 as int, tap)
                }
        },
        conv2d_plan(input, weight, bias, out, stride, padding) is Ok <==> {
            &&& plain_float(input.layout.dtype) && weight.layout.dtype == input.layout.dtype
            &&& input.cuda && weight.cuda && out.cuda
            &&& input.layout.contiguous && weight.layout.contiguous
            &&& input.layout.dims@.len() == 4 && weight.layout.dims@.len() == 4
            &&& weight.layout.dims@[1] == input.layout.dims@[1]
            &&& fitting(bias, input.layout.dtype, seq![weight.layout.dims@[0]])
        },
{
    if let Some(b) = bias {
        if b.layout.dims@.len() == 1 {
            assert(b.layout.dims@ =~= seq![b.layout.dims@[0]]);
        }
    }
}

/// A convolution over three axes of volumes one layer deep is the convolution over two axes of that
/// layer: where the one is accepted the other is, with the same sizes, steps and operands.
pub proof fn one_layer_is_an_image(
    flat: Operand,
    deep: Operand,
    flat_weight: Operand,
    deep_weight: Operand,
    bias: Option<Operand>,
    out: Operand,
    stride: (usize, usize),
    padding: (usize, usize),
)
    requires
        flat.layout.dims@.len() == 4,
        flat_weight.layout.dims@.len() == 4,
        deep.layout.dims@ == flat.layout.dims@.insert(2, 1usize),
        deep_weight.layout.dims@ == flat_weight.layout.dims@.insert(2, 1usize),
        (deep.cuda, deep.layout.dtype, deep.layout.contiguous, deep.layout.byte_offset) == (
            flat.cuda,
            flat.layout.dtype,
            flat.layout.contiguous,
            flat.layout.byte_offset,
        ),
        (
            deep_weight.cuda,
            deep_weight.layout.dtype,
            deep_weight.layout.contiguous,
            deep_weight.layout.byte_offset,
        ) == (
            flat_weight.cuda,
            flat_weight.layout.dtype,
            flat_weight.layout.contiguous,
            flat_weight.layout.byte_offset,
        ),
    ensures
        match (
            conv2d_plan(flat, flat_weight, bias, out, stride, padding),
            conv3d_plan(deep, deep_weight, bias, out, (1, stride.0, stride.1), (0, padding.0, padding.1)),
        ) {
            (Ok(a), Ok(b)) => {
                &&& (a.dtype, a.b, a.c_in, a.h, a.w) == (b.dtype, b.b, b.c_in, b.h, b.w)
                &&& (a.c_out, a.kh, a.kw) == (b.c_out, b.kh, b.kw)
                &&& (b.d, b.kd) == (1u32, 1u32)
                &&& (1u32, a.stride.0, a.stride.1) == b.stride
                &&& (0u32, a.padding.0, a.padding.1) == b.padding
                &&& (a.in_off, a.w_off, a.bias_off) == (b.in_off, b.w_off, b.bias_off)
            },
            (Err(_), Err(_)) => true,
            _ => false,
        },
{
}

/// A convolution as one matrix product that is accepted takes the whole input and filter, writes the
/// extents of the result in the order asked for, and adds what was given and nothing else.
pub proof fn product_convolution_is_as_asked(
    input: Operand,
    filter: Operand,
    bias: Option<Operand>,
    residual: Option<Operand>,
    temb: Option<Operand>,
    out: Operand,
    out_nhwc: bool,
    stride: (usize, usize),
    padding: (usize, usize),
)
    requires
        extents_fit(input.layout.dims@),
        extents_fit(filter.layout.dims@),
        extents_fit(out.layout.dims@),
    ensures
        implicit_conv_plan(input, filter, bias, residual, temb, out, out_nhwc, stride, padding) matches Ok(p) ==> {
            let od = out.layout.dims@;
            &&& p.bias <==> bias is Some
            &&& p.residual <==> residual is Some
            &&& p.temb <==> temb is Some
            &&& p.out_nhwc == out_nhwc
            &&& p.dtype == input.layout.dtype && p.dtype == filter.layout.dtype
            &&& (p.in_off, p.f_off) == (input.layout.byte_offset, filter.layout.byte_offset)
            &&& input.layout.dims@ =~= seq![p.n as usize, p.h as usize, p.w as usize, p.c as usize]
            &&& filter.layout.dims@ =~= seq![p.k as usize, p.r as usize, p.s as usize, p.c as usize]
            &&& od =~= (if out_nhwc {
                seq![p.n as usize, p.p as usize, p.q as usize, p.k as usize]
            } else {
                seq![p.n as usize, p.k as usize, p.p as usize, p.q as usize]
            })
            &&& stride.0 <= u32::MAX && stride.1 <= u32::MAX ==> (p.stride.0 as usize, p.stride.1 as usize)
                == stride
            &&& padding.0 <= u32::MAX && padding.1 <= u32::MAX ==> (
                p.padding.0 as usize,
                p.padding.1 as usize,
            ) == padding
            &&& bias matches Some(x) ==> x.cuda && x.layout.numel == p.k && x.layout.dtype == p.dtype
            &&& residual matches Some(x) ==> x.cuda && x.layout.offset == 0 && x.layout.dtype == p.dtype
                && x.layout.numel == od[0] * od[1] * od[2] * od[3]
            &&& temb matches Some(x) ==> x.cuda && x.layout.numel == p.n * p.k && x.layout.dtype
                == p.dtype
        },
{
}

/// What is added behind a convolution is what was given and nothing else, each from where it starts,
/// over the extents that were asked for.
pub proof fn convolution_epilogue_is_as_asked(
    out2d: Operand,
    bias: Option<Operand>,
    residual: Option<Operand>,
    temb: Option<Operand>,
    out: Operand,
    b: usize,
    c: usize,
    h: usize,
    w: usize,
)
    ensures
        conv_epilogue_plan(out2d, bias, residual, temb, out, b, c, h, w) matches Ok(p) ==> {
            &&& reads_given(p.bias_off, bias)
            &&& reads_given(p.residual_off, residual)
            &&& reads_given(p.temb_off, temb)
            &&& fitting(bias, p.dtype, seq![c])
            &&& fitting(residual, p.dtype, seq![b, c, h, w])
            &&& fitting(temb, p.dtype, seq![b, c])
            &&& p.in_off == out2d.layout.byte_offset
            &&& p.dtype == out2d.layout.dtype
            &&& extents_fit(seq![b, c, h, w]) ==> seq![b, c, h, w] =~= seq![
                p.b as usize,
                p.c as usize,
                p.h as usize,
                p.w as usize,
            ]
        },
        conv_epilogue_plan(out2d, bias, residual, temb, out, b, c, h, w) is Ok <==> {
            &&& plain_float(out2d.layout.dtype) && out2d.layout.contiguous
            &&& out2d.cuda && out.cuda
            &&& fitting(bias, out2d.layout.dtype, seq![c])
            &&& fitting(residual, out2d.layout.dtype, seq![b, c, h, w])
            &&& fitting(temb, out2d.layout.dtype, seq![b, c])
        },
{
    if let Some(x) = bias {
        if x.layout.dims@.len() == 1 {
            assert(x.layout.dims@ =~= seq![x.layout.dims@[0]]);
        }
    }
    let e = seq![b, c, h, w];
    if extents_fit(e) {
        assert(e[0] <= u32::MAX && e[1] <= u32::MAX && e[2] <= u32::MAX && e[3] <= u32::MAX);
    }
}

/// Windows as rows, moves of the channels and doubled images are of the extents that the operands
/// have, and windows of the kernel, steps and range asked for.
pub proof fn image_moves_are_as_asked(
    input: Operand,
    out: Operand,
    kh: usize,
    kw: usize,
    h_out: usize,
    w_out: usize,
    stride: (usize, usize),
    padding: (usize, usize),
    m_offset: u64,
    m_count: u64,
)
    requires
        extents_fit(input.layout.dims@),
        extents_fit(out.layout.dims@),
        extents_fit(seq![kh, kw, h_out, w_out, stride.0, stride.1, padding.0, padding.1]),
    ensures
        im2col_plan(input, out, kh, kw, h_out, w_out, stride, padding, m_offset, m_count) matches Ok(p) ==> {
            &&& input.layout.dims@ =~= seq![p.b as usize, p.c_in as usize, p.h as usize, p.w as usize]
            &&& (p.kh as usize, p.kw as usize, p.h_out as usize, p.w_out as usize) == (
                kh,
                kw,
                h_out,
                w_out,
            )
            &&& (p.stride.0 as usize, p.stride.1 as usize) == stride
            &&& (p.padding.0 as usize, p.padding.1 as usize) == padding
            &&& (p.m_offset, p.m_count) == (m_offset, m_count)
            &&& (p.in_off, p.dtype) == (input.layout.byte_offset, input.layout.dtype)
        },
        to_nhwc_plan(input, out) matches Ok(p) ==> {
            &&& input.layout.dims@ =~= seq![p.b as usize, p.c as usize, p.h as usize, p.w as usize]
            &&& (p.in_off, p.dtype) == (input.layout.byte_offset, input.layout.dtype)
        },
        to_nchw_plan(input, out) matches Ok(p) ==> {
            &&& out.layout.dims@.len() == 4 ==> out.layout.dims@ =~= seq![
                p.b as usize,
                p.c as usize,
                p.h as usize,
                p.w as usize,
            ]
            &&& (p.in_off, p.dtype) == (input.layout.byte_offset, input.layout.dtype)
        },
        upsample_plan(input, out) matches Ok(p) ==> {
            &&& input.layout.dims@ =~= seq![p.b as usize, p.c as usize, p.h as usize, p.w as usize]
            &&& (p.in_off, p.dtype) == (input.layout.byte_offset, input.layout.dtype)
        },
        im2col_plan(input, out, kh, kw, h_out, w_out, stride, padding, m_offset, m_count) is Ok
            <==> plain_float(input.layout.dtype) && input.cuda && out.cuda && input.layout.contiguous
            && input.layout.dims@.len() == 4,
        to_nhwc_plan(input, out) is Ok <==> plain_float(input.layout.dtype) && input.cuda && out.cuda
            && input.layout.contiguous && input.layout.dims@.len() == 4,
        to_nchw_plan(input, out) is Ok <==> plain_float(input.layout.dtype) && input.cuda && out.cuda
            && input.layout.dense && input.layout.dims@.len() == 4,
        upsample_plan(input, out) is Ok <==> plain_float(input.layout.dtype) && input.cuda && out.cuda
            && input.layout.contiguous && input.layout.dims@.len() == 4,
{
    let e = seq![kh, kw, h_out, w_out, stride.0, stride.1, padding.0, padding.1];
    assert(e[0] <= u32::MAX && e[1] <= u32::MAX && e[2] <= u32::MAX && e[3] <= u32::MAX);
    assert(e[4] <= u32::MAX && e[5] <= u32::MAX && e[6] <= u32::MAX && e[7] <= u32::MAX);
}

} // verus!
