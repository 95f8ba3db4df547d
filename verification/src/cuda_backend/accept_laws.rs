//! Which requests are accepted: each that meets what its operation needs, and no other.

use vstd::prelude::*;

use crate::cuda_backend::attention::{bshd_plan, head_rows};
use crate::cuda_backend::conv::implicit_conv_plan;
use crate::cuda_backend::conv_laws::plain_float;
use crate::cuda_backend::linear::{
    linear_epilogue_plan, linear_quant_early, mxfp8_outcome, prequant_plan,
};
use crate::cuda_backend::linear_attn::{gdr_dims, gdr_error, GdrOperands};
use crate::cuda_backend::linear_laws::{leading_rows, lemma_leading_rows};
use crate::cuda_backend::memory::alloc_step;
use crate::cuda_backend::mxfp8_cache::{
    flash_mxfp8_dev_plan, flash_mxfp8_plan, mxfp8_attn_kernel,
};
use crate::cuda_backend::norm_ops::backend_rms_norm_residual;
use crate::cuda_backend::quant_ops::{quantize_nvfp4_error, silu_mul_quant_error, ActOperands};
use crate::cuda_backend::tensor_ops::{copy_error, ternary_kind, ternary_refusal};
use crate::cuda_backend::Device;
use crate::dtype::DType;
use crate::elementwise::quant::QuantSwitches;
use crate::elementwise::sq_quant::sq_error;
use crate::gemm::dispatch::{mxfp8_prequant, mxfp8_tiled, nvfp4_linear, FullChoices, Prequant};
use crate::kernels::elementwise::{
    binary_error, cast_entry, cast_error, casts_flat, dims_wide, fast_shape, first_wide, pad_error,
    strides_wide, takes_flat, takes_rows, ternary_error, unary_error, TernaryFusedKind,
};
use crate::kernels::reduce::{reduce_error, ReduceOp};
use crate::layout::{Layout, Operand};
use crate::ssm::mamba2_ssd_chunked::{ssd_error, SsdDims};
use crate::weight::{Packed, QuantWeight};

verus! {

/// The operand lies on the device without gaps and from the first element of its buffer on.
pub open spec fn whole(o: Operand) -> bool {
    o.cuda && o.layout.contiguous && o.layout.offset == 0
}

/// One of the two types of half floats.
pub open spec fn half_float(dtype: DType) -> bool {
    dtype == DType::F16 || dtype == DType::BF16
}

/// There is no operand, or it lies on the device without gaps and has `n` elements of type `dtype`.
pub open spec fn absent_or_of(o: Option<Operand>, dtype: DType, n: int) -> bool {
    o matches Some(x) ==> x.cuda && x.layout.contiguous && x.layout.dtype == dtype && x.layout.numel == n
}

/// Query heads share key heads evenly, and keys and values have one shape.
pub open spec fn heads_match(q: Seq<usize>, k: Seq<usize>, v: Seq<usize>, axis: int) -> bool {
    &&& q.len() == 4 && k.len() == 4 && v == k
    &&& k[0] == q[0] && k[3] == q[3]
    &&& k[axis] > 0 && q[axis] as int % k[axis] as int == 0
}

/// An attention over positions before heads is accepted exactly for half floats of heads of 64 or 128
/// values that match, each tensor whole.
pub proof fn positions_first_is_accepted(q: Operand, k: Operand, v: Operand, out: Operand, causal: bool)
    ensures
        bshd_plan(q, k, v, out, causal) is Ok <==> {
            &&& half_float(q.layout.dtype)
            &&& q.layout.dtype == k.layout.dtype && k.layout.dtype == v.layout.dtype
            &&& heads_match(q.layout.dims@, k.layout.dims@, v.layout.dims@, 2)
            &&& q.layout.dims@[3] == 64 || q.layout.dims@[3] == 128
            &&& whole(q) && whole(k) && whole(v) && out.cuda
        },
{
}

/// A convolution by implicit products is accepted exactly where the filter runs over the input's
/// channels, the result has an image per image and a channel per filter, and what is added fits it.
pub proof fn implicit_convolution_is_accepted(
    input: Operand,
    filter: Operand,
    bias: Option<Operand>,
    residual: Option<Operand>,
    temb: Option<Operand>,
    out: Operand,
    out_nhwc: bool,
    stride: (usize, usize),
    padding: (usize, usize),
)
    ensures
        implicit_conv_plan(input, filter, bias, residual, temb, out, out_nhwc, stride, padding) is Ok <==> {
            let (d, fd, od) = (input.layout.dims@, filter.layout.dims@, out.layout.dims@);
            let dtype = input.layout.dtype;
            &&& half_float(dtype) && filter.layout.dtype == dtype
            &&& d.len() == 4 && fd.len() == 4 && od.len() == 4
            &&& input.cuda && input.layout.dense && filter.cuda && filter.layout.contiguous && out.cuda
            &&& fd[3] == d[3]
            &&& od[0] == d[0] && od[if out_nhwc { 3int } else { 1int }] == fd[0]
            &&& absent_or_of(bias, dtype, fd[0] as int)
            &&& absent_or_of(residual, dtype, od[0] * od[1] * od[2] * od[3])
            &&& residual matches Some(r) ==> r.layout.offset == 0
            &&& absent_or_of(temb, dtype, d[0] * fd[0])
        },
{
}

/// A product with more behind it is accepted exactly for two rows or more of half floats, with a weight
/// that takes them, a bias per column and a residual per value.
pub proof fn product_with_more_is_accepted(
    x: Operand,
    w: Operand,
    bias: Option<Operand>,
    residual: Option<Operand>,
    out: Operand,
)
    requires
        x.wf(),
        w.wf(),
        x.layout.dims@.len() > 0 ==> x.layout.dims@.last() > 0,
    ensures
        linear_epilogue_plan(x, w, bias, residual, out) is Ok <==> {
            let (dtype, wd) = (x.layout.dtype, w.layout.dims@);
            &&& half_float(dtype) && w.layout.dtype == dtype
            &&& whole(x) && whole(w) && out.cuda
            &&& x.layout.dims@.len() > 0 && leading_rows(x.layout) >= 2
            &&& wd.len() == 2 && wd[1] == x.layout.dims@.last()
            &&& absent_or_of(bias, dtype, wd[0] as int)
            &&& absent_or_of(residual, dtype, leading_rows(x.layout) * wd[0])
            &&& residual matches Some(r) ==> r.layout.offset == 0
        },
{
    if x.layout.dims@.len() > 0 {
        lemma_leading_rows(x.layout);
    }
}

/// A product with an eight-bit weight is accepted exactly where the weight and its scales are on the
/// device, its rows are whole blocks of thirty-two, the result is not of brain floats, and, of more rows
/// than one, the tiles can be had.
pub proof fn eight_bit_weight_is_accepted(
    w: QuantWeight,
    m: u32,
    bf16: bool,
    switches: QuantSwitches,
    x_ptr: u64,
)
    ensures
        mxfp8_outcome(w, m, bf16, switches, x_ptr) is Ok <==> {
            &&& !bf16
            &&& w.k % 32 == 0
            &&& w.packed == Packed::Device && w.scales_cuda
            &&& m != 1 ==> mxfp8_tiled(w, m) is Ok
        },
{
}

/// A product with a quantised weight starts exactly with an activation whole but for its place, a
/// result on the device and a weight with columns.
pub proof fn quantised_product_starts(x: Operand, w: QuantWeight, out: Operand)
    ensures
        linear_quant_early(x, w, out) is None <==> x.cuda && x.layout.contiguous && out.cuda && w.k > 0,
{
}

/// A product of an activation that is quantised already is accepted exactly where all of it is on the
/// device and the product of its format is.
pub proof fn prequantised_product_is_accepted(
    packed_cuda: bool,
    given: Prequant,
    scales_cuda: bool,
    w: QuantWeight,
    out: Operand,
    m: usize,
    full: FullChoices,
    full_run: FullChoices,
)
    ensures
        prequant_plan(packed_cuda, given, scales_cuda, w, out, m, full, full_run) is Ok <==> {
            &&& packed_cuda && scales_cuda && out.cuda
            &&& {
                ||| w.dtype == DType::NVFP4 && nvfp4_linear(w, m as u32, Some(given), full, full_run) is Ok
                ||| w.dtype == DType::MXFP8 && out.layout.dtype != DType::BF16 && mxfp8_prequant(
                    w,
                    m as u32,
                ) is Ok
            }
        },
{
}

/// The scales of rows of heads of `nb` blocks, `rows` rows of room per head, lie one behind the other.
pub open spec fn scales_run(s: Layout, nb: int, rows: int) -> bool {
    &&& s.dims@.len() == 4 && s.dims@[3] == nb
    &&& s.strides@[3] == 1 && s.strides@[2] == nb && s.strides@[1] == rows * nb
    &&& s.strides@[0] == s.dims@[1] * (rows * nb)
}

/// What an attention over a cache of eight-bit rows needs of the cache.
pub open spec fn eight_bit_cache(q: Operand, k: Operand, v: Operand, ks: Operand, vs: Operand) -> bool {
    let (qd, d) = (q.layout.dims@, q.layout.dims@[3]);
    &&& k.layout.dtype == DType::MXFP8 && v.layout.dtype == DType::MXFP8
    &&& ks.layout.dtype == DType::U8 && vs.layout.dtype == DType::U8
    &&& heads_match(qd, k.layout.dims@, v.layout.dims@, 1)
    &&& 32 <= d <= 1024 && d % 32 == 0
    &&& q.cuda && q.layout.contiguous && ks.cuda && vs.cuda
    &&& head_rows(k.layout) is Some && head_rows(v.layout) == head_rows(k.layout)
    &&& scales_run(ks.layout, d as int / 32, head_rows(k.layout)->0 as int)
    &&& scales_run(vs.layout, d as int / 32, head_rows(k.layout)->0 as int)
}

/// An attention over a cache of eight-bit rows is accepted exactly for a query of a type that is taken,
/// a cache with its scales in step, and, where it is read from the device, a count there.
pub proof fn eight_bit_attention_is_accepted(
    q: Operand,
    k: Operand,
    v: Operand,
    ks: Operand,
    vs: Operand,
    t_cache: Operand,
    out: Operand,
    q_float: bool,
    grouped: bool,
    split_q: bool,
    causal: bool,
)
    ensures
        flash_mxfp8_plan(q, k, v, ks, vs, out, q_float, grouped, split_q, causal) is Ok <==> q_float && out.cuda
            && eight_bit_cache(q, k, v, ks, vs),
        flash_mxfp8_dev_plan(q, k, v, ks, vs, t_cache, out, q_float, grouped, causal) is Ok <==> {
            &&& q_float && out.cuda
            &&& eight_bit_cache(q, k, v, ks, vs)
            &&& t_cache.cuda && t_cache.layout.dtype == DType::U32
        },
{
}

/// Grouped where asked; else more queries than one are split where asked, and run as a prompt for heads
/// of 128 or 256 values; all else is a decode.
pub proof fn eight_bit_kernel_is_the_one_for_it(qd: Seq<usize>, kd: Seq<usize>, grouped: bool, split_q: bool)
    ensures
        mxfp8_attn_kernel(qd, kd, grouped, split_q) is Grouped <==> grouped,
        mxfp8_attn_kernel(qd, kd, grouped, split_q) is SplitQ <==> !grouped && split_q && qd[2] > 1,
        mxfp8_attn_kernel(qd, kd, grouped, split_q) is Prefill <==> {
            &&& !grouped && !split_q
            &&& qd[2] > 1
            &&& qd[3] == 128 || qd[3] == 256
        },
        qd[2] <= 1 && !grouped ==> mxfp8_attn_kernel(qd, kd, grouped, split_q) is Decode,
{
}

/// A norm of a sum is accepted exactly for plain floats, the weight one row, all three whole from their
/// first byte on.
pub proof fn norm_of_a_sum_is_accepted(
    x: Operand,
    residual: Operand,
    w: Operand,
    hidden_out: Operand,
    y: Operand,
    qwen_gain: bool,
)
    requires
        crate::cuda_backend::row_laws::countable(x.layout),
    ensures
        backend_rms_norm_residual(x, residual, w, hidden_out, y, qwen_gain) is Ok <==> {
            let dtype = x.layout.dtype;
            &&& x.layout.numel > 0 ==> plain_float(dtype)
            &&& residual.layout.dtype == dtype && w.layout.dtype == dtype
            &&& x.layout.dims@.len() > 0 && w.layout.dims@ =~= seq![x.layout.dims@.last()]
            &&& x.cuda && residual.cuda && w.cuda && hidden_out.cuda && y.cuda
            &&& x.layout.contiguous && residual.layout.contiguous && w.layout.contiguous
            &&& x.layout.byte_offset == 0 && residual.layout.byte_offset == 0 && w.layout.byte_offset == 0
        },
{
    if x.layout.dims@.len() > 0 {
        crate::cuda_backend::row_laws::lemma_counted(x.layout);
    }
}

/// A weight is brought to four bits exactly where it lies on the device without gaps, in sixteens of
/// rows of whole sixty-fours.
pub proof fn four_bit_weight_is_accepted(w: Operand, n: usize, k: usize)
    ensures
        quantize_nvfp4_error(w, n, k) is None <==> w.cuda && w.layout.contiguous && n % 16 == 0 && k % 64 == 0,
{
}

/// A gated activation is brought to four bits exactly where it is of half floats and all is on the
/// device.
pub proof fn gated_four_bits_are_accepted(o: ActOperands)
    ensures
        silu_mul_quant_error(o) is None <==> half_float(o.x.layout.dtype) && o.x.cuda
            && o.x.layout.contiguous && o.packed_cuda && o.scales_cuda,
{
}

/// The gated delta rule runs over a prompt exactly of single floats whose inputs are on the device, with
/// the sizes as they are where the kernels can take them.
pub proof fn prompt_of_the_rule_is_accepted(o: GdrOperands, bh: usize, t: usize, hk: usize, hv: usize, cs: usize)
    ensures
        gdr_error(o) is None <==> {
            &&& forall|x: Operand| #![auto]
                x == *o.q || x == *o.k || x == *o.v || x == *o.g || x == *o.beta || x == *o.ssm_state
                    ==> x.cuda && x.layout.dtype == DType::F32
            &&& o.out.layout.dtype == DType::F32
        },
        bh <= u32::MAX && t <= u32::MAX && hk <= u32::MAX && hv <= u32::MAX && cs <= u32::MAX ==> {
            let d = gdr_dims(bh, t, hk, hv, cs);
            d.bh == bh && d.t == t && d.hk == hk && d.hv == hv && d.cs == cs
        },
{
    if gdr_error(o) is Some {
        assert(!(o.q.cuda && o.q.layout.dtype == DType::F32) || !(o.k.cuda && o.k.layout.dtype == DType::F32)
            || !(o.v.cuda && o.v.layout.dtype == DType::F32) || !(o.g.cuda && o.g.layout.dtype == DType::F32)
            || !(o.beta.cuda && o.beta.layout.dtype == DType::F32) || !(o.ssm_state.cuda
            && o.ssm_state.layout.dtype == DType::F32) || o.out.layout.dtype != DType::F32);
    }
}

/// The chunked form runs exactly over whole chunks of whole sixteens, with states of whole sixteens
/// both ways, and as many positions of heads as a grid holds.
pub proof fn chunked_form_is_accepted(d: SsdDims, dtype: DType)
    requires
        d.b * d.l * d.h <= u32::MAX,
    ensures
        ssd_error(d, dtype) is None <==> {
            &&& d.l % d.q == 0
            &&& d.q % 16 == 0 && d.n % 16 == 0 && d.p % 16 == 0
            &&& plain_float(dtype)
            &&& d.b * d.l * d.h <= 65535 * 65535
        },
{
    let n = d.b * d.l * d.h;
    assert(0 <= n) by {
        assert(0 <= d.b * d.l) by (nonlinear_arith);
        assert(0 <= (d.b * d.l) * d.h) by (nonlinear_arith)
            requires
                0 <= d.b * d.l,
        ;
    }
    crate::ssm::mamba2_chunked_helpers::split_blh_covers(n as u32);
}

/// Rows are brought to blocks of few bits exactly where the format exists, the rows are whole
/// thirty-twos, and both buffers hold them.
pub proof fn blocks_of_few_bits_are_accepted(
    bits_ok: bool,
    row_bytes: usize,
    input_len: usize,
    out_len: usize,
    rows: u32,
    k: u32,
)
    ensures
        sq_error(bits_ok, row_bytes, input_len, out_len, rows, k) is None <==> {
            &&& bits_ok
            &&& k % 32 == 0
            &&& rows * row_bytes <= out_len
            &&& rows * k * 2 <= input_len
        },
{
}

/// The number fits the kernels' signed counters.
pub open spec fn narrow(v: int) -> bool {
    i32::MIN <= v <= i32::MAX
}

/// Up to eight axes whose every extent fits.
pub open spec fn few_axes(s: Seq<i64>) -> bool {
    s.len() <= 8 && forall|i: int| 0 <= i < s.len() ==> #[trigger] narrow(s[i] as int)
}

proof fn lemma_first_wide(s: Seq<i64>)
    ensures
        first_wide(s) is None <==> forall|i: int| 0 <= i < s.len() ==> #[trigger] narrow(s[i] as int),
        first_wide(s) matches Some(v) ==> !narrow(v as int) && s.contains(v),
    decreases s.len(),
{
    if s.len() > 0 {
        lemma_first_wide(s.skip(1));
        if narrow(s[0] as int) {
            assert forall|i: int| 0 <= i < s.len() && first_wide(s) is None implies #[trigger] narrow(
                s[i] as int,
            ) by {
                if i > 0 {
                    assert(s.skip(1)[i - 1] == s[i]);
                    assert(narrow(s.skip(1)[i - 1] as int));
                }
            }
            if first_wide(s) is Some {
                let v = first_wide(s)->0;
                let j = choose|j: int| 0 <= j < s.skip(1).len() && s.skip(1)[j] == v;
                assert(s[j + 1] == v);
                assert(!narrow(s[j + 1] as int));
            }
        } else {
            assert(s[0] == first_wide(s)->0);
        }
    }
}

/// Axes are handed over exactly where there are at most eight and each extent fits, and what is named
/// in a refusal is one that does not.
pub proof fn axes_are_handed_over(s: Seq<i64>)
    ensures
        pad_error(s) is None <==> few_axes(s),
        s.len() <= 8 ==> (first_wide(s) matches Some(v) ==> !narrow(v as int) && s.contains(v)),
{
    lemma_first_wide(s);
}

/// An operation on one tensor is accepted exactly between tensors of one shape and type on the device,
/// of plain floats, with axes that can be handed over where it does not run along rows.
pub proof fn unary_is_accepted(src: Operand, dst: Operand)
    ensures
        unary_error(src, dst) is None <==> {
            &&& src.layout.dims@ == dst.layout.dims@ && src.layout.dtype == dst.layout.dtype
            &&& src.cuda && dst.cuda
            &&& plain_float(src.layout.dtype)
            &&& {
                ||| takes_flat(src.layout, dst.layout)
                ||| takes_rows(src.layout, dst.layout)
                ||| few_axes(dims_wide(src.layout.dims@)) && few_axes(strides_wide(src.layout.strides@))
            }
        },
{
    axes_are_handed_over(dims_wide(src.layout.dims@));
    axes_are_handed_over(strides_wide(src.layout.strides@));
}

/// A copy is accepted exactly between tensors on the device where the source is one run and so is the
/// result, or where the result is one run and the copy runs as an operation on one tensor.
pub proof fn copy_is_accepted(src: Operand, dst: Operand)
    ensures
        copy_error(src, dst) is None <==> {
            &&& src.cuda && dst.cuda && dst.layout.contiguous
            &&& {
                ||| src.layout.contiguous && src.layout.offset == 0
                ||| unary_error(src, dst) is None
            }
        },
{
}

/// An operation on two tensors is accepted exactly between three of one shape and type on the device,
/// of plain floats, with axes that can be handed over where it does not run along rows.
pub proof fn binary_is_accepted(a: Operand, b: Operand, dst: Operand)
    ensures
        binary_error(a, b, dst) is None <==> {
            &&& a.layout.dims@ == dst.layout.dims@ && b.layout.dims@ == dst.layout.dims@
            &&& a.layout.dtype == dst.layout.dtype && b.layout.dtype == dst.layout.dtype
            &&& a.cuda && b.cuda && dst.cuda
            &&& plain_float(dst.layout.dtype)
            &&& {
                ||| fast_shape(a.layout, b.layout, dst.layout) is Some
                ||| few_axes(dims_wide(dst.layout.dims@)) && few_axes(strides_wide(a.layout.strides@))
                    && few_axes(strides_wide(b.layout.strides@))
            }
        },
{
    axes_are_handed_over(dims_wide(dst.layout.dims@));
    axes_are_handed_over(strides_wide(a.layout.strides@));
    axes_are_handed_over(strides_wide(b.layout.strides@));
}

/// A change of type is accepted exactly between tensors of one shape on the device and types that can
/// be changed into each other.
pub proof fn cast_is_accepted(src: Operand, dst: Operand)
    ensures
        cast_error(src, dst) is None <==> {
            &&& src.layout.dims@ == dst.layout.dims@
            &&& src.cuda && dst.cuda
            &&& {
                ||| casts_flat(src.layout, dst.layout)
                ||| few_axes(dims_wide(src.layout.dims@)) && few_axes(strides_wide(src.layout.strides@))
                    && cast_entry(src.layout.dtype, dst.layout.dtype) is Some
            }
        },
{
    axes_are_handed_over(dims_wide(src.layout.dims@));
    axes_are_handed_over(strides_wide(src.layout.strides@));
}

/// A reduction is accepted exactly of plain floats on the device over at most eight axes, with a result
/// of the same type, or of indices for the place of the greatest.
pub proof fn reduction_is_accepted(op: ReduceOp, src: Operand, dst: Operand, axes: Seq<usize>)
    ensures
        reduce_error(op, src, dst, axes) is None <==> {
            &&& src.cuda && dst.cuda
            &&& src.layout.dims@.len() <= 8 && axes.len() <= 8
            &&& plain_float(src.layout.dtype)
            &&& dst.layout.dtype == (if op == ReduceOp::ArgMax { DType::U32 } else { src.layout.dtype })
        },
{
}

/// The tensor can be read sixteen bytes at a time from its first element on.
pub open spec fn on_sixteens(x: Layout) -> bool {
    (x.offset * crate::coverage::bytes_of(x.dtype)) % 16 == 0
}

/// A fused operation is accepted exactly by one of three numbers, for tensors of one type of plain
/// floats on the device, the first and the result of one shape, read in sixteens of bytes; the others
/// have that shape or are rows, as the number says.
pub proof fn fused_is_accepted(kind: u8, x: Operand, b: Operand, c: Operand, dst: Operand)
    ensures
        ternary_refusal(kind, x, b, c, dst) is None <==> kind <= 2 && x.cuda && ternary_error(
            ternary_kind(kind)->0,
            x,
            b,
            c,
            dst,
        ) is None,
        ternary_kind(kind) == (if kind == 0 {
            Some(TernaryFusedKind::FmaFlat)
        } else if kind == 1 {
            Some(TernaryFusedKind::FmaRowb)
        } else if kind == 2 {
            Some(TernaryFusedKind::ModRowb)
        } else {
            None
        }),
        ternary_refusal(kind, x, b, c, dst) is None ==> {
            &&& plain_float(x.layout.dtype)
            &&& b.layout.dtype == x.layout.dtype && c.layout.dtype == x.layout.dtype
            &&& dst.layout.dtype == x.layout.dtype
            &&& x.cuda && b.cuda && c.cuda && dst.cuda
            &&& x.layout.dims@ == dst.layout.dims@ && dst.layout.offset == 0
            &&& x.layout.contiguous && on_sixteens(x.layout)
            &&& kind <= 1 ==> b.layout.dims@ == dst.layout.dims@ && b.layout.contiguous && on_sixteens(b.layout)
            &&& kind == 0 ==> c.layout.dims@ == dst.layout.dims@ && c.layout.contiguous && on_sixteens(c.layout)
        },
{
}

/// Memory is asked for on a device only, six times at most: at first at once, and after each failure
/// behind one more wait, each fifty milliseconds longer than the one before; the first failure has the
/// pools trimmed once more.
pub proof fn memory_is_asked_for_again(
    n_bytes: usize,
    ordinal: usize,
    failures: u32,
    refusal: &'static str,
    exhausted: &'static str,
)
    ensures
        alloc_step(n_bytes, Device::Cpu, failures, refusal, exhausted) is Err,
        alloc_step(n_bytes, Device::Cuda(ordinal), failures, refusal, exhausted) is Ok <==> failures < 6,
        alloc_step(n_bytes, Device::Cuda(ordinal), failures, refusal, exhausted) matches Ok(s) ==> {
            &&& s.ordinal == ordinal
            &&& s.drains == 0 <==> failures == 0
            &&& failures <= 1 ==> s.pause_ms == 0
            &&& failures < 5 && failures > 0 ==> {
                let next = alloc_step(
                    n_bytes,
                    Device::Cuda(ordinal),
                    (failures + 1) as u32,
                    refusal,
                    exhausted,
                )->Ok_0;
                &&& next.pause_ms == s.pause_ms + 50
                &&& next.drains + (if failures == 1 { 1int } else { 0int }) == s.drains
            }
        },
{
}

} // verus!
