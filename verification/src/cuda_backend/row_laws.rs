//! What an operation on rows or channels takes, and that its plan takes all of it.

use vstd::prelude::*;

use crate::arith::lemma_ceil_div;
use crate::coverage::{block_each, bytes_of, spans, strides_over, thread_each};
use crate::cuda_backend::attention_laws::extents_fit;
use crate::cuda_backend::conv_laws::plain_float;
use crate::cuda_backend::gather::{gather_mxfp8_plan, gather_plan};
use crate::cuda_backend::group_ops::{
    backend_geglu_split, backend_group_norm, backend_pixel_norm, backend_snake, channels,
};
use crate::cuda_backend::linear_laws::{leading_rows, lemma_leading_rows};
use crate::cuda_backend::norm_ops::{
    backend_layer_norm, backend_rms_norm, backend_rms_norm_residual,
};
use crate::cuda_backend::tensor_ops::silu_and_mul_plan;
use crate::dtype::{lemma_float_bytes, DType};
use crate::layout::{lemma_rows, lemma_volume_bounds, lemma_volume_first, volume, Layout, Operand};

verus! {

/// A tensor of rows of a width that is not zero, whose counts fit the kernels' signed counters.
pub open spec fn countable(x: Layout) -> bool {
    &&& x.wf()
    &&& x.numel <= i32::MAX
    &&& x.dims@.len() > 0 ==> 0 < x.dims@.last() <= i32::MAX
}

/// The tensor is on the device, without gaps, of type `dtype` and one row of `h` elements.
pub open spec fn is_one_row(w: Operand, dtype: DType, h: usize) -> bool {
    w.cuda && w.layout.contiguous && w.layout.dtype == dtype && w.layout.dims@ =~= seq![h]
}

pub(crate) proof fn lemma_counted(x: Layout)
    requires
        countable(x),
        x.dims@.len() > 0,
    ensures
        crate::layout::row_count(x, x.dims@.last()) == leading_rows(x),
        0 <= leading_rows(x) <= x.numel,
        leading_rows(x) * x.dims@.last() == x.numel,
        leading_rows(x) == 0 <==> x.numel == 0,
        x.byte_offset + x.numel * 4 <= usize::MAX,
        x.numel * 4 <= usize::MAX,
        x.dims@.last() <= x.numel || x.numel == 0,
{
    lemma_leading_rows(x);
    lemma_rows(x, x.dims@.last());
    let (v, k) = (leading_rows(x), x.dims@.last() as int);
    assert(v == 0 <==> v * k == 0) by (nonlinear_arith)
        requires
            k > 0,
    ;
    assert(v >= 1 ==> k <= v * k) by (nonlinear_arith)
        requires
            k > 0,
    ;
}

proof fn lemma_row(w: Layout, h: usize)
    requires
        w.wf(),
        w.dims@ =~= seq![h],
    ensures
        w.byte_offset + h * 4 <= usize::MAX,
{
    lemma_rows(w, h);
    assert(w.dims@.drop_last() =~= Seq::empty());
    assert(volume(w.dims@.drop_last()) == 1);
    assert(volume(w.dims@) == h);
}

/// A norm over rows is of every row of the shape and all of each, with the gain asked for, its
/// weights one row from where they start.
pub proof fn root_mean_square_norm_is_as_asked(x: Operand, w: Operand, out: Operand, qwen_gain: bool)
    requires
        countable(x.layout),
        w.wf(),
    ensures
        backend_rms_norm(x, w, out, qwen_gain) matches Ok(r) ==> {
            let (rows, h, size) = (
                leading_rows(x.layout),
                x.layout.dims@.last() as int,
                bytes_of(x.layout.dtype),
            );
            &&& r is None <==> x.layout.numel == 0
            &&& r matches Some(p) ==> {
                &&& p.norm.params.batch == rows && p.norm.params.hidden == h
                &&& p.norm.params.variant == (if qwen_gain { 1int } else { 0int })
                &&& p.norm.params.x_row_stride == h && p.norm.params.y_row_stride == h
                &&& p.norm.params.g_row_stride == 0
                &&& (p.norm.params.x_offset, p.norm.params.w_offset, p.norm.params.g_offset) == (
                    0i64,
                    0i64,
                    0i64,
                )
                &&& p.norm.params.y_offset == 0
                &&& block_each(p.norm.launch, rows)
                &&& p.norm.launch.block.0 % 32 == 0
                &&& spans(p.x, x.layout.byte_offset as int, rows * h, size)
                &&& spans(p.w, w.layout.byte_offset as int, h, size)
                &&& spans(p.y, 0, rows * h, size)
            }
        },
        backend_rms_norm(x, w, out, qwen_gain) is Ok <==> {
            &&& x.cuda && out.cuda && x.layout.contiguous && x.layout.dims@.len() > 0
            &&& is_one_row(w, x.layout.dtype, x.layout.dims@.last())
            &&& plain_float(x.layout.dtype) || x.layout.numel == 0
        },
{
    if x.layout.dims@.len() > 0 {
        lemma_counted(x.layout);
        let h = x.layout.dims@.last();
        if w.layout.dims@.len() == 1 && w.layout.dims@[0] == h {
            assert(w.layout.dims@ =~= seq![h]);
            lemma_row(w.layout, h);
        }
        lemma_ceil_div(h as int, 32);
    }
}

/// A norm of sums over rows is of every row of the shape and all of each, from the start of every
/// operand, with the gain asked for.
pub proof fn residual_norm_is_as_asked(
    x: Operand,
    residual: Operand,
    w: Operand,
    hidden_out: Operand,
    y: Operand,
    qwen_gain: bool,
)
    requires
        countable(x.layout),
    ensures
        backend_rms_norm_residual(x, residual, w, hidden_out, y, qwen_gain) matches Ok(r) ==> {
            let (rows, h, size) = (
                leading_rows(x.layout),
                x.layout.dims@.last() as int,
                bytes_of(x.layout.dtype),
            );
            &&& r is None <==> x.layout.numel == 0
            &&& (x.layout.byte_offset, residual.layout.byte_offset, w.layout.byte_offset) == (
                0usize,
                0usize,
                0usize,
            )
            &&& r matches Some(p) ==> {
                &&& p.norm.batch == rows && p.norm.hidden == h
                &&& p.norm.qwen == (if qwen_gain { 1int } else { 0int })
                &&& block_each(p.norm.launch, rows)
                &&& spans(p.x, 0, rows * h, size)
                &&& spans(p.residual, 0, rows * h, size)
                &&& spans(p.hidden_out, 0, rows * h, size)
                &&& spans(p.y, 0, rows * h, size)
                &&& spans(p.w, 0, h, size)
            }
        },
{
    if x.layout.dims@.len() > 0 {
        lemma_counted(x.layout);
        lemma_ceil_div(x.layout.dims@.last() as int, 32);
    }
}

/// A norm with a mean over rows is of every row of the shape and all of each; the shift is added
/// exactly where one was given, from where it starts.
pub proof fn layer_norm_is_as_asked(x: Operand, w: Operand, bias: Option<Operand>, out: Operand)
    requires
        countable(x.layout),
        w.wf(),
        bias matches Some(b) ==> b.wf(),
    ensures
        backend_layer_norm(x, w, bias, out) matches Ok(r) ==> {
            let (rows, h, size) = (
                leading_rows(x.layout),
                x.layout.dims@.last() as int,
                bytes_of(x.layout.dtype),
            );
            &&& r is None <==> x.layout.numel == 0
            &&& r matches Some(p) ==> {
                &&& p.norm.params.batch == rows && p.norm.params.hidden == h
                &&& p.norm.params.has_beta == (if bias is Some { 1int } else { 0int })
                &&& p.norm.params.x_row_stride == h && p.norm.params.y_row_stride == h
                &&& (p.norm.params.x_offset, p.norm.params.w_offset, p.norm.params.b_offset) == (
                    0i64,
                    0i64,
                    0i64,
                )
                &&& p.norm.params.y_offset == 0
                &&& block_each(p.norm.launch, rows)
                &&& spans(p.x, x.layout.byte_offset as int, rows * h, size)
                &&& spans(p.w, w.layout.byte_offset as int, h, size)
                &&& spans(p.y, 0, rows * h, size)
                &&& p.beta is Some <==> bias is Some
                &&& bias matches Some(b) ==> spans(p.beta->0, b.layout.byte_offset as int, h, size)
            }
        },
        backend_layer_norm(x, w, bias, out) is Ok <==> {
            &&& x.cuda && out.cuda && x.layout.contiguous && x.layout.dims@.len() > 0
            &&& is_one_row(w, x.layout.dtype, x.layout.dims@.last())
            &&& bias matches Some(b) ==> is_one_row(b, x.layout.dtype, x.layout.dims@.last())
            &&& plain_float(x.layout.dtype) || x.layout.numel == 0
        },
{
    if x.layout.dims@.len() > 0 {
        lemma_counted(x.layout);
        let h = x.layout.dims@.last();
        if w.layout.dims@.len() == 1 && w.layout.dims@[0] == h {
            assert(w.layout.dims@ =~= seq![h]);
            lemma_row(w.layout, h);
        }
        if let Some(b) = bias {
            if b.layout.dims@.len() == 1 && b.layout.dims@[0] == h {
                assert(b.layout.dims@ =~= seq![h]);
                lemma_row(b.layout, h);
            }
        }
    }
}

/// The elements of an image, by its channels and points.
proof fn lemma_images(d: Seq<usize>, nhwc: bool)
    requires
        d.len() >= 2,
    ensures
        volume(d) > 0 ==> volume(d) == d[0] * channels(d, nhwc).0 * channels(d, nhwc).1,
        volume(d) > 0 ==> 0 < d[0] && 0 < channels(d, nhwc).0 && 0 < channels(d, nhwc).1 <= volume(d),
{
    lemma_volume_first(d);
    let t = d.skip(1);
    let inner = if nhwc {
        d.subrange(1, d.len() - 1)
    } else {
        d.skip(2)
    };
    lemma_volume_bounds(inner);
    let (b, c, v) = (d[0] as int, channels(d, nhwc).0 as int, volume(inner));
    if nhwc {
        assert(t.drop_last() =~= inner);
        assert(volume(t) == v * c);
    } else {
        lemma_volume_first(t);
        assert(t.skip(1) =~= inner);
        assert(volume(t) == c * v);
    }
    let w = volume(d);
    assert(w == b * c * v) by (nonlinear_arith)
        requires
            w == b * volume(t),
            volume(t) == v * c || volume(t) == c * v,
    ;
    if w > 0 {
        assert(b > 0 && c > 0 && v > 0 && v <= b * c * v) by (nonlinear_arith)
            requires
                b * c * v > 0,
                b >= 0,
                c >= 0,
                v >= 0,
        ;
    }
}

/// A norm over groups of channels takes every channel of every image: a block for each group of
/// each, as many points as the image has, and a scale and a shift exactly where both were given,
/// each from where it starts.
pub proof fn group_norm_is_as_asked(
    x: Operand,
    weight: Option<Operand>,
    bias: Option<Operand>,
    out: Operand,
    num_groups: usize,
    silu: bool,
    nhwc: bool,
)
    requires
        x.wf(),
        0 < x.layout.numel <= i32::MAX,
        weight matches Some(w) ==> w.layout.byte_offset + i32::MAX * 4 <= usize::MAX,
        bias matches Some(w) ==> w.layout.byte_offset + i32::MAX * 4 <= usize::MAX,
    ensures
        backend_group_norm(x, weight, bias, out, num_groups, silu, nhwc) matches Ok(r) ==> {
            let d = x.layout.dims@;
            let size = bytes_of(x.layout.dtype);
            &&& r is Some
            &&& r matches Some(p) ==> {
                let c = p.params.c as int;
                &&& c == (if nhwc { d.last() } else { d[1] })
                &&& d[0] * c * p.params.hw == x.layout.numel
                &&& p.params.g == num_groups && p.params.g > 0 && c % (p.params.g as int) == 0
                &&& p.params.has_affine == (if weight is Some && bias is Some { 1int } else { 0int })
                &&& p.params.apply_silu == (if silu { 1int } else { 0int })
                &&& (p.params.x_offset, p.params.w_offset, p.params.b_offset, p.params.y_offset) == (
                    0i64,
                    0i64,
                    0i64,
                    0i64,
                )
                &&& block_each(p.launch, d[0] * p.params.g)
                &&& spans(p.x, x.layout.byte_offset as int, x.layout.numel as int, size)
                &&& spans(p.y, 0, x.layout.numel as int, size)
                &&& p.affine is Some <==> weight is Some && bias is Some
                &&& p.affine matches Some((w, s)) ==> {
                    &&& spans(w, (weight->0).layout.byte_offset as int, c, size)
                    &&& spans(s, (bias->0).layout.byte_offset as int, c, size)
                }
            }
        },
        backend_group_norm(x, weight, bias, out, num_groups, silu, nhwc) is Ok <==> {
            let d = x.layout.dims@;
            let c = if nhwc { d.last() } else { d[1] };
            &&& plain_float(x.layout.dtype) && d.len() >= 2 && x.layout.contiguous
            &&& x.cuda && out.cuda
            &&& num_groups > 0 && c % num_groups == 0
            &&& weight is Some <==> bias is Some
            &&& weight matches Some(w) ==> w.cuda && w.layout.contiguous && w.layout.dtype
                == x.layout.dtype
            &&& bias matches Some(w) ==> w.cuda && w.layout.contiguous && w.layout.dtype
                == x.layout.dtype
        },
{
    let d = x.layout.dims@;
    lemma_volume_bounds(d);
    if d.len() >= 2 {
        lemma_images(d, nhwc);
        lemma_images(d, false);
        lemma_images(d, true);
        let (b, c, hw) = (d[0] as int, channels(d, nhwc).0 as int, channels(d, nhwc).1);
        let n = x.layout.numel as int;
        assert(b <= n && c <= n && b * c <= n && b * c * hw == n) by (nonlinear_arith)
            requires
                n == b * c * hw,
                b > 0,
                c > 0,
                hw > 0,
        ;
        if num_groups > 0 && c % (num_groups as int) == 0 {
            let g = num_groups as int;
            assert(g <= c) by (nonlinear_arith)
                requires
                    c % g == 0,
                    c > 0,
                    g > 0,
            ;
            assert(0 <= b * g <= b * c) by (nonlinear_arith)
                requires
                    0 < g <= c,
                    b > 0,
            ;
        }
        lemma_float_bytes(n, x.layout.dtype);
        lemma_float_bytes(c, x.layout.dtype);
        assert(x.layout.byte_offset + n * 4 <= usize::MAX) by {
            lemma_rows(x.layout, 1);
        }
    }
}

/// A norm over channels takes every channel of every point.
#[verifier::spinoff_prover]
pub proof fn pixel_norm_is_as_asked(x: Operand, out: Operand, c: usize, silu: bool)
    requires
        x.wf(),
        0 < x.layout.numel <= i32::MAX,
    ensures
        backend_pixel_norm(x, out, c, silu) matches Ok(r) ==> {
            let d = x.layout.dims@;
            let size = bytes_of(x.layout.dtype);
            &&& r is Some
            &&& r matches Some(p) ==> {
                &&& p.params.c == d[1] && p.params.c == c
                &&& d[0] * d[1] * p.params.s == x.layout.numel
                &&& p.params.apply_silu == (if silu { 1int } else { 0int })
                &&& p.launch.grid.1 == d[0] && p.launch.grid.2 == 1
                &&& p.launch.block.1 == 1 && p.launch.block.2 == 1 && p.launch.block.0 <= 1024
                &&& p.launch.grid.0 * p.launch.block.0 * (16int / size) >= p.params.s
                &&& spans(p.x, x.layout.byte_offset as int, x.layout.numel as int, size)
                &&& spans(p.y, 0, x.layout.numel as int, size)
            }
        },
        backend_pixel_norm(x, out, c, silu) is Ok <==> plain_float(x.layout.dtype)
            && x.layout.contiguous && x.cuda && out.cuda && x.layout.dims@.len() >= 2
            && x.layout.dims@[1] == c,
{
    let d = x.layout.dims@;
    lemma_volume_bounds(d);
    if d.len() >= 2 {
        lemma_images(d, false);
        let (b, ch, hw) = (d[0] as int, channels(d, false).0 as int, channels(d, false).1);
        let n = x.layout.numel as int;
        assert(b <= n && ch <= n && b * ch <= n && hw <= n) by (nonlinear_arith)
            requires
                n == b * ch * hw,
                b > 0,
                ch > 0,
                hw > 0,
        ;
        lemma_float_bytes(n, x.layout.dtype);
        assert(x.layout.byte_offset + n * 4 <= usize::MAX) by {
            lemma_rows(x.layout, 1);
        }
        lemma_ceil_div(hw, 1024);
        lemma_ceil_div(hw, 2048);
        let (g, k) = (crate::arith::ceil_div(hw, 1024), crate::arith::ceil_div(hw, 2048));
        assert(g * 256 * 4 >= hw && 0 <= g <= n);
        assert(k * 256 * 8 >= hw && 0 <= k <= n);
        if let Ok(Some(p)) = backend_pixel_norm(x, out, c, silu) {
            let size = bytes_of(x.layout.dtype);
            assert(size == 4 || size == 2);
            assert(16int / size == if size == 4 { 4int } else { 8int });
            assert(p.launch.grid.0 == if size == 4 { g } else { k });
            assert(p.launch.grid.0 * p.launch.block.0 * (16int / size) >= p.params.s);
        }
    }
}

/// A gated activation of rows takes both halves of every row and gives one.
pub proof fn split_activation_is_as_asked(inp: Operand, out: Operand)
    requires
        countable(inp.layout),
        inp.layout.numel > 0,
    ensures
        backend_geglu_split(inp, out) matches Ok(r) ==> {
            let size = bytes_of(inp.layout.dtype);
            &&& r is Some
            &&& r matches Some(p) ==> {
                &&& p.t == leading_rows(inp.layout)
                &&& p.inner * 2 == inp.layout.dims@.last()
                &&& spans(p.input, inp.layout.byte_offset as int, inp.layout.numel as int, size)
                &&& spans(p.out, 0, p.t * p.inner, size)
                &&& strides_over(p.launch, p.t * p.inner, 65535)
            }
        },
        backend_geglu_split(inp, out) is Ok <==> plain_float(inp.layout.dtype) && inp.layout.contiguous
            && inp.cuda && out.cuda && inp.layout.dims@.len() > 0 && inp.layout.dims@.last() % 2 == 0,
{
    if inp.layout.dims@.len() > 0 {
        lemma_counted(inp.layout);
        let (t, last) = (leading_rows(inp.layout), inp.layout.dims@.last() as int);
        let inner = last / 2;
        if last % 2 == 0 {
            assert(t * inner * 2 == t * last && 0 <= t * inner) by (nonlinear_arith)
                requires
                    last == 2 * inner,
                    0 <= t,
                    0 <= inner,
            ;
            lemma_float_bytes(t * last, inp.layout.dtype);
            lemma_float_bytes(t * inner, inp.layout.dtype);
            lemma_ceil_div(t * inner, 256);
        }
    }
}

/// A periodic activation takes every element, with a frequency and an amplitude for every channel
/// from where they start.
pub proof fn periodic_activation_is_as_asked(
    x: Operand,
    a: Operand,
    binv: Operand,
    out: Operand,
    c: usize,
    t_len: usize,
)
    requires
        x.wf(),
        x.layout.numel <= i32::MAX,
        c <= i32::MAX,
        t_len <= i32::MAX,
        a.layout.byte_offset + i32::MAX * 4 <= usize::MAX,
        binv.layout.byte_offset + i32::MAX * 4 <= usize::MAX,
    ensures
        backend_snake(x, a, binv, out, c, t_len) matches Ok(r) ==> {
            let size = bytes_of(x.layout.dtype);
            let n = x.layout.numel as int;
            &&& r is None <==> n == 0
            &&& r matches Some(p) ==> {
                &&& (p.n as int, p.chans as int, p.t_len as int) == (n, c as int, t_len as int)
                &&& spans(p.x, x.layout.byte_offset as int, n, size)
                &&& spans(p.y, 0, n, size)
                &&& spans(p.a, a.layout.byte_offset as int, c as int, 4)
                &&& spans(p.binv, binv.layout.byte_offset as int, c as int, 4)
                &&& strides_over(p.launch, n, 65535)
            }
        },
        backend_snake(x, a, binv, out, c, t_len) is Ok <==> plain_float(x.layout.dtype)
            && x.layout.contiguous && x.cuda && a.cuda && binv.cuda && out.cuda && a.layout.dtype
            == DType::F32 && binv.layout.dtype == DType::F32,
{
    lemma_rows(x.layout, 1);
    lemma_float_bytes(x.layout.numel as int, x.layout.dtype);
    lemma_ceil_div(x.layout.numel as int, 256);
}

/// A gated product takes every element of both operands, which have as many as the result.
pub proof fn gated_product_is_as_asked(gate: Operand, up: Operand, out: Operand)
    requires
        gate.wf(),
        up.wf(),
    ensures
        silu_and_mul_plan(gate, up, out) matches Ok(r) ==> {
            let (n, size) = (gate.layout.numel as int, bytes_of(gate.layout.dtype));
            &&& r is None <==> n == 0
            &&& up.layout.numel == n && out.layout.numel == n
            &&& up.layout.dtype == gate.layout.dtype && out.layout.dtype == gate.layout.dtype
            &&& r matches Some(p) ==> {
                &&& p.total == n
                &&& spans(p.gate, gate.layout.byte_offset as int, n, size)
                &&& spans(p.up, up.layout.byte_offset as int, n, size)
                &&& spans(p.out, 0, n, size)
                &&& thread_each(p.launch, n)
            }
        },
        silu_and_mul_plan(gate, up, out) is Ok <==> {
            let n = gate.layout.numel;
            &&& up.layout.dtype == gate.layout.dtype && out.layout.dtype == gate.layout.dtype
            &&& gate.layout.contiguous && up.layout.contiguous && out.layout.contiguous
            &&& up.layout.numel == n && out.layout.numel == n
            &&& n == 0 || gate.cuda && up.cuda && out.cuda && n <= u32::MAX && plain_float(
                gate.layout.dtype,
            )
        },
{
    lemma_rows(gate.layout, 1);
    lemma_rows(up.layout, 1);
    lemma_float_bytes(gate.layout.numel as int, gate.layout.dtype);
    lemma_ceil_div(gate.layout.numel as int, 256);
}

/// A gather of rows takes all tokens and the whole table, each from where it starts, and gives a row
/// for every token.
pub proof fn gather_is_as_asked(table: Operand, ids: Operand, out: Operand)
    requires
        table.wf(),
        ids.wf(),
        table.layout.numel <= i32::MAX,
        extents_fit(table.layout.dims@),
        table.layout.dims@.len() == 2 ==> table.layout.dims@[0] <= i32::MAX && table.layout.dims@[1]
            <= i32::MAX && ids.layout.numel * table.layout.dims@[1] <= i32::MAX && ids.layout.numel
            * table.layout.dims@[1] * 4 <= usize::MAX,
        ids.layout.numel <= i32::MAX,
    ensures
        gather_plan(table, ids, out) matches Ok(r) ==> {
            let (n, size) = (ids.layout.numel as int, bytes_of(table.layout.dtype));
            let (vocab, dim) = (table.layout.dims@[0] as int, table.layout.dims@[1] as int);
            &&& spans(r.ids, ids.layout.byte_offset as int, n, 4)
            &&& r.gather is None <==> n == 0 || dim == 0
            &&& r.gather matches Some(p) ==> {
                &&& (p.gather.n_ids as int, p.gather.dim as int, p.gather.vocab as int) == (n, dim, vocab)
                &&& spans(p.table, table.layout.byte_offset as int, vocab * dim, size)
                &&& spans(p.out, 0, n * dim, size)
                &&& thread_each(p.gather.launch, n * dim)
            }
        },
        gather_plan(table, ids, out) is Ok <==> {
            &&& ids.layout.dtype == DType::U32 && table.layout.dims@.len() == 2
            &&& table.layout.contiguous && ids.layout.contiguous
            &&& table.cuda && ids.cuda && out.cuda
            &&& plain_float(table.layout.dtype) || ids.layout.numel == 0 || table.layout.dims@[1] == 0
        },
{
    lemma_rows(ids.layout, 1);
    lemma_rows(table.layout, 1);
    if table.layout.dims@.len() == 2 {
        let (v, d, n) = (
            table.layout.dims@[0] as int,
            table.layout.dims@[1] as int,
            ids.layout.numel as int,
        );
        crate::layout::lemma_last_two(table.layout.dims@);
        assert(table.layout.dims@.take(0) =~= Seq::empty());
        assert(volume(table.layout.dims@) == v * d);
        assert(0 <= n * d) by (nonlinear_arith)
            requires
                0 <= n,
                0 <= d,
        ;
        lemma_float_bytes(v * d, table.layout.dtype);
        lemma_float_bytes(n * d, table.layout.dtype);
        lemma_ceil_div(n * d, 256);
    }
}

/// A gather of eight-bit rows takes all tokens, from where they start, and the sizes asked for.
pub proof fn gather_of_eight_bits_is_as_asked(
    table_cuda: bool,
    scales_cuda: bool,
    ids: Operand,
    out: Operand,
    vocab: usize,
    dim: usize,
)
    requires
        ids.wf(),
        ids.layout.numel <= u32::MAX,
        vocab <= u32::MAX,
        dim <= u32::MAX,
    ensures
        gather_mxfp8_plan(table_cuda, scales_cuda, ids, out, vocab, dim) matches Ok(p) ==> {
            &&& spans(p.ids, ids.layout.byte_offset as int, ids.layout.numel as int, 4)
            &&& (p.n_ids as usize, p.dim as usize, p.vocab as usize) == (ids.layout.numel, dim, vocab)
        },
        gather_mxfp8_plan(table_cuda, scales_cuda, ids, out, vocab, dim) is Ok <==> ids.layout.dtype
            == DType::U32 && out.layout.dtype == DType::F16 && ids.layout.contiguous && table_cuda
            && scales_cuda && ids.cuda && out.cuda,
{
    lemma_rows(ids.layout, 1);
}

} // verus!
