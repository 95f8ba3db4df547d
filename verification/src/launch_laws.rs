//! What single launches are for, and that they serve all of it.

use vstd::prelude::*;

use crate::arith::lemma_ceil_div;
use crate::coverage::{block_each, is_plain, spans, strides_over, thread_each};
use crate::cuda_backend::conv_laws::plain_float;
use crate::dtype::DType;
use crate::elementwise::activations::{activation_plan, Activation};
use crate::elementwise::logit_cap::logit_cap_plan;
use crate::elementwise::rope::apply_partial_plan;
use crate::embed::embed_gather_plan;
use crate::fused::cross_entropy::cross_entropy_plan;
use crate::fused::geglu::geglu_plan;
use crate::fused::layernorm_residual::layernorm_residual_plan;
use crate::fused::llm_decode::{geglu_quant_plan, row_launch, TopkArgs};
use crate::fused::moe_dispatch::{moe_gather_plan, moe_scatter_plan};
use crate::fused::qkv_proj::qkv_plan;
use crate::fused::rmsnorm_residual::residual_norm_plan;
use crate::kernels::dwconv1d::dwconv1d_plan;
use crate::kernels::qwen4_decode::{
    group_rms_plan, hc_inject_plan, hc_mix_plan, scale_act_plan, weighted_rows_sum_plan,
};
use crate::kernels::topk_rows::topk_rows_plan;
use crate::kernels::topk_wide::topk_wide_plan;
use crate::layout::Operand;
use crate::reduction::layernorm::layer_norm_plan;
use crate::reduction::rmsnorm::RmsVariant;
use crate::reduction::softmax::softmax_plan;
use crate::reduction::topk::topk_plan;
use crate::scan::parallel_scan::prefix_sum_plan;
use crate::ssm::mamba2_ssd::{is_power_of_two, small_powers, ssd_plan};
use crate::ssm::mamba_scan::mamba_scan_plan;

verus! {

proof fn lemma_positive(a: int, b: int)
    requires
        0 <= a,
        0 <= b,
    ensures
        0 <= a * b,
        a * b == 0 <==> a == 0 || b == 0,
{
    assert(0 <= a * b) by (nonlinear_arith)
        requires
            0 <= a,
            0 <= b,
    ;
    assert(a * b == 0 <==> a == 0 || b == 0) by (nonlinear_arith);
}

/// The operand is on the device, starts with its buffer and has no gaps.
pub open spec fn starts_plain(o: Operand) -> bool {
    o.cuda && o.layout.contiguous && o.layout.offset == 0
}

/// A convolution of every channel by itself is of the extents of its operands, with the step asked
/// for, padded exactly where it is not transposed, and with a bias exactly where one is given.
pub proof fn channel_convolution_is_as_asked(
    input: Operand,
    weight: Operand,
    bias: Option<Operand>,
    out: Operand,
    stride: usize,
    pad: usize,
    transpose: bool,
)
    requires
        input.layout.dims@.len() == 3,
        weight.layout.dims@.len() == 3,
        out.layout.dims@.len() == 3,
        input.layout.dims@[1] <= i32::MAX,
        input.layout.dims@[2] <= i32::MAX,
        weight.layout.dims@[2] <= i32::MAX,
        out.layout.dims@[2] <= i32::MAX,
        stride <= i32::MAX,
        pad <= i32::MAX,
        0 < out.layout.numel <= i32::MAX,
    ensures
        dwconv1d_plan(input, weight, bias, out, stride, pad, transpose) matches Ok(p) ==> {
            &&& p.c == input.layout.dims@[1] && p.l == input.layout.dims@[2]
            &&& p.k == weight.layout.dims@[2]
            &&& p.lo == out.layout.dims@[2]
            &&& p.stride == stride
            &&& p.pad is None <==> transpose
            &&& !transpose ==> p.pad == Some(pad as i32)
            &&& p.total == out.layout.numel
            &&& p.bias <==> bias is Some
            &&& thread_each(p.launch, out.layout.numel as int)
        },
        dwconv1d_plan(input, weight, bias, out, stride, pad, transpose) is Ok <==> {
            let dtype = input.layout.dtype;
            &&& plain_float(dtype) && weight.layout.dtype == dtype && out.layout.dtype == dtype
            &&& starts_plain(input) && starts_plain(weight) && out.cuda
            &&& bias matches Some(b) ==> starts_plain(b) && b.layout.dtype == dtype
        },
{
    lemma_ceil_div(out.layout.numel as int, 256);
}

/// The greatest entries of rows: a block for every row, and of every row no more than it has; shared
/// memory holds the row, and a value and its place for every thread.
pub proof fn greatest_of_rows_are_as_asked(rows: u32, cols: u32, k: u32)
    ensures
        topk_rows_plan(rows, cols, k) matches Ok(r) ==> {
            &&& r is None <==> rows == 0 || k == 0
            &&& r matches Some(c) ==> {
                &&& c.args == (rows, cols, k)
                &&& k <= cols <= 2048
                &&& c.launch.grid == (rows, 1u32, 1u32)
                &&& c.launch.block == (256u32, 1u32, 1u32)
                &&& c.launch.shared_mem_bytes == cols * 4 + c.launch.block.0 * 8
            }
        },
        topk_rows_plan(rows, cols, k) is Ok <==> rows == 0 || k == 0 || k <= cols <= 2048,
        topk_wide_plan(rows, cols, k) matches Ok(r) ==> {
            &&& r is None <==> rows == 0 || k == 0
            &&& r matches Some(c) ==> c.args == (rows, cols, k) && k <= cols && block_each(
                c.launch,
                rows as int,
            )
        },
        topk_wide_plan(rows, cols, k) is Ok <==> rows == 0 || k == 0 || k <= cols,
        topk_rows_plan(rows, cols, k) is Ok ==> topk_wide_plan(rows, cols, k) is Ok,
{
}

/// The greatest logits of a batch: a block for every row, between one and all of its entries, and a
/// bit of shared memory for each.
pub proof fn greatest_logits_are_as_asked(batch: u32, vocab: u32, k: u32, dtype: DType)
    requires
        0 < batch <= i32::MAX,
    ensures
        topk_plan(batch, vocab, k, dtype) matches Ok(p) ==> {
            &&& (p.batch as int, p.vocab as int, p.k as int) == (batch as int, vocab as int, k as int)
            &&& 0 < k <= vocab
            &&& p.launch.grid == (batch, 1u32, 1u32)
            &&& p.launch.shared_mem_bytes * 8 >= vocab
        },
        topk_plan(batch, vocab, k, dtype) is Ok <==> vocab <= 811_008 && 0 < k <= vocab && plain_float(
            dtype,
        ),
{
    lemma_ceil_div(vocab as int, 32);
}

/// A norm of groups, a mix of streams, an injection into them, a scaled activation and a weighted
/// sum of rows take all of their operands, from where they start.
pub proof fn stream_operations_are_as_asked(
    a: usize,
    b: usize,
    c: usize,
    d: usize,
    rows: u32,
    mid: u32,
    width: u32,
    act: u32,
)
    requires
        rows * mid <= u32::MAX,
        rows * mid * width * 2 + a <= usize::MAX,
        rows * mid * width * 2 + b <= usize::MAX,
        rows * mid * width * 2 + c <= usize::MAX,
        rows * mid * width * 2 + d <= usize::MAX,
        rows * width * 2 + b <= usize::MAX,
        rows * width * 2 + c <= usize::MAX,
        rows * mid * 4 + b <= usize::MAX,
        rows * mid * 2 + c <= usize::MAX,
        mid * width * 2 + b <= usize::MAX,
        rows * 2 + a <= usize::MAX,
        rows * 2 + b <= usize::MAX,
        rows * mid * width <= u32::MAX,
        0 < rows,
        0 < mid,
        0 < width,
    ensures
        ({
            let p = group_rms_plan(a, b, c, rows, mid, width);
            &&& p.args == (rows, mid, width)
            &&& spans(p.x, a as int, rows * mid * width, 2)
            &&& spans(p.w, b as int, mid * width, 2)
            &&& spans(p.out, c as int, rows * mid * width, 2)
            &&& block_each(p.launch, rows * mid)
            &&& p.launch.block.0 % 32 == 0
        }),
        ({
            let p = hc_mix_plan(a, b, c, rows, mid, width);
            &&& p.args == (rows, mid, width)
            &&& spans(p.up, a as int, rows * mid * width, 2)
            &&& spans(p.normed, b as int, rows * mid * width, 2)
            &&& spans(p.out, c as int, rows * width, 2)
            &&& thread_each(p.launch, rows * width)
        }),
        ({
            let p = hc_inject_plan(a, b, c, d, rows, mid, width);
            &&& p.args == (rows, mid, width)
            &&& spans(p.hyper, a as int, rows * mid * width, 2)
            &&& spans(p.block, b as int, rows * width, 2)
            &&& spans(p.w, c as int, rows * mid, 2)
            &&& spans(p.out, d as int, rows * mid * width, 2)
            &&& thread_each(p.launch, rows * mid * width)
        }),
        ({
            let p = scale_act_plan(a, b, rows, act);
            &&& p.args == (rows, act)
            &&& spans(p.x, a as int, rows as int, 2)
            &&& spans(p.out, b as int, rows as int, 2)
            &&& thread_each(p.launch, rows as int)
        }),
        ({
            let p = weighted_rows_sum_plan(a, b, c, rows, mid, width);
            &&& p.args == (rows, mid, width)
            &&& spans(p.parts, a as int, rows * mid * width, 2)
            &&& spans(p.w, b as int, rows * mid, 4)
            &&& spans(p.out, c as int, rows * width, 2)
            &&& thread_each(p.launch, rows * width)
        }),
{
    let (x, y, z) = (rows as int, mid as int, width as int);
    let whole = x * y * z;
    assert(0 < x * y && 0 < x * z && 0 < y * z && 0 < whole && x * z <= whole) by (nonlinear_arith)
        requires
            0 < x,
            0 < y,
            0 < z,
            whole == x * y * z,
    ;
    lemma_ceil_div(x * z, 256);
    lemma_ceil_div(whole, 256);
    lemma_ceil_div(x, 256);
}

/// Operations with a block for every row: of every row, all of its elements, and with what was asked
/// for.
pub proof fn row_operations_are_as_asked(
    batch: u32,
    width: u32,
    flag: bool,
    ignored: i32,
    variant: RmsVariant,
    dtype: DType,
)
    requires
        0 < batch <= i32::MAX,
        0 < width <= i32::MAX,
    ensures
        softmax_plan(batch, width, dtype) matches Ok(p) ==> {
            &&& p.batch == batch && p.hidden == width
            &&& block_each(p.launch, batch as int)
        },
        cross_entropy_plan(batch, width, ignored, dtype) matches Ok(p) ==> {
            &&& p.args == (batch, width, ignored)
            &&& block_each(p.launch, batch as int)
        },
        layernorm_residual_plan(batch, width, flag, dtype) matches Ok(r) ==> {
            &&& r is Some
            &&& r matches Some(p) ==> {
                &&& p.batch == batch && p.hidden == width
                &&& p.has_beta == (if flag { 1int } else { 0int })
                &&& block_each(p.launch, batch as int)
            }
        },
        layer_norm_plan(batch, width, flag, dtype) matches Ok(p) ==> {
            &&& p.params.batch == batch && p.params.hidden == width
            &&& p.params.has_beta == (if flag { 1int } else { 0int })
            &&& p.params.x_row_stride == width && p.params.y_row_stride == width
            &&& (p.params.x_offset, p.params.w_offset, p.params.b_offset, p.params.y_offset) == (
                0i64,
                0i64,
                0i64,
                0i64,
            )
            &&& block_each(p.launch, batch as int)
        },
        residual_norm_plan(batch, width, variant, dtype) matches Ok(p) ==> {
            &&& p.batch == batch && p.hidden == width
            &&& p.qwen == (if variant is Qwen { 1int } else { 0int })
            &&& block_each(p.launch, batch as int)
        },
        prefix_sum_plan(batch, width, flag, dtype) matches Ok(p) ==> {
            &&& p.batch == batch && p.n == width
            &&& p.inclusive == (if flag { 1int } else { 0int })
            &&& block_each(p.launch, batch as int)
            &&& p.launch.block.0 * 32 >= width
        },
        plain_float(dtype) <==> softmax_plan(batch, width, dtype) is Ok,
        plain_float(dtype) <==> cross_entropy_plan(batch, width, ignored, dtype) is Ok,
        plain_float(dtype) <==> layernorm_residual_plan(batch, width, flag, dtype) is Ok,
        plain_float(dtype) <==> layer_norm_plan(batch, width, flag, dtype) is Ok,
        plain_float(dtype) <==> residual_norm_plan(batch, width, variant, dtype) is Ok,
        plain_float(dtype) && width <= 8192 <==> prefix_sum_plan(batch, width, flag, dtype) is Ok,
{
}

/// Operations with a thread for every element: of every element, and none where there is none.
pub proof fn element_operations_are_as_asked(
    n: u32,
    d: u32,
    vocab: u32,
    cap_is_zero: bool,
    act: Activation,
    dtype: DType,
)
    requires
        n <= i32::MAX,
        d <= i32::MAX,
        vocab <= i32::MAX,
        n * d <= u32::MAX,
    ensures
        logit_cap_plan(cap_is_zero, n, dtype) matches Ok(r) ==> {
            &&& r is None <==> n == 0
            &&& r matches Some(p) ==> p.n == n && thread_each(p.launch, n as int)
        },
        logit_cap_plan(cap_is_zero, n, dtype) is Ok <==> !cap_is_zero && (n == 0 || plain_float(dtype)),
        n > 0 ==> (activation_plan(n, act, dtype) matches Ok(p) ==> p.n == n && strides_over(
            p.launch,
            n as int,
            65535,
        )),
        activation_plan(n, act, dtype) is Ok <==> plain_float(dtype),
        moe_scatter_plan(n, d, dtype) matches Ok(r) ==> {
            &&& r is None <==> n == 0 || d == 0
            &&& r matches Some(p) ==> p.n == n && p.d == d && thread_each(p.launch, n * d)
        },
        moe_scatter_plan(n, d, dtype) is Ok <==> plain_float(dtype),
        moe_gather_plan(n, d, dtype) matches Ok(r) ==> {
            &&& r is None <==> n == 0 || d == 0
            &&& r matches Some(p) ==> p.n == n && p.d == d && thread_each(p.launch, n * d)
        },
        moe_gather_plan(n, d, dtype) is Ok <==> plain_float(dtype),
        embed_gather_plan(n, d, vocab, dtype) matches Ok(r) ==> {
            &&& r is None <==> n == 0 || d == 0
            &&& r matches Some(p) ==> {
                &&& (p.n_ids as int, p.dim as int, p.vocab as int) == (n as int, d as int, vocab as int)
                &&& thread_each(p.launch, n * d)
            }
        },
        embed_gather_plan(n, d, vocab, dtype) is Ok <==> n == 0 || d == 0 || plain_float(dtype),
{
    lemma_positive(n as int, d as int);
    lemma_ceil_div(n * d, 256);
    lemma_ceil_div(n as int, 256);
}

/// A rotation of `b * h * t` rows has a block for each and a thread for each element, and turns an
/// even number of elements, no more than there are.
pub proof fn row_rotation_is_as_asked(b: u32, h: u32, t: u32, head_dim: u32, rotary_dim: u32, dtype: DType)
    requires
        b * h * t <= u32::MAX,
        head_dim > 0,
    ensures
        apply_partial_plan(b, h, t, head_dim, rotary_dim, dtype) matches Ok(c) ==> {
            &&& c.args == (b, h, t, head_dim, rotary_dim)
            &&& block_each(c.launch, b * h * t)
            &&& c.launch.block.0 == head_dim
        },
        apply_partial_plan(b, h, t, head_dim, rotary_dim, dtype) is Ok <==> rotary_dim <= head_dim
            && rotary_dim % 2 == 0 && head_dim <= 1024 && plain_float(dtype),
{
    lemma_positive(b as int, h as int);
    lemma_positive(b * h, t as int);
}

/// Projections with shuffled four-bit weights have a tile for every output, sixteen of them to a
/// warp, and the activation in shared memory, two values to a byte.
#[verifier::spinoff_prover]
#[verifier::rlimit(40)]
pub proof fn projections_are_as_asked(n_q: u32, n_k: u32, n_v: u32, k: u32)
    requires
        k <= i32::MAX - 63,
    ensures
        qkv_plan(n_q, n_k, n_v, k) matches Ok(p) ==> {
            let wide = n_q % 128 == 0 && n_k % 128 == 0 && n_v % 128 == 0;
            let outputs = p.launch.grid.0 * (if wide { 128int } else { 64int });
            &&& (p.n_q, p.n_k, p.n_v, p.k) == (n_q, n_k, n_v, k)
            &&& p.launch.block.0 == (if wide { 256int } else { 128int })
            &&& outputs >= n_q && outputs >= n_k && outputs >= n_v
            &&& outputs == n_q || outputs == n_k || outputs == n_v
            &&& p.launch.shared_mem_bytes * 2 == k
            &&& p.sf_inner_dim * 16 == k
        },
        qkv_plan(n_q, n_k, n_v, k) is Ok <==> k % 64 == 0 && n_q > 0 && n_k > 0 && n_v > 0 && n_q % 64
            == 0 && n_k % 64 == 0 && n_v % 64 == 0,
{
    lemma_ceil_div(k as int, 64);
    let (a, b, c) = (n_q as int, n_k as int, n_v as int);
    let m = crate::arith::max2(crate::arith::max2(a, b), c);
    assert(m >= a && m >= b && m >= c && (m == a || m == b || m == c));
    lemma_ceil_div(m, 128);
    lemma_ceil_div(m, 64);
    if a % 128 == 0 && b % 128 == 0 && c % 128 == 0 {
        assert(m % 128 == 0);
        assert(crate::arith::ceil_div(m, 128) * 128 == m);
    } else if a % 64 == 0 && b % 64 == 0 && c % 64 == 0 {
        assert(m % 64 == 0);
        assert(crate::arith::ceil_div(m, 64) * 64 == m);
    }
}

/// As `projections_are_as_asked`, for the two that are gated together.
#[verifier::spinoff_prover]
#[verifier::rlimit(40)]
pub proof fn gated_projections_are_as_asked(n: u32, k: u32)
    requires
        k <= i32::MAX - 63,
    ensures
        geglu_plan(n, k) matches Ok(p) ==> {
            &&& (p.n, p.k) == (n, k)
            &&& p.launch.grid.0 * (if n % 128 == 0 { 128int } else { 64int }) == n
            &&& p.launch.block.0 == (if n % 128 == 0 { 256int } else { 128int })
            &&& p.launch.shared_mem_bytes * 2 == k
            &&& p.sf_inner_dim * 16 == k
        },
        geglu_plan(n, k) is Ok <==> k % 64 == 0 && n > 0 && n % 64 == 0,
{
    lemma_ceil_div(k as int, 64);
    lemma_ceil_div(n as int, 128);
    lemma_ceil_div(n as int, 64);
}

/// A gated activation on its way to four bits has four threads for every sixteen values, and one
/// block more where experts are picked beside it.
pub proof fn decode_activation_is_as_asked(bf16: bool, stride: u64, rows: u32, inter: u32, topk: TopkArgs)
    requires
        rows * (inter / 16) * 4 <= i32::MAX,
        rows <= i32::MAX,
        inter <= i32::MAX - 63,
        stride <= i64::MAX,
        topk.h <= i32::MAX,
    ensures
        geglu_quant_plan(bf16, stride, rows, inter, topk) matches Ok(r) ==> {
            &&& r is None <==> rows == 0 || inter == 0
            &&& r matches Some(p) ==> {
                let picking = if topk.e > 0 { 1int } else { 0int };
                &&& p.stride == stride && p.rows == rows && p.inter == inter
                &&& p.e == topk.e && p.k == topk.k && p.h == topk.h
                &&& inter <= p.sf_inner * 16 < inter + 64
                &&& is_plain(p.launch)
                &&& (p.launch.grid.0 - picking) * p.launch.block.0 >= rows * (inter / 16) * 4
                &&& (p.launch.grid.0 - picking - 1) * p.launch.block.0 < rows * (inter / 16) * 4
            }
        },
        geglu_quant_plan(bf16, stride, rows, inter, topk) is Ok <==> inter % 16 == 0 && topk.e <= 1024
            && topk.k <= 32,
{
    lemma_positive(rows as int, (inter / 16) as int);
    lemma_ceil_div(rows * (inter / 16) * 4, 128);
    lemma_ceil_div(inter as int, 64);
}

/// The recurrences that run state by state have a block for every channel, room for all of its states,
/// and a skip connection exactly where one is asked for.
pub proof fn recurrences_are_as_asked(
    has_d: bool,
    b: u32,
    l: u32,
    h: u32,
    p: u32,
    n: u32,
    dtype: DType,
)
    requires
        b <= i32::MAX,
        l <= i32::MAX,
        h <= i32::MAX,
        p <= i32::MAX,
        b * h <= u32::MAX,
        b * h * p <= u32::MAX,
    ensures
        mamba_scan_plan(has_d, b, l, h, n, dtype) matches Ok(r) ==> {
            &&& r.has_d == (if has_d { 1int } else { 0int })
            &&& (r.b as int, r.l as int, r.d as int, r.n as int) == (
                b as int,
                l as int,
                h as int,
                n as int,
            )
            &&& block_each(r.launch, b * h)
            &&& r.launch.block.0 == 32 && n <= r.launch.block.0
        },
        mamba_scan_plan(has_d, b, l, h, n, dtype) is Ok <==> n <= 32 && plain_float(dtype),
        ssd_plan(has_d, b, l, h, p, n, dtype) matches Ok(r) ==> {
            &&& r.has_d == (if has_d { 1int } else { 0int })
            &&& (r.b as int, r.l as int, r.h as int) == (b as int, l as int, h as int)
            &&& (r.p as int, r.n as int) == (p as int, n as int)
            &&& r.launch.grid.0 == b * h * p && r.launch.grid.1 == 1 && r.launch.grid.2 == 1
            &&& r.launch.block == (n, 1u32, 1u32)
            &&& r.launch.shared_mem_bytes == n * 4
        },
        ssd_plan(has_d, b, l, h, p, n, dtype) is Ok <==> n <= 1024 && is_power_of_two(n) && plain_float(
            dtype,
        ),
{
    lemma_positive(b as int, h as int);
    lemma_positive(b * h, p as int);
    if n <= 1024 {
        small_powers(n);
    }
}

/// One row of up to 4096 values has one block, of whole warps with a thread for every four values, as
/// few as that takes from 128 on, and a single float of shared memory for each value.
pub proof fn one_row_is_as_asked(kernel: &'static str, h: u32)
    requires
        h <= 4096,
    ensures
        ({
            let l = row_launch(kernel, h);
            &&& l.kernel == kernel
            &&& l.grid == (1u32, 1u32, 1u32) && l.block.1 == 1 && l.block.2 == 1
            &&& 128 <= l.block.0 <= 1024 && l.block.0 % 32 == 0
            &&& h <= l.block.0 * 4
            &&& l.block.0 > 128 ==> (l.block.0 - 32) * 4 < h
            &&& l.shared_mem_bytes == h * 4
        }),
{
    lemma_ceil_div(h as int, 4);
    lemma_ceil_div(crate::arith::ceil_div(h as int, 4), 32);
}

} // verus!
