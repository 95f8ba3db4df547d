//! What a product with a weight is to compute, and that its plan computes all of it.

use vstd::prelude::*;

use crate::cuda_backend::attention_laws::extents_fit;
use crate::cuda_backend::conv_laws::plain_float;
use crate::cuda_backend::linear::{
    is_linear_quant, linear_epilogue_plan, linear_plan, linear_quant_fits, matmul_fits, matmul_plan,
    prequant_plan, LinearPlan, LinearQuantPlan, PrequantPlan,
};
use crate::dtype::DType;
use crate::elementwise::quant::{scale_buffer_size, QuantSwitches};
use crate::gemm::dispatch::{
    nvfp4_linear, FullChoices, Mxfp8Gemm, Mxfp8Linear, Nvfp4Activation, Nvfp4Linear, Nvfp4Plan,
    Prequant,
};
use crate::layout::{volume, Layout, Operand};
use crate::weight::{Packed, QuantWeight};

verus! {

/// The elements of the result that an eight-bit product writes.
pub open spec fn written8(gemm: Mxfp8Gemm) -> int {
    match gemm {
        Mxfp8Gemm::Rotating { out_elems } => out_elems as int,
        Mxfp8Gemm::Direct { out_elems } => out_elems as int,
        Mxfp8Gemm::Scratch { out_elems, .. } => out_elems as int,
    }
}

/// The values that an eight-bit product quantises of the activation, without the zeros behind them.
pub open spec fn quantised8(p: Mxfp8Linear) -> int {
    match p.zero_tail {
        Some((values, _)) => values as int,
        None => p.packed_bytes as int,
    }
}

/// The elements of two bytes that a four-bit product writes to the result.
pub open spec fn written4(p: Nvfp4Linear) -> int {
    match p.work {
        Some(work) => work.out_bytes as int / 2,
        None => 0,
    }
}

/// The values, two to a byte, that a four-bit product quantises of the activation, without the zeros
/// behind them; none where it is quantised already.
pub open spec fn quantised4(a: Nvfp4Activation) -> Option<int> {
    match a {
        Nvfp4Activation::Fresh { zero_from: Some(bytes), .. } => Some(bytes * 2),
        Nvfp4Activation::Fresh { packed_bytes, .. } => Some(packed_bytes * 2),
        Nvfp4Activation::Given { .. } => None,
    }
}

/// The rows that a four-bit product runs on have room: for their values, for their results, and all
/// rows that were asked for are among them.
pub open spec fn has_room4(p: Nvfp4Linear, rows: int, n: int, k: int) -> bool {
    p.work matches Some(work) ==> {
        let run = work.m_run as int;
        &&& rows <= run <= rows + 255
        &&& match work.out_pad_bytes {
            Some(bytes) => bytes == run * n * 2,
            None => run == rows,
        }
        &&& work.activation matches Nvfp4Activation::Fresh { packed_bytes, scale_bytes, .. } ==> {
            &&& packed_bytes * 2 == run * k
            &&& scale_bytes == scale_buffer_size(run, k)
        }
        &&& p.plan == Nvfp4Plan::Gemv ==> run == 1
    }
}

/// The elements of the result that the plan of a product with a quantised weight of `n` rows writes.
pub open spec fn written(p: LinearQuantPlan, n: int) -> int {
    match p {
        LinearQuantPlan::WeightOnly { n: cols, m, .. } => m * cols,
        LinearQuantPlan::Nvfp4 { product, .. } => written4(product),
        LinearQuantPlan::Mxfp8Gemv { out_elems, .. } => out_elems as int,
        LinearQuantPlan::Mxfp8Tiled(l) => written8(l.gemm),
        LinearQuantPlan::Mxfp8Fallback { m } => m * n,
    }
}

/// The plan has the activation of `rows` rows of `k` elements go into the product, all of it once.
pub open spec fn takes_all_rows(p: LinearQuantPlan, rows: int, n: int, k: int) -> bool {
    match p {
        LinearQuantPlan::WeightOnly { dequant, w_bytes, n: cols, k: depth, m } => {
            &&& (m, cols, depth) == (rows as u32, n as u32, k as u32)
            &&& (dequant.outer_dim, dequant.inner_dim) == (n as u32, k as u32)
            &&& w_bytes == n * k * 2
        },
        LinearQuantPlan::Nvfp4 { product, .. } => {
            &&& product.work is Some <==> rows > 0 && n > 0
            &&& has_room4(product, rows, n, k)
            &&& product.work matches Some(work) ==> quantised4(work.activation) == Some(rows * k)
        },
        LinearQuantPlan::Mxfp8Gemv { quant, packed_bytes, scale_bytes, n: cols, k: depth, .. } => {
            &&& rows == 1
            &&& packed_bytes == rows * k
            &&& scale_bytes * 32 == rows * k
            &&& (cols, depth) == (n as u32, k as u32)
            &&& k <= i32::MAX ==> (quant.rows, quant.k) == (rows as i32, k as i32)
        },
        LinearQuantPlan::Mxfp8Tiled(l) => {
            &&& quantised8(l) == rows * k
            &&& l.scale_bytes * 32 == l.packed_bytes
            &&& l.packed_bytes >= rows * k
            &&& rows <= l.m_pad
            &&& l.m_pad % 128 == 0
            &&& (l.n, l.k) == (n as u32, k as u32)
            &&& l.gemm matches Mxfp8Gemm::Scratch { scratch_elems, .. } ==> scratch_elems == l.m_pad * n
            &&& l.gemm is Direct ==> l.m_pad == rows
            &&& l.zero_tail is Some ==> l.packed_bytes == l.m_pad * k
        },
        LinearQuantPlan::Mxfp8Fallback { m } => m == rows && (n % 128 != 0 || k % 128 != 0),
    }
}

/// A product with a quantised weight that is accepted computes every row: it writes as many elements
/// as there are rows of the activation times rows of the weight, and quantises every value of the
/// activation. A kernel for one row is given one.
pub proof fn quantised_product_covers_every_row(
    r: Result<LinearQuantPlan, crate::error::KernelError>,
    x: Operand,
    w: QuantWeight,
    out: Operand,
    weight_only: bool,
    switches: QuantSwitches,
    x_ptr: u64,
    full: FullChoices,
    full_run: FullChoices,
    rows: int,
)
    requires
        is_linear_quant(r, x, w, out, weight_only, switches, x_ptr, full, full_run),
        linear_quant_fits(x.layout, w, weight_only),
        x.layout.numel == rows * w.k,
        0 <= rows <= u32::MAX,
        w.n <= u32::MAX,
        w.k <= u32::MAX,
    ensures
        r matches Ok(p) ==> {
            &&& written(p, w.n as int) == rows * w.n
            &&& takes_all_rows(p, rows, w.n as int, w.k as int)
            &&& p matches LinearQuantPlan::Nvfp4 { bf16, .. } ==> (bf16 <==> x.layout.dtype
                == DType::BF16)
        },
{
    if r is Ok {
        let (m, n, k) = (rows, w.n as int, w.k as int);
        vstd::arithmetic::div_mod::lemma_div_multiples_vanish(m, k);
        assert(k * m == m * k) by (nonlinear_arith);
        assert(x.layout.numel as int / k == m);
        lemma_product_sizes(m, n, k);
        if w.dtype == DType::NVFP4 && !(x.layout.dtype != DType::BF16 && weight_only) {
            lemma_four_bit_product(w, m as u32, None, full, full_run);
        } else if w.dtype == DType::MXFP8 && m != 1 {
            crate::gemm::dispatch::mxfp8_rows_covered(w, m as u32);
            crate::arith::lemma_ceil_div(m, 128);
            let pad = crate::arith::round_up(m, 128);
            assert(0 <= m * n <= pad * n <= (m + 127) * n && 0 <= m * k <= pad * k <= (m + 127) * k)
                by (nonlinear_arith)
                requires
                    0 <= m <= pad <= m + 127,
                    0 <= n,
                    0 <= k,
            ;
            if k % 128 == 0 {
                lemma_multiple(m, k, 32);
                lemma_multiple(pad, k, 32);
            }
        } else if w.dtype == DType::MXFP8 {
            assert(1 * k == k && 1 * n == n);
        }
    }
}

proof fn lemma_multiple(a: int, k: int, d: int)
    requires
        k % 128 == 0,
        d == 32,
    ensures
        (a * k) % d == 0,
        (a * k) / d * d == a * k,
{
    let j = k / 32;
    assert(k == 32 * j);
    assert(a * k == 32 * (a * j)) by (nonlinear_arith)
        requires
            k == 32 * j,
    ;
}

proof fn lemma_product_sizes(m: int, n: int, k: int)
    requires
        0 <= m,
        0 <= n,
        0 <= k,
    ensures
        0 <= m * n,
        0 <= m * k,
        0 <= n * k,
{
    assert(0 <= m * n && 0 <= m * k && 0 <= n * k) by (nonlinear_arith)
        requires
            0 <= m,
            0 <= n,
            0 <= k,
    ;
}

proof fn lemma_four_bit_product(
    w: QuantWeight,
    m: u32,
    prequant: Option<Prequant>,
    full: FullChoices,
    full_run: FullChoices,
)
    requires
        w.n <= u32::MAX,
        w.k <= u32::MAX,
        w.k % 64 == 0 ==> {
            &&& m + 255 <= u32::MAX
            &&& (m + 255) * (w.k as u32) <= usize::MAX
            &&& (m + 255) * (w.n as u32) * 2 <= usize::MAX
            &&& scale_buffer_size(m + 255, w.k as int) <= usize::MAX
        },
    ensures
        nvfp4_linear(w, m, prequant, full, full_run) matches Ok(p) ==> {
            &&& written4(p) == m * w.n
            &&& p.work is Some <==> m > 0 && w.n > 0
            &&& has_room4(p, m as int, w.n as int, w.k as int)
            &&& prequant is None ==> (p.work matches Some(work) ==> quantised4(work.activation) == Some(
                m * w.k,
            ))
        },
{
    let (n, k) = (w.n as u32, w.k as u32);
    if nvfp4_linear(w, m, prequant, full, full_run) is Ok {
        let run = crate::gemm::dispatch::run_rows(m, n, k, full);
        crate::gemm::dispatch::run_rows_cover(m, n, k, full);
        lemma_product_sizes(m as int, n as int, k as int);
        lemma_product_sizes(run, n as int, k as int);
        let (a, b, c) = (m as int, n as int, k as int);
        assert(a * b * 2 <= run * b * 2 <= (a + 255) * b * 2 && a * c <= run * c <= (a + 255) * c)
            by (nonlinear_arith)
            requires
                0 <= a <= run <= a + 255,
                0 <= b,
                0 <= c,
        ;
        let h = c / 64;
        assert(c == 64 * h);
        assert(a * c == 64 * (a * h) && run * c == 64 * (run * h)) by (nonlinear_arith)
            requires
                c == 64 * h,
        ;
        crate::arith::lemma_ceil_div_monotone(run, a + 255, 128);
        crate::arith::lemma_ceil_div(run, 128);
        crate::arith::lemma_ceil_div(a + 255, 128);
        crate::arith::lemma_ceil_div(c, 64);
        let s = crate::arith::ceil_div(c, 64) * 4;
        let (u, v) = (
            crate::arith::ceil_div(run, 128) * 128,
            crate::arith::ceil_div(a + 255, 128) * 128,
        );
        assert(0 <= s * u <= s * v) by (nonlinear_arith)
            requires
                0 <= s,
                0 <= u <= v,
        ;
        assert(a == 0 || b == 0 ==> a * b == 0) by (nonlinear_arith);
        crate::gemm::dispatch::choice_takes_shape(run as u32, n, k, full_run);
    }
}

/// What a product with a quantised weight is accepted for, apart from the shape that one kernel
/// or the other takes.
pub proof fn quantised_product_accepts(
    r: Result<LinearQuantPlan, crate::error::KernelError>,
    x: Operand,
    w: QuantWeight,
    out: Operand,
    weight_only: bool,
    switches: QuantSwitches,
    x_ptr: u64,
    full: FullChoices,
    full_run: FullChoices,
)
    requires
        is_linear_quant(r, x, w, out, weight_only, switches, x_ptr, full, full_run),
        w.k <= u32::MAX,
        w.n <= u32::MAX,
        x.layout.numel <= u32::MAX,
    ensures
        r is Ok <==> {
            let bf16 = x.layout.dtype == DType::BF16;
            let rows = x.layout.numel as int / w.k as int;
            &&& x.layout.contiguous && x.cuda && out.cuda && w.k > 0
            &&& match w.dtype {
                DType::NVFP4 => if weight_only && !bf16 {
                    w.k % 16 == 0 && w.packed == Packed::Device && w.scales_cuda
                } else {
                    &&& w.k % 64 == 0
                    &&& rows == 0 || w.n == 0 || w.scales_cuda && (w.shuffled || w.packed
                        == Packed::Device)
                },
                DType::MXFP8 => !bf16 && w.k % 32 == 0 && w.packed == Packed::Device && w.scales_cuda,
                _ => false,
            }
        },
{
    if w.k > 0 {
        let (a, b) = (x.layout.numel as int, w.k as int);
        assert(0 <= a / b <= a) by (nonlinear_arith)
            requires
                a >= 0,
                b > 0,
        ;
    }
}

/// A product of rows that are quantised already with a quantised weight writes every row of the
/// result.
pub proof fn prequantised_product_covers_every_row(
    packed_cuda: bool,
    given: Prequant,
    scales_cuda: bool,
    w: QuantWeight,
    out: Operand,
    m: usize,
    full: FullChoices,
    full_run: FullChoices,
)
    requires
        w.n <= u32::MAX,
        w.k <= u32::MAX,
        m + 255 <= u32::MAX,
        (m + 255) * w.k <= usize::MAX,
        (m + 255) * w.n * 2 <= usize::MAX,
        scale_buffer_size(m + 255, w.k as int) <= usize::MAX,
    ensures
        prequant_plan(packed_cuda, given, scales_cuda, w, out, m, full, full_run) matches Ok(p) ==> {
            &&& packed_cuda && scales_cuda && out.cuda
            &&& match p {
                PrequantPlan::Nvfp4 { bf16, product } => {
                    &&& w.dtype == DType::NVFP4
                    &&& bf16 <==> out.layout.dtype == DType::BF16
                    &&& written4(product) == m * w.n
                    &&& has_room4(product, m as int, w.n as int, w.k as int)
                },
                PrequantPlan::Mxfp8(l) => {
                    &&& w.dtype == DType::MXFP8
                    &&& out.layout.dtype != DType::BF16
                    &&& (l.m, l.n, l.k) == (m as u32, w.n as u32, w.k as u32)
                    &&& l.out_elems == m * w.n
                },
            }
        },
{
    lemma_four_bit_product(w, m as u32, Some(given), full, full_run);
    let (a, b) = (m as int, w.n as int);
    assert(0 <= a * b <= (a + 255) * b * 2) by (nonlinear_arith)
        requires
            0 <= a,
            0 <= b,
    ;
}

/// The rows of an activation whose rows have `k` elements, as its shape has them.
pub open spec fn leading_rows(x: Layout) -> int {
    volume(x.dims@.drop_last())
}

pub(crate) proof fn lemma_leading_rows(x: Layout)
    requires
        x.wf(),
        x.dims@.len() > 0,
        x.dims@.last() > 0,
    ensures
        crate::layout::row_count(x, x.dims@.last()) == leading_rows(x),
        0 <= leading_rows(x) <= x.numel,
        x.numel == leading_rows(x) * x.dims@.last(),
{
    let (v, k) = (leading_rows(x), x.dims@.last() as int);
    crate::layout::lemma_volume_bounds(x.dims@.drop_last());
    vstd::arithmetic::div_mod::lemma_div_multiples_vanish(v, k);
    assert(k * v == v * k && v <= v * k) by (nonlinear_arith)
        requires
            k >= 1,
            v >= 0,
    ;
}

/// A product with a weight that is accepted computes every row of the activation with every row of
/// the weight: the kernel for one row is given one, the other all of them.
pub proof fn product_covers_every_row(x: Operand, w: Operand, out: Operand)
    requires
        x.wf(),
        w.wf(),
        x.layout.numel <= u32::MAX,
        extents_fit(w.layout.dims@),
        x.layout.dims@.len() > 0 ==> x.layout.dims@.last() > 0,
    ensures
        linear_plan(x, w, out) matches Ok(p) ==> {
            let rows = leading_rows(x.layout);
            let wd = w.layout.dims@;
            &&& wd.len() == 2 && wd[1] == x.layout.dims@.last()
            &&& match p {
                LinearPlan::Gemv { dtype, n, k, w_byte_off, x_byte_off } => {
                    &&& rows == 1
                    &&& (dtype, n as usize, k as usize) == (x.layout.dtype, wd[0], wd[1])
                    &&& (w_byte_off, x_byte_off) == (w.layout.byte_offset, x.layout.byte_offset)
                },
                LinearPlan::Gemm { dtype, n, k, m } => {
                    &&& m == rows
                    &&& rows != 1
                    &&& (dtype, n as usize, k as usize) == (x.layout.dtype, wd[0], wd[1])
                    &&& (x.layout.offset, w.layout.offset) == (0usize, 0usize)
                    &&& dtype == DType::F16 || dtype == DType::BF16
                },
            }
        },
        linear_plan(x, w, out) is Ok <==> {
            let rows = leading_rows(x.layout);
            let half = x.layout.dtype == DType::F16 || x.layout.dtype == DType::BF16;
            &&& x.layout.dims@.len() > 0 && w.layout.dims@.len() == 2
            &&& w.layout.dims@[1] == x.layout.dims@.last() && w.layout.dtype == x.layout.dtype
            &&& x.layout.contiguous && w.layout.contiguous
            &&& x.cuda && w.cuda && out.cuda
            &&& rows == 1 || half && x.layout.offset == 0 && w.layout.offset == 0
        },
{
    if x.layout.dims@.len() > 0 {
        lemma_leading_rows(x.layout);
    }
}

/// A product with an epilogue that is accepted computes every row, and adds a bias and a residual
/// exactly where they were given, the residual being of the size of the result.
pub proof fn product_with_epilogue_is_as_asked(
    x: Operand,
    w: Operand,
    bias: Option<Operand>,
    residual: Option<Operand>,
    out: Operand,
)
    requires
        x.wf(),
        w.wf(),
        x.layout.numel <= u32::MAX,
        extents_fit(w.layout.dims@),
        x.layout.dims@.len() > 0 ==> x.layout.dims@.last() > 0,
    ensures
        linear_epilogue_plan(x, w, bias, residual, out) matches Ok(p) ==> {
            &&& p.m == leading_rows(x.layout)
            &&& p.m > 1
            &&& w.layout.dims@ =~= seq![p.n as usize, p.k as usize]
            &&& p.k == x.layout.dims@.last()
            &&& p.dtype == x.layout.dtype
            &&& p.bias <==> bias is Some
            &&& p.residual <==> residual is Some
            &&& bias matches Some(b) ==> b.cuda && b.layout.numel == p.n && b.layout.dtype == p.dtype
            &&& residual matches Some(b) ==> b.cuda && b.layout.numel == p.m * p.n && b.layout.dtype
                == p.dtype && b.layout.offset == 0
        },
{
    if x.layout.dims@.len() > 0 {
        lemma_leading_rows(x.layout);
    }
}

/// A product of matrices that is accepted is of the matrices that the last two axes hold.
pub proof fn matrices_are_those_of_the_operands(a: Operand, b: Operand, dst: Operand)
    requires
        matmul_fits(a.layout, b.layout),
        extents_fit(a.layout.dims@),
        extents_fit(b.layout.dims@),
    ensures
        matmul_plan(a, b, dst) matches Ok(p) ==> {
            let (ad, bd) = (a.layout.dims@, b.layout.dims@);
            &&& p.dtype == a.layout.dtype
            &&& (p.m as usize, p.k as usize, p.n as usize) == (ad[ad.len() - 2], ad.last(), bd.last())
        },
        matmul_plan(a, b, dst) is Ok <==> a.cuda && b.cuda && dst.cuda && a.layout.contiguous
            && b.layout.contiguous && plain_float(a.layout.dtype),
{
    let ad = a.layout.dims@;
    assert(ad[ad.len() - 2] <= u32::MAX && ad[ad.len() - 1] <= u32::MAX);
    assert(b.layout.dims@[b.layout.dims@.len() - 1] <= u32::MAX);
}

} // verus!
