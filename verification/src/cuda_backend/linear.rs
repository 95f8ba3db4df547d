//! Matrix products.

use vstd::arithmetic::div_mod::lemma_div_multiples_vanish;
use vstd::prelude::*;
use vstd::string::StringSliceAdditionalSpecFns;

use crate::arith::lemma_mul_le_factor;
use crate::cuda_backend::CudaBackend;
use crate::dtype::{is_float3, is_half, DType};
use crate::elementwise::quant::{
    is_nvfp4_dequant, mxfp8_natural, mxfp8_quant_natural, nvfp4_dequant_f16, scale_buffer_size,
    DequantPlan, QuantSwitches, RowsLaunch,
};
use crate::error::KernelError;
use crate::gemm::dispatch::{
    mxfp8_linear_prequant, mxfp8_linear_tiled, mxfp8_prequant, mxfp8_tiled, nvfp4_linear,
    nvfp4_linear_f16, FullChoices, Mxfp8Linear, Mxfp8Prequant, Nvfp4Linear, Prequant,
};
use crate::layout::{
    lemma_last_two, lemma_volume_bounds, row_count, rows_by, volume, Layout, Operand,
};
use crate::weight::{Packed, QuantWeight};

verus! {

/// A product of `batch` pairs of matrices, `[m, k]` with `[k, n]`.
#[derive(Clone, Copy, Debug, PartialEq, Eq, Structural)]
pub struct MatmulPlan {
    pub dtype: DType,
    pub m: u32,
    pub n: u32,
    pub k: u32,
    pub batch: u32,
    /// The second matrix is the same for every pair.
    pub b_broadcast: bool,
}

/// The extents that `matmul` divides by are not zero and fit.
pub open spec fn matmul_fits(a: Layout, b: Layout) -> bool {
    &&& a.dims@.len() >= 2
    &&& b.dims@.len() >= 1
    &&& a.dims@[a.dims@.len() - 2] > 0
    &&& a.dims@.last() > 0
    &&& b.dims@.last() > 0
    &&& a.dims@.last() * b.dims@.last() <= usize::MAX
}

/// The outcome of a request for a product.
pub open spec fn matmul_plan(
    a: Operand,
    b: Operand,
    dst: Operand,
) -> Result<MatmulPlan, KernelError> {
    let al = a.layout;
    let bl = b.layout;
    let m = al.dims@[al.dims@.len() - 2];
    let k = al.dims@.last();
    let n = bl.dims@.last();
    let batch = al.numel as int / (m * k);
    let batch_b = bl.numel as int / (k * n);
    if !al.contiguous || !bl.contiguous {
        Err(KernelError::NonContiguous)
    } else if !a.cuda {
        Err(KernelError::Unsupported("matmul: a non-cuda"))
    } else if !b.cuda {
        Err(KernelError::Unsupported("matmul: b non-cuda"))
    } else if !dst.cuda {
        Err(KernelError::Unsupported("matmul: dst non-cuda"))
    } else if !is_float3(al.dtype) {
        Err(
            KernelError::Unsupported(
                "dense matmul: dtype не поддержан (best_cu = F16/BF16/F32)",
            ),
        )
    } else {
        Ok(
            MatmulPlan {
                dtype: al.dtype,
                m: m as u32,
                n: n as u32,
                k: k as u32,
                batch: (batch as usize) as u32,
                b_broadcast: batch_b == 1 && batch > 1,
            },
        )
    }
}

/// The pairs are as many as the outer extents of the first operand make, so its elements are
/// those of all first matrices; a broadcast second operand is one matrix.
pub proof fn matmul_batches(a: Operand, b: Operand, dst: Operand)
    requires
        a.wf(),
        b.wf(),
        b.layout.dims@.len() >= 2,
        b.layout.dims@[b.layout.dims@.len() - 2] == a.layout.dims@.last(),
        a.layout.numel <= u32::MAX,
        matmul_fits(a.layout, b.layout),
    ensures
        matmul_plan(a, b, dst) matches Ok(p) ==> {
            let d = a.layout.dims@;
            let e = b.layout.dims@;
            &&& p.batch == volume(d.take(d.len() - 2))
            &&& p.b_broadcast <==> volume(e.take(e.len() - 2)) == 1 && p.batch > 1
        },
{
    let d = a.layout.dims@;
    let e = b.layout.dims@;
    lemma_last_two(d);
    lemma_last_two(e);
    let mk = d[d.len() - 2] * d.last();
    let kn = d.last() * e.last();
    let v = volume(d.take(d.len() - 2));
    let w = volume(e.take(e.len() - 2));
    assert(mk > 0) by (nonlinear_arith)
        requires
            mk == d[d.len() - 2] * d.last(),
            d[d.len() - 2] > 0,
            d.last() > 0,
    ;
    assert(kn > 0) by (nonlinear_arith)
        requires
            kn == d.last() * e.last(),
            e.last() > 0,
            d.last() > 0,
    ;
    assert(e[e.len() - 2] * e[e.len() - 1] == kn);
    assert(d[d.len() - 2] * d[d.len() - 1] == mk);
    assert(v * mk == mk * v && w * kn == kn * w) by (nonlinear_arith);
    lemma_div_multiples_vanish(v, mk);
    lemma_div_multiples_vanish(w, kn);
    assert(v <= v * mk) by (nonlinear_arith)
        requires
            v >= 0,
            mk >= 1,
    ;
    lemma_volume_bounds(d.take(d.len() - 2));
}

/// The kernel of a product with a weight of `n` rows of `k` elements.
#[derive(Clone, Copy, Debug, PartialEq, Eq, Structural)]
pub enum LinearPlan {
    /// One row.
    Gemv { dtype: DType, n: u32, k: u32, w_byte_off: usize, x_byte_off: usize },
    /// `m` rows, on tensor cores.
    Gemm { dtype: DType, n: u32, k: u32, m: u32 },
}

/// The outcome of a request for a product with a weight.
pub open spec fn linear_plan(
    x: Operand,
    w: Operand,
    out: Operand,
) -> Result<LinearPlan, KernelError> {
    let dtype = x.layout.dtype;
    let xd = x.layout.dims@;
    let wd = w.layout.dims@;
    if w.layout.dtype != dtype {
        Err(KernelError::Unsupported("cuda linear: dtype mismatch x/w"))
    } else if xd.len() == 0 {
        Err(KernelError::Unsupported("cuda linear: x scalar"))
    } else if wd.len() != 2 || wd[1] != xd.last() {
        Err(KernelError::Unsupported("cuda linear: weight shape"))
    } else if !x.layout.contiguous || !w.layout.contiguous {
        Err(KernelError::NonContiguous)
    } else if !x.cuda {
        Err(KernelError::Unsupported("cuda linear: x non-cuda"))
    } else if !w.cuda {
        Err(KernelError::Unsupported("cuda linear: w non-cuda"))
    } else if !out.cuda {
        Err(KernelError::Unsupported("cuda linear: out non-cuda"))
    } else if row_count(x.layout, xd.last()) == 1 {
        Ok(
            LinearPlan::Gemv {
                dtype,
                n: wd[0] as u32,
                k: xd.last() as u32,
                w_byte_off: w.layout.byte_offset,
                x_byte_off: x.layout.byte_offset,
            },
        )
    } else if x.layout.offset != 0 || w.layout.offset != 0 {
        Err(KernelError::Unsupported("cuda linear M>1: nonzero offset → matmul path"))
    } else if !is_half(dtype) {
        Err(
            KernelError::Unsupported(
                "cuda linear M>1: не BF16/F16 best_cu (F32 → matmul-fallback)",
            ),
        )
    } else {
        Ok(
            LinearPlan::Gemm {
                dtype,
                n: wd[0] as u32,
                k: xd.last() as u32,
                m: (row_count(x.layout, xd.last()) as usize) as u32,
            },
        )
    }
}

/// A product with a weight, with a bias and a residual added in the same launch where given.
#[derive(Clone, Copy, Debug, PartialEq, Eq, Structural)]
pub struct LinearEpilogue {
    pub dtype: DType,
    pub n: u32,
    pub k: u32,
    pub m: u32,
    pub bias: bool,
    pub residual: bool,
}

/// What is wrong with a bias for `n` columns, if anything.
pub open spec fn bias_error(b: Operand, dtype: DType, n: int) -> Option<KernelError> {
    if b.layout.dtype != dtype || !b.layout.contiguous || b.layout.numel != n {
        Some(KernelError::Unsupported("linear_epilogue: bias shape"))
    } else if !b.cuda {
        Some(KernelError::Unsupported("linear_epilogue: bias non-cuda"))
    } else {
        None
    }
}

/// What is wrong with a residual for `m` rows of `n` columns, if anything.
pub open spec fn residual_error(r: Operand, dtype: DType, m: int, n: int) -> Option<KernelError> {
    if r.layout.dtype != dtype || !r.layout.contiguous || r.layout.numel != m * n || r.layout.offset
        != 0 {
        Some(KernelError::Unsupported("linear_epilogue: residual shape"))
    } else if !r.cuda {
        Some(KernelError::Unsupported("linear_epilogue: residual non-cuda"))
    } else {
        None
    }
}

/// The outcome of a request for a product with an epilogue.
pub open spec fn linear_epilogue_plan(
    x: Operand,
    w: Operand,
    bias: Option<Operand>,
    residual: Option<Operand>,
    out: Operand,
) -> Result<LinearEpilogue, KernelError> {
    let dtype = x.layout.dtype;
    let xd = x.layout.dims@;
    let wd = w.layout.dims@;
    let m = row_count(x.layout, xd.last());
    if !is_half(dtype) || w.layout.dtype != dtype {
        Err(KernelError::Unsupported("linear_epilogue: dtype"))
    } else if xd.len() == 0 {
        Err(KernelError::Unsupported("linear_epilogue: x scalar"))
    } else if m <= 1 || wd.len() != 2 || wd[1] != xd.last() {
        Err(KernelError::Unsupported("linear_epilogue: shape/M"))
    } else if !x.layout.contiguous || !w.layout.contiguous {
        Err(KernelError::NonContiguous)
    } else if x.layout.offset != 0 || w.layout.offset != 0 {
        Err(KernelError::Unsupported("linear_epilogue: nonzero offset"))
    } else if bias is Some && bias_error(bias->0, dtype, wd[0] as int) is Some {
        Err(bias_error(bias->0, dtype, wd[0] as int)->0)
    } else if residual is Some && residual_error(residual->0, dtype, m, wd[0] as int) is Some {
        Err(residual_error(residual->0, dtype, m, wd[0] as int)->0)
    } else if !x.cuda {
        Err(KernelError::Unsupported("linear_epilogue: x non-cuda"))
    } else if !w.cuda {
        Err(KernelError::Unsupported("linear_epilogue: w non-cuda"))
    } else if !out.cuda {
        Err(KernelError::Unsupported("linear_epilogue: out non-cuda"))
    } else {
        Ok(
            LinearEpilogue {
                dtype,
                n: wd[0] as u32,
                k: xd.last() as u32,
                m: (m as usize) as u32,
                bias: bias is Some,
                residual: residual is Some,
            },
        )
    }
}

/// Whatever an epilogue is fused into, the plain product takes as well, so a refusal of the former
/// costs no result.
pub proof fn epilogue_falls_back(
    x: Operand,
    w: Operand,
    bias: Option<Operand>,
    residual: Option<Operand>,
    out: Operand,
)
    ensures
        linear_epilogue_plan(x, w, bias, residual, out) matches Ok(p) ==> linear_plan(x, w, out)
            == Ok::<LinearPlan, KernelError>(
            LinearPlan::Gemm { dtype: p.dtype, n: p.n, k: p.k, m: p.m },
        ),
{
}

/// How a product with a quantised weight is run.
#[derive(Debug, PartialEq, Eq)]
pub enum LinearQuantPlan {
    /// The four-bit weight is brought to half floats in a buffer of `w_bytes` bytes, then
    /// multiplied as such.
    WeightOnly { dequant: DequantPlan, w_bytes: usize, n: u32, k: u32, m: u32 },
    /// A four-bit product.
    Nvfp4 { bf16: bool, product: Nvfp4Linear },
    /// One row, quantised to `packed_bytes` bytes with `scale_bytes` scales, with an eight-bit
    /// weight.
    Mxfp8Gemv {
        quant: RowsLaunch,
        packed_bytes: usize,
        scale_bytes: usize,
        out_elems: usize,
        n: u32,
        k: u32,
    },
    /// An eight-bit product in tiles.
    Mxfp8Tiled(Mxfp8Linear),
    /// An eight-bit product whose shape the tiles do not take.
    Mxfp8Fallback { m: u32 },
}

/// The rows of an activation for a quantised weight.
pub open spec fn quant_rows(x: Layout, w: QuantWeight) -> u32 {
    ((x.numel as int / w.k as int) as usize) as u32
}

/// The four-bit weight is brought to half floats first.
pub open spec fn takes_weight_only(x: Layout, weight_only: bool) -> bool {
    x.dtype != DType::BF16 && weight_only
}

/// What is wrong with a request before the weight is looked at, if anything.
pub open spec fn linear_quant_early(
    x: Operand,
    w: QuantWeight,
    out: Operand,
) -> Option<KernelError> {
    if !x.layout.contiguous {
        Some(KernelError::NonContiguous)
    } else if !x.cuda {
        Some(KernelError::Unsupported("linear_quant: x non-cuda"))
    } else if w.k == 0 {
        Some(KernelError::Unsupported("linear_quant: K=0"))
    } else if !out.cuda {
        Some(KernelError::Unsupported("linear_quant: out non-cuda"))
    } else {
        None
    }
}

/// The sizes that are computed for a product with a quantised weight fit.
pub open spec fn linear_quant_fits(x: Layout, w: QuantWeight, weight_only: bool) -> bool {
    let m = quant_rows(x, w);
    w.k > 0 ==> {
        &&& w.dtype == DType::NVFP4 && takes_weight_only(x, weight_only) ==> w.n * w.k * 2
            <= usize::MAX
        &&& w.dtype == DType::NVFP4 && !takes_weight_only(x, weight_only) && (w.k as u32) % 64 == 0 ==> {
            &&& m + 255 <= u32::MAX
            &&& (m + 255) * (w.k as u32) <= usize::MAX
            &&& (m + 255) * (w.n as u32) * 2 <= usize::MAX
            &&& scale_buffer_size(m + 255, (w.k as u32) as int) <= usize::MAX
        }
        &&& w.dtype == DType::MXFP8 && x.dtype != DType::BF16 && w.k % 32 == 0 ==> {
            &&& m * w.k <= usize::MAX
            &&& m * w.n <= usize::MAX
            &&& m + 127 <= u32::MAX
            &&& (m + 127) * (w.n as u32) <= usize::MAX
            &&& (m + 127) * (w.k as u32) <= usize::MAX
        }
    }
}

/// `r` is the outcome for a four-bit weight that is brought to half floats.
pub open spec fn is_weight_only(
    r: Result<LinearQuantPlan,
    KernelError>,
    w: QuantWeight,
    m: u32,
) -> bool {
    if w.k % 16 != 0 {
        r == Err::<LinearQuantPlan, KernelError>(
            KernelError::Cuda1(
                "linear_quant NVFP4 WO: K={} должно быть кратно 16",
                w.k as u64,
            ),
        )
    } else if w.packed == Packed::Released {
        r == Err::<LinearQuantPlan, KernelError>(
            KernelError::Cuda("linear_quant NVFP4 WO: packed W освобождён"),
        )
    } else if w.packed == Packed::Host {
        r == Err::<LinearQuantPlan, KernelError>(
            KernelError::Unsupported("linear_quant NVFP4 WO: packed W non-cuda"),
        )
    } else if !w.scales_cuda {
        r == Err::<LinearQuantPlan, KernelError>(
            KernelError::Unsupported("linear_quant NVFP4 WO: scales W non-cuda"),
        )
    } else {
        match r {
            Err(e) => is_nvfp4_dequant(Err(e), w.n as u32, w.k as u32),
            Ok(LinearQuantPlan::WeightOnly { dequant, w_bytes, n, k, m: rows }) => {
                &&& is_nvfp4_dequant(Ok(dequant), w.n as u32, w.k as u32)
                &&& w_bytes == w.n * w.k * 2
                &&& n == w.n as u32
                &&& k == w.k as u32
                &&& rows == m
            },
            Ok(_) => false,
        }
    }
}

/// The outcome for an eight-bit weight.
pub open spec fn mxfp8_outcome(
    w: QuantWeight,
    m: u32,
    bf16: bool,
    switches: QuantSwitches,
    x_ptr: u64,
) -> Result<LinearQuantPlan, KernelError> {
    if bf16 {
        Err(KernelError::Unsupported("linear_quant MXFP8: активация BF16 не поддержана"))
    } else if w.k % 32 != 0 {
        Err(KernelError::Cuda1("linear_quant MXFP8: K={} должно быть кратно 32", w.k as u64))
    } else if w.packed == Packed::Released {
        Err(KernelError::Cuda("linear_quant MXFP8: packed W освобождён"))
    } else if w.packed == Packed::Host {
        Err(KernelError::Unsupported("linear_quant MXFP8: packed W non-cuda"))
    } else if !w.scales_cuda {
        Err(KernelError::Unsupported("linear_quant MXFP8: scales W non-cuda"))
    } else if m == 1 {
        Ok(
            LinearQuantPlan::Mxfp8Gemv {
                quant: mxfp8_natural(switches, x_ptr, 1, w.k as u32),
                packed_bytes: w.k,
                scale_bytes: (w.k / 32) as usize,
                out_elems: w.n,
                n: w.n as u32,
                k: w.k as u32,
            },
        )
    } else {
        match mxfp8_tiled(w, m) {
            Err(e) => Err(e),
            Ok(Some(p)) => Ok(LinearQuantPlan::Mxfp8Tiled(p)),
            Ok(None) => Ok(LinearQuantPlan::Mxfp8Fallback { m }),
        }
    }
}

/// `r` is the outcome of a request for a product with a quantised weight.
pub open spec fn is_linear_quant(
    r: Result<LinearQuantPlan, KernelError>,
    x: Operand,
    w: QuantWeight,
    out: Operand,
    weight_only: bool,
    switches: QuantSwitches,
    x_ptr: u64,
    full: FullChoices,
    full_run: FullChoices,
) -> bool {
    let m = quant_rows(x.layout, w);
    let bf16 = x.layout.dtype == DType::BF16;
    match linear_quant_early(x, w, out) {
        Some(e) => r == Err::<LinearQuantPlan, KernelError>(e),
        None => if w.dtype == DType::NVFP4 {
            if takes_weight_only(x.layout, weight_only) {
                is_weight_only(r, w, m)
            } else {
                r == (match nvfp4_linear(w, m, None, full, full_run) {
                    Err(e) => Err(e),
                    Ok(product) => Ok(LinearQuantPlan::Nvfp4 { bf16, product }),
                })
            }
        } else if w.dtype == DType::MXFP8 {
            r == mxfp8_outcome(w, m, bf16, switches, x_ptr)
        } else {
            r == Err::<LinearQuantPlan, KernelError>(
                KernelError::Unsupported("linear_quant: dtype веса"),
            )
        },
    }
}

/// How a product of quantised rows with a quantised weight is run.
#[derive(Clone, Copy, Debug, PartialEq, Eq)]
pub enum PrequantPlan {
    Nvfp4 { bf16: bool, product: Nvfp4Linear },
    Mxfp8(Mxfp8Prequant),
}

/// The outcome of a request for a product of quantised rows.
pub open spec fn prequant_plan(
    packed_cuda: bool,
    given: Prequant,
    scales_cuda: bool,
    w: QuantWeight,
    out: Operand,
    m: usize,
    full: FullChoices,
    full_run: FullChoices,
) -> Result<PrequantPlan, KernelError> {
    let bf16 = out.layout.dtype == DType::BF16;
    if !packed_cuda {
        Err(KernelError::Unsupported("linear_quant_prequant: packed non-cuda"))
    } else if !scales_cuda {
        Err(KernelError::Unsupported("linear_quant_prequant: scales non-cuda"))
    } else if !out.cuda {
        Err(KernelError::Unsupported("linear_quant_prequant: out non-cuda"))
    } else if w.dtype == DType::NVFP4 {
        match nvfp4_linear(w, m as u32, Some(given), full, full_run) {
            Err(e) => Err(e),
            Ok(product) => Ok(PrequantPlan::Nvfp4 { bf16, product }),
        }
    } else if w.dtype == DType::MXFP8 {
        if bf16 {
            Err(
                KernelError::Unsupported(
                    "linear_quant_prequant MXFP8: BF16-выход не поддержан",
                ),
            )
        } else {
            match mxfp8_prequant(w, m as u32) {
                Err(e) => Err(e),
                Ok(p) => Ok(PrequantPlan::Mxfp8(p)),
            }
        }
    } else {
        Err(KernelError::Unsupported("linear_quant_prequant: вес не NVFP4/MXFP8"))
    }
}

impl CudaBackend {
    /// Plans a product of matrices.
    pub fn matmul(&self, lhs: &Operand, rhs: &Operand, dst: &Operand) -> (r: Result<
        MatmulPlan,
        KernelError,
    >)
        requires
            lhs.wf(),
            rhs.wf(),
            lhs.layout.contiguous && rhs.layout.contiguous ==> matmul_fits(lhs.layout, rhs.layout),
        ensures
            r == matmul_plan(*lhs, *rhs, *dst),
    {
        let (a, b): (&Layout, &Layout) = (&lhs.layout, &rhs.layout);
        if !a.contiguous || !b.contiguous {
            return Err(KernelError::NonContiguous);
        }
        let m: usize = a.dims[a.dims.len() - 2];
        let k: usize = a.dims[a.dims.len() - 1];
        let n: usize = b.dims[b.dims.len() - 1];
        proof {
            lemma_last_two(a.dims@);
            assert(m * k > 0 && k * n > 0) by (nonlinear_arith)
                requires
                    m > 0,
                    k > 0,
                    n > 0,
            ;
        }
        let batch: usize = a.numel / (m * k);
        let batch_b: usize = b.numel / (k * n);
        if !lhs.cuda {
            return Err(KernelError::Unsupported("matmul: a non-cuda"));
        }
        if !rhs.cuda {
            return Err(KernelError::Unsupported("matmul: b non-cuda"));
        }
        if !dst.cuda {
            return Err(KernelError::Unsupported("matmul: dst non-cuda"));
        }
        match a.dtype {
            DType::F16 | DType::BF16 | DType::F32 => Ok(
                MatmulPlan {
                    dtype: a.dtype,
                    m: m as u32,
                    n: n as u32,
                    k: k as u32,
                    batch: batch as u32,
                    b_broadcast: batch_b == 1 && batch > 1,
                },
            ),
            _ => Err(
                KernelError::Unsupported(
                    "dense matmul: dtype не поддержан (best_cu = F16/BF16/F32)",
                ),
            ),
        }
    }

    /// Plans a product with a weight of `[n, k]`.
    pub fn linear(&self, x: &Operand, w: &Operand, out: &Operand) -> (r: Result<
        LinearPlan,
        KernelError,
    >)
        requires
            x.wf(),
            w.wf(),
        ensures
            r == linear_plan(*x, *w, *out),
    {
        let dtype = x.layout.dtype;
        if w.layout.dtype != dtype {
            return Err(KernelError::Unsupported("cuda linear: dtype mismatch x/w"));
        }
        let rank: usize = x.layout.dims.len();
        if rank == 0 {
            return Err(KernelError::Unsupported("cuda linear: x scalar"));
        }
        let k: usize = x.layout.dims[rank - 1];
        let m: usize = rows_by(&x.layout, k);
        if w.layout.dims.len() != 2 || w.layout.dims[1] != k {
            return Err(KernelError::Unsupported("cuda linear: weight shape"));
        }
        if !x.layout.contiguous || !w.layout.contiguous {
            return Err(KernelError::NonContiguous);
        }
        let n: usize = w.layout.dims[0];
        if !x.cuda {
            return Err(KernelError::Unsupported("cuda linear: x non-cuda"));
        }
        if !w.cuda {
            return Err(KernelError::Unsupported("cuda linear: w non-cuda"));
        }
        if !out.cuda {
            return Err(KernelError::Unsupported("cuda linear: out non-cuda"));
        }
        if m == 1 {
            return Ok(
                LinearPlan::Gemv {
                    dtype,
                    n: n as u32,
                    k: k as u32,
                    w_byte_off: w.layout.byte_offset,
                    x_byte_off: x.layout.byte_offset,
                },
            );
        }
        if x.layout.offset != 0 || w.layout.offset != 0 {
            return Err(KernelError::Unsupported("cuda linear M>1: nonzero offset → matmul path"));
        }
        match dtype {
            DType::BF16 | DType::F16 => Ok(
                LinearPlan::Gemm { dtype, n: n as u32, k: k as u32, m: m as u32 },
            ),
            _ => Err(
                KernelError::Unsupported(
                    "cuda linear M>1: не BF16/F16 best_cu (F32 → matmul-fallback)",
                ),
            ),
        }
    }

    /// Plans a product with a weight, with a bias and a residual added in the same launch.
    pub fn linear_epilogue(
        &self,
        x: &Operand,
        w: &Operand,
        bias: Option<&Operand>,
        residual: Option<&Operand>,
        out: &Operand,
    ) -> (r: Result<LinearEpilogue, KernelError>)
        requires
            x.wf(),
            w.wf(),
        ensures
            r == linear_epilogue_plan(
                *x,
                *w,
                match bias {
                    Some(b) => Some(*b),
                    None => None,
                },
                match residual {
                    Some(b) => Some(*b),
                    None => None,
                },
                *out,
            ),
    {
        let dtype = x.layout.dtype;
        let half = match dtype {
            DType::BF16 | DType::F16 => true,
            _ => false,
        };
        if !half || w.layout.dtype != dtype {
            return Err(KernelError::Unsupported("linear_epilogue: dtype"));
        }
        let rank: usize = x.layout.dims.len();
        if rank == 0 {
            return Err(KernelError::Unsupported("linear_epilogue: x scalar"));
        }
        let k: usize = x.layout.dims[rank - 1];
        let m: usize = rows_by(&x.layout, k);
        if m <= 1 || w.layout.dims.len() != 2 || w.layout.dims[1] != k {
            return Err(KernelError::Unsupported("linear_epilogue: shape/M"));
        }
        if !x.layout.contiguous || !w.layout.contiguous {
            return Err(KernelError::NonContiguous);
        }
        if x.layout.offset != 0 || w.layout.offset != 0 {
            return Err(KernelError::Unsupported("linear_epilogue: nonzero offset"));
        }
        let n: usize = w.layout.dims[0];
        match bias {
            Some(b) => {
                if b.layout.dtype != dtype || !b.layout.contiguous || b.layout.numel != n {
                    return Err(KernelError::Unsupported("linear_epilogue: bias shape"));
                }
                if !b.cuda {
                    return Err(KernelError::Unsupported("linear_epilogue: bias non-cuda"));
                }
            },
            None => {},
        }
        match residual {
            Some(b) => {
                let whole = match m.checked_mul(n) {
                    Some(elems) => b.layout.numel == elems,
                    None => false,
                };
                if b.layout.dtype != dtype || !b.layout.contiguous || !whole || b.layout.offset != 0 {
                    return Err(KernelError::Unsupported("linear_epilogue: residual shape"));
                }
                if !b.cuda {
                    return Err(KernelError::Unsupported("linear_epilogue: residual non-cuda"));
                }
            },
            None => {},
        }
        if !x.cuda {
            return Err(KernelError::Unsupported("linear_epilogue: x non-cuda"));
        }
        if !w.cuda {
            return Err(KernelError::Unsupported("linear_epilogue: w non-cuda"));
        }
        if !out.cuda {
            return Err(KernelError::Unsupported("linear_epilogue: out non-cuda"));
        }
        Ok(
            LinearEpilogue {
                dtype,
                n: n as u32,
                k: k as u32,
                m: m as u32,
                bias: bias.is_some(),
                residual: residual.is_some(),
            },
        )
    }

    /// Plans a product with a quantised weight. `weight_only` asks for four-bit weights to be
    /// brought to half floats; `x_ptr` is the device address of `x`; `full` is about the rows of
    /// `x`, `full_run` about the rows that the four-bit product runs on.
    pub fn linear_quant(
        &self,
        x: &Operand,
        w: &QuantWeight,
        out: &Operand,
        weight_only: bool,
        switches: &QuantSwitches,
        x_ptr: u64,
        full: &FullChoices,
        full_run: &FullChoices,
    ) -> (r: Result<LinearQuantPlan, KernelError>)
        requires
            linear_quant_early(*x, *w, *out) is None ==> linear_quant_fits(x.layout, *w, weight_only),
        ensures
            is_linear_quant(r, *x, *w, *out, weight_only, *switches, x_ptr, *full, *full_run),
            r matches Ok(LinearQuantPlan::Mxfp8Gemv { .. }) ==> x.layout.numel / w.k <= u32::MAX
                ==> x.layout.numel / w.k == 1,
    {
        if !x.layout.contiguous {
            return Err(KernelError::NonContiguous);
        }
        if !x.cuda {
            return Err(KernelError::Unsupported("linear_quant: x non-cuda"));
        }
        let k: usize = w.k;
        if k == 0 {
            return Err(KernelError::Unsupported("linear_quant: K=0"));
        }
        let m: u32 = (x.layout.numel / k) as u32;
        if !out.cuda {
            return Err(KernelError::Unsupported("linear_quant: out non-cuda"));
        }
        let bf16 = x.layout.dtype == DType::BF16;
        match w.dtype {
            DType::NVFP4 => {
                if !bf16 && weight_only {
                    return nvfp4_weight_only_plan(w, m);
                }
                match nvfp4_linear_f16(w, m, None, full, full_run) {
                    Err(e) => Err(e),
                    Ok(product) => Ok(LinearQuantPlan::Nvfp4 { bf16, product }),
                }
            },
            DType::MXFP8 => mxfp8_plan(w, m, bf16, switches, x_ptr),
            _ => Err(KernelError::Unsupported("linear_quant: dtype веса")),
        }
    }

    /// Plans a product of rows that are quantised already.
    pub fn linear_quant_prequant(
        &self,
        packed_cuda: bool,
        given: Prequant,
        scales_cuda: bool,
        w: &QuantWeight,
        out: &Operand,
        m: usize,
        full: &FullChoices,
        full_run: &FullChoices,
    ) -> (r: Result<PrequantPlan, KernelError>)
        requires
            packed_cuda && scales_cuda && out.cuda && w.dtype == DType::NVFP4 && (w.k as u32) % 64
                == 0 ==> {
                &&& (m as u32) + 255 <= u32::MAX
                &&& ((m as u32) + 255) * (w.k as u32) <= usize::MAX
                &&& ((m as u32) + 255) * (w.n as u32) * 2 <= usize::MAX
                &&& scale_buffer_size((m as u32) + 255, (w.k as u32) as int) <= usize::MAX
            },
            w.dtype == DType::MXFP8 && prequant_plan(
                packed_cuda,
                given,
                scales_cuda,
                *w,
                *out,
                m,
                *full,
                *full_run,
            ) is Ok ==> (m as u32) * (w.n as u32) <= usize::MAX,
        ensures
            r == prequant_plan(
                packed_cuda,
                given,
                scales_cuda,
                *w,
                *out,
                m,
                *full,
                *full_run,
            ),
    {
        if !packed_cuda {
            return Err(KernelError::Unsupported("linear_quant_prequant: packed non-cuda"));
        }
        if !scales_cuda {
            return Err(KernelError::Unsupported("linear_quant_prequant: scales non-cuda"));
        }
        if !out.cuda {
            return Err(KernelError::Unsupported("linear_quant_prequant: out non-cuda"));
        }
        let bf16 = out.layout.dtype == DType::BF16;
        match w.dtype {
            DType::NVFP4 => match nvfp4_linear_f16(w, m as u32, Some(given), full, full_run) {
                Err(e) => Err(e),
                Ok(product) => Ok(PrequantPlan::Nvfp4 { bf16, product }),
            },
            DType::MXFP8 => {
                if bf16 {
                    return Err(
                        KernelError::Unsupported(
                            "linear_quant_prequant MXFP8: BF16-выход не поддержан",
                        ),
                    );
                }
                match mxfp8_linear_prequant(w, m as u32) {
                    Err(e) => Err(e),
                    Ok(p) => Ok(PrequantPlan::Mxfp8(p)),
                }
            },
            _ => Err(KernelError::Unsupported("linear_quant_prequant: вес не NVFP4/MXFP8")),
        }
    }
}

/// Whether four-bit weights are brought to half floats before a product, given what the switch for
/// it is set to.
pub fn nvfp4_weight_only(switch: Option<&str>) -> (r: bool)
    ensures
        r == (switch matches Some(s) && s.spec_bytes() == seq![49u8]),
{
    match switch {
        Some(s) => {
            let b = s.as_bytes();
            let on = b.len() == 1 && b[0] == 49;
            proof {
                if on {
                    assert(b@ =~= seq![49u8]);
                }
            }
            on
        },
        None => false,
    }
}

fn nvfp4_weight_only_plan(w: &QuantWeight, m: u32) -> (r: Result<LinearQuantPlan, KernelError>)
    requires
        w.n * w.k * 2 <= usize::MAX,
    ensures
        is_weight_only(r, *w, m),
{
    if w.k % 16 != 0 {
        return Err(
            KernelError::Cuda1(
                "linear_quant NVFP4 WO: K={} должно быть кратно 16",
                w.k as u64,
            ),
        );
    }
    match w.packed {
        Packed::Released => {
            return Err(KernelError::Cuda("linear_quant NVFP4 WO: packed W освобождён"));
        },
        Packed::Host => {
            return Err(KernelError::Unsupported("linear_quant NVFP4 WO: packed W non-cuda"));
        },
        Packed::Device => {},
    }
    if !w.scales_cuda {
        return Err(KernelError::Unsupported("linear_quant NVFP4 WO: scales W non-cuda"));
    }
    proof {
        lemma_mul_le_factor(w.n as int, w.k as int, 2);
    }
    let w_bytes: usize = w.n * w.k * 2;
    match nvfp4_dequant_f16(w.n as u32, w.k as u32) {
        Err(e) => Err(e),
        Ok(dequant) => Ok(
            LinearQuantPlan::WeightOnly { dequant, w_bytes, n: w.n as u32, k: w.k as u32, m },
        ),
    }
}

fn mxfp8_plan(w: &QuantWeight, m: u32, bf16: bool, switches: &QuantSwitches, x_ptr: u64) -> (r: Result<
    LinearQuantPlan,
    KernelError,
>)
    requires
        !bf16 && w.k % 32 == 0 ==> {
            &&& m + 127 <= u32::MAX
            &&& (m + 127) * (w.n as u32) <= usize::MAX
            &&& (m + 127) * (w.k as u32) <= usize::MAX
        },
    ensures
        r == mxfp8_outcome(*w, m, bf16, *switches, x_ptr),
{
    if bf16 {
        return Err(
            KernelError::Unsupported("linear_quant MXFP8: активация BF16 не поддержана"),
        );
    }
    if w.k % 32 != 0 {
        return Err(
            KernelError::Cuda1("linear_quant MXFP8: K={} должно быть кратно 32", w.k as u64),
        );
    }
    match w.packed {
        Packed::Released => {
            return Err(KernelError::Cuda("linear_quant MXFP8: packed W освобождён"));
        },
        Packed::Host => {
            return Err(KernelError::Unsupported("linear_quant MXFP8: packed W non-cuda"));
        },
        Packed::Device => {},
    }
    if !w.scales_cuda {
        return Err(KernelError::Unsupported("linear_quant MXFP8: scales W non-cuda"));
    }
    if m == 1 {
        return Ok(
            LinearQuantPlan::Mxfp8Gemv {
                quant: mxfp8_quant_natural(switches, x_ptr, 1, w.k as u32),
                packed_bytes: w.k,
                scale_bytes: w.k / 32,
                out_elems: w.n,
                n: w.n as u32,
                k: w.k as u32,
            },
        );
    }
    match mxfp8_linear_tiled(w, m) {
        Err(e) => Err(e),
        Ok(Some(p)) => Ok(LinearQuantPlan::Mxfp8Tiled(p)),
        Ok(None) => Ok(LinearQuantPlan::Mxfp8Fallback { m }),
    }
}

} // verus!
