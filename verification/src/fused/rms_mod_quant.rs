//! A norm, a modulation and the quantisation of the result.

use vstd::prelude::*;

use crate::arith::{
    ceil_div, div_ceil_u32, lemma_ceil_div, round_up, round_up_u32,
};
use crate::dtype::{is_half, DType};
use crate::error::KernelError;
use crate::launch::{span, spec_span, Launch, Span};
use crate::reduction::rmsnorm::{row_block, row_block_threads};

verus! {

/// Which norm, and what follows it.
#[derive(Clone, Copy, Debug, PartialEq, Eq, Structural)]
pub enum NormQuantKind {
    /// Root mean square, then scale and shift.
    RmsMod,
    /// Layer norm, then scale and shift.
    LnMod,
    /// Root mean square with a weight.
    RmsW { qwen: bool },
}

/// The integer parameters of the kernels.
#[derive(Clone, Copy, Debug, PartialEq, Eq, Structural)]
pub struct RmsModQuantParams {
    pub batch: i32,
    /// Rows up to a whole tile of scales.
    pub batch_cov: i32,
    pub hidden: i32,
    pub sf_inner_dim: i32,
}

/// A norm of `m` rows of `k` elements.
#[derive(Clone, Copy, Debug, PartialEq, Eq)]
pub struct RmsModQuant {
    pub launch: Launch,
    pub params: RmsModQuantParams,
    /// The argument behind the parameters, where the kernel has one.
    pub extra: Option<i32>,
    pub x: Span,
    pub scale: Span,
    pub shift: Span,
    pub y: Span,
}

/// The entry for a norm, a format and an element type.
pub open spec fn quant_entry(kind: NormQuantKind, mxfp8: bool, dtype: DType) -> &'static str {
    let half = dtype == DType::F16;
    match (kind, mxfp8) {
        (NormQuantKind::RmsMod, false) => if half {
            "rms_mod_quant_nvfp4_f16"
        } else {
            "rms_mod_quant_nvfp4_bf16"
        },
        (NormQuantKind::LnMod, false) => if half {
            "ln_mod_quant_nvfp4_f16"
        } else {
            "ln_mod_quant_nvfp4_bf16"
        },
        (NormQuantKind::RmsW { .. }, false) => if half {
            "rms_w_quant_nvfp4_f16"
        } else {
            "rms_w_quant_nvfp4_bf16"
        },
        (NormQuantKind::RmsMod, true) => if half {
            "rms_mod_quant_mxfp8_f16"
        } else {
            "rms_mod_quant_mxfp8_bf16"
        },
        (NormQuantKind::LnMod, true) => if half {
            "ln_mod_quant_mxfp8_f16"
        } else {
            "ln_mod_quant_mxfp8_bf16"
        },
        (NormQuantKind::RmsW { .. }, true) => if half {
            "rms_w_quant_mxfp8_f16"
        } else {
            "rms_w_quant_mxfp8_bf16"
        },
    }
}

fn pick_entry(kind: NormQuantKind, mxfp8: bool, half: bool) -> (r: &'static str)
    ensures
        half ==> r == quant_entry(kind, mxfp8, DType::F16),
        !half ==> r == quant_entry(kind, mxfp8, DType::BF16),
{
    match (kind, mxfp8) {
        (NormQuantKind::RmsMod, false) => if half {
            "rms_mod_quant_nvfp4_f16"
        } else {
            "rms_mod_quant_nvfp4_bf16"
        },
        (NormQuantKind::LnMod, false) => if half {
            "ln_mod_quant_nvfp4_f16"
        } else {
            "ln_mod_quant_nvfp4_bf16"
        },
        (NormQuantKind::RmsW { .. }, false) => if half {
            "rms_w_quant_nvfp4_f16"
        } else {
            "rms_w_quant_nvfp4_bf16"
        },
        (NormQuantKind::RmsMod, true) => if half {
            "rms_mod_quant_mxfp8_f16"
        } else {
            "rms_mod_quant_mxfp8_bf16"
        },
        (NormQuantKind::LnMod, true) => if half {
            "ln_mod_quant_mxfp8_f16"
        } else {
            "ln_mod_quant_mxfp8_bf16"
        },
        (NormQuantKind::RmsW { .. }, true) => if half {
            "rms_w_quant_mxfp8_f16"
        } else {
            "rms_w_quant_mxfp8_bf16"
        },
    }
}

/// Threads of a block: those of the norm that the kernel contains, so that the sums come out the
/// same to the bit.
pub open spec fn quant_block(kind: NormQuantKind, m: u32, k: u32) -> int {
    if kind == NormQuantKind::LnMod { 256 } else { row_block(m as int, k as int) }
}

/// Elements of the scale, and of the shift: one row for a weight, else a row for every `mod_div`
/// rows.
pub open spec fn mod_len(kind: NormQuantKind, m: u32, k: u32, mod_div: u32) -> int {
    if kind is RmsW { k as int } else { (m * k) / (mod_div as int) }
}

/// The argument behind the parameters.
pub open spec fn extra_arg(kind: NormQuantKind, mod_div: u32) -> Option<i32> {
    match kind {
        NormQuantKind::RmsMod => None,
        NormQuantKind::LnMod => Some(mod_div as i32),
        NormQuantKind::RmsW { qwen } => Some(if qwen { 1 } else { 0 }),
    }
}

/// The outcome of a request.
pub open spec fn rms_mod_quant_plan(
    x_off: usize,
    scale_off: usize,
    shift_off: usize,
    m: u32,
    k: u32,
    dtype: DType,
    kind: NormQuantKind,
    mod_div: u32,
    mxfp8: bool,
) -> Result<Option<RmsModQuant>, KernelError> {
    if m == 0 || k == 0 {
        Ok(None)
    } else if mxfp8 && k % 32 != 0 {
        Err(KernelError::Unsupported("rms_mod_quant: K%32 != 0 (mxfp8)"))
    } else if !mxfp8 && k % 16 != 0 {
        Err(KernelError::Unsupported("rms_mod_quant: K%16 != 0"))
    } else if !is_half(dtype) {
        Err(KernelError::CudaDType("rms_mod_quant: dtype {} не поддержан", dtype))
    } else {
        Ok(
            Some(
                RmsModQuant {
                    launch: Launch {
                        kernel: quant_entry(kind, mxfp8, dtype),
                        grid: (if mxfp8 { m } else { round_up(m as int, 128) as u32 }, 1, 1),
                        block: (quant_block(kind, m, k) as u32, 1, 1),
                        shared_mem_bytes: (k * 2) as u32,
                    },
                    params: RmsModQuantParams {
                        batch: m as i32,
                        batch_cov: round_up(m as int, 128) as i32,
                        hidden: k as i32,
                        sf_inner_dim: (ceil_div(k as int, 64) * 4) as i32,
                    },
                    extra: extra_arg(kind, mod_div),
                    x: spec_span(x_off as int, m * k, 2),
                    scale: spec_span(scale_off as int, mod_len(kind, m, k, mod_div), 2),
                    shift: spec_span(shift_off as int, mod_len(kind, m, k, mod_div), 2),
                    y: spec_span(0, m * k, 2),
                },
            ),
        )
    }
}

/// The sizes that are computed for a request fit.
pub open spec fn rms_mod_quant_fits(
    x_off: usize,
    scale_off: usize,
    shift_off: usize,
    m: u32,
    k: u32,
    dtype: DType,
    kind: NormQuantKind,
    mod_div: u32,
    mxfp8: bool,
) -> bool {
    m > 0 && k > 0 && (if mxfp8 { k % 32 == 0 } else { k % 16 == 0 }) ==> {
        &&& round_up(m as int, 128) <= u32::MAX
        &&& k * 2 <= u32::MAX
        &&& m * k <= usize::MAX
        &&& is_half(dtype) ==> {
            &&& m * k * 2 + x_off <= usize::MAX
            &&& kind is RmsW || mod_div > 0
            &&& mod_len(kind, m, k, mod_div) * 2 + scale_off <= usize::MAX
            &&& mod_len(kind, m, k, mod_div) * 2 + shift_off <= usize::MAX
        }
    }
}

/// Plans the norm, the modulation and the quantisation of rows in buffers of bytes. A block per
/// row; the four-bit format has blocks for the rows up to a whole tile of scales as well.
pub fn run_rms_mod_quant_u8(
    x_off: usize,
    scale_off: usize,
    shift_off: usize,
    m: u32,
    k: u32,
    dtype: DType,
    kind: NormQuantKind,
    mod_div: u32,
    mxfp8: bool,
) -> (r: Result<Option<RmsModQuant>, KernelError>)
    requires
        rms_mod_quant_fits(
            x_off,
            scale_off,
            shift_off,
            m,
            k,
            dtype,
            kind,
            mod_div,
            mxfp8,
        ),
    ensures
        r == rms_mod_quant_plan(
            x_off,
            scale_off,
            shift_off,
            m,
            k,
            dtype,
            kind,
            mod_div,
            mxfp8,
        ),
{
    if m == 0 || k == 0 {
        return Ok(None);
    }
    if mxfp8 {
        if k % 32 != 0 {
            return Err(KernelError::Unsupported("rms_mod_quant: K%32 != 0 (mxfp8)"));
        }
    } else if k % 16 != 0 {
        return Err(KernelError::Unsupported("rms_mod_quant: K%16 != 0"));
    }
    proof {
        assert(0 <= m * k) by (nonlinear_arith);
        lemma_ceil_div(k as int, 64);
        lemma_ceil_div(m as int, 128);
    }
    let m_cov: u32 = round_up_u32(m, 128);
    let params = RmsModQuantParams {
        batch: m as i32,
        batch_cov: m_cov as i32,
        hidden: k as i32,
        sf_inner_dim: (div_ceil_u32(k, 64) * 4) as i32,
    };
    let block: u32 = match kind {
        NormQuantKind::LnMod => 256,
        _ => row_block_threads(m, k),
    };
    let grid: u32 = if mxfp8 {
        m
    } else {
        m_cov
    };
    let half = match dtype {
        DType::F16 => true,
        DType::BF16 => false,
        _ => {
            return Err(KernelError::CudaDType("rms_mod_quant: dtype {} не поддержан", dtype));
        },
    };
    let n: usize = (m as usize) * (k as usize);
    let n_mod: usize = match kind {
        NormQuantKind::RmsW { .. } => k as usize,
        _ => n / (mod_div as usize),
    };
    let extra = match kind {
        NormQuantKind::RmsMod => None,
        NormQuantKind::LnMod => Some(mod_div as i32),
        NormQuantKind::RmsW { qwen } => Some(
            if qwen {
                1i32
            } else {
                0i32
            },
        ),
    };
    Ok(
        Some(
            RmsModQuant {
                launch: Launch {
                    kernel: pick_entry(kind, mxfp8, half),
                    grid: (grid, 1, 1),
                    block: (block, 1, 1),
                    shared_mem_bytes: k * 2,
                },
                params,
                extra,
                x: span(x_off, n, 2),
                scale: span(scale_off, n_mod, 2),
                shift: span(shift_off, n_mod, 2),
                y: span(0, n, 2),
            },
        ),
    )
}

/// The sums are the same to the bit as those of the plain norm: the block has the threads of
/// that norm.
pub proof fn block_is_that_of_the_norm(kind: NormQuantKind, m: u32, k: u32)
    ensures
        kind != NormQuantKind::LnMod ==> quant_block(kind, m, k) == row_block(m as int, k as int),
        kind == NormQuantKind::LnMod ==> quant_block(kind, m, k) == 256,
{
}

/// A scale and a shift per row, or per whole number of rows that divides them, cover every row.
pub proof fn modulation_covers(kind: NormQuantKind, m: u32, k: u32, mod_div: u32, row: u32)
    requires
        mod_div > 0,
        m % mod_div == 0,
        row < m,
        kind !is RmsW,
    ensures
        0 <= (row as int / mod_div as int) * k,
        (row as int / mod_div as int + 1) * k <= mod_len(kind, m, k, mod_div),
{
    let q = m as int / mod_div as int;
    let i = row as int / mod_div as int;
    let d = mod_div as int;
    assert(m == d * q) by (nonlinear_arith)
        requires
            q == m as int / d,
            m as int % d == 0,
            d > 0,
    ;
    assert((m * k) == (q * k) * d + 0) by (nonlinear_arith)
        requires
            m == d * q,
    ;
    vstd::arithmetic::div_mod::lemma_fundamental_div_mod_converse(m * k, d, q * k, 0);
    assert(0 <= i < q) by (nonlinear_arith)
        requires
            i == row as int / d,
            0 <= row < d * q,
            d > 0,
    ;
    assert(0 <= i * k && (i + 1) * k <= q * k) by (nonlinear_arith)
        requires
            0 <= i < q,
            0 <= k,
    ;
}

} // verus!
