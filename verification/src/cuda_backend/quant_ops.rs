//! Quantisation of weights and activations.

use vstd::prelude::*;

use crate::arith::{ceil_div, lemma_ceil_div, lemma_mul_le_factor, round_up};
use crate::cuda_backend::CudaBackend;
use crate::dtype::{is_half, DType};
use crate::elementwise::quant::{
    is_nvfp4_quant, mxfp8_natural, mxfp8_quant_natural, mxfp8_threads_per_block, takes_fast_quant,
    nvfp4_scale_buffer_size, quantize_f16_to_nvfp4_view, scale_buffer_size, silu_mul_quant_plan,
    silu_mul_quantize_nvfp4_u8, Nvfp4QuantPlan, QuantSwitches, RowsLaunch, SiluMulQuantPlan,
};
use crate::error::KernelError;
use crate::fused::rms_mod_quant::{
    rms_mod_quant_fits, rms_mod_quant_plan, run_rms_mod_quant_u8, NormQuantKind, RmsModQuant,
};
use crate::gemm::dispatch::nvfp4_quantize_act;
use crate::launch::{span, spec_span, Span};
use crate::layout::Operand;

verus! {

/// A weight of half floats brought to four bits: the sizes of the two buffers and the launches.
#[derive(Debug, PartialEq, Eq)]
pub struct QuantizeNvfp4 {
    pub packed_bytes: usize,
    pub scales_bytes: usize,
    pub quant: Nvfp4QuantPlan,
}

/// What is wrong with a request to bring a weight to four bits, if anything.
pub open spec fn quantize_nvfp4_error(w: Operand, n: usize, k: usize) -> Option<KernelError> {
    if !w.layout.contiguous {
        Some(KernelError::NonContiguous)
    } else if k % 64 != 0 || n % 16 != 0 {
        Some(KernelError::Unsupported("quantize_nvfp4: требуется N%16==0 и K%64==0"))
    } else if !w.cuda {
        Some(KernelError::Unsupported("quantize_nvfp4: w non-cuda"))
    } else {
        None
    }
}

/// A weight of half floats brought to eight bits: the sizes of the two buffers and the launch.
#[derive(Clone, Copy, Debug, PartialEq, Eq)]
pub struct QuantizeMxfp8 {
    pub packed_bytes: usize,
    pub scales_bytes: usize,
    pub quant: RowsLaunch,
}

/// An activation brought to eight bits.
#[derive(Clone, Copy, Debug, PartialEq, Eq)]
pub struct Mxfp8Activation {
    pub x: Span,
    pub quant: RowsLaunch,
}

/// The norm that a number stands for.
pub open spec fn norm_kind(kind: u8) -> Option<NormQuantKind> {
    if kind == 0 {
        Some(NormQuantKind::RmsMod)
    } else if kind == 1 {
        Some(NormQuantKind::LnMod)
    } else if kind == 2 {
        Some(NormQuantKind::RmsW { qwen: false })
    } else if kind == 3 {
        Some(NormQuantKind::RmsW { qwen: true })
    } else {
        None
    }
}

fn kind_of(kind: u8) -> (r: Option<NormQuantKind>)
    ensures
        r == norm_kind(kind),
{
    match kind {
        0 => Some(NormQuantKind::RmsMod),
        1 => Some(NormQuantKind::LnMod),
        2 => Some(NormQuantKind::RmsW { qwen: false }),
        3 => Some(NormQuantKind::RmsW { qwen: true }),
        _ => None,
    }
}

/// The texts of the refusals of one format.
#[derive(Clone, Copy, Debug, PartialEq, Eq)]
pub struct ModQuantTexts {
    pub kind: &'static str,
    pub x: &'static str,
    pub scale: &'static str,
    pub shift: &'static str,
    pub y: &'static str,
    pub packed: &'static str,
    pub scales: &'static str,
}

/// The texts of the four-bit format, or of the eight-bit one.
pub open spec fn mod_quant_texts(mxfp8: bool) -> ModQuantTexts {
    if mxfp8 {
        ModQuantTexts {
            kind: "rms_mod_quant_mxfp8: неизвестный kind {}",
            x: "rms_mod_quant_mxfp8: x non-cuda",
            scale: "rms_mod_quant_mxfp8: scale non-cuda",
            shift: "rms_mod_quant_mxfp8: shift non-cuda",
            y: "rms_mod_quant_mxfp8: y non-cuda",
            packed: "rms_mod_quant_mxfp8: packed non-cuda",
            scales: "rms_mod_quant_mxfp8: scales non-cuda",
        }
    } else {
        ModQuantTexts {
            kind: "rms_mod_quant: неизвестный kind {}",
            x: "rms_mod_quant: x non-cuda",
            scale: "rms_mod_quant: scale non-cuda",
            shift: "rms_mod_quant: shift non-cuda",
            y: "rms_mod_quant: y non-cuda",
            packed: "rms_mod_quant: packed non-cuda",
            scales: "rms_mod_quant: scales non-cuda",
        }
    }
}

fn texts_of(mxfp8: bool) -> (r: ModQuantTexts)
    ensures
        r == mod_quant_texts(mxfp8),
{
    if mxfp8 {
        ModQuantTexts {
            kind: "rms_mod_quant_mxfp8: неизвестный kind {}",
            x: "rms_mod_quant_mxfp8: x non-cuda",
            scale: "rms_mod_quant_mxfp8: scale non-cuda",
            shift: "rms_mod_quant_mxfp8: shift non-cuda",
            y: "rms_mod_quant_mxfp8: y non-cuda",
            packed: "rms_mod_quant_mxfp8: packed non-cuda",
            scales: "rms_mod_quant_mxfp8: scales non-cuda",
        }
    } else {
        ModQuantTexts {
            kind: "rms_mod_quant: неизвестный kind {}",
            x: "rms_mod_quant: x non-cuda",
            scale: "rms_mod_quant: scale non-cuda",
            shift: "rms_mod_quant: shift non-cuda",
            y: "rms_mod_quant: y non-cuda",
            packed: "rms_mod_quant: packed non-cuda",
            scales: "rms_mod_quant: scales non-cuda",
        }
    }
}

/// The operands of a norm with quantisation; the outputs are told by where they are.
#[derive(Clone, Copy, Debug)]
pub struct ModQuantOperands<'a> {
    pub x: &'a Operand,
    pub scale: &'a Operand,
    pub shift: &'a Operand,
    pub y_cuda: bool,
    pub packed_cuda: bool,
    pub scales_cuda: bool,
}

/// The outcome of a request for a norm with quantisation.
pub open spec fn mod_quant_plan(
    o: ModQuantOperands,
    m: usize,
    k: usize,
    kind: u8,
    mod_div: usize,
    mxfp8: bool,
) -> Result<Option<RmsModQuant>, KernelError> {
    let t = mod_quant_texts(mxfp8);
    match norm_kind(kind) {
        None => Err(KernelError::Cuda1(t.kind, kind as u64)),
        Some(nk) => if !o.x.layout.contiguous || !o.scale.layout.contiguous
            || !o.shift.layout.contiguous {
            Err(KernelError::NonContiguous)
        } else if !o.x.cuda {
            Err(KernelError::Unsupported(t.x))
        } else if !o.scale.cuda {
            Err(KernelError::Unsupported(t.scale))
        } else if !o.shift.cuda {
            Err(KernelError::Unsupported(t.shift))
        } else if !o.y_cuda {
            Err(KernelError::Unsupported(t.y))
        } else if !o.packed_cuda {
            Err(KernelError::Unsupported(t.packed))
        } else if !o.scales_cuda {
            Err(KernelError::Unsupported(t.scales))
        } else {
            rms_mod_quant_plan(
                o.x.layout.byte_offset,
                o.scale.layout.byte_offset,
                o.shift.layout.byte_offset,
                m as u32,
                k as u32,
                o.x.layout.dtype,
                nk,
                mod_div as u32,
                mxfp8,
            )
        },
    }
}

/// The operands lie as a norm with quantisation takes them.
pub open spec fn mod_quant_takes(o: ModQuantOperands) -> bool {
    &&& o.x.layout.contiguous && o.scale.layout.contiguous && o.shift.layout.contiguous
    &&& o.x.cuda && o.scale.cuda && o.shift.cuda
    &&& o.y_cuda && o.packed_cuda && o.scales_cuda
}

/// The sizes that are computed for a norm with quantisation fit; nothing is asked of operands that
/// are refused.
pub open spec fn mod_quant_fits(
    o: ModQuantOperands,
    m: usize,
    k: usize,
    kind: u8,
    mod_div: usize,
    mxfp8: bool,
) -> bool {
    mod_quant_takes(o) ==> (norm_kind(kind) matches Some(nk) ==> rms_mod_quant_fits(
        o.x.layout.byte_offset,
        o.scale.layout.byte_offset,
        o.shift.layout.byte_offset,
        m as u32,
        k as u32,
        o.x.layout.dtype,
        nk,
        mod_div as u32,
        mxfp8,
    ))
}

fn mod_quant(
    o: &ModQuantOperands,
    m: usize,
    k: usize,
    kind: u8,
    mod_div: usize,
    mxfp8: bool,
) -> (r: Result<Option<RmsModQuant>, KernelError>)
    requires
        mod_quant_fits(*o, m, k, kind, mod_div, mxfp8),
    ensures
        r == mod_quant_plan(*o, m, k, kind, mod_div, mxfp8),
{
    let t = texts_of(mxfp8);
    let nk = match kind_of(kind) {
        None => {
            return Err(KernelError::Cuda1(t.kind, kind as u64));
        },
        Some(nk) => nk,
    };
    if !o.x.layout.contiguous || !o.scale.layout.contiguous || !o.shift.layout.contiguous {
        return Err(KernelError::NonContiguous);
    }
    if !o.x.cuda {
        return Err(KernelError::Unsupported(t.x));
    }
    if !o.scale.cuda {
        return Err(KernelError::Unsupported(t.scale));
    }
    if !o.shift.cuda {
        return Err(KernelError::Unsupported(t.shift));
    }
    if !o.y_cuda {
        return Err(KernelError::Unsupported(t.y));
    }
    if !o.packed_cuda {
        return Err(KernelError::Unsupported(t.packed));
    }
    if !o.scales_cuda {
        return Err(KernelError::Unsupported(t.scales));
    }
    run_rms_mod_quant_u8(
        o.x.layout.byte_offset,
        o.scale.layout.byte_offset,
        o.shift.layout.byte_offset,
        m as u32,
        k as u32,
        o.x.layout.dtype,
        nk,
        mod_div as u32,
        mxfp8,
    )
}

/// An activation, its packed values and its scales, told by where they are.
#[derive(Clone, Copy, Debug)]
pub struct ActOperands<'a> {
    pub x: &'a Operand,
    pub packed_cuda: bool,
    pub scales_cuda: bool,
}

/// A gate's activation times a value with a four-bit result, by the kernels for brain floats with
/// `bf16`, else by those for half floats.
#[derive(Clone, Copy, Debug, PartialEq, Eq)]
pub struct SiluMulQuant {
    pub bf16: bool,
    pub quant: SiluMulQuantPlan,
}

/// What is wrong with the operands of a gate's activation times a value, if anything.
pub open spec fn silu_mul_quant_error(o: ActOperands) -> Option<KernelError> {
    if !o.x.layout.contiguous {
        Some(KernelError::NonContiguous)
    } else if !o.x.cuda {
        Some(KernelError::Unsupported("silu_mul_quant_nvfp4: x non-cuda"))
    } else if !is_half(o.x.layout.dtype) {
        Some(KernelError::Unsupported("silu_mul_quant_nvfp4: dtype"))
    } else if !o.packed_cuda {
        Some(KernelError::Unsupported("silu_mul_quant_nvfp4: packed non-cuda"))
    } else if !o.scales_cuda {
        Some(KernelError::Unsupported("silu_mul_quant_nvfp4: scales non-cuda"))
    } else {
        None
    }
}

/// Two values to a byte, and a scale for every 16 values.
proof fn lemma_halves(n: int, k: int)
    requires
        0 <= n,
        0 <= k,
        k % 64 == 0,
    ensures
        (n * k) / 2 * 2 == n * k,
        scale_buffer_size(n, k) * 16 >= n * k,
{
    let h = k / 64;
    assert(n * k == 2 * (n * (32 * h))) by (nonlinear_arith)
        requires
            k == 64 * h,
    ;
    lemma_ceil_div(k, 64);
    lemma_ceil_div(n, 128);
    let (a, b) = (ceil_div(k, 64) * 4, ceil_div(n, 128) * 128);
    assert(a * b * 16 >= n * k) by (nonlinear_arith)
        requires
            a * 16 >= k,
            b >= n,
            n >= 0,
            k >= 0,
    ;
}

impl CudaBackend {
    /// Plans the way of a weight of `n` rows of `k` half floats at the device address `w_ptr` to
    /// four bits.
    pub fn quantize_nvfp4(
        &self,
        w: &Operand,
        n: usize,
        k: usize,
        switches: &QuantSwitches,
        w_ptr: u64,
    ) -> (r: Result<QuantizeNvfp4, KernelError>)
        requires
            quantize_nvfp4_error(*w, n, k) is None ==> {
                &&& n * k <= usize::MAX
                &&& ceil_div(k as int, 64) * 4 <= usize::MAX
                &&& ceil_div(n as int, 128) * 128 <= usize::MAX
                &&& scale_buffer_size(n as int, k as int) <= usize::MAX
                &&& takes_fast_quant(*switches, w_ptr, k as u32) ==> round_up((n as u32) as int, 128)
                    <= u32::MAX
            },
        ensures
            match quantize_nvfp4_error(*w, n, k) {
                Some(e) => r == Err::<QuantizeNvfp4, KernelError>(e),
                None => match r {
                    Ok(p) => {
                        &&& p.packed_bytes == (n * k) / 2
                        &&& p.scales_bytes == scale_buffer_size(n as int, k as int)
                        &&& is_nvfp4_quant(Ok(p.quant), *switches, w_ptr, n as u32, k as u32)
                    },
                    Err(e) => is_nvfp4_quant(Err(e), *switches, w_ptr, n as u32, k as u32),
                },
            },
            r matches Ok(p) ==> p.packed_bytes * 2 == n * k && p.scales_bytes * 16 >= n * k,
    {
        if !w.layout.contiguous {
            return Err(KernelError::NonContiguous);
        }
        if k % 64 != 0 || n % 16 != 0 {
            return Err(KernelError::Unsupported("quantize_nvfp4: требуется N%16==0 и K%64==0"));
        }
        if !w.cuda {
            return Err(KernelError::Unsupported("quantize_nvfp4: w non-cuda"));
        }
        proof {
            lemma_halves(n as int, k as int);
        }
        let packed_bytes: usize = n * k / 2;
        let scales_bytes: usize = nvfp4_scale_buffer_size(n, k);
        match quantize_f16_to_nvfp4_view(switches, w_ptr, n as u32, k as u32) {
            Err(e) => Err(e),
            Ok(quant) => Ok(QuantizeNvfp4 { packed_bytes, scales_bytes, quant }),
        }
    }

    /// Plans the way of a weight of `n` rows of `k` half floats at the device address `w_ptr` to
    /// eight bits.
    pub fn quantize_mxfp8(
        &self,
        w: &Operand,
        n: usize,
        k: usize,
        switches: &QuantSwitches,
        w_ptr: u64,
    ) -> (r: Result<QuantizeMxfp8, KernelError>)
        requires
            w.layout.contiguous && k % 32 == 0 && w.cuda ==> {
                &&& n * k <= usize::MAX
                &&& (n as u32) * ((k as u32) / 32) * mxfp8_threads_per_block(*switches, w_ptr)
                    <= u32::MAX
            },
        ensures
            r == (if !w.layout.contiguous {
                Err(KernelError::NonContiguous)
            } else if k % 32 != 0 {
                Err(KernelError::Unsupported("quantize_mxfp8: требуется K%32==0"))
            } else if !w.cuda {
                Err(KernelError::Unsupported("quantize_mxfp8: w non-cuda"))
            } else {
                Ok(
                    QuantizeMxfp8 {
                        packed_bytes: (n * k) as usize,
                        scales_bytes: (n * (k / 32)) as usize,
                        quant: mxfp8_natural(*switches, w_ptr, n as u32, k as u32),
                    },
                )
            }),
            r matches Ok(p) ==> p.packed_bytes == n * k && p.scales_bytes * 32 == n * k,
    {
        if !w.layout.contiguous {
            return Err(KernelError::NonContiguous);
        }
        if k % 32 != 0 {
            return Err(KernelError::Unsupported("quantize_mxfp8: требуется K%32==0"));
        }
        if !w.cuda {
            return Err(KernelError::Unsupported("quantize_mxfp8: w non-cuda"));
        }
        proof {
            assert(0 <= n * (k / 32) <= n * k) by (nonlinear_arith)
                requires
                    0 <= k / 32 <= k,
                    0 <= n,
            ;
            assert((n * (k / 32)) * 32 == n * k) by (nonlinear_arith)
                requires
                    k == 32 * (k / 32),
            ;
        }
        Ok(
            QuantizeMxfp8 {
                packed_bytes: n * k,
                scales_bytes: n * (k / 32),
                quant: mxfp8_quant_natural(switches, w_ptr, n as u32, k as u32),
            },
        )
    }

    /// Plans the way of an activation of `m` rows of `k` half floats at the device address
    /// `x_ptr` to four bits.
    pub fn nvfp4_quantize_act(
        &self,
        o: &ActOperands,
        m: usize,
        k: usize,
        switches: &QuantSwitches,
        x_ptr: u64,
    ) -> (r: Result<Nvfp4QuantPlan, KernelError>)
        requires
            o.x.layout.contiguous && o.x.layout.byte_offset == 0 && o.x.cuda && o.packed_cuda
                && o.scales_cuda && takes_fast_quant(*switches, x_ptr, k as u32) ==> round_up(
                (m as u32) as int,
                128,
            ) <= u32::MAX,
        ensures
            if !o.x.layout.contiguous || o.x.layout.byte_offset != 0 {
                r == Err::<Nvfp4QuantPlan, KernelError>(KernelError::NonContiguous)
            } else if !o.x.cuda {
                r == Err::<Nvfp4QuantPlan, KernelError>(
                    KernelError::Unsupported("nvfp4_quantize_act: x non-cuda"),
                )
            } else if !o.packed_cuda {
                r == Err::<Nvfp4QuantPlan, KernelError>(
                    KernelError::Unsupported("nvfp4_quantize_act: packed non-cuda"),
                )
            } else if !o.scales_cuda {
                r == Err::<Nvfp4QuantPlan, KernelError>(
                    KernelError::Unsupported("nvfp4_quantize_act: scales non-cuda"),
                )
            } else {
                is_nvfp4_quant(r, *switches, x_ptr, m as u32, k as u32)
            },
    {
        if !o.x.layout.contiguous || o.x.layout.byte_offset != 0 {
            return Err(KernelError::NonContiguous);
        }
        if !o.x.cuda {
            return Err(KernelError::Unsupported("nvfp4_quantize_act: x non-cuda"));
        }
        if !o.packed_cuda {
            return Err(KernelError::Unsupported("nvfp4_quantize_act: packed non-cuda"));
        }
        if !o.scales_cuda {
            return Err(KernelError::Unsupported("nvfp4_quantize_act: scales non-cuda"));
        }
        nvfp4_quantize_act(switches, x_ptr, m as u32, k as u32)
    }

    /// Plans a gate's activation times a value with a four-bit result, by the kernels for brain
    /// floats or those for half floats.
    pub fn silu_mul_quant_nvfp4(&self, o: &ActOperands, m: usize, k: usize) -> (r: Result<
        SiluMulQuant,
        KernelError,
    >)
        requires
            silu_mul_quant_error(*o) is None ==> {
                &&& round_up((m as u32) as int, 128) <= u32::MAX
                &&& o.x.layout.byte_offset + (m as u32) * (k as u32) * 4 <= usize::MAX
            },
        ensures
            r == (match silu_mul_quant_error(*o) {
                Some(e) => Err(e),
                None => match silu_mul_quant_plan(o.x.layout.byte_offset, m as u32, k as u32) {
                    Err(e) => Err(e),
                    Ok(quant) => Ok(
                        SiluMulQuant { bf16: o.x.layout.dtype == DType::BF16, quant },
                    ),
                },
            }),
            r matches Ok(p) ==> {
                &&& p.bf16 <==> o.x.layout.dtype == DType::BF16
                &&& p.bf16 || o.x.layout.dtype == DType::F16
                &&& p.quant.x.start == o.x.layout.byte_offset
                &&& p.quant.x.end == o.x.layout.byte_offset + (m as u32) * (k as u32) * 2 * 2
            },
    {
        if !o.x.layout.contiguous {
            return Err(KernelError::NonContiguous);
        }
        if !o.x.cuda {
            return Err(KernelError::Unsupported("silu_mul_quant_nvfp4: x non-cuda"));
        }
        match o.x.layout.dtype {
            DType::F16 | DType::BF16 => {},
            _ => {
                return Err(KernelError::Unsupported("silu_mul_quant_nvfp4: dtype"));
            },
        }
        if !o.packed_cuda {
            return Err(KernelError::Unsupported("silu_mul_quant_nvfp4: packed non-cuda"));
        }
        if !o.scales_cuda {
            return Err(KernelError::Unsupported("silu_mul_quant_nvfp4: scales non-cuda"));
        }
        match silu_mul_quantize_nvfp4_u8(o.x.layout.byte_offset, m as u32, k as u32) {
            Err(e) => Err(e),
            Ok(quant) => Ok(SiluMulQuant { bf16: o.x.layout.dtype == DType::BF16, quant }),
        }
    }

    /// Plans a norm with modulation and a four-bit result. The number `kind` stands for the
    /// root-mean-square norm (0), the layer norm (1), or the former with a weight as it is (2) or
    /// with one added (3).
    pub fn rms_mod_quant_nvfp4(
        &self,
        o: &ModQuantOperands,
        m: usize,
        k: usize,
        kind: u8,
        mod_div: usize,
    ) -> (r: Result<Option<RmsModQuant>, KernelError>)
        requires
            mod_quant_fits(*o, m, k, kind, mod_div, false),
        ensures
            r == mod_quant_plan(*o, m, k, kind, mod_div, false),
    {
        mod_quant(o, m, k, kind, mod_div, false)
    }

    /// As `rms_mod_quant_nvfp4`, with an eight-bit result.
    pub fn rms_mod_quant_mxfp8(
        &self,
        o: &ModQuantOperands,
        m: usize,
        k: usize,
        kind: u8,
        mod_div: usize,
    ) -> (r: Result<Option<RmsModQuant>, KernelError>)
        requires
            mod_quant_fits(*o, m, k, kind, mod_div, true),
        ensures
            r == mod_quant_plan(*o, m, k, kind, mod_div, true),
    {
        mod_quant(o, m, k, kind, mod_div, true)
    }

    /// Plans the way of an activation of `m` rows of `k` half floats, whose first is at the device
    /// address `x_ptr`, to eight bits.
    pub fn mxfp8_quantize_act(
        &self,
        o: &ActOperands,
        m: usize,
        k: usize,
        switches: &QuantSwitches,
        x_ptr: u64,
    ) -> (r: Result<Mxfp8Activation, KernelError>)
        requires
            o.x.layout.contiguous && o.x.layout.dtype == DType::F16 && o.x.cuda && o.packed_cuda
                && o.scales_cuda ==> {
                &&& o.x.layout.byte_offset + m * k * 2 <= usize::MAX
                &&& (m as u32) * ((k as u32) / 32) * mxfp8_threads_per_block(*switches, x_ptr)
                    <= u32::MAX
            },
        ensures
            r == (if !o.x.layout.contiguous {
                Err(KernelError::NonContiguous)
            } else if o.x.layout.dtype != DType::F16 {
                Err(KernelError::Unsupported("mxfp8_quantize_act: x не F16"))
            } else if !o.x.cuda {
                Err(KernelError::Unsupported("mxfp8_quantize_act: x non-cuda"))
            } else if !o.packed_cuda {
                Err(KernelError::Unsupported("mxfp8_quantize_act: packed non-cuda"))
            } else if !o.scales_cuda {
                Err(KernelError::Unsupported("mxfp8_quantize_act: scales non-cuda"))
            } else {
                Ok(
                    Mxfp8Activation {
                        x: spec_span(o.x.layout.byte_offset as int, m * k, 2),
                        quant: mxfp8_natural(*switches, x_ptr, m as u32, k as u32),
                    },
                )
            }),
            r matches Ok(p) ==> {
                &&& o.x.layout.dtype == DType::F16
                &&& p.x.start == o.x.layout.byte_offset
                &&& p.x.end == o.x.layout.byte_offset + m * k * 2
            },
    {
        if !o.x.layout.contiguous {
            return Err(KernelError::NonContiguous);
        }
        if o.x.layout.dtype != DType::F16 {
            return Err(KernelError::Unsupported("mxfp8_quantize_act: x не F16"));
        }
        if !o.x.cuda {
            return Err(KernelError::Unsupported("mxfp8_quantize_act: x non-cuda"));
        }
        if !o.packed_cuda {
            return Err(KernelError::Unsupported("mxfp8_quantize_act: packed non-cuda"));
        }
        if !o.scales_cuda {
            return Err(KernelError::Unsupported("mxfp8_quantize_act: scales non-cuda"));
        }
        proof {
            lemma_mul_le_factor(m as int, k as int, 2);
        }
        Ok(
            Mxfp8Activation {
                x: span(o.x.layout.byte_offset, m * k, 2),
                quant: mxfp8_quant_natural(switches, x_ptr, m as u32, k as u32),
            },
        )
    }
}

} // verus!
