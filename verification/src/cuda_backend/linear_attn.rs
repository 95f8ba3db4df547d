//! Linear attention with a convolution before it: one step, a prompt in chunks, and the gated
//! delta rule on its own.

use vstd::prelude::*;

use crate::cuda_backend::CudaBackend;
use crate::dtype::{is_float3, DType};
use crate::error::KernelError;
use crate::layout::Operand;
use crate::scan::chunk_meaning::{outputs_of_the_rule, states_of_the_rule};
use crate::scan::chunk_scan::{chunk_gated_delta_rule, is_scan_plan, ScanDims, ScanPlan};

verus! {

/// One step of linear attention: where the operands start, and the sizes.
#[derive(Clone, Copy, Debug, PartialEq, Eq, Structural)]
pub struct LinearDecode {
    pub qkv: usize,
    pub conv_w: usize,
    pub a: usize,
    pub b: usize,
    pub dt_bias: usize,
    pub a_log: usize,
    pub z: usize,
    pub norm_w: usize,
    pub conv_state: usize,
    pub ssm_state: usize,
    pub out: usize,
    pub num_k: u32,
    pub num_v: u32,
    pub dk: u32,
    pub dv: u32,
    pub conv_kernel: u32,
}

/// Linear attention over a prompt: where the operands start, and the sizes.
#[derive(Clone, Copy, Debug, PartialEq, Eq, Structural)]
pub struct LinearPrefill {
    /// The element type of the convolution.
    pub dtype: DType,
    pub qkv: usize,
    pub conv_w: usize,
    pub a: usize,
    pub b: usize,
    pub dt_bias: usize,
    pub a_log: usize,
    pub conv_state: usize,
    pub ssm_state: usize,
    pub out: usize,
    pub num_k: u32,
    pub num_v: u32,
    pub hk: u32,
    pub hv: u32,
    pub conv_kernel: u32,
    pub t_in: u32,
    pub t_pad: u32,
    pub chunk_size: u32,
    /// The convolution is followed by an activation.
    pub silu: bool,
    /// The stream is waited for at the end.
    pub synchronize: bool,
}

pub(crate) fn one_of_three(dtype: DType) -> (r: bool)
    ensures
        r == is_float3(dtype),
{
    match dtype {
        DType::F32 | DType::F16 | DType::BF16 => true,
        _ => false,
    }
}

/// The gated delta rule over a prompt: the inputs are copied to buffers of their own, of so many
/// single floats each, before the scan, and the state and the result are copied back behind it.
#[derive(Debug, PartialEq, Eq)]
pub struct GdrPrefill {
    pub n_qk: usize,
    pub n_v: usize,
    pub n_g: usize,
    pub n_state: usize,
    pub scan: ScanPlan,
    /// The refusal that comes once the state was copied back, where the result has nowhere to go.
    pub refused_at_end: Option<KernelError>,
}

/// The operands of the gated delta rule.
#[derive(Clone, Copy, Debug)]
pub struct GdrOperands<'a> {
    pub q: &'a Operand,
    pub k: &'a Operand,
    pub v: &'a Operand,
    pub g: &'a Operand,
    pub beta: &'a Operand,
    pub ssm_state: &'a Operand,
    pub out: &'a Operand,
}

/// The refusal of an operand that is not of single floats.
pub open spec fn not_f32(name: &'static str, x: Operand) -> KernelError {
    KernelError::CudaOperand(
        "gated_delta_rule_prefill: {} must be {}, got {}",
        name,
        DType::F32,
        x.layout.dtype,
    )
}

/// What is wrong with the operands of the gated delta rule before it runs, if anything.
pub open spec fn gdr_error(o: GdrOperands) -> Option<KernelError> {
    if o.q.layout.dtype != DType::F32 {
        Some(not_f32("q", *o.q))
    } else if o.k.layout.dtype != DType::F32 {
        Some(not_f32("k", *o.k))
    } else if o.v.layout.dtype != DType::F32 {
        Some(not_f32("v", *o.v))
    } else if o.g.layout.dtype != DType::F32 {
        Some(not_f32("g", *o.g))
    } else if o.beta.layout.dtype != DType::F32 {
        Some(not_f32("beta", *o.beta))
    } else if o.ssm_state.layout.dtype != DType::F32 {
        Some(not_f32("ssm_state", *o.ssm_state))
    } else if o.out.layout.dtype != DType::F32 {
        Some(not_f32("out", *o.out))
    } else if !o.q.cuda {
        Some(KernelError::Unsupported("gdr_prefill: q non-cuda"))
    } else if !o.k.cuda || !o.v.cuda || !o.g.cuda || !o.beta.cuda || !o.ssm_state.cuda {
        Some(KernelError::Unsupported("gdr_prefill: input non-cuda"))
    } else {
        None
    }
}

fn f32_refusal(name: &'static str, x: &Operand) -> (r: KernelError)
    ensures
        r == not_f32(name, *x),
{
    KernelError::CudaOperand(
        "gated_delta_rule_prefill: {} must be {}, got {}",
        name,
        DType::F32,
        x.layout.dtype,
    )
}

fn gdr_refusal(o: &GdrOperands) -> (r: Option<KernelError>)
    ensures
        r == gdr_error(*o),
{
    if o.q.layout.dtype != DType::F32 {
        return Some(f32_refusal("q", o.q));
    }
    if o.k.layout.dtype != DType::F32 {
        return Some(f32_refusal("k", o.k));
    }
    if o.v.layout.dtype != DType::F32 {
        return Some(f32_refusal("v", o.v));
    }
    if o.g.layout.dtype != DType::F32 {
        return Some(f32_refusal("g", o.g));
    }
    if o.beta.layout.dtype != DType::F32 {
        return Some(f32_refusal("beta", o.beta));
    }
    if o.ssm_state.layout.dtype != DType::F32 {
        return Some(f32_refusal("ssm_state", o.ssm_state));
    }
    if o.out.layout.dtype != DType::F32 {
        return Some(f32_refusal("out", o.out));
    }
    if !o.q.cuda {
        return Some(KernelError::Unsupported("gdr_prefill: q non-cuda"));
    }
    if !o.k.cuda || !o.v.cuda || !o.g.cuda || !o.beta.cuda || !o.ssm_state.cuda {
        return Some(KernelError::Unsupported("gdr_prefill: input non-cuda"));
    }
    None
}

/// The sizes of the scan as the kernels take them.
pub open spec fn gdr_dims(bh: usize, t: usize, hk: usize, hv: usize, cs: usize) -> ScanDims {
    ScanDims { bh: bh as u32, t: t as u32, hk: hk as u32, hv: hv as u32, cs: cs as u32 }
}

/// The sizes of the buffers fit.
pub open spec fn gdr_fits(bh: usize, t: usize, hk: usize, hv: usize) -> bool {
    &&& bh * t <= usize::MAX
    &&& bh * t * hk <= usize::MAX
    &&& bh * t * hv <= usize::MAX
    &&& bh * hk <= usize::MAX
    &&& bh * hk * hv <= usize::MAX
}

/// The outcome of a request for one step of linear attention.
pub open spec fn decode_step_plan(
    qkv: Operand,
    conv_w: Operand,
    a: Operand,
    b: Operand,
    dt_bias: Operand,
    a_log: Operand,
    z: Operand,
    norm_w: Operand,
    conv_state: Operand,
    ssm_state: Operand,
    out: Operand,
    num_k: usize,
    num_v: usize,
    dk: usize,
    dv: usize,
    conv_kernel: usize,
) -> Result<LinearDecode, KernelError> {
    if qkv.layout.dtype != DType::F16 {
        Err(
            KernelError::CudaOperand(
                "linear_attn_decode_step: {} must be {}, got {}",
                "qkv",
                DType::F16,
                qkv.layout.dtype,
            ),
        )
    } else if conv_w.layout.dtype != DType::F16 {
        Err(
            KernelError::CudaOperand(
                "linear_attn_decode_step: {} must be {}, got {}",
                "conv_w",
                DType::F16,
                conv_w.layout.dtype,
            ),
        )
    } else if a.layout.dtype != DType::F16 {
        Err(
            KernelError::CudaOperand(
                "linear_attn_decode_step: {} must be {}, got {}",
                "a",
                DType::F16,
                a.layout.dtype,
            ),
        )
    } else if b.layout.dtype != DType::F16 {
        Err(
            KernelError::CudaOperand(
                "linear_attn_decode_step: {} must be {}, got {}",
                "b",
                DType::F16,
                b.layout.dtype,
            ),
        )
    } else if dt_bias.layout.dtype != DType::F32 {
        Err(
            KernelError::CudaOperand(
                "linear_attn_decode_step: {} must be {}, got {}",
                "dt_bias",
                DType::F32,
                dt_bias.layout.dtype,
            ),
        )
    } else if a_log.layout.dtype != DType::F32 {
        Err(
            KernelError::CudaOperand(
                "linear_attn_decode_step: {} must be {}, got {}",
                "a_log",
                DType::F32,
                a_log.layout.dtype,
            ),
        )
    } else if z.layout.dtype != DType::F16 {
        Err(
            KernelError::CudaOperand(
                "linear_attn_decode_step: {} must be {}, got {}",
                "z",
                DType::F16,
                z.layout.dtype,
            ),
        )
    } else if norm_w.layout.dtype != DType::F16 {
        Err(
            KernelError::CudaOperand(
                "linear_attn_decode_step: {} must be {}, got {}",
                "norm_w",
                DType::F16,
                norm_w.layout.dtype,
            ),
        )
    } else if conv_state.layout.dtype != DType::F16 {
        Err(
            KernelError::CudaOperand(
                "linear_attn_decode_step: {} must be {}, got {}",
                "conv_state",
                DType::F16,
                conv_state.layout.dtype,
            ),
        )
    } else if ssm_state.layout.dtype != DType::F32 {
        Err(
            KernelError::CudaOperand(
                "linear_attn_decode_step: {} must be {}, got {}",
                "ssm_state",
                DType::F32,
                ssm_state.layout.dtype,
            ),
        )
    } else if out.layout.dtype != DType::F16 {
        Err(
            KernelError::CudaOperand(
                "linear_attn_decode_step: {} must be {}, got {}",
                "out",
                DType::F16,
                out.layout.dtype,
            ),
        )
    } else if !qkv.cuda {
        Err(KernelError::Unsupported("linear_decode: qkv non-cuda"))
    } else if !conv_w.cuda {
        Err(KernelError::Unsupported("linear_decode: conv_w non-cuda"))
    } else if !a.cuda {
        Err(KernelError::Unsupported("linear_decode: a non-cuda"))
    } else if !b.cuda {
        Err(KernelError::Unsupported("linear_decode: b non-cuda"))
    } else if !dt_bias.cuda {
        Err(KernelError::Unsupported("linear_decode: dt_bias non-cuda"))
    } else if !a_log.cuda {
        Err(KernelError::Unsupported("linear_decode: a_log non-cuda"))
    } else if !z.cuda {
        Err(KernelError::Unsupported("linear_decode: z non-cuda"))
    } else if !norm_w.cuda {
        Err(KernelError::Unsupported("linear_decode: norm_w non-cuda"))
    } else if !conv_state.cuda {
        Err(KernelError::Unsupported("linear_decode: conv_state non-cuda"))
    } else if !ssm_state.cuda {
        Err(KernelError::Unsupported("linear_decode: ssm_state non-cuda"))
    } else if !out.cuda {
        Err(KernelError::Unsupported("linear_decode: out non-cuda"))
    } else {
        Ok(
            LinearDecode {
                qkv: qkv.layout.byte_offset,
                conv_w: conv_w.layout.byte_offset,
                a: a.layout.byte_offset,
                b: b.layout.byte_offset,
                dt_bias: dt_bias.layout.byte_offset,
                a_log: a_log.layout.byte_offset,
                z: z.layout.byte_offset,
                norm_w: norm_w.layout.byte_offset,
                conv_state: conv_state.layout.byte_offset,
                ssm_state: ssm_state.layout.byte_offset,
                out: out.layout.byte_offset,
                num_k: num_k as u32,
                num_v: num_v as u32,
                dk: dk as u32,
                dv: dv as u32,
                conv_kernel: conv_kernel as u32,
            },
        )
    }
}

/// The outcome of a request for linear attention over a prompt.
pub open spec fn prefill_plan(
    qkv: Operand,
    conv_w: Operand,
    a: Operand,
    b: Operand,
    dt_bias: Operand,
    a_log: Operand,
    conv_state: Operand,
    ssm_state: Operand,
    out: Operand,
    num_k: usize,
    num_v: usize,
    hk: usize,
    hv: usize,
    conv_kernel: usize,
    t_in: usize,
    t_pad: usize,
    chunk_size: usize,
    silu: bool,
    capturing: bool,
) -> Result<LinearPrefill, KernelError> {
    if !is_float3(qkv.layout.dtype) {
        Err(
            KernelError::CudaDType(
                "linear_attn_chunk_prefill: qkv dtype {} not supported (F32/F16/BF16)",
                qkv.layout.dtype,
            ),
        )
    } else if conv_w.layout.dtype != qkv.layout.dtype {
        Err(
            KernelError::CudaOperand(
                "linear_attn_chunk_prefill: {} must be {}, got {}",
                "conv_w",
                qkv.layout.dtype,
                conv_w.layout.dtype,
            ),
        )
    } else if conv_state.layout.dtype != qkv.layout.dtype {
        Err(
            KernelError::CudaOperand(
                "linear_attn_chunk_prefill: {} must be {}, got {}",
                "conv_state",
                qkv.layout.dtype,
                conv_state.layout.dtype,
            ),
        )
    } else if a.layout.dtype != DType::F16 {
        Err(
            KernelError::CudaOperand(
                "linear_attn_chunk_prefill: {} must be {}, got {}",
                "a",
                DType::F16,
                a.layout.dtype,
            ),
        )
    } else if b.layout.dtype != DType::F16 {
        Err(
            KernelError::CudaOperand(
                "linear_attn_chunk_prefill: {} must be {}, got {}",
                "b",
                DType::F16,
                b.layout.dtype,
            ),
        )
    } else if dt_bias.layout.dtype != DType::F32 {
        Err(
            KernelError::CudaOperand(
                "linear_attn_chunk_prefill: {} must be {}, got {}",
                "dt_bias",
                DType::F32,
                dt_bias.layout.dtype,
            ),
        )
    } else if a_log.layout.dtype != DType::F32 {
        Err(
            KernelError::CudaOperand(
                "linear_attn_chunk_prefill: {} must be {}, got {}",
                "a_log",
                DType::F32,
                a_log.layout.dtype,
            ),
        )
    } else if ssm_state.layout.dtype != DType::F32 {
        Err(
            KernelError::CudaOperand(
                "linear_attn_chunk_prefill: {} must be {}, got {}",
                "ssm_state",
                DType::F32,
                ssm_state.layout.dtype,
            ),
        )
    } else if out.layout.dtype != DType::F32 {
        Err(
            KernelError::CudaOperand(
                "linear_attn_chunk_prefill: {} must be {}, got {}",
                "out",
                DType::F32,
                out.layout.dtype,
            ),
        )
    } else if !qkv.cuda {
        Err(KernelError::Unsupported("linear_prefill: qkv non-cuda"))
    } else if !conv_w.cuda {
        Err(KernelError::Unsupported("linear_prefill: conv_w non-cuda"))
    } else if !a.cuda {
        Err(KernelError::Unsupported("linear_prefill: a non-cuda"))
    } else if !b.cuda {
        Err(KernelError::Unsupported("linear_prefill: b non-cuda"))
    } else if !dt_bias.cuda {
        Err(KernelError::Unsupported("linear_prefill: dt_bias non-cuda"))
    } else if !a_log.cuda {
        Err(KernelError::Unsupported("linear_prefill: a_log non-cuda"))
    } else if !conv_state.cuda {
        Err(KernelError::Unsupported("linear_prefill: conv_state non-cuda"))
    } else if !ssm_state.cuda {
        Err(KernelError::Unsupported("linear_prefill: ssm_state non-cuda"))
    } else if !out.cuda {
        Err(KernelError::Unsupported("linear_prefill: out non-cuda"))
    } else {
        Ok(
            LinearPrefill {
                dtype: qkv.layout.dtype,
                qkv: qkv.layout.byte_offset,
                conv_w: conv_w.layout.byte_offset,
                a: a.layout.byte_offset,
                b: b.layout.byte_offset,
                dt_bias: dt_bias.layout.byte_offset,
                a_log: a_log.layout.byte_offset,
                conv_state: conv_state.layout.byte_offset,
                ssm_state: ssm_state.layout.byte_offset,
                out: out.layout.byte_offset,
                num_k: num_k as u32,
                num_v: num_v as u32,
                hk: hk as u32,
                hv: hv as u32,
                conv_kernel: conv_kernel as u32,
                t_in: t_in as u32,
                t_pad: t_pad as u32,
                chunk_size: chunk_size as u32,
                silu,
                synchronize: !capturing,
            },
        )
    }
}

impl CudaBackend {
    /// Plans one step of linear attention with a convolution before it and a gated norm behind it.
    pub fn linear_attn_decode_step(
        &self,
        qkv: &Operand,
        conv_w: &Operand,
        a: &Operand,
        b: &Operand,
        dt_bias: &Operand,
        a_log: &Operand,
        z: &Operand,
        norm_w: &Operand,
        conv_state: &Operand,
        ssm_state: &Operand,
        out: &Operand,
        num_k: usize,
        num_v: usize,
        dk: usize,
        dv: usize,
        conv_kernel: usize,
    ) -> (r: Result<LinearDecode, KernelError>)
        ensures
            r == decode_step_plan(
                *qkv,
                *conv_w,
                *a,
                *b,
                *dt_bias,
                *a_log,
                *z,
                *norm_w,
                *conv_state,
                *ssm_state,
                *out,
                num_k,
                num_v,
                dk,
                dv,
                conv_kernel,
            ),
    {
        if qkv.layout.dtype != DType::F16 {
            return Err(KernelError::CudaOperand(
                "linear_attn_decode_step: {} must be {}, got {}",
                "qkv",
                DType::F16,
                qkv.layout.dtype,
            ));
        }
        if conv_w.layout.dtype != DType::F16 {
            return Err(KernelError::CudaOperand(
                "linear_attn_decode_step: {} must be {}, got {}",
                "conv_w",
                DType::F16,
                conv_w.layout.dtype,
            ));
        }
        if a.layout.dtype != DType::F16 {
            return Err(KernelError::CudaOperand(
                "linear_attn_decode_step: {} must be {}, got {}",
                "a",
                DType::F16,
                a.layout.dtype,
            ));
        }
        if b.layout.dtype != DType::F16 {
            return Err(KernelError::CudaOperand(
                "linear_attn_decode_step: {} must be {}, got {}",
                "b",
                DType::F16,
                b.layout.dtype,
            ));
        }
        if dt_bias.layout.dtype != DType::F32 {
            return Err(KernelError::CudaOperand(
                "linear_attn_decode_step: {} must be {}, got {}",
                "dt_bias",
                DType::F32,
                dt_bias.layout.dtype,
            ));
        }
        if a_log.layout.dtype != DType::F32 {
            return Err(KernelError::CudaOperand(
                "linear_attn_decode_step: {} must be {}, got {}",
                "a_log",
                DType::F32,
                a_log.layout.dtype,
            ));
        }
        if z.layout.dtype != DType::F16 {
            return Err(KernelError::CudaOperand(
                "linear_attn_decode_step: {} must be {}, got {}",
                "z",
                DType::F16,
                z.layout.dtype,
            ));
        }
        if norm_w.layout.dtype != DType::F16 {
            return Err(KernelError::CudaOperand(
                "linear_attn_decode_step: {} must be {}, got {}",
                "norm_w",
                DType::F16,
                norm_w.layout.dtype,
            ));
        }
        if conv_state.layout.dtype != DType::F16 {
            return Err(KernelError::CudaOperand(
                "linear_attn_decode_step: {} must be {}, got {}",
                "conv_state",
                DType::F16,
                conv_state.layout.dtype,
            ));
        }
        if ssm_state.layout.dtype != DType::F32 {
            return Err(KernelError::CudaOperand(
                "linear_attn_decode_step: {} must be {}, got {}",
                "ssm_state",
                DType::F32,
                ssm_state.layout.dtype,
            ));
        }
        if out.layout.dtype != DType::F16 {
            return Err(KernelError::CudaOperand(
                "linear_attn_decode_step: {} must be {}, got {}",
                "out",
                DType::F16,
                out.layout.dtype,
            ));
        }
        if !qkv.cuda {
            return Err(KernelError::Unsupported("linear_decode: qkv non-cuda"));
        }
        if !conv_w.cuda {
            return Err(KernelError::Unsupported("linear_decode: conv_w non-cuda"));
        }
        if !a.cuda {
            return Err(KernelError::Unsupported("linear_decode: a non-cuda"));
        }
        if !b.cuda {
            return Err(KernelError::Unsupported("linear_decode: b non-cuda"));
        }
        if !dt_bias.cuda {
            return Err(KernelError::Unsupported("linear_decode: dt_bias non-cuda"));
        }
        if !a_log.cuda {
            return Err(KernelError::Unsupported("linear_decode: a_log non-cuda"));
        }
        if !z.cuda {
            return Err(KernelError::Unsupported("linear_decode: z non-cuda"));
        }
        if !norm_w.cuda {
            return Err(KernelError::Unsupported("linear_decode: norm_w non-cuda"));
        }
        if !conv_state.cuda {
            return Err(KernelError::Unsupported("linear_decode: conv_state non-cuda"));
        }
        if !ssm_state.cuda {
            return Err(KernelError::Unsupported("linear_decode: ssm_state non-cuda"));
        }
        if !out.cuda {
            return Err(KernelError::Unsupported("linear_decode: out non-cuda"));
        }
        Ok(
            LinearDecode {
                qkv: qkv.layout.byte_offset,
                conv_w: conv_w.layout.byte_offset,
                a: a.layout.byte_offset,
                b: b.layout.byte_offset,
                dt_bias: dt_bias.layout.byte_offset,
                a_log: a_log.layout.byte_offset,
                z: z.layout.byte_offset,
                norm_w: norm_w.layout.byte_offset,
                conv_state: conv_state.layout.byte_offset,
                ssm_state: ssm_state.layout.byte_offset,
                out: out.layout.byte_offset,
                num_k: num_k as u32,
                num_v: num_v as u32,
                dk: dk as u32,
                dv: dv as u32,
                conv_kernel: conv_kernel as u32,
            },
        )
    }

    /// Plans linear attention over a prompt in chunks. `capturing` says that the stream is being
    /// captured, when nothing may wait for it.
    pub fn linear_attn_chunk_prefill(
        &self,
        qkv: &Operand,
        conv_w: &Operand,
        a: &Operand,
        b: &Operand,
        dt_bias: &Operand,
        a_log: &Operand,
        conv_state: &Operand,
        ssm_state: &Operand,
        out: &Operand,
        num_k: usize,
        num_v: usize,
        hk: usize,
        hv: usize,
        conv_kernel: usize,
        t_in: usize,
        t_pad: usize,
        chunk_size: usize,
        silu: bool,
        capturing: bool,
    ) -> (r: Result<LinearPrefill, KernelError>)
        ensures
            r == prefill_plan(
                *qkv,
                *conv_w,
                *a,
                *b,
                *dt_bias,
                *a_log,
                *conv_state,
                *ssm_state,
                *out,
                num_k,
                num_v,
                hk,
                hv,
                conv_kernel,
                t_in,
                t_pad,
                chunk_size,
                silu,
                capturing,
            ),
    {
        if !one_of_three(qkv.layout.dtype) {
            return Err(KernelError::CudaDType(
                "linear_attn_chunk_prefill: qkv dtype {} not supported (F32/F16/BF16)",
                qkv.layout.dtype,
            ));
        }
        if conv_w.layout.dtype != qkv.layout.dtype {
            return Err(KernelError::CudaOperand(
                "linear_attn_chunk_prefill: {} must be {}, got {}",
                "conv_w",
                qkv.layout.dtype,
                conv_w.layout.dtype,
            ));
        }
        if conv_state.layout.dtype != qkv.layout.dtype {
            return Err(KernelError::CudaOperand(
                "linear_attn_chunk_prefill: {} must be {}, got {}",
                "conv_state",
                qkv.layout.dtype,
                conv_state.layout.dtype,
            ));
        }
        if a.layout.dtype != DType::F16 {
            return Err(KernelError::CudaOperand(
                "linear_attn_chunk_prefill: {} must be {}, got {}",
                "a",
                DType::F16,
                a.layout.dtype,
            ));
        }
        if b.layout.dtype != DType::F16 {
            return Err(KernelError::CudaOperand(
                "linear_attn_chunk_prefill: {} must be {}, got {}",
                "b",
                DType::F16,
                b.layout.dtype,
            ));
        }
        if dt_bias.layout.dtype != DType::F32 {
            return Err(KernelError::CudaOperand(
                "linear_attn_chunk_prefill: {} must be {}, got {}",
                "dt_bias",
                DType::F32,
                dt_bias.layout.dtype,
            ));
        }
        if a_log.layout.dtype != DType::F32 {
            return Err(KernelError::CudaOperand(
                "linear_attn_chunk_prefill: {} must be {}, got {}",
                "a_log",
                DType::F32,
                a_log.layout.dtype,
            ));
        }
        if ssm_state.layout.dtype != DType::F32 {
            return Err(KernelError::CudaOperand(
                "linear_attn_chunk_prefill: {} must be {}, got {}",
                "ssm_state",
                DType::F32,
                ssm_state.layout.dtype,
            ));
        }
        if out.layout.dtype != DType::F32 {
            return Err(KernelError::CudaOperand(
                "linear_attn_chunk_prefill: {} must be {}, got {}",
                "out",
                DType::F32,
                out.layout.dtype,
            ));
        }
        if !qkv.cuda {
            return Err(KernelError::Unsupported("linear_prefill: qkv non-cuda"));
        }
        if !conv_w.cuda {
            return Err(KernelError::Unsupported("linear_prefill: conv_w non-cuda"));
        }
        if !a.cuda {
            return Err(KernelError::Unsupported("linear_prefill: a non-cuda"));
        }
        if !b.cuda {
            return Err(KernelError::Unsupported("linear_prefill: b non-cuda"));
        }
        if !dt_bias.cuda {
            return Err(KernelError::Unsupported("linear_prefill: dt_bias non-cuda"));
        }
        if !a_log.cuda {
            return Err(KernelError::Unsupported("linear_prefill: a_log non-cuda"));
        }
        if !conv_state.cuda {
            return Err(KernelError::Unsupported("linear_prefill: conv_state non-cuda"));
        }
        if !ssm_state.cuda {
            return Err(KernelError::Unsupported("linear_prefill: ssm_state non-cuda"));
        }
        if !out.cuda {
            return Err(KernelError::Unsupported("linear_prefill: out non-cuda"));
        }
        Ok(
            LinearPrefill {
                dtype: qkv.layout.dtype,
                qkv: qkv.layout.byte_offset,
                conv_w: conv_w.layout.byte_offset,
                a: a.layout.byte_offset,
                b: b.layout.byte_offset,
                dt_bias: dt_bias.layout.byte_offset,
                a_log: a_log.layout.byte_offset,
                conv_state: conv_state.layout.byte_offset,
                ssm_state: ssm_state.layout.byte_offset,
                out: out.layout.byte_offset,
                num_k: num_k as u32,
                num_v: num_v as u32,
                hk: hk as u32,
                hv: hv as u32,
                conv_kernel: conv_kernel as u32,
                t_in: t_in as u32,
                t_pad: t_pad as u32,
                chunk_size: chunk_size as u32,
                silu,
                synchronize: !capturing,
            },
        )
    }
}

impl CudaBackend {
    /// Plans the gated delta rule over a prompt of `t` positions in chunks of `cs`.
    pub fn gated_delta_rule_prefill(
        &self,
        o: &GdrOperands,
        bh: usize,
        t: usize,
        hk: usize,
        hv: usize,
        cs: usize,
    ) -> (r: Result<GdrPrefill, KernelError>)
        requires
            gdr_error(*o) is None ==> {
                &&& gdr_fits(bh, t, hk, hv)
                &&& cs as u32 > 0
                &&& (t as u32) % (cs as u32) == 0 ==> gdr_dims(bh, t, hk, hv, cs).in_range()
            },
        ensures
            match gdr_error(*o) {
                Some(e) => r == Err::<GdrPrefill, KernelError>(e),
                None => match r {
                    Err(e) => is_scan_plan(Err(e), gdr_dims(bh, t, hk, hv, cs)),
                    Ok(p) => {
                        &&& p.n_qk == bh * t * hk
                        &&& p.n_v == bh * t * hv
                        &&& p.n_g == bh * t
                        &&& p.n_state == bh * hk * hv
                        &&& is_scan_plan(Ok(p.scan), gdr_dims(bh, t, hk, hv, cs))
                        &&& p.refused_at_end == (if o.out.cuda {
                            None
                        } else {
                            Some(KernelError::Unsupported("gdr_prefill: out non-cuda"))
                        })
                    },
                },
            },
            r matches Ok(p) ==> {
                let d = ScanDims {
                    bh: bh as u32,
                    t: t as u32,
                    hk: hk as u32,
                    hv: hv as u32,
                    cs: cs as u32,
                };
                &&& outputs_of_the_rule(p.scan.steps@, d)
                &&& states_of_the_rule(p.scan.steps@, d)
                &&& p.refused_at_end is None <==> o.out.cuda
            },
    {
        match gdr_refusal(o) {
            Some(e) => {
                return Err(e);
            },
            None => {},
        }
        proof {
            assert(0 <= bh * t && 0 <= bh * hk) by (nonlinear_arith);
            assert(0 <= (bh * t) * hk && 0 <= (bh * t) * hv && 0 <= (bh * hk) * hv)
                by (nonlinear_arith)
                requires
                    0 <= bh * t,
                    0 <= bh * hk,
            ;
        }
        let n_qk: usize = bh * t * hk;
        let n_v: usize = bh * t * hv;
        let n_g: usize = bh * t;
        let n_state: usize = bh * hk * hv;
        let d = ScanDims {
            bh: bh as u32,
            t: t as u32,
            hk: hk as u32,
            hv: hv as u32,
            cs: cs as u32,
        };
        match chunk_gated_delta_rule(d) {
            Err(e) => Err(e),
            Ok(scan) => Ok(
                GdrPrefill {
                    n_qk,
                    n_v,
                    n_g,
                    n_state,
                    scan,
                    refused_at_end: if o.out.cuda {
                        None
                    } else {
                        Some(KernelError::Unsupported("gdr_prefill: out non-cuda"))
                    },
                },
            ),
        }
    }
}

} // verus!
