//! What the recurrent attention is given, and that its plan has each in its place.

use vstd::prelude::*;

use crate::cuda_backend::conv_laws::plain_float;
use crate::cuda_backend::linear_attn::{decode_step_plan, prefill_plan};
use crate::dtype::DType;
use crate::layout::Operand;

verus! {

/// The operand is on the device and of type `dtype`.
pub open spec fn is_of(o: Operand, dtype: DType) -> bool {
    o.cuda && o.layout.dtype == dtype
}

/// A step of the recurrent attention reads and writes every operand from where it starts, with the
/// sizes asked for, and is accepted for just the operands of the types that its kernels take.
pub proof fn recurrent_step_is_as_asked(
    qkv: Operand,
    conv_w: Operand,
    a: Operand,
    b: Operand,
    dt_bias: Operand,
    a_log: Operand,
    z: Operand,
    norm_w: Operand,
    conv_state: Operand,
    ssm_state: Operand,
    out: Operand,
    num_k: usize,
    num_v: usize,
    dk: usize,
    dv: usize,
    conv_kernel: usize,
)
    requires
        num_k <= u32::MAX,
        num_v <= u32::MAX,
        dk <= u32::MAX,
        dv <= u32::MAX,
        conv_kernel <= u32::MAX,
    ensures
        decode_step_plan(
            qkv,
            conv_w,
            a,
            b,
            dt_bias,
            a_log,
            z,
            norm_w,
            conv_state,
            ssm_state,
            out,
            num_k,
            num_v,
            dk,
            dv,
            conv_kernel,
        ) matches Ok(p) ==> {
            &&& p.qkv == qkv.layout.byte_offset
            &&& p.conv_w == conv_w.layout.byte_offset
            &&& p.a == a.layout.byte_offset
            &&& p.b == b.layout.byte_offset
            &&& p.dt_bias == dt_bias.layout.byte_offset
            &&& p.a_log == a_log.layout.byte_offset
            &&& p.z == z.layout.byte_offset
            &&& p.norm_w == norm_w.layout.byte_offset
            &&& p.conv_state == conv_state.layout.byte_offset
            &&& p.ssm_state == ssm_state.layout.byte_offset
            &&& p.out == out.layout.byte_offset
            &&& p.num_k == num_k
            &&& p.num_v == num_v
            &&& p.dk == dk
            &&& p.dv == dv
            &&& p.conv_kernel == conv_kernel
        },
        decode_step_plan(
            qkv,
            conv_w,
            a,
            b,
            dt_bias,
            a_log,
            z,
            norm_w,
            conv_state,
            ssm_state,
            out,
            num_k,
            num_v,
            dk,
            dv,
            conv_kernel,
        ) is Ok <==> {
            &&& is_of(qkv, DType::F16)
            &&& is_of(conv_w, DType::F16)
            &&& is_of(a, DType::F16)
            &&& is_of(b, DType::F16)
            &&& is_of(dt_bias, DType::F32)
            &&& is_of(a_log, DType::F32)
            &&& is_of(z, DType::F16)
            &&& is_of(norm_w, DType::F16)
            &&& is_of(conv_state, DType::F16)
            &&& is_of(ssm_state, DType::F32)
            &&& is_of(out, DType::F16)
        },
{
}

/// The recurrent attention over a prompt reads and writes every operand from where it starts, with
/// the sizes asked for, an activation behind the convolution exactly where one is asked for, and
/// waits for the device unless it is being recorded.
pub proof fn recurrent_prompt_is_as_asked(
    qkv: Operand,
    conv_w: Operand,
    a: Operand,
    b: Operand,
    dt_bias: Operand,
    a_log: Operand,
    conv_state: Operand,
    ssm_state: Operand,
    out: Operand,
    num_k: usize,
    num_v: usize,
    hk: usize,
    hv: usize,
    conv_kernel: usize,
    t_in: usize,
    t_pad: usize,
    chunk_size: usize,
    silu: bool,
    capturing: bool,
)
    requires
        num_k <= u32::MAX,
        num_v <= u32::MAX,
        hk <= u32::MAX,
        hv <= u32::MAX,
        conv_kernel <= u32::MAX,
        t_in <= u32::MAX,
        t_pad <= u32::MAX,
        chunk_size <= u32::MAX,
    ensures
        prefill_plan(
            qkv,
            conv_w,
            a,
            b,
            dt_bias,
            a_log,
            conv_state,
            ssm_state,
            out,
            num_k,
            num_v,
            hk,
            hv,
            conv_kernel,
            t_in,
            t_pad,
            chunk_size,
            silu,
            capturing,
        ) matches Ok(p) ==> {
            &&& p.dtype == qkv.layout.dtype
            &&& p.qkv == qkv.layout.byte_offset
            &&& p.conv_w == conv_w.layout.byte_offset
            &&& p.a == a.layout.byte_offset
            &&& p.b == b.layout.byte_offset
            &&& p.dt_bias == dt_bias.layout.byte_offset
            &&& p.a_log == a_log.layout.byte_offset
            &&& p.conv_state == conv_state.layout.byte_offset
            &&& p.ssm_state == ssm_state.layout.byte_offset
            &&& p.out == out.layout.byte_offset
            &&& p.num_k == num_k
            &&& p.num_v == num_v
            &&& p.hk == hk
            &&& p.hv == hv
            &&& p.conv_kernel == conv_kernel
            &&& p.t_in == t_in
            &&& p.t_pad == t_pad
            &&& p.chunk_size == chunk_size
            &&& p.silu == silu
            &&& p.synchronize <==> !capturing
        },
        prefill_plan(
            qkv,
            conv_w,
            a,
            b,
            dt_bias,
            a_log,
            conv_state,
            ssm_state,
            out,
            num_k,
            num_v,
            hk,
            hv,
            conv_kernel,
            t_in,
            t_pad,
            chunk_size,
            silu,
            capturing,
        ) is Ok <==> {
            &&& plain_float(qkv.layout.dtype) && is_of(qkv, qkv.layout.dtype)
            &&& is_of(conv_w, qkv.layout.dtype)
            &&& is_of(conv_state, qkv.layout.dtype)
            &&& is_of(a, DType::F16)
            &&& is_of(b, DType::F16)
            &&& is_of(dt_bias, DType::F32)
            &&& is_of(a_log, DType::F32)
            &&& is_of(ssm_state, DType::F32)
            &&& is_of(out, DType::F32)
        },
{
}

} // verus!
