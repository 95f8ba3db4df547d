//! Copies, conversions and element-wise operations on whole tensors.

use vstd::prelude::*;

use crate::cuda_backend::CudaBackend;
use crate::dtype::{float_bytes, float_size, is_float3, spec_float_entry, DType};
use crate::error::KernelError;
use crate::fused::silu_and_mul::{cfg_for, silu_and_mul_bf16, silu_and_mul_f16, silu_and_mul_f32};
use crate::kernels::dwconv1d::{dwconv1d_early, dwconv1d_plan, run_dwconv1d, Dwconv1dPlan};
use crate::kernels::element_laws::{
    binary_number, binary_ops, numbers_are_places, reduce_ops, reduction_numbers_are_places,
    unary_number, unary_ops,
};
use crate::kernels::elementwise::{
    binary_error, cast_error, is_binary_plan, is_cast_plan, is_ternary_plan, is_unary_plan, run_binary, run_cast,
    run_ternary_fused, run_unary, ternary_error, unary_error, BinaryOp, BinaryPlan, CastPlan,
    TernaryFusedKind, TernaryPlan, UnaryOp, UnaryPlan,
};
use crate::kernels::reduce::{
    inner_fits, is_reduce_plan, reduce_error, run_reduce, ReduceOp, ReducePlan,
};
use crate::launch::{span, spec_span, Launch, Span};
use crate::layout::{lemma_volume_bounds, Operand};

verus! {

/// How a tensor is copied.
#[derive(Clone, Copy, Debug, PartialEq, Eq)]
pub enum CopyPlan {
    /// The buffer as it is.
    Memcpy,
    /// Element by element, into a contiguous tensor.
    Gather(UnaryPlan),
}

/// The buffer is copied as it is.
pub open spec fn copies_whole(src: Operand, dst: Operand) -> bool {
    src.layout.contiguous && src.layout.offset == 0 && dst.layout.contiguous
}

/// What is wrong with a request for a copy, if anything.
pub open spec fn copy_error(src: Operand, dst: Operand) -> Option<KernelError> {
    if copies_whole(src, dst) {
        if !src.cuda {
            Some(KernelError::Unsupported("cuda copy: src non-cuda"))
        } else if !dst.cuda {
            Some(KernelError::Unsupported("cuda copy: dst non-cuda"))
        } else {
            None
        }
    } else if !dst.layout.contiguous {
        Some(KernelError::NonContiguous)
    } else if !src.cuda {
        Some(KernelError::Unsupported("cuda copy: src non-cuda"))
    } else {
        unary_error(src, dst)
    }
}

/// The refusal of a request whose first operand is not on a device, else `rest`.
pub open spec fn device_first(
    first: Operand,
    text: &'static str,
    rest: Option<KernelError>,
) -> Option<
    KernelError,
> {
    if !first.cuda {
        Some(KernelError::Unsupported(text))
    } else {
        rest
    }
}

/// The fused operation on three tensors that a number stands for; no kernel serves any other
/// number, and whoever asks for one is left to take the operation step by step.
pub open spec fn ternary_kind(kind: u8) -> Option<TernaryFusedKind> {
    if kind == 0 {
        Some(TernaryFusedKind::FmaFlat)
    } else if kind == 1 {
        Some(TernaryFusedKind::FmaRowb)
    } else if kind == 2 {
        Some(TernaryFusedKind::ModRowb)
    } else {
        None
    }
}

/// What is wrong with a request for a fused operation on three tensors, if anything.
pub open spec fn ternary_refusal(
    kind: u8,
    x: Operand,
    b: Operand,
    c: Operand,
    dst: Operand,
) -> Option<
    KernelError,
> {
    device_first(
        x,
        "ternary fused: x non-cuda",
        match ternary_kind(kind) {
            None => Some(KernelError::Unsupported("ternary fused: kind")),
            Some(k) => ternary_error(k, x, b, c, dst),
        },
    )
}

/// A gate's activation times a value, over given buffers.
#[derive(Clone, Copy, Debug, PartialEq, Eq)]
pub struct SiluAndMulPlan {
    pub launch: Launch,
    /// The number of elements, which the kernel gets.
    pub total: u32,
    pub gate: Span,
    pub up: Span,
    pub out: Span,
}

/// The outcome of a request for a gate's activation times a value.
pub open spec fn silu_and_mul_plan(gate: Operand, up: Operand, out: Operand) -> Result<
    Option<SiluAndMulPlan>,
    KernelError,
> {
    let dtype = gate.layout.dtype;
    let total = gate.layout.numel;
    if up.layout.dtype != dtype || out.layout.dtype != dtype {
        Err(KernelError::Unsupported("cuda silu_and_mul: dtype mismatch"))
    } else if !gate.layout.contiguous || !up.layout.contiguous || !out.layout.contiguous {
        Err(KernelError::NonContiguous)
    } else if total != up.layout.numel || total != out.layout.numel {
        Err(KernelError::Unsupported("cuda silu_and_mul: shape mismatch"))
    } else if total == 0 {
        Ok(None)
    } else if !gate.cuda {
        Err(KernelError::Unsupported("cuda silu_and_mul: gate non-cuda"))
    } else if !up.cuda {
        Err(KernelError::Unsupported("cuda silu_and_mul: up non-cuda"))
    } else if !out.cuda {
        Err(KernelError::Unsupported("cuda silu_and_mul: out non-cuda"))
    } else if total > u32::MAX {
        Err(KernelError::Cuda1("silu_and_mul: total {} > u32::MAX", total as u64))
    } else if !is_float3(dtype) {
        Err(KernelError::UnsupportedDType("cuda silu_and_mul: dtype {}", dtype))
    } else {
        Ok(
            Some(
                SiluAndMulPlan {
                    launch: cfg_for(
                        spec_float_entry(
                            dtype,
                            "silu_and_mul_f32",
                            "silu_and_mul_f16",
                            "silu_and_mul_bf16",
                        )->0,
                        total as u32,
                    ),
                    total: total as u32,
                    gate: spec_span(gate.layout.byte_offset as int, total as int, float_size(dtype)),
                    up: spec_span(up.layout.byte_offset as int, total as int, float_size(dtype)),
                    out: spec_span(0, total as int, float_size(dtype)),
                },
            ),
        )
    }
}

impl CudaBackend {
    /// Plans a copy.
    pub fn copy(&self, src: &Operand, dst: &Operand) -> (r: Result<CopyPlan, KernelError>)
        requires
            src.wf(),
            dst.wf(),
        ensures
            match r {
                Err(e) => copy_error(*src, *dst) == Some(e),
                Ok(CopyPlan::Memcpy) => copy_error(*src, *dst) is None && copies_whole(*src, *dst),
                Ok(CopyPlan::Gather(p)) => copy_error(*src, *dst) is None && !copies_whole(*src, *dst)
                    && is_unary_plan(p, UnaryOp::Affine, src.layout, dst.layout),
            },
            r matches Ok(CopyPlan::Memcpy) ==> {
                &&& src.cuda && dst.cuda
                &&& src.layout.contiguous && src.layout.offset == 0 && dst.layout.contiguous
            },
            r matches Ok(CopyPlan::Gather(p)) ==> {
                &&& unary_ops()[unary_number(p)] == UnaryOp::Affine
                &&& src.layout.dims@ == dst.layout.dims@ && src.layout.dtype == dst.layout.dtype
                &&& dst.layout.contiguous && !(src.layout.contiguous && src.layout.offset == 0)
            },
    {
        proof {
            numbers_are_places(UnaryOp::Affine, BinaryOp::Add);
        }
        if src.layout.contiguous && src.layout.offset == 0 && dst.layout.contiguous {
            if !src.cuda {
                return Err(KernelError::Unsupported("cuda copy: src non-cuda"));
            }
            if !dst.cuda {
                return Err(KernelError::Unsupported("cuda copy: dst non-cuda"));
            }
            return Ok(CopyPlan::Memcpy);
        }
        if !dst.layout.contiguous {
            return Err(KernelError::NonContiguous);
        }
        if !src.cuda {
            return Err(KernelError::Unsupported("cuda copy: src non-cuda"));
        }
        match run_unary(UnaryOp::Affine, src, dst) {
            Ok(p) => Ok(CopyPlan::Gather(p)),
            Err(e) => Err(e),
        }
    }

    /// Plans a conversion between element types.
    pub fn cast(&self, src: &Operand, dst: &Operand) -> (r: Result<CastPlan, KernelError>)
        requires
            src.wf(),
            dst.wf(),
        ensures
            match r {
                Ok(p) => device_first(
                    *src,
                    "cuda cast: src non-cuda",
                    cast_error(*src, *dst),
                ) is None && is_cast_plan(
                    p,
                    src.layout,
                    dst.layout,
                ),
                Err(e) => device_first(
                    *src,
                    "cuda cast: src non-cuda",
                    cast_error(*src, *dst),
                ) == Some(e),
            },
    {
        if !src.cuda {
            return Err(KernelError::Unsupported("cuda cast: src non-cuda"));
        }
        run_cast(src, dst)
    }

    /// Plans an operation on one tensor.
    pub fn unary(&self, op: UnaryOp, src: &Operand, dst: &Operand) -> (r: Result<
        UnaryPlan,
        KernelError,
    >)
        requires
            src.wf(),
            dst.wf(),
        ensures
            match r {
                Ok(p) => device_first(
                    *src,
                    "cuda unary: src non-cuda",
                    unary_error(*src, *dst),
                ) is None && is_unary_plan(
                    p,
                    op,
                    src.layout,
                    dst.layout,
                ),
                Err(e) => device_first(
                    *src,
                    "cuda unary: src non-cuda",
                    unary_error(*src, *dst),
                ) == Some(e),
            },
            r matches Ok(p) ==> unary_ops()[unary_number(p)] == op,
    {
        proof {
            numbers_are_places(op, BinaryOp::Add);
        }
        if !src.cuda {
            return Err(KernelError::Unsupported("cuda unary: src non-cuda"));
        }
        run_unary(op, src, dst)
    }

    /// Plans an operation on two tensors.
    pub fn binary(&self, op: BinaryOp, a: &Operand, b: &Operand, dst: &Operand) -> (r: Result<
        BinaryPlan,
        KernelError,
    >)
        requires
            a.wf(),
            b.wf(),
            dst.wf(),
        ensures
            match r {
                Ok(p) => device_first(
                    *a,
                    "cuda binary: a non-cuda",
                    binary_error(*a, *b, *dst),
                ) is None && is_binary_plan(
                    p,
                    op,
                    a.layout,
                    b.layout,
                    dst.layout,
                ),
                Err(e) => device_first(
                    *a,
                    "cuda binary: a non-cuda",
                    binary_error(*a, *b, *dst),
                ) == Some(e),
            },
            r matches Ok(p) ==> binary_ops()[binary_number(p)] == op,
    {
        proof {
            numbers_are_places(UnaryOp::Neg, op);
        }
        if !a.cuda {
            return Err(KernelError::Unsupported("cuda binary: a non-cuda"));
        }
        run_binary(op, a, b, dst)
    }

    /// Plans a fused operation on three tensors: 0 stands for `x + b * c`, 1 for the same with a
    /// row `c`, 2 for `x * (1 + b) + c` with rows `b` and `c`.
    pub fn ternary_fused(
        &self,
        kind: u8,
        x: &Operand,
        b: &Operand,
        c: &Operand,
        dst: &Operand,
    ) -> (r:
        Result<TernaryPlan, KernelError>)
        requires
            x.wf(),
            b.wf(),
            c.wf(),
            dst.wf(),
        ensures
            match r {
                Err(e) => ternary_refusal(kind, *x, *b, *c, *dst) == Some(e),
                Ok(p) => ternary_refusal(kind, *x, *b, *c, *dst) is None && is_ternary_plan(
                    p,
                    ternary_kind(kind)->0,
                    x.layout,
                    b.layout,
                    c.layout,
                    dst.layout,
                ),
            },
            r matches Ok(p) ==> kind <= 2 && (p.d is None <==> kind == 0) && p.numel == dst.layout.numel,
    {
        if !x.cuda {
            return Err(KernelError::Unsupported("ternary fused: x non-cuda"));
        }
        let k = match kind {
            0 => TernaryFusedKind::FmaFlat,
            1 => TernaryFusedKind::FmaRowb,
            2 => TernaryFusedKind::ModRowb,
            _ => {
                return Err(KernelError::Unsupported("ternary fused: kind"));
            },
        };
        run_ternary_fused(k, x, b, c, dst)
    }

    /// Plans a convolution of each channel with a filter of its own.
    pub fn dwconv1d(
        &self,
        input: &Operand,
        weight: &Operand,
        bias: Option<&Operand>,
        out: &Operand,
        stride: usize,
        padding: usize,
        transpose: bool,
    ) -> (r: Result<Dwconv1dPlan, KernelError>)
        requires
            input.wf(),
            weight.wf(),
            out.wf(),
            input.cuda && dwconv1d_early(*input, *weight, *out) is None ==> {
                &&& input.layout.dims@.len() >= 3
                &&& weight.layout.dims@.len() >= 3
                &&& out.layout.dims@.len() >= 3
            },
        ensures
            r == (if !input.cuda {
                Err(KernelError::Unsupported("dwconv1d: input non-cuda"))
            } else {
                dwconv1d_plan(
                    *input,
                    *weight,
                    match bias {
                        Some(b) => Some(*b),
                        None => None,
                    },
                    *out,
                    stride,
                    padding,
                    transpose,
                )
            }),
            r matches Ok(p) ==> (p.bias <==> bias is Some) && (p.pad is None <==> transpose),
    {
        if !input.cuda {
            return Err(KernelError::Unsupported("dwconv1d: input non-cuda"));
        }
        run_dwconv1d(input, weight, bias, out, stride, padding, transpose)
    }

    /// Plans a reduction along the axes given.
    pub fn reduce(
        &self,
        op: ReduceOp,
        src: &Operand,
        dst: &Operand,
        dims: &Vec<usize>,
    ) -> (r: Result<
        ReducePlan,
        KernelError,
    >)
        requires
            src.wf(),
            dst.wf(),
            src.cuda && dst.cuda ==> {
                &&& forall|j: int|
                    0 <= j < dims@.len() ==> #[trigger] dims@[j] < src.layout.dims@.len()
                &&& inner_fits(src.layout.dims@, dims@)
            },
        ensures
            match r {
                Ok(p) => reduce_error(op, *src, *dst, dims@) is None && is_reduce_plan(
                    p,
                    op,
                    *src,
                    dims@,
                ),
                Err(e) => reduce_error(op, *src, *dst, dims@) == Some(e),
            },
            r matches Ok(p) ==> reduce_ops()[p.params.op_code as int] == op,
    {
        proof {
            reduction_numbers_are_places(op);
        }
        if !src.cuda {
            return Err(KernelError::Unsupported("cuda reduce: src non-cuda"));
        }
        run_reduce(op, src, dst, dims)
    }

    /// Plans a gate's activation times a value; nothing is launched for no elements.
    pub fn silu_and_mul(&self, gate: &Operand, up: &Operand, out: &Operand) -> (r: Result<
        Option<SiluAndMulPlan>,
        KernelError,
    >)
        requires
            gate.wf(),
            up.wf(),
            out.wf(),
        ensures
            r == silu_and_mul_plan(*gate, *up, *out),
    {
        let dtype = gate.layout.dtype;
        if up.layout.dtype != dtype || out.layout.dtype != dtype {
            return Err(KernelError::Unsupported("cuda silu_and_mul: dtype mismatch"));
        }
        if !gate.layout.contiguous || !up.layout.contiguous || !out.layout.contiguous {
            return Err(KernelError::NonContiguous);
        }
        let total: usize = gate.layout.numel;
        if total != up.layout.numel || total != out.layout.numel {
            return Err(KernelError::Unsupported("cuda silu_and_mul: shape mismatch"));
        }
        if total == 0 {
            return Ok(None);
        }
        if !gate.cuda {
            return Err(KernelError::Unsupported("cuda silu_and_mul: gate non-cuda"));
        }
        if !up.cuda {
            return Err(KernelError::Unsupported("cuda silu_and_mul: up non-cuda"));
        }
        if !out.cuda {
            return Err(KernelError::Unsupported("cuda silu_and_mul: out non-cuda"));
        }
        if total as u64 > u32::MAX as u64 {
            return Err(KernelError::Cuda1("silu_and_mul: total {} > u32::MAX", total as u64));
        }
        let call = match dtype {
            DType::F32 => silu_and_mul_f32(total as u32),
            DType::F16 => silu_and_mul_f16(total as u32),
            DType::BF16 => silu_and_mul_bf16(total as u32),
            _ => {
                return Err(KernelError::UnsupportedDType("cuda silu_and_mul: dtype {}", dtype));
            },
        };
        proof {
            lemma_volume_bounds(gate.layout.dims@);
        }
        let esz: usize = float_bytes(dtype);
        Ok(
            Some(
                SiluAndMulPlan {
                    launch: call.launch,
                    total: call.args,
                    gate: span(gate.layout.byte_offset, total, esz),
                    up: span(up.layout.byte_offset, total, esz),
                    out: span(0, total, esz),
                },
            ),
        )
    }
}

} // verus!
