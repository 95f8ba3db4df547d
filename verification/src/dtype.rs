//! Element types of tensors.

use vstd::prelude::*;

verus! {

/// The block formats of GGML weights.
#[allow(non_camel_case_types)]
#[derive(Clone, Copy, Debug, PartialEq, Eq, Structural)]
pub enum GgmlType {
    Q4_0,
    Q4_1,
    Q5_0,
    Q5_1,
    Q8_0,
    Q8_1,
    Q8K,
    Q1_0,
    Q2_0,
    Mxfp4,
    Nvfp4,
    Iq4Nl,
    Q2K,
    Q3K,
    Q4K,
    Q5K,
    Q6K,
    Iq4Xs,
    Iq2Xxs,
    Iq2Xs,
    Iq2S,
    Iq3Xxs,
    Iq3S,
    Iq1S,
    Iq1M,
    Tq1_0,
    Tq2_0,
    /// A format that no kernel exists for.
    Other,
}

/// The element type of a tensor or of a quantised weight.
#[derive(Clone, Copy, Debug, PartialEq, Eq, Structural)]
pub enum DType {
    F32,
    F16,
    BF16,
    F64,
    U8,
    U32,
    I64,
    NVFP4,
    MXFP8,
    /// Super-block quantisation with this many bits per element.
    Sq(u8),
    Ggml(GgmlType),
}

/// One of the three float types that most kernels come in.
pub open spec fn is_float3(dtype: DType) -> bool {
    dtype == DType::F32 || dtype == DType::F16 || dtype == DType::BF16
}

/// One of the two float types of sixteen bits.
pub open spec fn is_half(dtype: DType) -> bool {
    dtype == DType::F16 || dtype == DType::BF16
}

/// Bytes per element of one of the three float types.
pub open spec fn float_size(dtype: DType) -> int {
    if dtype == DType::F32 { 4 } else { 2 }
}

/// The entry for `dtype` out of those for `F32`, `F16` and `BF16`.
pub open spec fn spec_float_entry(
    dtype: DType,
    on_f32: &'static str,
    on_f16: &'static str,
    on_bf16: &'static str,
) -> Option<&'static str> {
    match dtype {
        DType::F32 => Some(on_f32),
        DType::F16 => Some(on_f16),
        DType::BF16 => Some(on_bf16),
        _ => None,
    }
}

/// Picks the entry for `dtype` out of those for `F32`, `F16` and `BF16`.
pub fn float_entry(
    dtype: DType,
    on_f32: &'static str,
    on_f16: &'static str,
    on_bf16: &'static str,
) -> (r: Option<&'static str>)
    ensures
        r == spec_float_entry(dtype, on_f32, on_f16, on_bf16),
        r is Some <==> is_float3(dtype),
{
    match dtype {
        DType::F32 => Some(on_f32),
        DType::F16 => Some(on_f16),
        DType::BF16 => Some(on_bf16),
        _ => None,
    }
}

/// Bytes per element of one of the three float types.
pub fn float_bytes(dtype: DType) -> (r: usize)
    ensures
        r == float_size(dtype),
{
    match dtype {
        DType::F32 => 4,
        _ => 2,
    }
}

/// No element of the three float types is larger than four bytes.
pub proof fn lemma_float_bytes(n: int, dtype: DType)
    requires
        0 <= n,
    ensures
        0 <= n * float_size(dtype) <= n * 4,
{
    assert(0 <= n * float_size(dtype) <= n * 4) by (nonlinear_arith)
        requires
            0 <= n,
            2 <= float_size(dtype) <= 4,
    ;
}

} // verus!
