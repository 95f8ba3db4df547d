//! Every kernel bears the name of its work and of the types it works on.

use vstd::prelude::*;

use crate::dtype::DType;
use crate::elementwise::activations::{Activation, BiasActivation, act_entry, bias_entry, snake_u8_plan};
use crate::elementwise::kv_append::append_entry;
use crate::elementwise::logit_cap::logit_cap_plan;
use crate::elementwise::rope::{RopeOffsets, partial_entry, rope_interleaved_plan, rope_split_partial_plan, rope_split_plan};
use crate::embed::embed_plan;
use crate::fused::cross_entropy::cross_entropy_plan;
use crate::fused::geglu_split::geglu_split_plan;
use crate::fused::layernorm_residual::layernorm_residual_plan;
use crate::fused::rms_mod_quant::{NormQuantKind, quant_entry};
use crate::fused::rmsnorm_residual::{residual_norm_plan, split_entry};
use crate::kernels::dwconv1d::dwconv_entry;
use crate::kernels::elementwise::{BinaryShape, TernaryFusedKind, cast_entry, cast_flat_entry, fast_entry, ternary_entry};
use crate::kernels::reduce::{ReduceOp, reduce_entry};
use crate::reduction::groupnorm;
use crate::reduction::layernorm::layer_norm;
use crate::reduction::pixelnorm::pixel_norm_u8_plan;
use crate::reduction::rmsnorm::{RmsVariant, rms_norm_u8_plan};
use crate::reduction::softmax::softmax_plan;
use crate::reduction::topk::topk_plan;
use crate::scan::parallel_scan::prefix_sum_plan;
use crate::ssm::mamba2_ssd::ssd_plan;
use crate::ssm::mamba_scan::mamba_scan_plan;

verus! {

/// How a type is written in the name of a kernel.
pub open spec fn written(dtype: DType) -> Seq<char> {
    match dtype {
        DType::F32 => "f32"@,
        DType::F16 => "f16"@,
        DType::BF16 => "bf16"@,
        DType::F64 => "f64"@,
        DType::U32 => "u32"@,
        DType::I64 => "i64"@,
        _ => seq![],
    }
}

/// The kernel does this work on this type.
pub open spec fn named(kernel: &'static str, work: Seq<char>, dtype: DType) -> bool {
    kernel@ =~= work + written(dtype)
}

/// Types of plain floats have a kernel and others have none, and it is named for the type.
pub open spec fn serves(entry: Option<&'static str>, work: Seq<char>, dtype: DType) -> bool {
    &&& entry is Some <==> dtype == DType::F32 || dtype == DType::F16 || dtype == DType::BF16
    &&& entry matches Some(kernel) ==> named(kernel, work, dtype)
}

/// The kernel of `snake_u8_plan` is named for its work and its type.
pub proof fn snake_u8_is_named(x_off: usize, a_off: usize, binv_off: usize, y_off: usize, n: usize, chans: u32, t_len: u32, dtype: DType)
    ensures
        snake_u8_plan(x_off, a_off, binv_off, y_off, n, chans, t_len, dtype) matches Ok(Some(p)) ==> named(p.launch.kernel, "snake_act_"@, dtype),
{
    reveal_strlit("f32");
    reveal_strlit("f16");
    reveal_strlit("bf16");
    reveal_strlit("snake_act_");
    reveal_strlit("snake_act_f32");
    reveal_strlit("snake_act_f16");
    reveal_strlit("snake_act_bf16");
}

/// The kernel of `logit_cap_plan` is named for its work and its type.
pub proof fn logit_cap_is_named(cap_is_zero: bool, n: u32, dtype: DType)
    ensures
        logit_cap_plan(cap_is_zero, n, dtype) matches Ok(Some(p)) ==> named(p.launch.kernel, "logit_cap_"@, dtype),
{
    reveal_strlit("f32");
    reveal_strlit("f16");
    reveal_strlit("bf16");
    reveal_strlit("logit_cap_");
    reveal_strlit("logit_cap_f32");
    reveal_strlit("logit_cap_f16");
    reveal_strlit("logit_cap_bf16");
}

/// The kernel of `rope_split_plan` is named for its work and its type.
pub proof fn rope_split_is_named(off: RopeOffsets, rows: u32, s_len: u32, d: u32, dtype: DType)
    ensures
        rope_split_plan(off, rows, s_len, d, dtype) matches Ok(Some(p)) ==> named(p.launch.kernel, "rope_split_"@, dtype),
{
    reveal_strlit("f32");
    reveal_strlit("f16");
    reveal_strlit("bf16");
    reveal_strlit("rope_split_");
    reveal_strlit("rope_split_f32");
    reveal_strlit("rope_split_f16");
    reveal_strlit("rope_split_bf16");
}

/// The kernel of `rope_split_partial_plan` is named for its work and its type.
pub proof fn rope_split_partial_is_named(off: RopeOffsets, rows: u32, s_len: u32, d: u32, rot_dim: u32, dtype: DType)
    ensures
        rope_split_partial_plan(off, rows, s_len, d, rot_dim, dtype) matches Ok(Some(p)) ==> named(p.launch.kernel, "rope_split_partial_"@, dtype),
{
    reveal_strlit("f32");
    reveal_strlit("f16");
    reveal_strlit("bf16");
    reveal_strlit("rope_split_partial_");
    reveal_strlit("rope_split_partial_f32");
    reveal_strlit("rope_split_partial_f16");
    reveal_strlit("rope_split_partial_bf16");
}

/// The kernel of `rope_interleaved_plan` is named for its work and its type.
pub proof fn rope_interleaved_is_named(off: RopeOffsets, rows: u32, h: u32, s_len: u32, d: u32, dtype: DType)
    ensures
        rope_interleaved_plan(off, rows, h, s_len, d, dtype) matches Ok(Some(p)) ==> named(p.launch.kernel, "rope_interleaved_"@, dtype),
{
    reveal_strlit("f32");
    reveal_strlit("f16");
    reveal_strlit("bf16");
    reveal_strlit("rope_interleaved_");
    reveal_strlit("rope_interleaved_f32");
    reveal_strlit("rope_interleaved_f16");
    reveal_strlit("rope_interleaved_bf16");
}

/// The kernel of `cross_entropy_plan` is named for its work and its type.
pub proof fn cross_entropy_is_named(batch: u32, vocab: u32, ignore_index: i32, dtype: DType)
    ensures
        cross_entropy_plan(batch, vocab, ignore_index, dtype) matches Ok(p) ==> named(p.launch.kernel, "cross_entropy_"@, dtype),
{
    reveal_strlit("f32");
    reveal_strlit("f16");
    reveal_strlit("bf16");
    reveal_strlit("cross_entropy_");
    reveal_strlit("cross_entropy_f32");
    reveal_strlit("cross_entropy_f16");
    reveal_strlit("cross_entropy_bf16");
}

/// The kernel of `geglu_split_plan` is named for its work and its type.
pub proof fn geglu_split_is_named(inp_off: usize, out_off: usize, t: u64, inner: u32, dtype: DType)
    ensures
        geglu_split_plan(inp_off, out_off, t, inner, dtype) matches Ok(Some(p)) ==> named(p.launch.kernel, "geglu_split_"@, dtype),
{
    reveal_strlit("f32");
    reveal_strlit("f16");
    reveal_strlit("bf16");
    reveal_strlit("geglu_split_");
    reveal_strlit("geglu_split_f32");
    reveal_strlit("geglu_split_f16");
    reveal_strlit("geglu_split_bf16");
}

/// The kernel of `layernorm_residual_plan` is named for its work and its type.
pub proof fn layernorm_residual_is_named(batch: u32, hidden: u32, has_beta: bool, dtype: DType)
    ensures
        layernorm_residual_plan(batch, hidden, has_beta, dtype) matches Ok(Some(p)) ==> named(p.launch.kernel, "layernorm_residual_"@, dtype),
{
    reveal_strlit("f32");
    reveal_strlit("f16");
    reveal_strlit("bf16");
    reveal_strlit("layernorm_residual_");
    reveal_strlit("layernorm_residual_f32");
    reveal_strlit("layernorm_residual_f16");
    reveal_strlit("layernorm_residual_bf16");
}

/// The kernel of `residual_norm_plan` is named for its work and its type.
pub proof fn residual_norm_is_named(batch: u32, hidden: u32, variant: RmsVariant, dtype: DType)
    ensures
        residual_norm_plan(batch, hidden, variant, dtype) matches Ok(p) ==> named(p.launch.kernel, "rmsnorm_residual_"@, dtype),
{
    reveal_strlit("f32");
    reveal_strlit("f16");
    reveal_strlit("bf16");
    reveal_strlit("rmsnorm_residual_");
    reveal_strlit("rmsnorm_residual_f32");
    reveal_strlit("rmsnorm_residual_f16");
    reveal_strlit("rmsnorm_residual_bf16");
}

/// The kernel of `pixel_norm_u8_plan` is named for its work and its type.
pub proof fn pixel_norm_u8_is_named(x_off: usize, y_off: usize, b: u32, c: u32, s: u64, apply_silu: bool, dtype: DType)
    ensures
        pixel_norm_u8_plan(x_off, y_off, b, c, s, apply_silu, dtype) matches Ok(Some(p)) ==> named(p.launch.kernel, "pixel_norm_"@, dtype),
{
    reveal_strlit("f32");
    reveal_strlit("f16");
    reveal_strlit("bf16");
    reveal_strlit("pixel_norm_");
    reveal_strlit("pixel_norm_f32");
    reveal_strlit("pixel_norm_f16");
    reveal_strlit("pixel_norm_bf16");
}

/// The kernel of `rms_norm_u8_plan` is named for its work and its type.
pub proof fn rms_norm_u8_is_named(x_off: usize, w_off: usize, y_off: usize, batch: u32, hidden: u32, variant: RmsVariant, dtype: DType)
    ensures
        rms_norm_u8_plan(x_off, w_off, y_off, batch, hidden, variant, dtype) matches Ok(Some(p)) ==> named(p.norm.launch.kernel, "rms_norm_"@, dtype),
{
    reveal_strlit("f32");
    reveal_strlit("f16");
    reveal_strlit("bf16");
    reveal_strlit("rms_norm_");
    reveal_strlit("rms_norm_f32");
    reveal_strlit("rms_norm_f16");
    reveal_strlit("rms_norm_bf16");
}

/// The kernel of `softmax_plan` is named for its work and its type.
pub proof fn softmax_is_named(batch: u32, hidden: u32, dtype: DType)
    ensures
        softmax_plan(batch, hidden, dtype) matches Ok(p) ==> named(p.launch.kernel, "softmax_"@, dtype),
{
    reveal_strlit("f32");
    reveal_strlit("f16");
    reveal_strlit("bf16");
    reveal_strlit("softmax_");
    reveal_strlit("softmax_f32");
    reveal_strlit("softmax_f16");
    reveal_strlit("softmax_bf16");
}

/// The kernel of `topk_plan` is named for its work and its type.
pub proof fn topk_is_named(batch: u32, vocab: u32, k: u32, dtype: DType)
    ensures
        topk_plan(batch, vocab, k, dtype) matches Ok(p) ==> named(p.launch.kernel, "topk_"@, dtype),
{
    reveal_strlit("f32");
    reveal_strlit("f16");
    reveal_strlit("bf16");
    reveal_strlit("topk_");
    reveal_strlit("topk_f32");
    reveal_strlit("topk_f16");
    reveal_strlit("topk_bf16");
}

/// The kernel of `prefix_sum_plan` is named for its work and its type.
pub proof fn prefix_sum_is_named(batch: u32, n: u32, inclusive: bool, dtype: DType)
    ensures
        prefix_sum_plan(batch, n, inclusive, dtype) matches Ok(p) ==> named(p.launch.kernel, "scan_sum_"@, dtype),
{
    reveal_strlit("f32");
    reveal_strlit("f16");
    reveal_strlit("bf16");
    reveal_strlit("scan_sum_");
    reveal_strlit("scan_sum_f32");
    reveal_strlit("scan_sum_f16");
    reveal_strlit("scan_sum_bf16");
}

/// The kernel of `ssd_plan` is named for its work and its type.
pub proof fn ssd_is_named(has_d_skip: bool, b: u32, l: u32, h: u32, p: u32, n_state: u32, dtype: DType)
    ensures
        ssd_plan(has_d_skip, b, l, h, p, n_state, dtype) matches Ok(p) ==> named(p.launch.kernel, "mamba2_ssd_"@, dtype),
{
    reveal_strlit("f32");
    reveal_strlit("f16");
    reveal_strlit("bf16");
    reveal_strlit("mamba2_ssd_");
    reveal_strlit("mamba2_ssd_f32");
    reveal_strlit("mamba2_ssd_f16");
    reveal_strlit("mamba2_ssd_bf16");
}

/// The kernel of `mamba_scan_plan` is named for its work and its type.
pub proof fn mamba_scan_is_named(has_d_skip: bool, b: u32, l: u32, d: u32, n_state: u32, dtype: DType)
    ensures
        mamba_scan_plan(has_d_skip, b, l, d, n_state, dtype) matches Ok(p) ==> named(p.launch.kernel, "mamba_scan_"@, dtype),
{
    reveal_strlit("f32");
    reveal_strlit("f16");
    reveal_strlit("bf16");
    reveal_strlit("mamba_scan_");
    reveal_strlit("mamba_scan_f32");
    reveal_strlit("mamba_scan_f16");
    reveal_strlit("mamba_scan_bf16");
}

/// Every activation has the kernel of its own name.
pub proof fn act_entry_is_named(dtype: DType)
    ensures
        serves(act_entry(Activation::Silu, dtype), "silu_act_"@, dtype),
        serves(act_entry(Activation::GeluExact, dtype), "gelu_exact_act_"@, dtype),
        serves(act_entry(Activation::GeluTanh, dtype), "gelu_tanh_act_"@, dtype),
        serves(act_entry(Activation::QuickGelu, dtype), "quick_gelu_act_"@, dtype),
        serves(act_entry(Activation::Softplus, dtype), "softplus_act_"@, dtype),
        serves(act_entry(Activation::Mish, dtype), "mish_act_"@, dtype),
        serves(act_entry(Activation::Softsign, dtype), "softsign_act_"@, dtype),
{
    reveal_strlit("f32");
    reveal_strlit("f16");
    reveal_strlit("bf16");
    reveal_strlit("silu_act_");
    reveal_strlit("silu_act_f32");
    reveal_strlit("silu_act_f16");
    reveal_strlit("silu_act_bf16");
    reveal_strlit("gelu_exact_act_");
    reveal_strlit("gelu_exact_act_f32");
    reveal_strlit("gelu_exact_act_f16");
    reveal_strlit("gelu_exact_act_bf16");
    reveal_strlit("gelu_tanh_act_");
    reveal_strlit("gelu_tanh_act_f32");
    reveal_strlit("gelu_tanh_act_f16");
    reveal_strlit("gelu_tanh_act_bf16");
    reveal_strlit("quick_gelu_act_");
    reveal_strlit("quick_gelu_act_f32");
    reveal_strlit("quick_gelu_act_f16");
    reveal_strlit("quick_gelu_act_bf16");
    reveal_strlit("softplus_act_");
    reveal_strlit("softplus_act_f32");
    reveal_strlit("softplus_act_f16");
    reveal_strlit("softplus_act_bf16");
    reveal_strlit("mish_act_");
    reveal_strlit("mish_act_f32");
    reveal_strlit("mish_act_f16");
    reveal_strlit("mish_act_bf16");
    reveal_strlit("softsign_act_");
    reveal_strlit("softsign_act_f32");
    reveal_strlit("softsign_act_f16");
    reveal_strlit("softsign_act_bf16");
}

/// Every activation of a sum has the kernel of its own name.
pub proof fn bias_entry_is_named(dtype: DType)
    ensures
        serves(bias_entry(BiasActivation::Silu, dtype), "bias_silu_"@, dtype),
        serves(bias_entry(BiasActivation::GeluTanh, dtype), "bias_gelu_tanh_"@, dtype),
        serves(bias_entry(BiasActivation::Relu, dtype), "bias_relu_"@, dtype),
{
    reveal_strlit("f32");
    reveal_strlit("f16");
    reveal_strlit("bf16");
    reveal_strlit("bias_silu_");
    reveal_strlit("bias_silu_f32");
    reveal_strlit("bias_silu_f16");
    reveal_strlit("bias_silu_bf16");
    reveal_strlit("bias_gelu_tanh_");
    reveal_strlit("bias_gelu_tanh_f32");
    reveal_strlit("bias_gelu_tanh_f16");
    reveal_strlit("bias_gelu_tanh_bf16");
    reveal_strlit("bias_relu_");
    reveal_strlit("bias_relu_f32");
    reveal_strlit("bias_relu_f16");
    reveal_strlit("bias_relu_bf16");
}

/// An append has the kernel for its type.
pub proof fn append_entry_is_named(dtype: DType)
    ensures
        serves(append_entry(dtype, false), "kv_append_slice_"@, dtype),
{
    reveal_strlit("f32");
    reveal_strlit("f16");
    reveal_strlit("bf16");
    reveal_strlit("kv_append_slice_");
    reveal_strlit("kv_append_slice_f32");
    reveal_strlit("kv_append_slice_f16");
    reveal_strlit("kv_append_slice_bf16");
}

/// A convolution by channels and its transpose each have their kernel.
pub proof fn dwconv_entry_is_named(dtype: DType)
    ensures
        serves(dwconv_entry(true, dtype), "dwconvt1d_"@, dtype),
        serves(dwconv_entry(false, dtype), "dwconv1d_"@, dtype),
{
    reveal_strlit("f32");
    reveal_strlit("f16");
    reveal_strlit("bf16");
    reveal_strlit("dwconvt1d_");
    reveal_strlit("dwconvt1d_f32");
    reveal_strlit("dwconvt1d_f16");
    reveal_strlit("dwconvt1d_bf16");
    reveal_strlit("dwconv1d_");
    reveal_strlit("dwconv1d_f32");
    reveal_strlit("dwconv1d_f16");
    reveal_strlit("dwconv1d_bf16");
}

/// An operation on two tensors has the kernel of the way it runs.
pub proof fn fast_entry_is_named(dtype: DType)
    ensures
        serves(fast_entry(BinaryShape::Flat, dtype), "binary_flat_"@, dtype),
        serves(fast_entry(BinaryShape::Row, dtype), "binary_rowb_"@, dtype),
        serves(fast_entry(BinaryShape::Column, dtype), "binary_colb_"@, dtype),
{
    reveal_strlit("f32");
    reveal_strlit("f16");
    reveal_strlit("bf16");
    reveal_strlit("binary_flat_");
    reveal_strlit("binary_flat_f32");
    reveal_strlit("binary_flat_f16");
    reveal_strlit("binary_flat_bf16");
    reveal_strlit("binary_rowb_");
    reveal_strlit("binary_rowb_f32");
    reveal_strlit("binary_rowb_f16");
    reveal_strlit("binary_rowb_bf16");
    reveal_strlit("binary_colb_");
    reveal_strlit("binary_colb_f32");
    reveal_strlit("binary_colb_f16");
    reveal_strlit("binary_colb_bf16");
}

/// A fused operation has the kernel of its own name.
pub proof fn ternary_entry_is_named(dtype: DType)
    ensures
        serves(ternary_entry(TernaryFusedKind::FmaFlat, dtype), "fma_flat_"@, dtype),
        serves(ternary_entry(TernaryFusedKind::FmaRowb, dtype), "fma_rowb_"@, dtype),
        serves(ternary_entry(TernaryFusedKind::ModRowb, dtype), "mod_rowb_"@, dtype),
{
    reveal_strlit("f32");
    reveal_strlit("f16");
    reveal_strlit("bf16");
    reveal_strlit("fma_flat_");
    reveal_strlit("fma_flat_f32");
    reveal_strlit("fma_flat_f16");
    reveal_strlit("fma_flat_bf16");
    reveal_strlit("fma_rowb_");
    reveal_strlit("fma_rowb_f32");
    reveal_strlit("fma_rowb_f16");
    reveal_strlit("fma_rowb_bf16");
    reveal_strlit("mod_rowb_");
    reveal_strlit("mod_rowb_f32");
    reveal_strlit("mod_rowb_f16");
    reveal_strlit("mod_rowb_bf16");
}

/// A rotation of a part of the values has the kernel for its type.
pub proof fn partial_entry_is_named(dtype: DType)
    ensures
        serves(partial_entry(dtype), "rope_apply_partial_"@, dtype),
{
    reveal_strlit("f32");
    reveal_strlit("f16");
    reveal_strlit("bf16");
    reveal_strlit("rope_apply_partial_");
    reveal_strlit("rope_apply_partial_f32");
    reveal_strlit("rope_apply_partial_f16");
    reveal_strlit("rope_apply_partial_bf16");
}

/// A norm of a sum that is kept has the kernel for its type.
pub proof fn split_entry_is_named(dtype: DType)
    ensures
        serves(split_entry(dtype), "rmsnorm_residual_split_"@, dtype),
{
    reveal_strlit("f32");
    reveal_strlit("f16");
    reveal_strlit("bf16");
    reveal_strlit("rmsnorm_residual_split_");
    reveal_strlit("rmsnorm_residual_split_f32");
    reveal_strlit("rmsnorm_residual_split_f16");
    reveal_strlit("rmsnorm_residual_split_bf16");
}

/// A norm of groups has the kernel of the order of its axes.
pub proof fn group_norm_entry_is_named(dtype: DType)
    ensures
        serves(groupnorm::entry(dtype, true), "group_norm_nhwc_"@, dtype),
        serves(groupnorm::entry(dtype, false), "group_norm_"@, dtype),
{
    reveal_strlit("f32");
    reveal_strlit("f16");
    reveal_strlit("bf16");
    reveal_strlit("group_norm_nhwc_");
    reveal_strlit("group_norm_nhwc_f32");
    reveal_strlit("group_norm_nhwc_f16");
    reveal_strlit("group_norm_nhwc_bf16");
    reveal_strlit("group_norm_");
    reveal_strlit("group_norm_f32");
    reveal_strlit("group_norm_f16");
    reveal_strlit("group_norm_bf16");
}

/// The place of the greatest has a kernel of its own, and all other reductions share one.
pub proof fn reduce_entry_is_named(op: ReduceOp, dtype: DType)
    ensures
        op == ReduceOp::ArgMax ==> serves(reduce_entry(op, dtype), "argmax_"@, dtype),
        op != ReduceOp::ArgMax ==> serves(reduce_entry(op, dtype), "reduce_"@, dtype),
{
    reveal_strlit("f32");
    reveal_strlit("f16");
    reveal_strlit("bf16");
    reveal_strlit("argmax_");
    reveal_strlit("argmax_f32");
    reveal_strlit("argmax_f16");
    reveal_strlit("argmax_bf16");
    reveal_strlit("reduce_");
    reveal_strlit("reduce_f32");
    reveal_strlit("reduce_f16");
    reveal_strlit("reduce_bf16");
}

/// A change of type has the kernel that is named for both types, first the one it starts from; a flat one
/// exists exactly between two different types of plain floats, and then so does the other.
pub proof fn cast_entries_are_named(from: DType, to: DType)
    ensures
        cast_flat_entry(from, to) matches Some(name) ==> name@ =~= "cast_flat_"@ + written(from) + "_"@
            + written(to),
        cast_entry(from, to) matches Some(name) ==> name@ =~= "cast_"@ + written(from) + "_"@ + written(to),
        cast_flat_entry(from, to) is Some <==> {
            &&& from == DType::F32 || from == DType::F16 || from == DType::BF16
            &&& to == DType::F32 || to == DType::F16 || to == DType::BF16
            &&& from != to
        },
        cast_flat_entry(from, to) is Some ==> cast_entry(from, to) is Some,
        cast_entry(from, to) is Some <==> cast_entry(to, from) is Some,
{
    reveal_strlit("f32");
    reveal_strlit("f16");
    reveal_strlit("bf16");
    reveal_strlit("f64");
    reveal_strlit("u32");
    reveal_strlit("i64");
    reveal_strlit("_");
    reveal_strlit("cast_");
    reveal_strlit("cast_flat_");
    reveal_strlit("cast_flat_f16_bf16");
    reveal_strlit("cast_flat_bf16_f16");
    reveal_strlit("cast_flat_f32_bf16");
    reveal_strlit("cast_flat_bf16_f32");
    reveal_strlit("cast_flat_f32_f16");
    reveal_strlit("cast_flat_f16_f32");
    reveal_strlit("cast_f32_f16");
    reveal_strlit("cast_f32_bf16");
    reveal_strlit("cast_f32_f64");
    reveal_strlit("cast_f32_u32");
    reveal_strlit("cast_f16_f32");
    reveal_strlit("cast_f16_bf16");
    reveal_strlit("cast_bf16_f32");
    reveal_strlit("cast_bf16_f16");
    reveal_strlit("cast_f64_f32");
    reveal_strlit("cast_u32_f32");
    reveal_strlit("cast_u32_i64");
    reveal_strlit("cast_i64_u32");
}

/// A norm to few bits has the kernel of its norm, its format and its type.
pub proof fn norm_to_few_bits_is_named(kind: NormQuantKind, mxfp8: bool, dtype: DType)
    requires
        dtype == DType::F16 || dtype == DType::BF16,
    ensures
        quant_entry(kind, mxfp8, dtype)@ =~= (match kind {
            NormQuantKind::RmsMod => "rms_mod_quant_"@,
            NormQuantKind::LnMod => "ln_mod_quant_"@,
            NormQuantKind::RmsW { .. } => "rms_w_quant_"@,
        }) + (if mxfp8 {
            "mxfp8_"@
        } else {
            "nvfp4_"@
        }) + written(dtype),
{
    reveal_strlit("f16");
    reveal_strlit("bf16");
    reveal_strlit("nvfp4_");
    reveal_strlit("mxfp8_");
    reveal_strlit("rms_mod_quant_");
    reveal_strlit("ln_mod_quant_");
    reveal_strlit("rms_w_quant_");
    reveal_strlit("rms_mod_quant_nvfp4_f16");
    reveal_strlit("rms_mod_quant_nvfp4_bf16");
    reveal_strlit("rms_mod_quant_mxfp8_f16");
    reveal_strlit("rms_mod_quant_mxfp8_bf16");
    reveal_strlit("ln_mod_quant_nvfp4_f16");
    reveal_strlit("ln_mod_quant_nvfp4_bf16");
    reveal_strlit("ln_mod_quant_mxfp8_f16");
    reveal_strlit("ln_mod_quant_mxfp8_bf16");
    reveal_strlit("rms_w_quant_nvfp4_f16");
    reveal_strlit("rms_w_quant_nvfp4_bf16");
    reveal_strlit("rms_w_quant_mxfp8_f16");
    reveal_strlit("rms_w_quant_mxfp8_bf16");
}

/// An append of a count on the device has the kernel for its type with `_dev` behind.
pub proof fn append_of_a_count_is_named(dtype: DType)
    ensures
        append_entry(dtype, true) is Some <==> append_entry(dtype, false) is Some,
        append_entry(dtype, true) matches Some(name) ==> name@ =~= append_entry(dtype, false)->0@ + "_dev"@,
{
    reveal_strlit("_dev");
    reveal_strlit("kv_append_slice_f32");
    reveal_strlit("kv_append_slice_f16");
    reveal_strlit("kv_append_slice_bf16");
    reveal_strlit("kv_append_slice_f32_dev");
    reveal_strlit("kv_append_slice_f16_dev");
    reveal_strlit("kv_append_slice_bf16_dev");
}

/// The kernel of a look-up is named for its work and its type.
pub proof fn embed_is_named(n_ids: u32, dim: u32, vocab: u32, dtype: DType)
    requires
        dtype == DType::F32 || dtype == DType::F16 || dtype == DType::BF16,
    ensures
        named(embed_plan(n_ids, dim, vocab, dtype).launch.kernel, "embed_gather_"@, dtype),
{
    reveal_strlit("f32");
    reveal_strlit("f16");
    reveal_strlit("bf16");
    reveal_strlit("embed_gather_");
    reveal_strlit("embed_gather_f32");
    reveal_strlit("embed_gather_f16");
    reveal_strlit("embed_gather_bf16");
}

/// The kernel of a norm of rows is named for its work and its type.
pub proof fn layer_norm_is_named(batch: u32, hidden: u32, has_beta: bool, dtype: DType)
    requires
        dtype == DType::F32 || dtype == DType::F16 || dtype == DType::BF16,
    ensures
        named(layer_norm(batch, hidden, has_beta, dtype).launch.kernel, "layernorm_"@, dtype),
{
    reveal_strlit("f32");
    reveal_strlit("f16");
    reveal_strlit("bf16");
    reveal_strlit("layernorm_");
    reveal_strlit("layernorm_f32");
    reveal_strlit("layernorm_f16");
    reveal_strlit("layernorm_bf16");
}

} // verus!
