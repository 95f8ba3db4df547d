use synaptix_kernels_cuda::dtype::DType;
use synaptix_kernels_cuda::embed::{
    embed_gather, embed_gather_bf16, embed_gather_f16, embed_gather_f32, embed_gather_u8,
};
use synaptix_kernels_cuda::error::KernelError;
use synaptix_kernels_cuda::fused::attn_rope::fused_qkv_rope_f16;
use synaptix_kernels_cuda::fused::cross_entropy;
use synaptix_kernels_cuda::fused::geglu::nvfp4_geglu_shuf_f16;
use synaptix_kernels_cuda::fused::geglu_split::run_geglu_split_u8;
use synaptix_kernels_cuda::fused::layernorm_residual::{
    layernorm_residual, layernorm_residual_bf16, layernorm_residual_f16, layernorm_residual_f32,
};
use synaptix_kernels_cuda::fused::llm_decode::{
    attn_prep, attn_tail, ffn_tail, geglu_quant_nvfp4, Nvfp4Out, TopkArgs, ROW_MAX_H,
};
use synaptix_kernels_cuda::fused::moe_dispatch::{
    moe_gather, moe_gather_bf16, moe_gather_f16, moe_gather_f32, moe_scatter, moe_scatter_bf16,
    moe_scatter_f16, moe_scatter_f32,
};
use synaptix_kernels_cuda::fused::qkv_proj::nvfp4_qkv_proj_shuf_f16;
use synaptix_kernels_cuda::fused::rms_mod_quant::{run_rms_mod_quant_u8, NormQuantKind};
use synaptix_kernels_cuda::fused::rmsnorm_residual;
use synaptix_kernels_cuda::fused::silu_and_mul::{
    silu_and_mul_bf16, silu_and_mul_f16, silu_and_mul_f32,
};
use synaptix_kernels_cuda::launch::Span;
use synaptix_kernels_cuda::reduction::rmsnorm::RmsVariant;

#[test]
fn qkv_projection_widths() {
    let p = nvfp4_qkv_proj_shuf_f16(4096, 1024, 1024, 4096).unwrap();
    assert_eq!(p.launch.kernel, "nvfp4_qkv_proj_shuf_f16_w8");
    assert_eq!((p.launch.grid, p.launch.block, p.launch.shared_mem_bytes), ((32, 1, 1), (256, 1, 1), 2048));
    assert_eq!(p.sf_inner_dim, 256);
    assert_eq!((p.n_q, p.n_k, p.n_v, p.k), (4096, 1024, 1024, 4096));
    let p = nvfp4_qkv_proj_shuf_f16(64, 192, 128, 64).unwrap();
    assert_eq!(p.launch.kernel, "nvfp4_qkv_proj_shuf_f16_w4");
    assert_eq!((p.launch.grid, p.launch.block), ((3, 1, 1), (128, 1, 1)));
    let e = nvfp4_qkv_proj_shuf_f16(128, 128, 128, 96);
    assert_eq!(e, Err(KernelError::Cuda1("nvfp4_qkv_proj_shuf_f16: K={} must be multiple of 64", 96)));
    let e = nvfp4_qkv_proj_shuf_f16(0, 128, 128, 64);
    assert_eq!(e, Err(KernelError::Cuda1("nvfp4_qkv_proj_shuf_f16: N_q={} must be positive and multiple of 16", 0)));
    let e = nvfp4_qkv_proj_shuf_f16(128, 8, 128, 64);
    assert_eq!(e, Err(KernelError::Cuda1("nvfp4_qkv_proj_shuf_f16: N_k={} must be positive and multiple of 16", 8)));
    let e = nvfp4_qkv_proj_shuf_f16(128, 128, 24, 64);
    assert_eq!(e, Err(KernelError::Cuda1("nvfp4_qkv_proj_shuf_f16: N_v={} must be positive and multiple of 16", 24)));
    let e = nvfp4_qkv_proj_shuf_f16(128, 128, 48, 64);
    assert!(matches!(e, Err(KernelError::Cuda3(_, 128, 128, 48))));
}

#[test]
fn gated_projection_widths() {
    let p = nvfp4_geglu_shuf_f16(256, 128).unwrap();
    assert_eq!((p.launch.kernel, p.launch.grid, p.launch.block), ("nvfp4_geglu_shuf_f16_w8", (2, 1, 1), (256, 1, 1)));
    assert_eq!((p.n, p.k), (256, 128));
    let p = nvfp4_geglu_shuf_f16(192, 128).unwrap();
    assert_eq!((p.launch.kernel, p.launch.grid, p.launch.block), ("nvfp4_geglu_shuf_f16_w4", (3, 1, 1), (128, 1, 1)));
    assert_eq!(p.launch.grid.0 * p.launch.block.0, 2 * 192);
    assert!(matches!(nvfp4_geglu_shuf_f16(128, 65), Err(KernelError::Cuda1(_, 65))));
    assert!(matches!(nvfp4_geglu_shuf_f16(0, 64), Err(KernelError::Cuda1(_, 0))));
    assert!(matches!(nvfp4_geglu_shuf_f16(48, 64), Err(KernelError::Cuda1(_, 48))));
}

#[test]
fn projection_then_rotation() {
    let p = fused_qkv_rope_f16(32, 8, 128, 64, 4096).unwrap();
    assert_eq!(p.qkv.launch.grid, (32, 1, 1));
    let (q, k) = (p.rope_q.unwrap(), p.rope_k.unwrap());
    let l = q.launch;
    assert_eq!((l.kernel, l.grid, l.block), ("rope_apply_partial_f16", (32, 1, 1), (128, 1, 1)));
    assert_eq!((q.args, k.args, k.launch.grid), ((1, 32, 1, 128, 64), (1, 8, 1, 128, 64), (8, 1, 1)));
    let late = fused_qkv_rope_f16(32, 8, 128, 63, 4096).unwrap();
    assert!(late.rope_q.is_err() && late.rope_k.is_err());
    assert!(fused_qkv_rope_f16(32, 8, 128, 64, 100).is_err());
}

#[test]
fn residual_norms() {
    let p = layernorm_residual(7, 512, true, DType::F16).unwrap().unwrap();
    assert_eq!((p.launch.kernel, p.launch.grid, p.has_beta, p.batch, p.hidden), ("layernorm_residual_f16", (7, 1, 1), 1, 7, 512));
    assert_eq!(layernorm_residual(7, 512, false, DType::F32).unwrap().unwrap().has_beta, 0);
    assert_eq!(layernorm_residual(0, 512, false, DType::U8), Ok(None));
    assert!(matches!(layernorm_residual(1, 1, false, DType::U8), Err(KernelError::CudaDType(_, DType::U8))));
    let p = rmsnorm_residual::run(0, 64, RmsVariant::Qwen, DType::BF16).unwrap();
    assert_eq!((p.launch.kernel, p.launch.grid, p.launch.block, p.qwen), ("rmsnorm_residual_bf16", (1, 1, 1), (256, 1, 1), 1));
    assert!(rmsnorm_residual::run(1, 64, RmsVariant::Plain, DType::I64).is_err());
    let p = rmsnorm_residual::run_split(1, 700, RmsVariant::Plain, DType::F32).unwrap();
    assert_eq!((p.launch.kernel, p.launch.block), ("rmsnorm_residual_split_f32", (704, 1, 1)));
    assert_eq!(rmsnorm_residual::run_split(9, 700, RmsVariant::Plain, DType::F32).unwrap().launch.block, (256, 1, 1));
    assert!(rmsnorm_residual::run_split(1, 8, RmsVariant::Plain, DType::U8).is_err());
    let p = rmsnorm_residual::run_split_u8(2, 8, RmsVariant::Plain, DType::F32).unwrap().unwrap();
    assert_eq!((p.x, p.w), (Span { start: 0, end: 64 }, Span { start: 0, end: 32 }));
    assert_eq!((p.residual, p.hidden_out, p.y), (p.x, p.x, p.x));
    assert_eq!(rmsnorm_residual::run_split_u8(0, 8, RmsVariant::Plain, DType::U8), Ok(None));
    let e = rmsnorm_residual::run_split_u8(1, 8, RmsVariant::Plain, DType::U8);
    assert_eq!(e, Err(KernelError::Unsupported("rmsnorm_residual_split_u8: dtype")));
}

#[test]
fn rows_to_experts_and_back() {
    let p = moe_scatter(10, 100, DType::F32).unwrap().unwrap();
    assert_eq!((p.launch.kernel, p.launch.grid, p.n, p.d), ("moe_scatter_f32", (4, 1, 1), 10, 100));
    assert_eq!(moe_gather(10, 100, DType::BF16).unwrap().unwrap().launch.kernel, "moe_gather_bf16");
    assert_eq!(moe_scatter(0, 100, DType::F16), Ok(None));
    assert!(moe_scatter(0, 100, DType::U8).is_err());
    assert!(moe_gather(1, 1, DType::U8).is_err());
}

#[test]
fn gated_rows() {
    let p = run_geglu_split_u8(8, 16, 3, 100, DType::F16).unwrap().unwrap();
    assert_eq!((p.launch.grid, p.t, p.inner), ((2, 1, 1), 3, 100));
    assert_eq!((p.input, p.out), (Span { start: 8, end: 1208 }, Span { start: 16, end: 616 }));
    assert_eq!(run_geglu_split_u8(0, 0, 1 << 20, 256, DType::F32).unwrap().unwrap().launch.grid, (65535, 1, 1));
    assert_eq!(run_geglu_split_u8(0, 0, 0, 256, DType::U8), Ok(None));
    assert!(run_geglu_split_u8(0, 0, 1, 1, DType::U8).is_err());
    assert_eq!((silu_and_mul_f32(257).launch.grid, silu_and_mul_f32(257).args), ((2, 1, 1), 257));
    assert_eq!(silu_and_mul_f16(256).launch.kernel, "silu_and_mul_f16");
    assert_eq!(silu_and_mul_bf16(0).launch.grid, (0, 1, 1));
}

#[test]
fn losses() {
    let c = cross_entropy::run(12, 32000, -100, DType::F16).unwrap();
    assert_eq!((c.launch.grid, c.args), ((12, 1, 1), (12, 32000, -100)));
    assert_eq!(cross_entropy::run(0, 7, 0, DType::F32).unwrap().launch.grid, (1, 1, 1));
    assert!(cross_entropy::run(1, 7, 0, DType::F64).is_err());
}

#[test]
fn norms_with_quantisation() {
    let p = run_rms_mod_quant_u8(4, 8, 12, 5, 64, DType::BF16, NormQuantKind::RmsMod, 1, false).unwrap().unwrap();
    assert_eq!(p.launch.kernel, "rms_mod_quant_nvfp4_bf16");
    assert_eq!((p.launch.grid, p.launch.block, p.launch.shared_mem_bytes), ((128, 1, 1), (256, 1, 1), 128));
    assert_eq!((p.params.batch, p.params.batch_cov, p.params.hidden, p.params.sf_inner_dim), (5, 128, 64, 4));
    assert_eq!((p.x, p.scale, p.shift, p.y), (Span { start: 4, end: 644 }, Span { start: 8, end: 648 }, Span { start: 12, end: 652 }, Span { start: 0, end: 640 }));
    assert_eq!(p.extra, None);
    let p = run_rms_mod_quant_u8(0, 0, 0, 4, 512, DType::F16, NormQuantKind::RmsW { qwen: true }, 0, true).unwrap().unwrap();
    assert_eq!((p.launch.kernel, p.launch.grid, p.launch.block), ("rms_w_quant_mxfp8_f16", (4, 1, 1), (512, 1, 1)));
    assert_eq!((p.extra, p.scale), (Some(1), Span { start: 0, end: 1024 }));
    let p = run_rms_mod_quant_u8(0, 0, 0, 4, 512, DType::F16, NormQuantKind::LnMod, 2, true).unwrap().unwrap();
    assert_eq!((p.launch.kernel, p.launch.block, p.extra), ("ln_mod_quant_mxfp8_f16", (256, 1, 1), Some(2)));
    assert_eq!(p.shift, Span { start: 0, end: 2048 });
    let e = run_rms_mod_quant_u8(0, 0, 0, 1, 48, DType::F16, NormQuantKind::LnMod, 1, true);
    assert_eq!(e, Err(KernelError::Unsupported("rms_mod_quant: K%32 != 0 (mxfp8)")));
    let e = run_rms_mod_quant_u8(0, 0, 0, 1, 24, DType::F16, NormQuantKind::LnMod, 1, false);
    assert_eq!(e, Err(KernelError::Unsupported("rms_mod_quant: K%16 != 0")));
    let e = run_rms_mod_quant_u8(0, 0, 0, 1, 32, DType::F32, NormQuantKind::LnMod, 1, false);
    assert_eq!(e, Err(KernelError::CudaDType("rms_mod_quant: dtype {} не поддержан", DType::F32)));
    assert_eq!(run_rms_mod_quant_u8(0, 0, 0, 0, 7, DType::U8, NormQuantKind::LnMod, 0, false), Ok(None));
}

#[test]
fn decoder_step_stages() {
    let a = attn_tail(2048).unwrap();
    assert_eq!((a.launch.kernel, a.launch.grid, a.launch.block, a.launch.shared_mem_bytes), ("dec_attn_tail_bf16", (1, 1, 1), (512, 1, 1), 8192));
    assert_eq!((a.h, a.sf_inner), (2048, 128));
    assert_eq!(attn_tail(16).unwrap().launch.block, (128, 1, 1));
    assert_eq!(attn_tail(17), Err(KernelError::Cuda1("attn_tail: H={} кратно 16", 17)));
    assert_eq!(attn_tail(ROW_MAX_H + 16), Err(KernelError::Cuda1("attn_tail: H={} > 4096", 4112)));
    assert_eq!(ffn_tail(4096).unwrap().launch.block, (1024, 1, 1));
    assert_eq!(ffn_tail(48), Err(KernelError::Cuda1("ffn_tail: H={} кратно 32", 48)));
    assert_eq!(ffn_tail(8192), Err(KernelError::Cuda1("ffn_tail: H={} > 4096", 8192)));
    let none = TopkArgs::default();
    let g = geglu_quant_nvfp4(true, 5, 8, 256, none).unwrap().unwrap();
    assert_eq!((g.launch.kernel, g.launch.grid, g.launch.block), ("dec_geglu_quant_nvfp4_bf16", (4, 1, 1), (128, 1, 1)));
    assert_eq!((g.stride, g.rows, g.inter, g.sf_inner), (5, 8, 256, 16));
    let chosen = TopkArgs { e: 64, k: 8, h: 7, ..none };
    let g = geglu_quant_nvfp4(false, 5, 8, 256, chosen).unwrap().unwrap();
    assert_eq!((g.launch.kernel, g.launch.grid, g.e, g.k, g.h), ("dec_geglu_quant_nvfp4_f16", (5, 1, 1), 64, 8, 7));
    assert_eq!(geglu_quant_nvfp4(false, 5, 0, 256, none), Ok(None));
    assert!(matches!(geglu_quant_nvfp4(false, 5, 1, 8, none), Err(KernelError::Cuda1(_, 8))));
    assert!(matches!(geglu_quant_nvfp4(false, 5, 1, 16, TopkArgs { e: 1025, ..none }), Err(KernelError::Cuda2(_, 1025, 0))));
    assert!(matches!(geglu_quant_nvfp4(false, 5, 1, 16, TopkArgs { k: 33, ..none }), Err(KernelError::Cuda2(_, 0, 33))));
    let p = attn_prep(true, 64, 4096, 16, 2, 128).unwrap();
    assert_eq!((p.launch.grid, p.launch.block, p.launch.shared_mem_bytes, p.v_norm), ((20, 1, 1), (128, 1, 1), 512, 1));
    assert!(attn_prep(true, 64, 4096, 16, 2, 0).is_err());
    assert!(attn_prep(true, 64, 4096, 16, 2, 1056).is_err());
    assert!(attn_prep(true, 64, 4096, 16, 2, 100).is_err());
    assert_eq!(Nvfp4Out::default(), Nvfp4Out { w: 0, packed: 0, scales: 0 });
}

#[test]
fn rows_by_token() {
    let p = embed_gather(5, 100, 32000, DType::F16).unwrap().unwrap();
    assert_eq!((p.launch.kernel, p.launch.grid, p.n_ids, p.dim, p.vocab), ("embed_gather_f16", (2, 1, 1), 5, 100, 32000));
    assert_eq!(embed_gather(0, 100, 1, DType::U8), Ok(None));
    assert_eq!(embed_gather(1, 1, 1, DType::U8), Err(KernelError::CudaDType("embed: unsupported dtype {}", DType::U8)));
    let p = embed_gather_u8(16, 32, 5, 100, 7, DType::F32).unwrap().unwrap();
    assert_eq!((p.table, p.out), (Span { start: 16, end: 2816 }, Span { start: 32, end: 2032 }));
    for t in 0..5usize {
        assert!(32 + (t + 1) * 100 * 4 <= p.out.end);
    }
    assert_eq!(embed_gather_u8(0, 0, 1, 0, 1, DType::U8), Ok(None));
    assert!(embed_gather_u8(0, 0, 1, 1, 1, DType::U8).is_err());
}

#[test]
fn rows_by_element_type() {
    assert_eq!(embed_gather_f32(5, 6, 7), embed_gather(5, 6, 7, DType::F32));
    assert_eq!(embed_gather_f16(5, 6, 7), embed_gather(5, 6, 7, DType::F16));
    assert_eq!(embed_gather_bf16(0, 6, 7), embed_gather(0, 6, 7, DType::BF16));
    assert_eq!(layernorm_residual_f32(5, 6, true), layernorm_residual(5, 6, true, DType::F32));
    assert_eq!(layernorm_residual_f16(5, 6, true), layernorm_residual(5, 6, true, DType::F16));
    assert_eq!(layernorm_residual_bf16(5, 6, true), layernorm_residual(5, 6, true, DType::BF16));
    assert_eq!(moe_scatter_f32(5, 6), moe_scatter(5, 6, DType::F32));
    assert_eq!(moe_scatter_f16(5, 6), moe_scatter(5, 6, DType::F16));
    assert_eq!(moe_scatter_bf16(5, 6), moe_scatter(5, 6, DType::BF16));
    assert_eq!(moe_gather_f32(5, 6), moe_gather(5, 6, DType::F32));
    assert_eq!(moe_gather_f16(5, 6), moe_gather(5, 6, DType::F16));
    assert_eq!(moe_gather_bf16(5, 6), moe_gather(5, 6, DType::BF16));
    assert_eq!(cross_entropy::run_f32(5, 9, -1), cross_entropy::run(5, 9, -1, DType::F32));
    assert_eq!(cross_entropy::run_f16(5, 9, -1), cross_entropy::run(5, 9, -1, DType::F16));
    assert_eq!(cross_entropy::run_bf16(5, 9, -1), cross_entropy::run(5, 9, -1, DType::BF16));
    let q = RmsVariant::Qwen;
    assert_eq!(rmsnorm_residual::run_f32(5, 6, q), rmsnorm_residual::run(5, 6, q, DType::F32));
    assert_eq!(rmsnorm_residual::run_f16(5, 6, q), rmsnorm_residual::run(5, 6, q, DType::F16));
    assert_eq!(rmsnorm_residual::run_bf16(5, 6, q), rmsnorm_residual::run(5, 6, q, DType::BF16));
}
