use synaptix_kernels_cuda::dtype::{DType, GgmlType};
use synaptix_kernels_cuda::elementwise::activations::{
    grid_for, run, run_bf16, run_bias_act, run_f16, run_f32, run_snake_u8, run_swish_beta, Activation, BiasActivation,
};
use synaptix_kernels_cuda::elementwise::blockq::{
    blockq_dequant, blockq_dequant_band_syn, blockq_dequant_raw, blockq_gather_dequant, blockq_gemv,
    blockq_gemv_batched, entry_suffix, gemv_module_source, module_source, row_bytes,
};
use synaptix_kernels_cuda::elementwise::blockq_entries::entries;
use synaptix_kernels_cuda::elementwise::kv_append::{
    append_bf16, append_bf16_dev, append_f16, append_f16_dev, append_f32, append_f32_dev, append_u8,
    append_u8_dev, n_grid, n_h2_grid,
};
use synaptix_kernels_cuda::elementwise::logit_cap::{logit_cap, logit_cap_bf16, logit_cap_f16, logit_cap_f32};
use synaptix_kernels_cuda::elementwise::mxfp8_kv::{quant_append_mxfp8_u8, quant_append_mxfp8_u8_dev};
use synaptix_kernels_cuda::elementwise::quant::{
    mxfp8_dequant_f16, mxfp8_quant_natural, nvfp4_dequant_f16, nvfp4_scale_buffer_size, quantize_f16_to_nvfp4,
    quantize_f16_to_nvfp4_view, set_mxfp8_quant_fast4, set_mxfp8_quant_slow, set_nvfp4_quant_slow,
    sf_inner_dim, silu_mul_quantize_nvfp4_u8, Nvfp4QuantPlan, QuantSwitches,
};
use synaptix_kernels_cuda::elementwise::rope::{
    apply_partial, apply_partial_bf16, apply_partial_f16, apply_partial_f32, apply_partial_u8_dev, run_rope_interleaved_u8, run_rope_split_partial_u8,
    run_rope_split_u8, RopeOffsets,
};
use synaptix_kernels_cuda::elementwise::sq_quant::sq_quant;
use synaptix_kernels_cuda::error::KernelError;
use synaptix_kernels_cuda::launch::Span;

fn bytes(start: usize, end: usize) -> Span {
    Span { start, end }
}

#[test]
fn scale_buffer_bytes() {
    assert_eq!(nvfp4_scale_buffer_size(1, 16), 512);
    assert_eq!(nvfp4_scale_buffer_size(128, 64), 512);
    assert_eq!(nvfp4_scale_buffer_size(129, 65), 2048);
    assert_eq!(nvfp4_scale_buffer_size(0, 64), 0);
    for (outer, inner) in [(1, 16), (5, 4096), (130, 48), (1000, 80)] {
        assert!(nvfp4_scale_buffer_size(outer, inner) >= outer * (inner / 16));
        let tile = outer.div_ceil(128) * 128;
        assert_eq!(nvfp4_scale_buffer_size(tile, inner), nvfp4_scale_buffer_size(outer, inner));
    }
    assert_eq!((sf_inner_dim(64), sf_inner_dim(80), sf_inner_dim(0)), (4, 8, 0));
}

#[test]
fn four_bit_quantisation() {
    let mut s = QuantSwitches::default();
    match quantize_f16_to_nvfp4_view(&s, 256, 5, 64).unwrap() {
        Nvfp4QuantPlan::Fast { launch, outer_dim, inner_dim, sf_inner_dim, outer_cov } => {
            assert_eq!((outer_dim, inner_dim), (5, 64));
            assert_eq!((launch.kernel, launch.grid, launch.block), ("quantize_f16_to_nvfp4_fast", (2, 1, 1), (256, 1, 1)));
            assert_eq!((sf_inner_dim, outer_cov), (4, 128));
            assert!(launch.grid.0 * 256 >= outer_cov * 4);
        }
        _ => panic!("slow"),
    }
    match quantize_f16_to_nvfp4_view(&s, 8, 70_000, 32).unwrap() {
        Nvfp4QuantPlan::Slow { outer_dim, inner_dim, sf_inner_dim, chunks } => {
            assert_eq!((outer_dim, inner_dim), (70_000, 32));
            assert_eq!((sf_inner_dim, chunks.len()), (4, 3));
            let rows: Vec<(u32, u32)> = chunks.iter().map(|c| (c.outer_offset, c.launch.grid.1)).collect();
            assert_eq!(rows, vec![(0, 32768), (32768, 32768), (65536, 4464)]);
            let l = chunks[0].launch;
            assert_eq!((l.kernel, l.grid.0, l.block, l.shared_mem_bytes), ("quantize_f16_to_nvfp4", 2, (16, 1, 1), 80));
            for row in [0, 32767, 32768, 65535, 69_999] {
                let owners = rows.iter().filter(|(o, n)| *o <= row && row < o + n).count();
                assert_eq!(owners, 1);
            }
        }
        _ => panic!("fast"),
    }
    set_nvfp4_quant_slow(&mut s, true);
    assert!(matches!(quantize_f16_to_nvfp4(&s, 0, 1, 16), Ok(Nvfp4QuantPlan::Slow { .. })));
    set_nvfp4_quant_slow(&mut s, false);
    assert!(matches!(quantize_f16_to_nvfp4(&s, 0, 1, 16), Ok(Nvfp4QuantPlan::Fast { .. })));
    let e = quantize_f16_to_nvfp4_view(&s, 0, 1, 20);
    assert_eq!(e, Err(KernelError::Cuda1("quantize_f16_to_nvfp4: inner_dim={} must be multiple of 16", 20)));
    let d = nvfp4_dequant_f16(40_000, 32).unwrap();
    assert_eq!((d.outer_dim, d.inner_dim), (40_000, 32));
    assert_eq!((d.sf_inner_dim, d.chunks.len(), d.chunks[1].launch.shared_mem_bytes), (4, 2, 0));
    assert_eq!((d.chunks[1].outer_offset, d.chunks[1].launch.grid), (32768, (2, 7232, 1)));
    assert!(nvfp4_dequant_f16(1, 8).is_err());
    assert_eq!(nvfp4_dequant_f16(0, 16).unwrap().chunks.len(), 0);
}

#[test]
fn gated_quantisation() {
    let p = silu_mul_quantize_nvfp4_u8(8, 3, 32).unwrap();
    assert_eq!((p.launch.kernel, p.launch.grid), ("silu_mul_quantize_nvfp4_fast", (1, 1, 1)));
    assert_eq!((p.outer_dim, p.inner_dim), (3, 32));
    assert_eq!((p.x, p.sf_inner_dim, p.outer_cov), (bytes(8, 392), 4, 128));
    let e = silu_mul_quantize_nvfp4_u8(0, 3, 31);
    assert_eq!(e, Err(KernelError::Cuda1("silu_mul_quantize_nvfp4: inner_dim={} must be multiple of 16", 31)));
}

#[test]
fn eight_bit_quantisation() {
    let mut s = QuantSwitches::default();
    let q = |s: &QuantSwitches, p| {
        let r = mxfp8_quant_natural(s, p, 100, 320);
        (r.launch.kernel, r.launch.grid.0, r.rows, r.k)
    };
    assert_eq!(q(&s, 16), ("mxfp8_quant_natural_fast4", 16, 100, 320));
    assert_eq!(q(&s, 8), ("mxfp8_quant_natural", 4, 100, 320));
    set_mxfp8_quant_fast4(&mut s, false);
    assert_eq!(q(&s, 16), ("mxfp8_quant_natural_fast", 4, 100, 320));
    set_mxfp8_quant_fast4(&mut s, true);
    set_mxfp8_quant_slow(&mut s, true);
    assert_eq!(q(&s, 16), ("mxfp8_quant_natural", 4, 100, 320));
    let d = mxfp8_dequant_f16(3, 100);
    assert_eq!((d.launch.kernel, d.launch.grid.0, d.rows, d.k), ("mxfp8_dequant_f16", 2, 3, 100));
}

#[test]
fn cache_appends() {
    assert_eq!((n_grid(2, 3, 4, 64), n_h2_grid(2, 3, 4, 64), n_grid(0, 1, 1, 1)), (12, 6, 0));
    let p = append_u8(8, 16, 2, 3, 4, 64, 100, 5, DType::F16).unwrap();
    assert_eq!((p.launch.kernel, p.launch.grid, p.launch.block), ("kv_append_slice_f16", (6, 1, 1), (128, 1, 1)));
    assert_eq!((p.src, p.dst), (bytes(8, 3080), bytes(16, 76816)));
    assert_eq!((p.args, p.seq_pos), ((2, 3, 4, 64, 100), Some(5)));
    let p = append_u8(0, 0, 1, 1, 1, 63, 10, 5, DType::F32).unwrap();
    assert_eq!((p.launch.kernel, p.launch.grid), ("kv_append_slice_f32", (1, 1, 1)));
    let p = append_u8_dev(0, 0, 1, 1, 1, 64, 10, DType::BF16).unwrap();
    assert_eq!((p.launch.kernel, p.launch.grid), ("kv_append_slice_bf16_dev", (1, 1, 1)));
    assert_eq!(p.seq_pos, None);
    assert_eq!(append_u8(0, 0, 1, 1, 1, 63, 10, 5, DType::F16), Err(KernelError::Cuda1("kv_append u8: hd={} must be even", 63)));
    assert_eq!(append_u8_dev(0, 0, 1, 1, 1, 63, 10, DType::F16), Err(KernelError::Cuda1("kv_append u8_dev: hd={} must be even", 63)));
    assert_eq!(append_u8(0, 0, 1, 1, 1, 2, 10, 5, DType::U8), Err(KernelError::CudaDType("kv_append u8: unsupported dtype {}", DType::U8)));
    assert_eq!(append_u8_dev(0, 0, 1, 1, 1, 2, 10, DType::U8), Err(KernelError::CudaDType("kv_append u8_dev: unsupported dtype {}", DType::U8)));
    let p = append_f16(2, 3, 4, 64, 100, 7).unwrap();
    assert_eq!((p.launch.grid, p.args), ((6, 1, 1), (2, 3, 4, 64, 100, 7)));
    assert_eq!(append_f32(2, 3, 4, 64, 100, 7).unwrap().launch.grid, (12, 1, 1));
    assert_eq!(append_bf16(0, 3, 4, 64, 100, 7).unwrap().launch.grid, (1, 1, 1));
    assert_eq!(append_f16_dev(1, 1, 1, 2, 9).unwrap().launch.kernel, "kv_append_slice_f16_dev");
    assert_eq!(append_bf16_dev(1, 1, 1, 2, 9).unwrap().launch.kernel, "kv_append_slice_bf16_dev");
    assert_eq!(append_f32_dev(1, 1, 1, 3, 9).unwrap().launch.kernel, "kv_append_slice_f32_dev");
    assert!(append_f16(u32::MAX, u32::MAX, 1, 3, 9, 0).is_err());
    assert!(append_f16(1, 1, 1, 3, 9, 0).is_err() && append_bf16(1, 1, 1, 3, 9, 0).is_err());
    assert!(append_f16_dev(1, 1, 1, 3, 9).is_err() && append_bf16_dev(1, 1, 1, 3, 9).is_err());
}

#[test]
fn append_places() {
    let (heads, pos, t_new, max_seq, hd) = (3usize, 4usize, 2usize, 8usize, 5usize);
    let mut hit = vec![0; heads * max_seq * hd];
    for h in 0..heads {
        for t in 0..t_new {
            for i in 0..hd {
                hit[(h * max_seq + pos + t) * hd + i] += 1;
            }
        }
    }
    let p = append_u8(0, 0, 1, heads as u32, t_new as u32, hd as u32, max_seq as u32, pos as u32, DType::F32).unwrap();
    assert_eq!(p.dst.end, hit.len() * 4);
    assert_eq!(p.src.end, hit.iter().filter(|n| **n == 1).count() * 4);
    assert!(hit.iter().all(|n| *n <= 1));
    assert!(p.launch.grid.0 * 128 >= 30);
}

#[test]
fn eight_bit_cache_appends() {
    let p = quant_append_mxfp8_u8(2, 4, 6, 2, 3, 4, 64, 100, 5, DType::BF16).unwrap().unwrap();
    assert_eq!((p.launch.kernel, p.launch.grid), ("kv_quant_append_mxfp8_bf16", (24, 1, 1)));
    assert_eq!((p.src, p.dst, p.scales), (bytes(2, 3074), bytes(4, 38404), bytes(6, 1206)));
    assert_eq!((p.args, p.seq_pos), ((2, 3, 4, 64, 100), Some(5)));
    let p = quant_append_mxfp8_u8_dev(0, 0, 0, 1, 1, 1, 32, 10, DType::F16).unwrap().unwrap();
    assert_eq!(p.launch.kernel, "kv_quant_append_mxfp8_f16_dev");
    assert_eq!(quant_append_mxfp8_u8(0, 0, 0, 1, 1, 0, 31, 10, 5, DType::F32), Ok(None));
    assert_eq!(quant_append_mxfp8_u8(0, 0, 0, 1, 1, 1, 33, 10, 5, DType::F16), Err(KernelError::Cuda1("mxfp8 kv: hd={} must be %32", 33)));
    assert_eq!(quant_append_mxfp8_u8_dev(0, 0, 0, 1, 1, 1, 33, 10, DType::F16), Err(KernelError::Cuda1("mxfp8 kv dev: hd={} must be %32", 33)));
    assert_eq!(quant_append_mxfp8_u8(0, 0, 0, 1, 1, 1, 32, 10, 5, DType::F32), Err(KernelError::Unsupported("mxfp8 kv: src dtype (BF16/F16)")));
    assert_eq!(quant_append_mxfp8_u8_dev(0, 0, 0, 1, 1, 1, 32, 10, DType::F32), Err(KernelError::Unsupported("mxfp8 kv dev: src dtype (BF16/F16)")));
}

#[test]
fn block_formats() {
    assert_eq!(entry_suffix(DType::NVFP4), Some("nvfp4_syn"));
    assert_eq!(entry_suffix(DType::MXFP8), Some("mxfp8_syn"));
    for (bits, want) in [(1, "sq1"), (4, "sq4"), (8, "sq8")] {
        assert_eq!(entry_suffix(DType::Sq(bits)), Some(want));
    }
    assert_eq!(entry_suffix(DType::Sq(9)), None);
    assert_eq!(entry_suffix(DType::Sq(0)), None);
    assert_eq!(entry_suffix(DType::Ggml(GgmlType::Q4K)), Some("q4_k"));
    assert_eq!(entry_suffix(DType::Ggml(GgmlType::Iq2Xxs)), Some("iq2_xxs"));
    assert_eq!(entry_suffix(DType::Ggml(GgmlType::Other)), None);
    assert_eq!(entry_suffix(DType::F16), None);
    assert_eq!(module_source("a", "b", "c"), "a\nb\nc");
    assert_eq!(gemv_module_source("x", "", "z"), "x\n\nz");
    assert_eq!(row_bytes(Some(18), 32), Ok(18));
    assert_eq!(row_bytes(Some(18), 33), Err(KernelError::Unsupported("blockq_dequant: K должно быть кратно 32")));
    assert_eq!(row_bytes(None, 32), Err(KernelError::Unsupported("blockq_dequant: K не кратен блоку формата")));
}

#[test]
fn block_formats_back_to_floats() {
    let q = DType::Ggml(GgmlType::Q4_0);
    let p = blockq_dequant(q, Some(36), 360, 1280, 10, 64).unwrap();
    assert_eq!((p.launch.kernel, p.launch.grid, p.args), ("deq_q4_0", (1, 1, 1), (10, 64, 36)));
    assert_eq!(blockq_dequant_raw(q, Some(36), 36_000, 128_000, 1000, 64).unwrap().launch.grid, (8, 1, 1));
    assert_eq!(blockq_dequant(q, Some(36), 359, 1280, 10, 64), Err(KernelError::Unsupported("blockq_dequant: src короче rows × row_bytes")));
    assert_eq!(blockq_dequant(q, Some(36), 360, 1279, 10, 64), Err(KernelError::Unsupported("blockq_dequant: out короче rows × k")));
    assert_eq!(blockq_dequant(DType::F32, Some(36), 360, 1280, 10, 64), Err(KernelError::Unsupported("blockq_dequant: формат не квантованный вес")));
    let p = blockq_gather_dequant(q, Some(36), 3600, 4, 512, 4, 100, 64).unwrap().unwrap();
    assert_eq!((p.launch.kernel, p.launch.grid, p.args), ("deqg_q4_0", (1, 1, 1), (4, 100, 64, 36)));
    assert_eq!(blockq_gather_dequant(q, Some(36), 3600, 0, 0, 0, 100, 64), Ok(None));
    let e = |d, t, i, o| blockq_gather_dequant(d, Some(36), t, i, o, 4, 100, 64).unwrap_err();
    assert_eq!(e(q, 3599, 4, 512), KernelError::Unsupported("blockq_gather_dequant: таблица короче vocab × row_bytes"));
    assert_eq!(e(q, 3600, 3, 512), KernelError::Unsupported("blockq_gather_dequant: ids короче n_ids"));
    assert_eq!(e(q, 3600, 4, 511), KernelError::Unsupported("blockq_gather_dequant: out короче n_ids × k"));
    assert_eq!(e(DType::F16, 3600, 4, 512), KernelError::Unsupported("blockq_gather_dequant: формат не квантованный вес"));
    assert_eq!(e(DType::NVFP4, 3600, 4, 512), KernelError::Unsupported("blockq_gather_dequant: только одноблобные форматы"));
    let p = blockq_dequant_band_syn(DType::MXFP8, 1280, 10, 64, 7).unwrap();
    assert_eq!((p.launch.kernel, p.launch.grid, p.args), ("deq_mxfp8_syn", (1, 1, 1), (10, 64, 7)));
    assert_eq!(blockq_dequant_band_syn(q, 1280, 10, 64, 0), Err(KernelError::Unsupported("blockq_dequant_band_syn: только NVFP4/MXFP8")));
    assert_eq!(blockq_dequant_band_syn(DType::NVFP4, 1280, 10, 60, 0), Err(KernelError::Unsupported("blockq_dequant_band_syn: K должно быть кратно 32")));
    assert_eq!(blockq_dequant_band_syn(DType::NVFP4, 1279, 10, 64, 0), Err(KernelError::Unsupported("blockq_dequant_band_syn: out короче rows × k")));
}

#[test]
fn block_format_products() {
    let q = DType::Ggml(GgmlType::Q4_0);
    let p = blockq_gemv(q, Some(36), 10, 64, 8, 65, 11).unwrap().unwrap();
    assert_eq!((p.launch.kernel, p.launch.grid, p.launch.block), ("gemv_q4_0", (3, 1, 1), (128, 1, 1)));
    assert_eq!(p.args, (10, 64, 8, 65, 11, 36));
    assert_eq!(blockq_gemv(DType::NVFP4, None, 10, 64, 1, 64, 10).unwrap().unwrap().args.5, 0);
    assert_eq!(blockq_gemv(q, Some(36), 0, 64, 1, 64, 10), Ok(None));
    let e = |d, b, k, m| blockq_gemv(d, b, 10, k, m, 64, 10).unwrap_err();
    assert_eq!(e(q, Some(36), 64, 0), KernelError::Unsupported("blockq_gemv: M должно быть в 1..=8"));
    assert_eq!(e(q, Some(36), 64, 9), KernelError::Unsupported("blockq_gemv: M должно быть в 1..=8"));
    assert_eq!(e(q, Some(36), 60, 1), KernelError::Unsupported("blockq_gemv: K должно быть кратно 32"));
    assert_eq!(e(q, None, 64, 1), KernelError::Unsupported("blockq_gemv: K не кратен блоку формата"));
    assert_eq!(e(DType::F16, Some(1), 64, 1), KernelError::Unsupported("blockq_gemv: формат не квантованный вес"));
    assert_eq!(e(DType::Ggml(GgmlType::Q8_1), Some(1), 64, 1), KernelError::Unsupported("blockq_gemv: нет ядра для формата"));
    let p = blockq_gemv_batched(q, Some(36), 5, 10, 64).unwrap().unwrap();
    assert_eq!((p.launch.kernel, p.launch.grid, p.args), ("gemv_q4_0_batched", (3, 5, 1), (10, 64, 36)));
    assert_eq!(blockq_gemv_batched(q, Some(36), 0, 10, 64), Ok(None));
    assert_eq!(
        blockq_gemv_batched(DType::Ggml(GgmlType::Q8K), Some(1), 5, 10, 64),
        Err(KernelError::Unsupported("blockq_gemv: нет батчевого ядра"))
    );
}

#[test]
fn block_kernels_bear_the_suffix() {
    let ggml = [
        GgmlType::Q4_0, GgmlType::Q4_1, GgmlType::Q5_0, GgmlType::Q5_1, GgmlType::Q8_0, GgmlType::Q8_1,
        GgmlType::Q8K, GgmlType::Q1_0, GgmlType::Q2_0, GgmlType::Mxfp4, GgmlType::Nvfp4, GgmlType::Iq4Nl,
        GgmlType::Q2K, GgmlType::Q3K, GgmlType::Q4K, GgmlType::Q5K, GgmlType::Q6K, GgmlType::Iq4Xs,
        GgmlType::Iq2Xxs, GgmlType::Iq2Xs, GgmlType::Iq2S, GgmlType::Iq3Xxs, GgmlType::Iq3S,
        GgmlType::Iq1S, GgmlType::Iq1M, GgmlType::Tq1_0, GgmlType::Tq2_0,
    ];
    let mut formats = vec![DType::NVFP4, DType::MXFP8];
    formats.extend((1..=8).map(DType::Sq));
    formats.extend(ggml.map(DType::Ggml));
    for d in formats {
        let s = entry_suffix(d).unwrap();
        let apart = d == DType::NVFP4 || d == DType::MXFP8;
        let activation = d == DType::Ggml(GgmlType::Q8_1) || d == DType::Ggml(GgmlType::Q8K);
        let e = entries(d).unwrap();
        assert_eq!((e.suffix, e.dequant), (s, format!("deq_{s}").as_str()));
        assert_eq!(blockq_dequant(d, Some(36), 36, 128, 1, 64).unwrap().launch.kernel, format!("deq_{s}"));
        match blockq_gather_dequant(d, Some(36), 36, 1, 128, 1, 1, 64) {
            Ok(p) => assert_eq!((p.unwrap().launch.kernel, apart), (format!("deqg_{s}").as_str(), false)),
            Err(_) => assert!(apart),
        }
        match blockq_gemv(d, Some(36), 10, 64, 1, 64, 10) {
            Ok(p) => assert_eq!((p.unwrap().launch.kernel, activation), (format!("gemv_{s}").as_str(), false)),
            Err(_) => assert!(activation),
        }
        match blockq_gemv_batched(d, Some(36), 5, 10, 64) {
            Ok(p) => {
                assert_eq!((p.unwrap().launch.kernel, activation), (format!("gemv_{s}_batched").as_str(), false))
            }
            Err(_) => assert!(activation),
        }
    }
    assert_eq!(entries(DType::F16), None);
}

#[test]
fn super_block_quantisation() {
    let p = sq_quant(4, true, 136, 2048 * 2, 136 * 8, 8, 256).unwrap().unwrap();
    assert_eq!((p.launch.kernel, p.launch.grid, p.launch.block), ("sq_quant", (1, 1, 1), (256, 1, 1)));
    assert_eq!(p.args, (8, 256, 4));
    assert_eq!(sq_quant(3, true, 1, 192_000, 1000, 1000, 96).unwrap().unwrap().launch.grid, (32, 1, 1));
    assert_eq!(sq_quant(4, true, 136, 0, 0, 0, 256), Ok(None));
    assert_eq!(sq_quant(9, false, 136, 0, 0, 0, 256), Err(KernelError::Other("sq: bits")));
    assert_eq!(sq_quant(4, true, 136, 0, 0, 0, 250), Err(KernelError::Unsupported("sq_quant: K должно быть кратно 32")));
    assert_eq!(sq_quant(4, true, 136, 512, 135, 1, 256), Err(KernelError::Unsupported("sq_quant: out короче rows × row_bytes")));
    assert_eq!(sq_quant(4, true, 136, 511, 136, 1, 256), Err(KernelError::Unsupported("sq_quant: вход короче rows × k")));
}

#[test]
fn activations_of_vectors() {
    assert_eq!((grid_for(0), grid_for(1), grid_for(257), grid_for(u32::MAX)), (0, 1, 2, 65535));
    let p = run(1000, Activation::Mish, DType::BF16).unwrap();
    assert_eq!((p.launch.kernel, p.launch.grid, p.n), ("mish_act_bf16", (4, 1, 1), 1000));
    let names: Vec<&str> = [
        Activation::Silu,
        Activation::GeluExact,
        Activation::GeluTanh,
        Activation::QuickGelu,
        Activation::Softplus,
        Activation::Softsign,
    ]
    .iter()
    .map(|a| run(1, *a, DType::F32).unwrap().launch.kernel)
    .collect();
    let want = ["silu_act_f32", "gelu_exact_act_f32", "gelu_tanh_act_f32", "quick_gelu_act_f32", "softplus_act_f32", "softsign_act_f32"];
    assert_eq!(names, want);
    assert_eq!(run(1, Activation::Silu, DType::U8), Err(KernelError::Unsupported("activations: dtype must be F32/F16/BF16")));
    assert_eq!(run_swish_beta(1, DType::F16).unwrap().launch.kernel, "swish_beta_act_f16");
    assert!(run_swish_beta(1, DType::U8).is_err());
    let p = run_snake_u8(2, 4, 8, 6, 1000, 10, 100, DType::F16).unwrap().unwrap();
    assert_eq!((p.x, p.a, p.binv, p.y), (bytes(2, 2002), bytes(4, 44), bytes(8, 48), bytes(6, 2006)));
    assert_eq!((p.launch.kernel, p.launch.grid, p.n, p.chans, p.t_len), ("snake_act_f16", (4, 1, 1), 1000, 10, 100));
    assert_eq!(run_snake_u8(0, 0, 0, 0, 0, 10, 100, DType::U8), Ok(None));
    assert!(run_snake_u8(0, 0, 0, 0, 1, 10, 100, DType::U8).is_err());
    let p = run_bias_act(3, 100, BiasActivation::Relu, DType::F32).unwrap();
    assert_eq!((p.launch.kernel, p.launch.grid, p.rows, p.cols), ("bias_relu_f32", (2, 1, 1), 3, 100));
    assert_eq!(run_bias_act(1, 1, BiasActivation::Silu, DType::F16).unwrap().launch.kernel, "bias_silu_f16");
    assert_eq!(run_bias_act(1, 1, BiasActivation::GeluTanh, DType::BF16).unwrap().launch.kernel, "bias_gelu_tanh_bf16");
    assert!(run_bias_act(1, 1, BiasActivation::Silu, DType::U8).is_err());
    assert!(run_bias_act(u32::MAX, 2, BiasActivation::Silu, DType::U8).is_err());
}

#[test]
fn capped_logits() {
    let p = logit_cap(false, 257, DType::F16).unwrap().unwrap();
    assert_eq!((p.launch.kernel, p.launch.grid, p.n), ("logit_cap_f16", (2, 1, 1), 257));
    assert_eq!(logit_cap(true, 0, DType::U8), Err(KernelError::Cuda("logit_cap: cap должен быть ненулевым")));
    assert_eq!(logit_cap(false, 0, DType::U8), Ok(None));
    assert_eq!(logit_cap(false, 1, DType::U8), Err(KernelError::CudaDType("logit_cap: unsupported dtype {}", DType::U8)));
}

#[test]
fn rotations() {
    let off = RopeOffsets { x: 2, out: 4, cos: 8, sin: 16 };
    let p = run_rope_split_u8(off, 6, 3, 64, DType::F16).unwrap().unwrap();
    assert_eq!((p.launch.kernel, p.launch.grid, p.launch.block), ("rope_split_f16", (6, 1, 1), (64, 1, 1)));
    assert_eq!((p.x, p.out, p.cos, p.sin), (bytes(2, 770), bytes(4, 772), bytes(8, 392), bytes(16, 400)));
    assert_eq!(p.args, (3, 64));
    let p = run_rope_split_partial_u8(off, 6, 3, 64, 32, DType::F32).unwrap().unwrap();
    assert_eq!((p.launch.kernel, p.x, p.cos), ("rope_split_partial_f32", bytes(2, 1538), bytes(8, 200)));
    assert_eq!(p.args, (3, 64, 32));
    let p = run_rope_interleaved_u8(off, 6, 2, 3, 64, DType::BF16).unwrap().unwrap();
    assert_eq!(p.args, (2, 3, 64));
    assert_eq!((p.launch.kernel, p.cos), ("rope_interleaved_bf16", bytes(8, 776)));
    assert_eq!(run_rope_split_u8(off, 0, 3, 63, DType::U8), Ok(None));
    assert_eq!(run_rope_split_u8(off, 1, 3, 63, DType::F16), Err(KernelError::Cuda1("rope_split: head_dim={} must be even", 63)));
    assert_eq!(run_rope_split_u8(off, 1, 3, 1026, DType::F16), Err(KernelError::Cuda1("rope_split: head_dim={} > 1024", 1026)));
    assert_eq!(run_rope_split_u8(off, 1, 3, 64, DType::U8), Err(KernelError::Unsupported("rope_split: dtype")));
    let e = |d, r, t| run_rope_split_partial_u8(off, 1, 3, d, r, t).unwrap_err();
    assert_eq!(e(64, 66, DType::F16), KernelError::Cuda2("rope_split_partial: rot_dim={} vs head_dim={}", 66, 64));
    assert_eq!(e(64, 33, DType::F16), KernelError::Cuda2("rope_split_partial: rot_dim={} vs head_dim={}", 33, 64));
    assert_eq!(e(1025, 64, DType::F16), KernelError::Cuda1("rope_split_partial: head_dim={} > 1024", 1025));
    assert_eq!(e(64, 32, DType::U8), KernelError::Unsupported("rope_split_partial: dtype"));
    assert_eq!(run_rope_split_partial_u8(off, 1, 3, 0, 32, DType::U8), Ok(None));
    assert_eq!(run_rope_interleaved_u8(off, 1, 2, 3, 65, DType::F16), Err(KernelError::Cuda1("rope_interleaved: bad head_dim={}", 65)));
    assert_eq!(run_rope_interleaved_u8(off, 1, 2, 3, 64, DType::U8), Err(KernelError::Unsupported("rope_interleaved: dtype")));
    assert_eq!(run_rope_interleaved_u8(off, 0, 2, 3, 64, DType::U8), Ok(None));
}

#[test]
fn rotations_in_place() {
    let c = apply_partial(2, 3, 4, 64, 32, DType::F32).unwrap();
    assert_eq!(c.args, (2, 3, 4, 64, 32));
    let l = c.launch;
    assert_eq!((l.kernel, l.grid, l.block), ("rope_apply_partial_f32", (24, 1, 1), (64, 1, 1)));
    assert!(matches!(apply_partial(1, 1, 1, 64, 65, DType::F32), Err(KernelError::Cuda2(_, 65, 64))));
    assert!(matches!(apply_partial(1, 1, 1, 1025, 64, DType::F32), Err(KernelError::Cuda1(_, 1025))));
    assert!(matches!(apply_partial(1, 1, 1, 64, 64, DType::U8), Err(KernelError::CudaDType(_, DType::U8))));
    let off = RopeOffsets { x: 2, out: 4, cos: 8, sin: 16 };
    let p = apply_partial_u8_dev(off, 100, 2, 3, 1, 64, 32, DType::F16).unwrap().unwrap();
    assert_eq!((p.launch.grid, p.x, p.out), ((6, 1, 1), bytes(2, 770), bytes(4, 772)));
    assert_eq!((p.cos, p.sin, p.args), (bytes(8, 208), bytes(16, 216), (2, 3, 1, 64, 32)));
    assert_eq!(apply_partial_u8_dev(off, 100, 0, 3, 1, 64, 32, DType::U8), Ok(None));
    assert!(matches!(apply_partial_u8_dev(off, 1, 1, 1, 1, 64, 31, DType::F16), Err(KernelError::Cuda2(_, 31, 64))));
    assert!(matches!(apply_partial_u8_dev(off, 1, 1, 1, 1, 1026, 32, DType::F16), Err(KernelError::Cuda1(_, 1026))));
    assert!(matches!(apply_partial_u8_dev(off, 1, 1, 1, 1, 64, 32, DType::U8), Err(KernelError::CudaDType(_, DType::U8))));
}

#[test]
fn vectors_by_element_type() {
    assert_eq!(run_f32(9, Activation::Silu), run(9, Activation::Silu, DType::F32));
    assert_eq!(run_f16(9, Activation::Silu), run(9, Activation::Silu, DType::F16));
    assert_eq!(run_bf16(9, Activation::Silu), run(9, Activation::Silu, DType::BF16));
    assert_eq!(logit_cap_f32(false, 9), logit_cap(false, 9, DType::F32));
    assert_eq!(logit_cap_f16(false, 9), logit_cap(false, 9, DType::F16));
    assert_eq!(logit_cap_bf16(true, 9), logit_cap(true, 9, DType::BF16));
    assert_eq!(apply_partial_f32(1, 2, 3, 64, 32), apply_partial(1, 2, 3, 64, 32, DType::F32));
    assert_eq!(apply_partial_f16(1, 2, 3, 64, 32), apply_partial(1, 2, 3, 64, 32, DType::F16));
    assert_eq!(apply_partial_bf16(1, 2, 3, 64, 33), apply_partial(1, 2, 3, 64, 33, DType::BF16));
}

#[test]
fn appends_do_not_depend_on_the_position() {
    for dtype in [DType::F32, DType::F16, DType::BF16] {
        let host = append_u8(8, 16, 2, 3, 4, 64, 100, 5, dtype).unwrap();
        let dev = append_u8_dev(8, 16, 2, 3, 4, 64, 100, dtype).unwrap();
        assert_ne!(host.launch.kernel, dev.launch.kernel);
        assert_eq!((host.launch.grid, host.launch.block, host.src, host.dst), (dev.launch.grid, dev.launch.block, dev.src, dev.dst));
        assert_eq!(host.args, dev.args);
    }
    for dtype in [DType::F16, DType::BF16] {
        let host = quant_append_mxfp8_u8(2, 4, 6, 2, 3, 4, 64, 100, 5, dtype).unwrap().unwrap();
        let dev = quant_append_mxfp8_u8_dev(2, 4, 6, 2, 3, 4, 64, 100, dtype).unwrap().unwrap();
        assert_ne!(host.launch.kernel, dev.launch.kernel);
        assert_eq!((host.launch.grid, host.launch.block), (dev.launch.grid, dev.launch.block));
        assert_eq!((host.src, host.dst, host.scales), (dev.src, dev.dst, dev.scales));
    }
    assert_eq!(quant_append_mxfp8_u8(0, 0, 0, 1, 1, 0, 31, 10, 5, DType::F32), Ok(None));
    assert_eq!(quant_append_mxfp8_u8_dev(0, 0, 0, 1, 1, 0, 31, 10, DType::F32), Ok(None));
}

#[test]
fn both_quantisers_cover_the_same_blocks() {
    let mut s = QuantSwitches::default();
    for (rows, width) in [(5u32, 64u32), (128, 128), (40_000, 64), (129, 1024)] {
        set_nvfp4_quant_slow(&mut s, false);
        let fast = quantize_f16_to_nvfp4_view(&s, 256, rows, width).unwrap();
        set_nvfp4_quant_slow(&mut s, true);
        let slow = quantize_f16_to_nvfp4_view(&s, 256, rows, width).unwrap();
        let (f, launch, outer_cov) = match fast {
            Nvfp4QuantPlan::Fast { launch, outer_dim, inner_dim, sf_inner_dim, outer_cov } => {
                ((outer_dim, inner_dim, sf_inner_dim), launch, outer_cov)
            }
            Nvfp4QuantPlan::Slow { .. } => panic!("not in one launch"),
        };
        let (c, chunks) = match slow {
            Nvfp4QuantPlan::Slow { outer_dim, inner_dim, sf_inner_dim, chunks } => {
                ((outer_dim, inner_dim, sf_inner_dim), chunks)
            }
            Nvfp4QuantPlan::Fast { .. } => panic!("in one launch"),
        };
        assert_eq!((f, c), (c, (rows, width, width / 16)));
        assert_eq!(outer_cov, rows.div_ceil(128) * 128);
        assert!(launch.grid.0 * launch.block.0 >= outer_cov * (width / 16));
        assert_eq!(nvfp4_scale_buffer_size(rows as usize, width as usize), (outer_cov * (width / 16)) as usize);
        let mut next = 0;
        for c in &chunks {
            assert_eq!((c.outer_offset, c.launch.grid.0), (next, width / 16));
            next += c.launch.grid.1;
        }
        assert_eq!(next, rows);
    }
    for slow in [false, true] {
        set_nvfp4_quant_slow(&mut s, slow);
        assert!(matches!(quantize_f16_to_nvfp4_view(&s, 256, 5, 72), Err(KernelError::Cuda1(_, 72))));
    }
}
