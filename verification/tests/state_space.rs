use synaptix_kernels_cuda::dtype::DType;
use synaptix_kernels_cuda::error::KernelError;
use synaptix_kernels_cuda::scan::chunk_scan::{
    chunk_gated_delta_rule, BmmArgs, ChunkScanKernels, ScanBuf, ScanDims, ScanStep,
};
use synaptix_kernels_cuda::ssm::delta_rule::DeltaRuleKernels;
use synaptix_kernels_cuda::ssm::gated_delta_rule::GatedDeltaRuleKernels;
use synaptix_kernels_cuda::ssm::mamba2_bmm::{pick_config, BmmConfig, Mamba2BmmKernels};
use synaptix_kernels_cuda::ssm::mamba2_chunked_helpers::{split_blh, Mamba2ChunkedHelpersKernels};
use synaptix_kernels_cuda::ssm::mamba2_ssd::Mamba2SsdKernels;
use synaptix_kernels_cuda::ssm::mamba2_ssd_chunked::{
    Mamba2SsdChunkedKernels, SsdBuf, SsdDims, SsdStep,
};
use synaptix_kernels_cuda::ssm::mamba_scan::{scan, scan_bf16, scan_f16, scan_f32};

#[test]
fn primitives_of_the_chunked_rule() {
    let k = ChunkScanKernels;
    let c = k.cumsum_lastdim(129, 64);
    assert_eq!((c.launch.grid, c.args), ((2, 1, 1), (129, 64)));
    let c = k.l2norm_scale_lastdim(128, 32);
    assert_eq!((c.launch.grid, c.args), ((1, 1, 1), (128, 32)));
    let c = k.mul_rowwise(7, 129);
    assert_eq!((c.launch.grid, c.args), ((7, 2, 1), (7, 129)));
    let args = BmmArgs {
        off_a: 1,
        off_b: 2,
        off_c: 3,
        trans_a: true,
        trans_b: false,
        m: 16,
        n: 17,
        k: 5,
        stride_a: 80,
        stride_b: -85,
        stride_c: 272,
        batch: 3,
    };
    let c = k.bmm(args);
    assert_eq!((c.launch.kernel, c.launch.grid, c.launch.block), ("bmm_f32", (4, 1, 1), (256, 1, 1)));
    assert_eq!(c.args, args);
    assert_eq!(k.bmm(BmmArgs { m: 0, ..args }).launch.grid, (0, 1, 1));
}

#[test]
fn chunked_rule_steps() {
    let d = ScanDims { bh: 2, t: 128, hk: 16, hv: 32, cs: 64 };
    let p = chunk_gated_delta_rule(d).unwrap();
    assert_eq!(p.steps.len(), 10 + 2 * 9);
    assert_eq!(p.workspace.len(), 14);
    assert_eq!(p.workspace[0], (ScanBuf::QNorm, 4096));
    assert_eq!(p.workspace[5], (ScanBuf::Attn, 16384));
    assert_eq!(p.workspace[13], (ScanBuf::KDecayed, 2048));
    assert_eq!(p.steps[0], ScanStep::L2Norm { input: ScanBuf::Q, out: ScanBuf::QNorm, rows: 256, dim: 16, query: true });
    assert_eq!(p.steps[4], ScanStep::Cumsum { input: ScanBuf::G, out: ScanBuf::GCumsum, rows: 4, n: 64 });
    match p.steps[19 + 2] {
        ScanStep::Bmm(c) => {
            assert_eq!((c.a, c.b, c.c), (ScanBuf::QScaled, ScanBuf::State, ScanBuf::Out));
            assert_eq!((c.off_a, c.off_b, c.off_c), (1024, 0, 2048));
            assert_eq!((c.m, c.n, c.k, c.batch), (64, 32, 16, 2));
            assert_eq!((c.stride_a, c.stride_b, c.stride_c), (2048, 512, 4096));
            assert!(!c.accumulate && !c.trans_a && !c.trans_b);
        }
        _ => panic!("no product"),
    }
    match p.steps[18] {
        ScanStep::Bmm(c) => {
            assert_eq!((c.a, c.c, c.trans_a, c.accumulate), (ScanBuf::KDecayed, ScanBuf::State, true, true));
        }
        _ => panic!("no product"),
    }
    assert_eq!(
        chunk_gated_delta_rule(ScanDims { t: 100, ..d }),
        Err(KernelError::Cuda2("chunk_gated_delta_rule: T={} не кратно cs={}", 100, 64))
    );
}

#[test]
fn chunked_rule_products_stay_inside() {
    let d = ScanDims { bh: 3, t: 96, hk: 8, hv: 24, cs: 32 };
    let p = chunk_gated_delta_rule(d).unwrap();
    let len = |b: ScanBuf| -> i64 {
        match p.workspace.iter().find(|(x, _)| *x == b) {
            Some((_, n)) => *n as i64,
            None => match b {
                ScanBuf::State => 3 * 8 * 24,
                ScanBuf::Out => 3 * 96 * 24,
                _ => panic!("not written"),
            },
        }
    };
    let mut written = vec![0; 96 * 24];
    for s in &p.steps {
        if let ScanStep::Bmm(c) = s {
            let last = c.batch as i64 - 1;
            assert!(c.off_a as i64 + last * c.stride_a + (c.m * c.k) as i64 <= len(c.a));
            assert!(c.off_b as i64 + last * c.stride_b + (c.k * c.n) as i64 <= len(c.b));
            assert!(c.off_c as i64 + last * c.stride_c + (c.m * c.n) as i64 <= len(c.c));
            if c.c == ScanBuf::Out && !c.accumulate {
                for i in 0..(c.m * c.n) {
                    written[(c.off_c + i) as usize] += 1;
                }
            }
        }
    }
    assert!(written.iter().all(|n| *n == 1));
}

#[test]
fn single_steps() {
    let c = DeltaRuleKernels.delta_rule_step(2, 3, 64, 32);
    assert_eq!(c.args, (2, 3, 64, 32));
    let l = c.launch;
    assert_eq!((l.kernel, l.grid, l.block, l.shared_mem_bytes), ("delta_rule_step_f32", (2, 3, 1), (64, 1, 1), 264));
    let c = GatedDeltaRuleKernels.gated_delta_rule_step(2, 3, 64, 32);
    assert_eq!(c.args, (2, 3, 64, 32));
    let l = c.launch;
    assert_eq!((l.kernel, l.shared_mem_bytes), ("gated_delta_rule_step_f32", 784));
    let c = GatedDeltaRuleKernels.gated_delta_rule_step_fused_rms_norm(2, 3, 64, 64);
    assert_eq!(c.args, (2, 3, 64, 64));
    let l = c.launch;
    assert_eq!((l.kernel, l.block, l.shared_mem_bytes), ("gated_delta_rule_step_fused_rms_norm_f32_to_f16", (64, 1, 1), 1040));
}

#[test]
fn selective_scan() {
    let p = scan(true, 2, 100, 64, 16, DType::F16).unwrap();
    assert_eq!((p.launch.kernel, p.launch.grid, p.launch.block), ("mamba_scan_f16", (128, 1, 1), (32, 1, 1)));
    assert_eq!((p.has_d, p.b, p.l, p.d, p.n), (1, 2, 100, 64, 16));
    assert!(matches!(scan(false, u32::MAX, 1, 2, 33, DType::F16), Err(KernelError::Cuda1(_, 33))));
    assert!(matches!(scan(false, 1, 1, 1, 33, DType::F16), Err(KernelError::Cuda1(_, 33))));
    assert!(matches!(scan(false, 1, 1, 1, 32, DType::U8), Err(KernelError::CudaDType(_, DType::U8))));
    assert_eq!(scan_f32(true, 2, 100, 64, 16), scan(true, 2, 100, 64, 16, DType::F32));
    assert_eq!(scan_f16(true, 2, 100, 64, 16), scan(true, 2, 100, 64, 16, DType::F16));
    assert_eq!(scan_bf16(false, 2, 100, 64, 16), scan(false, 2, 100, 64, 16, DType::BF16));
}

#[test]
fn recurrent_form() {
    let k = Mamba2SsdKernels;
    let p = k.ssd(false, 2, 100, 4, 64, 128, DType::BF16).unwrap();
    assert_eq!((p.launch.kernel, p.launch.grid, p.launch.block, p.launch.shared_mem_bytes), ("mamba2_ssd_bf16", (512, 1, 1), (128, 1, 1), 512));
    assert_eq!((p.has_d, p.h, p.p, p.n), (0, 4, 64, 128));
    for n in 0..2100u32 {
        let ok = n.is_power_of_two() && n <= 1024;
        assert_eq!(k.ssd(false, 1, 1, 1, 1, n, DType::F32).is_ok(), ok);
    }
    assert!(matches!(k.ssd(false, u32::MAX, 1, 2, 2, 3, DType::F32), Err(KernelError::Cuda1(_, 3))));
    assert!(matches!(k.ssd(false, 1, 1, 1, 1, 8, DType::U8), Err(KernelError::CudaDType(_, DType::U8))));
    assert_eq!(k.ssd_f32(true, 1, 1, 1, 1, 8), k.ssd(true, 1, 1, 1, 1, 8, DType::F32));
    assert_eq!(k.ssd_f16(true, 1, 1, 1, 1, 8), k.ssd(true, 1, 1, 1, 1, 8, DType::F16));
    assert_eq!(k.ssd_bf16(true, 1, 1, 1, 1, 7), k.ssd(true, 1, 1, 1, 1, 7, DType::BF16));
}

#[test]
fn product_tiles() {
    let c = |m, n| {
        let c = pick_config(m, n);
        (c.warps_m, c.warps_n)
    };
    assert_eq!((c(16, 64), c(32, 8), c(64, 16), c(64, 32), c(48, 64)), ((1, 4), (2, 4), (4, 2), (4, 4), (2, 2)));
    let t = BmmConfig { warps_m: 4, warps_n: 2 };
    assert_eq!((t.tile_m(), t.tile_n(), t.threads(), t.smem_bytes()), (64, 16, 256, 2560));
    let k = Mamba2BmmKernels;
    let c = k.bmm(8192, 8192, 4096, 64, 64, 128, 1).unwrap().unwrap();
    assert_eq!(c.args, (64, 64, 128, 1));
    let l = c.launch;
    assert_eq!((l.kernel, l.grid, l.block), ("mamba2_bmm_bf16_f32acc_4x4", (1, 2, 1), (512, 1, 1)));
    assert_eq!(k.bmm(0, 0, 0, 64, 0, 128, 1), Ok(None));
    let e = |a, b, c, m, n, kk| k.bmm(a, b, c, m, n, kk, 1).unwrap_err();
    assert_eq!(e(0, 0, 0, 17, 8, 16), KernelError::Cuda1("mamba2_bmm: M={} должно быть кратно 16", 17));
    assert_eq!(e(0, 0, 0, 16, 9, 16), KernelError::Cuda1("mamba2_bmm: N={} должно быть кратно 8", 9));
    assert_eq!(e(0, 0, 0, 16, 8, 17), KernelError::Cuda1("mamba2_bmm: K={} должно быть кратно 16", 17));
    assert_eq!(e(255, 128, 128, 16, 8, 16), KernelError::Cuda2("mamba2_bmm: a slice {} < required {}", 255, 256));
    assert_eq!(e(256, 127, 128, 16, 8, 16), KernelError::Cuda2("mamba2_bmm: b slice {} < required {}", 127, 128));
    assert_eq!(e(256, 128, 127, 16, 8, 16), KernelError::Cuda2("mamba2_bmm: c slice {} < required {}", 127, 128));
    assert_eq!(k.bmm_view(16, 8, 16, 0), Ok(None));
    assert_eq!(k.bmm_view(32, 16, 16, 3).unwrap().unwrap().launch.kernel, "mamba2_bmm_bf16_f32acc_2x4");
    assert!(matches!(k.bmm_view(15, 8, 16, 1), Err(KernelError::Cuda3(_, 15, 8, 16))));
    for m in [16, 32, 48, 64, 128] {
        for n in [8, 16, 24, 40, 64] {
            let l = k.bmm_view(m, n, 16, 1).unwrap().unwrap().launch;
            let c = pick_config(m, n);
            assert!(l.grid.0 * c.tile_m() >= m && l.grid.1 * c.tile_n() >= n && l.block.0 <= 1024);
        }
    }
}

#[test]
fn grid_axes() {
    assert_eq!(split_blh(65535), Some((65535, 1)));
    assert_eq!(split_blh(65536), Some((65535, 2)));
    assert_eq!(split_blh(0), Some((0, 1)));
    assert_eq!(split_blh(4_294_836_226), None);
    assert_eq!(split_blh(u32::MAX), None);
    for blh in [1u32, 65535, 65536, 131070, 131071, 1 << 30, 4_294_836_225] {
        let (y, z) = split_blh(blh).unwrap();
        assert!(y as u64 * z as u64 >= blh as u64 && y <= 65535 && z <= 65535);
    }
}

#[test]
fn helpers_between_products() {
    let h = Mamba2ChunkedHelpersKernels;
    let c = h.alpha_cum(2, 3, 4, 64, DType::F32).unwrap();
    let l = c.launch;
    assert_eq!((l.kernel, l.grid, l.block, l.shared_mem_bytes), ("mamba2_alpha_cum_f32_in", (6, 4, 1), (64, 1, 1), 256));
    assert_eq!(c.args, (2, 3, 4, 64));
    assert!(h.alpha_cum(1, 1, 1, 1, DType::U8).is_err());
    let c = h.permute_blhx_to_bhtqx(2, 100, 4, 40, 20, DType::F16).unwrap();
    let l = c.launch;
    assert_eq!((l.kernel, l.grid, l.block), ("mamba2_permute_blhx_f16_to_bf16", (2, 800, 1), (32, 1, 1)));
    assert_eq!(c.args, (2, 100, 4, 40, 20));
    assert!(h.permute_blhx_to_bhtqx(1, 1, 1, 1, 1, DType::U8).is_err());
    let c = h.compute_dt_x(2, 100, 4, 16, 20, DType::BF16).unwrap();
    assert_eq!((c.launch.block, c.args), ((16, 1, 1), (2, 100, 4, 16, 20)));
    assert!(h.compute_dt_x(1, 1, 1, 1, 1, DType::U8).is_err());
    let c = h.transpose_bf16(5, 40, 8);
    let l = c.launch;
    assert_eq!((l.kernel, l.grid, l.block), ("mamba2_transpose_bf16", (1, 3, 5), (8, 16, 1)));
    assert_eq!(c.args, (5, 40, 8));
    let c = h.apply_decay_mask(5, 64);
    assert_eq!((c.launch.grid, c.args), ((4, 4, 5), (5, 64)));
    let c = h.state_linear_decay(6, 64, 128, 4, 32, 1);
    assert_eq!((c.launch.grid, c.args), ((8, 4, 6), (6, 64, 128, 4, 32, 1)));
    let c = h.add_inplace_f32(257).unwrap();
    assert_eq!((c.launch.grid, c.args), ((2, 1, 1), 257));
    assert_eq!(h.add_inplace_f32(0), None);
    let c = h.add_yoff_chunk(6, 4, 64, 32, 3);
    assert_eq!((c.launch.grid, c.args), ((2, 4, 6), (6, 4, 64, 32, 3)));
    assert_eq!(h.state_cast_f32_to_bf16(0), None);
    let c = h.state_cast_f32_to_bf16(1).unwrap();
    assert_eq!((c.launch.kernel, c.args), ("mamba2_state_cast_f32_to_bf16", 1));
}

#[test]
fn helpers_with_a_choice() {
    let h = Mamba2ChunkedHelpersKernels;
    for from_end in [false, true] {
        let c = h.col_broadcast_exp_mul(5, 64, 16, from_end);
        assert_eq!(c.args, (5, 64, 16, from_end));
        assert_eq!(c, h.col_broadcast_exp_mul_view(5, 64, 16, from_end));
        let r = h.row_broadcast_exp_mul(5, 64, 16, 32, from_end);
        assert_eq!(r.args, (5, 64, 16, 32, from_end));
        assert_eq!(r, h.row_broadcast_exp_mul_view(5, 64, 16, 32, from_end));
        assert_ne!(c.launch.kernel, r.launch.kernel);
        let p = h.post(from_end, 2, 100, 4, 64, 20, DType::F16).unwrap();
        assert_eq!((p.launch.kernel, p.args), ("mamba2_post_f16", (from_end, 2, 100, 4, 64, 20)));
    }
    assert!(h.post(false, 1, 1, 1, 1, 1, DType::U8).is_err());
}

#[test]
fn positions_beyond_a_grid_are_refused() {
    let h = Mamba2ChunkedHelpersKernels;
    let over = 4_294_900_000;
    let refused = |text| KernelError::Cuda1(text, over as u64);
    assert_eq!(
        h.permute_blhx_to_bhtqx(1, over, 1, 16, 16, DType::F16).unwrap_err(),
        refused("permute_blhx: B*L*H={} does not fit grid.y*grid.z")
    );
    assert_eq!(
        h.compute_dt_x(1, over, 1, 16, 16, DType::F16).unwrap_err(),
        refused("compute_dt_x: B*L*H={} does not fit grid.y*grid.z")
    );
    assert_eq!(
        h.post(false, 1, over, 1, 16, 16, DType::F16).unwrap_err(),
        refused("post: B*L*H={} does not fit grid.y*grid.z")
    );
    let d = SsdDims { b: 1, l: over, h: 1, p: 16, n: 16, q: 16 };
    assert_eq!(
        Mamba2SsdChunkedKernels.ssd(d, false, DType::F16).unwrap_err(),
        refused("permute_blhx: B*L*H={} does not fit grid.y*grid.z")
    );
}

#[test]
fn chunked_form_steps() {
    let d = SsdDims { b: 2, l: 128, h: 3, p: 32, n: 16, q: 64 };
    let p = Mamba2SsdChunkedKernels.ssd(d, true, DType::F16).unwrap();
    assert_eq!(p.steps.len(), 9 + 2 * 8 + 1);
    assert_eq!(p.steps[0], SsdStep::AlphaCum { b: 2, h: 3, t: 2, q: 64 });
    assert_eq!(p.steps[25], SsdStep::Post { b: 2, l: 128, h: 3, p: 32, q: 64, has_d: true });
    let without = Mamba2SsdChunkedKernels.ssd(d, false, DType::F16).unwrap();
    assert_eq!(without.steps[25], SsdStep::Post { b: 2, l: 128, h: 3, p: 32, q: 64, has_d: false });
    for s in &p.steps {
        match *s {
            SsdStep::ColExpMul { from_end, .. } => assert!(!from_end),
            SsdStep::RowExpMul { from_end, q, .. } => assert!(from_end && q == 64),
            _ => {}
        }
    }
    assert_eq!(p.workspace[0], (SsdBuf::AlphaCum, 768));
    assert_eq!(p.workspace[14], (SsdBuf::StateUpdChunk, 3072));
    match p.steps[9 + 8 + 5] {
        SsdStep::BmmPart { a, b, c, m, n, k, batch } => {
            assert_eq!((a, c, m, n, k, batch), (SsdBuf::DtXScaledPq, SsdBuf::StateUpdChunk, 32, 16, 64, 6));
            assert_eq!((b.buf, b.start, b.end), (SsdBuf::BNq, 6144, 12288));
        }
        _ => panic!("no product"),
    }
    let e = |d, t| Mamba2SsdChunkedKernels.ssd(d, false, t).unwrap_err();
    assert!(matches!(e(SsdDims { l: 100, ..d }, DType::F16), KernelError::Cuda2(_, 100, 64)));
    assert!(matches!(e(SsdDims { q: 8, ..d }, DType::F16), KernelError::Cuda1(_, 8)));
    assert!(matches!(e(SsdDims { n: 8, ..d }, DType::F16), KernelError::Cuda1(_, 8)));
    assert!(matches!(e(SsdDims { p: 24, ..d }, DType::F16), KernelError::Cuda1(_, 24)));
    assert!(matches!(e(d, DType::U8), KernelError::CudaDType(_, DType::U8)));
}

#[test]
fn chunked_form_products_fill_their_tensors() {
    let d = SsdDims { b: 2, l: 96, h: 3, p: 32, n: 16, q: 48 };
    let p = Mamba2SsdChunkedKernels.ssd(d, false, DType::F32).unwrap();
    let len = |b: SsdBuf| p.workspace.iter().find(|(x, _)| *x == b).unwrap().1;
    let mut bnq = vec![0; len(SsdBuf::BNq)];
    for s in &p.steps {
        if let SsdStep::Bmm { a, b, c, m, n, k, batch } = *s {
            assert_eq!((batch * m * k) as usize, len(a));
            assert_eq!((batch * n * k) as usize, len(b));
            assert_eq!((batch * m * n) as usize, len(c));
            assert!(m % 16 == 0 && n % 8 == 0 && k % 16 == 0);
        }
        if let SsdStep::BmmPart { a, b, c, m, n, k, batch } = *s {
            assert_eq!((batch * m * k) as usize, len(a));
            assert_eq!((batch * n * k) as usize, b.end - b.start);
            assert_eq!((batch * m * n) as usize, len(c));
            for i in b.start..b.end {
                bnq[i] += 1;
            }
        }
    }
    assert!(bnq.iter().all(|n| *n == 1));
}

#[test]
fn a_chunked_rule_over_nothing_has_no_chunks() {
    let d = ScanDims { bh: 1, t: 0, hk: 1 << 16, hv: 1 << 16, cs: 16 };
    let p = chunk_gated_delta_rule(d).unwrap();
    assert_eq!(p.steps.len(), 10);
    assert_eq!(p.workspace[0], (ScanBuf::QNorm, 0));
    assert_eq!(p.workspace[13], (ScanBuf::KDecayed, 1 << 20));
}

#[test]
fn a_large_state_of_the_chunked_form() {
    let d = SsdDims { b: 1, l: 16, h: 1, p: 1 << 16, n: 1 << 16, q: 16 };
    let p = Mamba2SsdChunkedKernels.ssd(d, false, DType::F32).unwrap();
    assert_eq!(p.workspace[9], (SsdBuf::StatePn, 1 << 32));
    assert_eq!(p.workspace[6], (SsdBuf::AIntra, 256));
}
