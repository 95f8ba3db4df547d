use synaptix_kernels_cuda::dtype::DType;
use synaptix_kernels_cuda::error::KernelError;
use synaptix_kernels_cuda::gemm::dispatch::{
    dr_block, fits_2d, fits_2dr, fits_n8, mxfp8_linear_prequant, mxfp8_linear_tiled, nvfp4_act_buffer_sizes,
    nvfp4_linear_f16, nvfp4_run_rows, pick_nvfp4, pick_nvfp4_full, FullChoice, FullChoices, FullTile,
    Gemm2drConfig, Mxfp8Gemm, Mxfp8Prequant, Nvfp4Activation, Nvfp4Plan, PaddedCopy, Prequant,
};
use synaptix_kernels_cuda::weight::{Packed, QuantWeight};

fn choices(fits: &[FullTile]) -> FullChoices {
    let c = |tile: FullTile, persistent: bool, fname: &'static str| FullChoice {
        persistent,
        fname,
        fits: fits.contains(&tile),
    };
    FullChoices {
        c_128_256_s3_swz_rot: c(FullTile::C_128_256_S3_SWZ_ROT, false, "rot"),
        c_128_256_s3_swz_drot: c(FullTile::C_128_256_S3_SWZ_DROT, false, "drot"),
        c_128_64_s4_swz: c(FullTile::C_128_64_S4_SWZ, false, "b64_s4"),
        c_128_64_s3_swz: c(FullTile::C_128_64_S3_SWZ, false, "b64_s3"),
        c_persist_c256_s4_swz: c(FullTile::C_PERSIST_C256_S4_SWZ, true, "persist_s4"),
        c_persist_c256_s3_swz: c(FullTile::C_PERSIST_C256_S3_SWZ, true, "persist_s3"),
        c_128_128_c256_s4_swz_drot: c(FullTile::C_128_128_C256_S4_SWZ_DROT, false, "c256_drot"),
        c_128_128_c256_s4_swz: c(FullTile::C_128_128_C256_S4_SWZ, false, "c256_s4"),
        c_128_128_c256_s3_swz: c(FullTile::C_128_128_C256_S3_SWZ, false, "c256_s3"),
    }
}

const ALL: [FullTile; 9] = [
    FullTile::C_128_256_S3_SWZ_ROT,
    FullTile::C_128_256_S3_SWZ_DROT,
    FullTile::C_128_64_S4_SWZ,
    FullTile::C_128_64_S3_SWZ,
    FullTile::C_PERSIST_C256_S4_SWZ,
    FullTile::C_PERSIST_C256_S3_SWZ,
    FullTile::C_128_128_C256_S4_SWZ_DROT,
    FullTile::C_128_128_C256_S4_SWZ,
    FullTile::C_128_128_C256_S3_SWZ,
];

fn picked(m: u32, n: u32, k: u32, fits: &[FullTile]) -> Option<FullTile> {
    pick_nvfp4_full(m, n, k, &choices(fits)).map(|c| c.tile)
}

fn weight() -> QuantWeight {
    QuantWeight {
        dtype: DType::NVFP4,
        n: 4096,
        k: 4096,
        packed: Packed::Device,
        scales_cuda: true,
        shuffled: true,
    }
}

#[test]
fn large_kernel_zones() {
    assert_eq!(picked(1024, 4096, 4096, &ALL), Some(FullTile::C_128_256_S3_SWZ_ROT));
    assert_eq!(picked(512, 4096, 4096, &ALL), Some(FullTile::C_128_256_S3_SWZ_ROT));
    assert_eq!(picked(512, 8192, 4096, &ALL), Some(FullTile::C_PERSIST_C256_S4_SWZ));
    assert_eq!(picked(32, 16384, 4096, &ALL), Some(FullTile::C_128_64_S4_SWZ));
    assert_eq!(picked(97, 16384, 4096, &ALL), Some(FullTile::C_PERSIST_C256_S4_SWZ));
    assert_eq!(picked(128, 4096, 4096, &ALL), Some(FullTile::C_128_64_S4_SWZ));
    assert_eq!(picked(129, 4096, 4096, &ALL), Some(FullTile::C_128_128_C256_S4_SWZ_DROT));
    assert_eq!(picked(200, 16384, 4096, &ALL), Some(FullTile::C_128_256_S3_SWZ_DROT));
    assert_eq!(picked(400, 4096, 4096, &ALL), Some(FullTile::C_128_256_S3_SWZ_DROT));
    assert_eq!(picked(400, 16384, 4096, &ALL), Some(FullTile::C_PERSIST_C256_S4_SWZ));
    assert_eq!(picked(200, 150_000, 8192, &ALL), Some(FullTile::C_PERSIST_C256_S4_SWZ));
    let last = [FullTile::C_128_128_C256_S3_SWZ];
    assert_eq!(picked(1024, 4096, 4096, &last), Some(FullTile::C_128_128_C256_S3_SWZ));
    assert_eq!(picked(1024, 16384, 4096, &last), None);
    assert_eq!(picked(1024, 16384, 4096, &[FullTile::C_PERSIST_C256_S3_SWZ]), Some(FullTile::C_PERSIST_C256_S3_SWZ));
    assert_eq!(picked(33, 4096, 4096, &[FullTile::C_128_64_S3_SWZ]), Some(FullTile::C_128_64_S3_SWZ));
    assert_eq!(picked(1024, 4096, 4096, &[]), None);
}

#[test]
fn picked_build_takes_the_shape() {
    for m in [2, 31, 32, 96, 97, 129, 320, 321, 511, 512, 513, 2000] {
        for (n, k) in [(4096, 4096), (16384, 4096), (4096, 16384), (200_000, 8192)] {
            for one in ALL {
                let got = picked(m, n, k, &[one]);
                assert!(got.is_none() || got == Some(one));
            }
        }
    }
}

#[test]
fn kernel_by_batch() {
    let none = choices(&[]);
    assert_eq!(pick_nvfp4(1, 4096, 4096, &none).name(), "gemv_shuf");
    assert_eq!(pick_nvfp4(32, 4096, 4096, &none), Nvfp4Plan::N8);
    assert_eq!(pick_nvfp4(64, 16384, 4096, &none), Nvfp4Plan::Reg);
    assert_eq!(pick_nvfp4(72, 4096, 4096, &none), Nvfp4Plan::N8);
    assert_eq!(pick_nvfp4(7, 4096, 4096, &none), Nvfp4Plan::Broadcast);
    assert_eq!(pick_nvfp4(16, 96, 4096, &none), Nvfp4Plan::Coop);
    assert_eq!(pick_nvfp4(16, 48, 4096, &none), Nvfp4Plan::Broadcast);
    let all = choices(&ALL);
    assert_eq!(pick_nvfp4(1024, 4096, 4096, &all).name(), "rot");
    assert_eq!(pick_nvfp4(1024, 4096, 4160, &all), Nvfp4Plan::Reg);
    assert_eq!(pick_nvfp4(31, 4096, 4096, &all), Nvfp4Plan::Broadcast);
    let names: Vec<&str> = [Nvfp4Plan::Reg, Nvfp4Plan::Coop, Nvfp4Plan::N8, Nvfp4Plan::Broadcast]
        .iter()
        .map(|p| p.name())
        .collect();
    assert_eq!(names, vec!["2dr", "2d_coop", "n8", "4a_broadcast"]);
}

#[test]
fn blocks_cut_shapes() {
    assert_eq!(dr_block(Gemm2drConfig { warps_m: 2, mu: 4, warps_n: 2, nu: 8 }), (128, 128));
    assert!(fits_2dr(128, 128) && fits_2dr(64, 32) && fits_2dr(128, 64));
    assert!(!fits_2dr(96, 128) && !fits_2dr(64, 16));
    assert!(fits_n8(64, 8) && !fits_n8(32, 8) && !fits_n8(64, 4));
    assert!(fits_2d(32, 16) && fits_2d(128, 32) && fits_2d(64, 48) && !fits_2d(16, 16) && !fits_2d(32, 8));
}

#[test]
fn rows_are_rounded_up() {
    let none = choices(&[]);
    let rows = |m| nvfp4_run_rows(m, 4096, 4096, &none);
    assert_eq!((rows(0), rows(1), rows(2), rows(16), rows(17)), (0, 1, 16, 16, 32));
    assert_eq!((rows(127), rows(128), rows(129), rows(1279)), (128, 128, 256, 1280));
    assert_eq!((rows(1280), rows(1281)), (1280, 1536));
    assert_eq!(nvfp4_run_rows(129, 4096, 4096, &choices(&ALL)), 129);
    assert_eq!(nvfp4_run_rows(97, 16384, 4096, &choices(&ALL)), 112);
    for m in 2..1500u32 {
        assert!(m <= rows(m) && rows(m) <= m + 255);
        for n in [32, 64, 96, 4096] {
            let run = nvfp4_run_rows(m, n, 4096, &none);
            assert_ne!(pick_nvfp4(run, n, 4096, &none), Nvfp4Plan::Broadcast);
        }
    }
}

#[test]
fn product_with_a_four_bit_weight() {
    let none = choices(&[]);
    let all = choices(&ALL);
    let w = weight();
    let l = nvfp4_linear_f16(&w, 20, None, &none, &none).unwrap();
    assert_eq!(l.plan, Nvfp4Plan::N8);
    let work = l.work.unwrap();
    assert_eq!(work.m_run, 32);
    assert_eq!(
        work.activation,
        Nvfp4Activation::Fresh {
            packed_bytes: 65536,
            scale_bytes: 32768,
            zero_from: Some(40960),
            scale_zero_from: None,
        }
    );
    assert_eq!((work.out_pad_bytes, work.out_bytes, work.build_shuffled), (Some(262144), 163840, false));
    let given = |packed_len, scales_len| Some(Prequant { packed_len, scales_len });
    let copy = |bytes, copy_bytes| Some(PaddedCopy { bytes, copy_bytes });
    let l = nvfp4_linear_f16(&w, 20, given(40960, 32768), &none, &none).unwrap();
    let padded = Nvfp4Activation::Given { packed: copy(65536, 40960), scales: None };
    assert_eq!(l.work.unwrap().activation, padded);
    let l = nvfp4_linear_f16(&w, 20, given(99999, 32767), &none, &none).unwrap();
    let padded = Nvfp4Activation::Given { packed: copy(65536, 65536), scales: copy(32768, 32767) };
    assert_eq!(l.work.unwrap().activation, padded);
    let l = nvfp4_linear_f16(&w, 130, given(7, 65536), &all, &all).unwrap();
    let work = l.work.unwrap();
    assert_eq!((work.m_run, work.out_pad_bytes), (130, None));
    assert_eq!(work.activation, Nvfp4Activation::Given { packed: None, scales: None });
    let l = nvfp4_linear_f16(&w, 0, None, &none, &none).unwrap();
    assert_eq!((l.plan, l.work), (Nvfp4Plan::Gemv, None));
    let l = nvfp4_linear_f16(&QuantWeight { n: 0, ..w }, 7, None, &none, &none).unwrap();
    assert_eq!(l.work, None);
    let raw = QuantWeight { shuffled: false, ..w };
    assert!(nvfp4_linear_f16(&raw, 1, None, &none, &none).unwrap().work.unwrap().build_shuffled);
}

#[test]
fn refused_four_bit_weights() {
    let none = choices(&[]);
    let w = weight();
    let e = |w: QuantWeight| nvfp4_linear_f16(&w, 4, None, &none, &none).unwrap_err();
    assert_eq!(e(QuantWeight { dtype: DType::MXFP8, ..w }), KernelError::Unsupported("nvfp4_linear_f16: вес должен быть NVFP4"));
    assert_eq!(e(QuantWeight { k: 100, ..w }), KernelError::Cuda1("nvfp4_linear_f16: K={} должно быть кратно 64", 100));
    assert_eq!(e(QuantWeight { scales_cuda: false, ..w }), KernelError::Unsupported("nvfp4_linear: scales W non-cuda"));
    let raw = QuantWeight { shuffled: false, ..w };
    assert_eq!(
        e(QuantWeight { packed: Packed::Released, ..raw }),
        KernelError::Cuda("nvfp4_linear: raw W освобождён, shuffled не построить")
    );
    assert_eq!(e(QuantWeight { packed: Packed::Host, ..raw }), KernelError::Unsupported("nvfp4_linear: packed W non-cuda"));
}

#[test]
fn product_with_an_eight_bit_weight() {
    let w = QuantWeight { dtype: DType::MXFP8, n: 256, k: 512, ..weight() };
    let p = mxfp8_linear_tiled(&w, 100).unwrap().unwrap();
    assert_eq!((p.m_pad, p.n, p.k, p.packed_bytes, p.scale_bytes, p.zero_tail), (128, 256, 512, 51200, 1600, None));
    assert_eq!(p.gemm, Mxfp8Gemm::Rotating { out_elems: 25600 });
    let w2 = QuantWeight { k: 384, ..w };
    let p = mxfp8_linear_tiled(&w2, 100).unwrap().unwrap();
    assert_eq!((p.packed_bytes, p.scale_bytes, p.zero_tail), (49152, 1536, Some((38400, 1200))));
    assert_eq!(p.gemm, Mxfp8Gemm::Scratch { scratch_elems: 32768, out_elems: 25600 });
    let p = mxfp8_linear_tiled(&w2, 128).unwrap().unwrap();
    assert_eq!((p.zero_tail, p.gemm), (None, Mxfp8Gemm::Direct { out_elems: 32768 }));
    assert_eq!(mxfp8_linear_tiled(&QuantWeight { n: 100, ..w }, 4), Ok(None));
    assert_eq!(mxfp8_linear_tiled(&QuantWeight { k: 100, ..w }, 4), Ok(None));
    let e = |w: QuantWeight| mxfp8_linear_tiled(&w, 4).unwrap_err();
    assert_eq!(e(QuantWeight { packed: Packed::Released, ..w }), KernelError::Cuda("mxfp8: packed W освобождён"));
    assert_eq!(e(QuantWeight { packed: Packed::Host, ..w }), KernelError::Unsupported("mxfp8: packed non-cuda"));
    assert_eq!(e(QuantWeight { scales_cuda: false, ..w }), KernelError::Unsupported("mxfp8: scales non-cuda"));
    assert_eq!(mxfp8_linear_prequant(&w, 100), Ok(Mxfp8Prequant { m: 100, n: 256, k: 512, out_elems: 25600 }));
    let e = |w: QuantWeight| mxfp8_linear_prequant(&w, 4).unwrap_err();
    assert_eq!(e(w2), KernelError::Unsupported("mxfp8 prequant: форма вне rot-пути"));
    assert_eq!(e(QuantWeight { packed: Packed::Released, ..w }), KernelError::Cuda("mxfp8 prequant: packed W освобождён"));
    assert_eq!(e(QuantWeight { packed: Packed::Host, ..w }), KernelError::Unsupported("mxfp8 prequant: packed non-cuda"));
    assert_eq!(e(QuantWeight { scales_cuda: false, ..w }), KernelError::Unsupported("mxfp8 prequant: scales non-cuda"));
}

#[test]
fn activation_buffers() {
    assert_eq!(nvfp4_act_buffer_sizes(20, 4096), (40960, 32768));
    assert_eq!(nvfp4_act_buffer_sizes(129, 64), (4128, 1024));
    assert_eq!(nvfp4_act_buffer_sizes(0, 64), (0, 0));
}

#[test]
fn a_quantised_activation_is_used_again() {
    let none = choices(&[]);
    let all = choices(&ALL);
    let w = weight();
    for (m, full) in [(1u32, &none), (20, &none), (130, &all), (300, &none), (1281, &none)] {
        let (len, scales) = nvfp4_act_buffer_sizes(m as usize, w.k as usize);
        let fresh = nvfp4_linear_f16(&w, m, None, full, full).unwrap();
        let given = Some(Prequant { packed_len: len, scales_len: scales });
        let given = nvfp4_linear_f16(&w, m, given, full, full).unwrap();
        assert_eq!(fresh.plan, given.plan);
        let (f, g) = (fresh.work.unwrap(), given.work.unwrap());
        assert_eq!((f.m_run, f.out_pad_bytes, f.out_bytes), (g.m_run, g.out_pad_bytes, g.out_bytes));
        match (f.activation, g.activation) {
            (
                Nvfp4Activation::Fresh { packed_bytes, scale_bytes, zero_from, scale_zero_from },
                Nvfp4Activation::Given { packed, scales: sc },
            ) => {
                assert_eq!(packed.map(|c| (c.bytes, c.copy_bytes)), zero_from.map(|z| (packed_bytes, z)));
                assert_eq!(sc.map(|c| (c.bytes, c.copy_bytes)), scale_zero_from.map(|z| (scale_bytes, z)));
                assert_eq!(sc.map_or(scales, |c| c.bytes), scale_bytes);
            }
            other => panic!("{:?}", other),
        }
    }
}

#[test]
fn scales_cover_the_rows_that_run() {
    let none = choices(&[]);
    let w = QuantWeight { n: 64, k: 64, ..weight() };
    assert_eq!(nvfp4_act_buffer_sizes(1281, 64), (40992, 5632));
    let given = Some(Prequant { packed_len: 40992, scales_len: 5632 });
    let work = nvfp4_linear_f16(&w, 1281, given, &none, &none).unwrap().work.unwrap();
    assert_eq!(work.m_run, 1536);
    assert_eq!(
        work.activation,
        Nvfp4Activation::Given {
            packed: Some(PaddedCopy { bytes: 49152, copy_bytes: 40992 }),
            scales: Some(PaddedCopy { bytes: 6144, copy_bytes: 5632 }),
        }
    );
    let work = nvfp4_linear_f16(&w, 1281, None, &none, &none).unwrap().work.unwrap();
    assert_eq!(
        work.activation,
        Nvfp4Activation::Fresh {
            packed_bytes: 49152,
            scale_bytes: 6144,
            zero_from: Some(40992),
            scale_zero_from: Some(5632),
        }
    );
}
