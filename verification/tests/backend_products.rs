use synaptix_kernels_cuda::cuda_backend::linear::{
    nvfp4_weight_only, LinearEpilogue, LinearPlan, LinearQuantPlan, MatmulPlan, PrequantPlan,
};
use synaptix_kernels_cuda::cuda_backend::CudaBackend;
use synaptix_kernels_cuda::dtype::DType;
use synaptix_kernels_cuda::elementwise::quant::QuantSwitches;
use synaptix_kernels_cuda::error::KernelError;
use synaptix_kernels_cuda::gemm::dispatch::{FullChoice, FullChoices, Mxfp8Prequant, Nvfp4Plan, Prequant};
use synaptix_kernels_cuda::layout::{Layout, Operand};
use synaptix_kernels_cuda::weight::{Packed, QuantWeight};

const B: CudaBackend = CudaBackend;

fn dense(dims: &[usize]) -> Vec<isize> {
    let mut s = vec![1isize; dims.len()];
    for i in (0..dims.len().saturating_sub(1)).rev() {
        s[i] = s[i + 1] * dims[i + 1] as isize;
    }
    s
}

fn size(dtype: DType) -> usize {
    match dtype {
        DType::F16 | DType::BF16 => 2,
        DType::U8 | DType::MXFP8 => 1,
        DType::I64 | DType::F64 => 8,
        _ => 4,
    }
}

fn at(dtype: DType, dims: &[usize], offset: usize) -> Operand {
    Operand {
        cuda: true,
        layout: Layout {
            dtype,
            dims: dims.to_vec(),
            strides: dense(dims),
            offset,
            byte_offset: offset * size(dtype),
            numel: dims.iter().product(),
            contiguous: true,
            dense: true,
        },
    }
}

fn t(dtype: DType, dims: &[usize]) -> Operand {
    at(dtype, dims, 0)
}

fn host(mut o: Operand) -> Operand {
    o.cuda = false;
    o
}

fn gappy(mut o: Operand) -> Operand {
    for s in o.layout.strides.iter_mut() {
        *s *= 2;
    }
    o.layout.contiguous = false;
    o.layout.dense = false;
    o
}

fn un(text: &'static str) -> KernelError {
    KernelError::Unsupported(text)
}

fn none() -> FullChoices {
    let c = FullChoice { persistent: false, fname: "full", fits: false };
    FullChoices {
        c_128_256_s3_swz_rot: c,
        c_128_256_s3_swz_drot: c,
        c_128_64_s4_swz: c,
        c_128_64_s3_swz: c,
        c_persist_c256_s4_swz: c,
        c_persist_c256_s3_swz: c,
        c_128_128_c256_s4_swz_drot: c,
        c_128_128_c256_s4_swz: c,
        c_128_128_c256_s3_swz: c,
    }
}

fn weight(dtype: DType, n: usize, k: usize) -> QuantWeight {
    QuantWeight { dtype, n, k, packed: Packed::Device, scales_cuda: true, shuffled: true }
}

#[test]
fn products_of_matrices() {
    let f = |d: &[usize]| t(DType::F32, d);
    let dst = f(&[2, 3, 4, 7]);
    let p = B.matmul(&f(&[2, 3, 4, 5]), &f(&[5, 7]), &dst).unwrap();
    assert_eq!(p, MatmulPlan { dtype: DType::F32, m: 4, n: 7, k: 5, batch: 6, b_broadcast: true });
    let p = B.matmul(&f(&[2, 3, 4, 5]), &f(&[2, 3, 5, 7]), &dst).unwrap();
    assert_eq!((p.batch, p.b_broadcast), (6, false));
    let p = B.matmul(&t(DType::BF16, &[4, 5]), &t(DType::BF16, &[5, 7]), &dst).unwrap();
    assert_eq!((p.dtype, p.batch, p.b_broadcast), (DType::BF16, 1, false));
    let (a, b) = (f(&[4, 5]), f(&[5, 7]));
    assert_eq!(B.matmul(&gappy(f(&[4, 5])), &b, &dst), Err(KernelError::NonContiguous));
    assert_eq!(B.matmul(&a, &gappy(f(&[5, 7])), &dst), Err(KernelError::NonContiguous));
    assert_eq!(B.matmul(&host(f(&[4, 5])), &b, &dst), Err(un("matmul: a non-cuda")));
    assert_eq!(B.matmul(&a, &host(f(&[5, 7])), &dst), Err(un("matmul: b non-cuda")));
    assert_eq!(B.matmul(&a, &b, &host(f(&[4, 7]))), Err(un("matmul: dst non-cuda")));
    assert_eq!(
        B.matmul(&t(DType::U8, &[4, 5]), &b, &dst),
        Err(un("dense matmul: dtype не поддержан (best_cu = F16/BF16/F32)"))
    );
}

#[test]
fn products_with_a_weight() {
    let h = |d: &[usize]| t(DType::F16, d);
    let (w, out) = (h(&[8, 16]), h(&[3, 8]));
    assert_eq!(
        B.linear(&at(DType::F16, &[1, 16], 5), &at(DType::F16, &[8, 16], 9), &out),
        Ok(LinearPlan::Gemv { dtype: DType::F16, n: 8, k: 16, w_byte_off: 18, x_byte_off: 10 })
    );
    assert_eq!(
        B.linear(&h(&[3, 16]), &w, &out),
        Ok(LinearPlan::Gemm { dtype: DType::F16, n: 8, k: 16, m: 3 })
    );
    let e = |x: Operand, w: &Operand, o: &Operand| B.linear(&x, w, o).unwrap_err();
    assert_eq!(e(t(DType::F32, &[3, 16]), &w, &out), un("cuda linear: dtype mismatch x/w"));
    assert_eq!(e(h(&[]), &w, &out), un("cuda linear: x scalar"));
    assert_eq!(e(h(&[3, 15]), &w, &out), un("cuda linear: weight shape"));
    assert_eq!(e(h(&[3, 16]), &h(&[8, 2, 8]), &out), un("cuda linear: weight shape"));
    assert_eq!(e(gappy(h(&[3, 16])), &w, &out), KernelError::NonContiguous);
    assert_eq!(e(host(h(&[3, 16])), &w, &out), un("cuda linear: x non-cuda"));
    assert_eq!(e(h(&[3, 16]), &host(h(&[8, 16])), &out), un("cuda linear: w non-cuda"));
    assert_eq!(e(h(&[3, 16]), &w, &host(h(&[3, 8]))), un("cuda linear: out non-cuda"));
    assert_eq!(
        e(at(DType::F16, &[3, 16], 16), &w, &out),
        un("cuda linear M>1: nonzero offset → matmul path")
    );
    let single = |d: &[usize]| t(DType::F32, d);
    assert_eq!(
        e(single(&[3, 16]), &single(&[8, 16]), &out),
        un("cuda linear M>1: не BF16/F16 best_cu (F32 → matmul-fallback)")
    );
    assert!(matches!(B.linear(&single(&[16]), &single(&[8, 16]), &out), Ok(LinearPlan::Gemv { .. })));
}

#[test]
fn products_with_an_epilogue() {
    let h = |d: &[usize]| t(DType::BF16, d);
    let (x, w, out) = (h(&[3, 16]), h(&[8, 16]), h(&[3, 8]));
    let (bias, res) = (h(&[8]), h(&[3, 8]));
    let p = B.linear_epilogue(&x, &w, Some(&bias), Some(&res), &out).unwrap();
    assert_eq!(
        p,
        LinearEpilogue { dtype: DType::BF16, n: 8, k: 16, m: 3, bias: true, residual: true }
    );
    // What the fused kernel takes, the plain product takes too.
    assert_eq!(
        B.linear(&x, &w, &out),
        Ok(LinearPlan::Gemm { dtype: p.dtype, n: p.n, k: p.k, m: p.m })
    );
    let p = B.linear_epilogue(&x, &w, None, None, &out).unwrap();
    assert_eq!((p.bias, p.residual), (false, false));
    let e = |x: &Operand, w: &Operand, b: Option<&Operand>, r: Option<&Operand>, o: &Operand| {
        B.linear_epilogue(x, w, b, r, o).unwrap_err()
    };
    let f = t(DType::F32, &[3, 16]);
    assert_eq!(e(&f, &w, None, None, &out), un("linear_epilogue: dtype"));
    assert_eq!(e(&x, &t(DType::F16, &[8, 16]), None, None, &out), un("linear_epilogue: dtype"));
    assert_eq!(e(&h(&[]), &w, None, None, &out), un("linear_epilogue: x scalar"));
    assert_eq!(e(&h(&[1, 16]), &w, None, None, &out), un("linear_epilogue: shape/M"));
    assert_eq!(e(&gappy(h(&[3, 16])), &w, None, None, &out), KernelError::NonContiguous);
    let later = at(DType::BF16, &[3, 16], 16);
    assert_eq!(e(&later, &w, None, None, &out), un("linear_epilogue: nonzero offset"));
    assert_eq!(e(&x, &w, Some(&h(&[7])), None, &out), un("linear_epilogue: bias shape"));
    assert_eq!(e(&x, &w, Some(&host(h(&[8]))), None, &out), un("linear_epilogue: bias non-cuda"));
    assert_eq!(e(&x, &w, None, Some(&h(&[3, 7])), &out), un("linear_epilogue: residual shape"));
    let late = at(DType::BF16, &[3, 8], 8);
    assert_eq!(e(&x, &w, None, Some(&late), &out), un("linear_epilogue: residual shape"));
    assert_eq!(
        e(&x, &w, None, Some(&host(h(&[3, 8]))), &out),
        un("linear_epilogue: residual non-cuda")
    );
    assert_eq!(e(&host(h(&[3, 16])), &w, None, None, &out), un("linear_epilogue: x non-cuda"));
    assert_eq!(e(&x, &host(h(&[8, 16])), None, None, &out), un("linear_epilogue: w non-cuda"));
    assert_eq!(e(&x, &w, None, None, &host(h(&[3, 8]))), un("linear_epilogue: out non-cuda"));
}

#[test]
fn products_with_a_quantised_weight() {
    let s = QuantSwitches::default();
    let full = none();
    let out = t(DType::F16, &[20, 4096]);
    let run = |x: &Operand, w: &QuantWeight, o: &Operand, wo: bool| {
        B.linear_quant(x, w, o, wo, &s, 16, &full, &full)
    };
    let w4 = weight(DType::NVFP4, 4096, 4096);
    let x = t(DType::F16, &[20, 4096]);
    match run(&x, &w4, &out, false).unwrap() {
        LinearQuantPlan::Nvfp4 { bf16, product } => {
            assert!(!bf16);
            assert_eq!((product.plan, product.work.unwrap().m_run), (Nvfp4Plan::N8, 32));
        }
        _ => panic!("not a four-bit product"),
    }
    match run(&x, &w4, &out, true).unwrap() {
        LinearQuantPlan::WeightOnly { w_bytes, n, k, m, .. } => {
            assert_eq!((w_bytes, n, k, m), (4096 * 4096 * 2, 4096, 4096, 20));
        }
        _ => panic!("not dequantised"),
    }
    let xb = t(DType::BF16, &[20, 4096]);
    assert!(matches!(run(&xb, &w4, &out, true), Ok(LinearQuantPlan::Nvfp4 { bf16: true, .. })));
    let w8 = weight(DType::MXFP8, 256, 512);
    match run(&t(DType::F16, &[1, 512]), &w8, &out, false).unwrap() {
        LinearQuantPlan::Mxfp8Gemv { quant, packed_bytes, scale_bytes, out_elems, n, k } => {
            assert_eq!((packed_bytes, scale_bytes, out_elems, n, k), (512, 16, 256, 256, 512));
            assert_eq!((quant.launch.kernel, quant.rows, quant.k), ("mxfp8_quant_natural_fast4", 1, 512));
        }
        _ => panic!("not one row"),
    }
    match run(&t(DType::F16, &[100, 512]), &w8, &out, false).unwrap() {
        LinearQuantPlan::Mxfp8Tiled(p) => assert_eq!((p.m_pad, p.n, p.k), (128, 256, 512)),
        _ => panic!("not tiled"),
    }
    assert_eq!(
        run(&t(DType::F16, &[100, 512]), &weight(DType::MXFP8, 100, 512), &out, false),
        Ok(LinearQuantPlan::Mxfp8Fallback { m: 100 })
    );
    let e = |x: &Operand, w: &QuantWeight, o: &Operand, wo: bool| run(x, w, o, wo).unwrap_err();
    assert_eq!(e(&gappy(t(DType::F16, &[20, 4096])), &w4, &out, false), KernelError::NonContiguous);
    assert_eq!(e(&host(t(DType::F16, &[20, 4096])), &w4, &out, false), un("linear_quant: x non-cuda"));
    assert_eq!(e(&x, &weight(DType::NVFP4, 4096, 0), &out, false), un("linear_quant: K=0"));
    assert_eq!(e(&x, &w4, &host(t(DType::F16, &[20])), false), un("linear_quant: out non-cuda"));
    assert_eq!(e(&x, &weight(DType::F16, 8, 4096), &out, false), un("linear_quant: dtype веса"));
    assert_eq!(
        e(&x, &weight(DType::NVFP4, 8, 40), &out, true),
        KernelError::Cuda1("linear_quant NVFP4 WO: K={} должно быть кратно 16", 40)
    );
    let with = |w: QuantWeight, packed: Packed, scales_cuda: bool| QuantWeight { packed, scales_cuda, ..w };
    assert_eq!(
        e(&x, &with(w4, Packed::Released, true), &out, true),
        KernelError::Cuda("linear_quant NVFP4 WO: packed W освобождён")
    );
    assert_eq!(
        e(&x, &with(w4, Packed::Host, true), &out, true),
        un("linear_quant NVFP4 WO: packed W non-cuda")
    );
    assert_eq!(
        e(&x, &with(w4, Packed::Device, false), &out, true),
        un("linear_quant NVFP4 WO: scales W non-cuda")
    );
    let x8 = t(DType::F16, &[2, 512]);
    assert_eq!(
        e(&t(DType::BF16, &[2, 512]), &w8, &out, false),
        un("linear_quant MXFP8: активация BF16 не поддержана")
    );
    assert_eq!(
        e(&x8, &weight(DType::MXFP8, 256, 48), &out, false),
        KernelError::Cuda1("linear_quant MXFP8: K={} должно быть кратно 32", 48)
    );
    assert_eq!(
        e(&x8, &with(w8, Packed::Released, true), &out, false),
        KernelError::Cuda("linear_quant MXFP8: packed W освобождён")
    );
    assert_eq!(
        e(&x8, &with(w8, Packed::Host, true), &out, false),
        un("linear_quant MXFP8: packed W non-cuda")
    );
    assert_eq!(
        e(&x8, &with(w8, Packed::Device, false), &out, false),
        un("linear_quant MXFP8: scales W non-cuda")
    );
}

#[test]
fn products_of_quantised_rows() {
    let full = none();
    let out = t(DType::F16, &[100, 256]);
    let run = |pc: bool, sc: bool, w: &QuantWeight, o: &Operand| {
        let given = Prequant { packed_len: 25600, scales_len: 4096 };
        B.linear_quant_prequant(pc, given, sc, w, o, 100, &full, &full)
    };
    let w8 = weight(DType::MXFP8, 256, 512);
    assert_eq!(
        run(true, true, &w8, &out),
        Ok(PrequantPlan::Mxfp8(Mxfp8Prequant { m: 100, n: 256, k: 512, out_elems: 25600 }))
    );
    let w4 = weight(DType::NVFP4, 256, 512);
    assert!(matches!(
        run(true, true, &w4, &t(DType::BF16, &[100, 256])),
        Ok(PrequantPlan::Nvfp4 { bf16: true, .. })
    ));
    assert_eq!(run(false, true, &w8, &out), Err(un("linear_quant_prequant: packed non-cuda")));
    assert_eq!(run(true, false, &w8, &out), Err(un("linear_quant_prequant: scales non-cuda")));
    assert_eq!(
        run(true, true, &w8, &host(t(DType::F16, &[100, 256]))),
        Err(un("linear_quant_prequant: out non-cuda"))
    );
    assert_eq!(
        run(true, true, &w8, &t(DType::BF16, &[100, 256])),
        Err(un("linear_quant_prequant MXFP8: BF16-выход не поддержан"))
    );
    assert_eq!(
        run(true, true, &weight(DType::F16, 256, 512), &out),
        Err(un("linear_quant_prequant: вес не NVFP4/MXFP8"))
    );
}

#[test]
fn weight_only_switch() {
    assert!(nvfp4_weight_only(Some("1")));
    assert!(!nvfp4_weight_only(Some("0")));
    assert!(!nvfp4_weight_only(Some("11")));
    assert!(!nvfp4_weight_only(Some("")));
    assert!(!nvfp4_weight_only(None));
}
