use synaptix_kernels_cuda::cuda_backend::memory::AllocStep;
use synaptix_kernels_cuda::cuda_backend::quant_ops::{ActOperands, ModQuantOperands};
use synaptix_kernels_cuda::cuda_backend::tensor_ops::CopyPlan;
use synaptix_kernels_cuda::cuda_backend::{CudaBackend, Device};
use synaptix_kernels_cuda::dtype::DType;
use synaptix_kernels_cuda::elementwise::quant::{Nvfp4QuantPlan, QuantSwitches};
use synaptix_kernels_cuda::error::KernelError;
use synaptix_kernels_cuda::kernels::elementwise::{BinaryOp, BinaryPlan, CastPlan, UnaryOp, UnaryPlan};
use synaptix_kernels_cuda::kernels::reduce::ReduceOp;
use synaptix_kernels_cuda::launch::Span;
use synaptix_kernels_cuda::layout::{Layout, Operand};

const B: CudaBackend = CudaBackend;

fn dense(dims: &[usize]) -> Vec<isize> {
    let mut s = vec![1isize; dims.len()];
    for i in (0..dims.len().saturating_sub(1)).rev() {
        s[i] = s[i + 1] * dims[i + 1] as isize;
    }
    s
}

fn size(dtype: DType) -> usize {
    match dtype {
        DType::F16 | DType::BF16 => 2,
        DType::U8 => 1,
        DType::I64 | DType::F64 => 8,
        _ => 4,
    }
}

fn at(dtype: DType, dims: &[usize], offset: usize) -> Operand {
    Operand {
        cuda: true,
        layout: Layout {
            dtype,
            dims: dims.to_vec(),
            strides: dense(dims),
            offset,
            byte_offset: offset * size(dtype),
            numel: dims.iter().product(),
            contiguous: true,
            dense: true,
        },
    }
}

fn t(dtype: DType, dims: &[usize]) -> Operand {
    at(dtype, dims, 0)
}

fn host(mut o: Operand) -> Operand {
    o.cuda = false;
    o
}

fn gappy(mut o: Operand) -> Operand {
    for s in o.layout.strides.iter_mut() {
        *s *= 2;
    }
    o.layout.contiguous = false;
    o.layout.dense = false;
    o
}

fn bytes(start: usize, end: usize) -> Span {
    Span { start, end }
}

fn un(text: &'static str) -> KernelError {
    KernelError::Unsupported(text)
}

#[test]
fn allocation_course() {
    assert_eq!(B.device_kind(), Device::Cuda(0));
    let step = |f| B.alloc_zeros(100, Device::Cuda(3), f);
    assert_eq!(step(0), Ok(AllocStep { ordinal: 3, drains: 0, pause_ms: 0 }));
    assert_eq!(step(1), Ok(AllocStep { ordinal: 3, drains: 2, pause_ms: 0 }));
    assert_eq!(step(2), Ok(AllocStep { ordinal: 3, drains: 1, pause_ms: 50 }));
    assert_eq!(step(5), Ok(AllocStep { ordinal: 3, drains: 1, pause_ms: 200 }));
    assert_eq!(step(6), Err(KernelError::Cuda1("alloc_zeros({}) after trim+retries: OOM", 100)));
    let all: u64 = (0..6).map(|f| step(f).unwrap().pause_ms).sum();
    assert_eq!(all, 500);
    assert_eq!(B.alloc_zeros(1, Device::Cpu, 0), Err(un("CudaBackend::alloc_zeros on non-Cuda")));
    assert_eq!(B.alloc_uninit(1, Device::Cpu, 0), Err(un("CudaBackend::alloc_uninit on non-Cuda")));
    assert_eq!(B.alloc_uninit(7, Device::Cuda(0), 9), Err(KernelError::Cuda1("alloc_uninit({}) after trim+retries: OOM", 7)));
    assert_eq!(B.alloc_uninit(7, Device::Cuda(0), 3), B.alloc_zeros(7, Device::Cuda(0), 3));
}

#[test]
fn copies() {
    let d = || t(DType::F32, &[2, 4]);
    assert_eq!(B.copy(&d(), &d()), Ok(CopyPlan::Memcpy));
    match B.copy(&gappy(d()), &d()).unwrap() {
        CopyPlan::Gather(UnaryPlan::Strided { launch, params }) => {
            assert_eq!((launch.kernel, params.op_code, params.numel), ("unary_f32", 14, 8));
        }
        _ => panic!("not element by element"),
    }
    assert_eq!(B.copy(&host(d()), &d()), Err(un("cuda copy: src non-cuda")));
    assert_eq!(B.copy(&d(), &host(d())), Err(un("cuda copy: dst non-cuda")));
    assert_eq!(B.copy(&d(), &gappy(d())), Err(KernelError::NonContiguous));
    assert_eq!(B.copy(&host(gappy(d())), &d()), Err(un("cuda copy: src non-cuda")));
}

#[test]
fn element_wise_requests() {
    let f = || t(DType::F32, &[2, 4]);
    assert!(matches!(B.cast(&f(), &t(DType::F16, &[2, 4])), Ok(CastPlan::Flat { .. })));
    assert_eq!(B.cast(&host(f()), &f()), Err(un("cuda cast: src non-cuda")));
    assert!(matches!(B.unary(UnaryOp::Exp, &f(), &f()), Ok(UnaryPlan::Flat { op_code: 5, .. })));
    assert_eq!(B.unary(UnaryOp::Exp, &host(f()), &f()), Err(un("cuda unary: src non-cuda")));
    assert!(matches!(B.binary(BinaryOp::Max, &f(), &f(), &f()), Ok(BinaryPlan::Fast { op_code: 4, .. })));
    assert_eq!(B.binary(BinaryOp::Max, &host(f()), &f(), &f()), Err(un("cuda binary: a non-cuda")));
    let h = || t(DType::F16, &[2, 8]);
    assert_eq!(B.ternary_fused(0, &h(), &h(), &h(), &h()).unwrap().launch.kernel, "fma_flat_f16");
    assert_eq!(B.ternary_fused(1, &h(), &h(), &t(DType::F16, &[8]), &h()).unwrap().launch.kernel, "fma_rowb_f16");
    assert_eq!(B.ternary_fused(3, &h(), &h(), &h(), &h()), Err(un("ternary fused: kind")));
    assert_eq!(B.ternary_fused(3, &host(h()), &h(), &h(), &h()), Err(un("ternary fused: x non-cuda")));
    let x = t(DType::F32, &[1, 2, 10]);
    let w = t(DType::F32, &[2, 1, 3]);
    let o = t(DType::F32, &[1, 2, 8]);
    assert_eq!(B.dwconv1d(&x, &w, None, &o, 1, 0, false).unwrap().total, 16);
    assert_eq!(B.reduce(ReduceOp::Sum, &f(), &t(DType::F32, &[2]), &vec![1]).unwrap().params.inner_size, 4);
    assert_eq!(B.reduce(ReduceOp::Sum, &host(f()), &f(), &vec![1]), Err(un("cuda reduce: src non-cuda")));
}

#[test]
fn gated_activation() {
    let f = || t(DType::F16, &[3, 100]);
    let p = B.silu_and_mul(&at(DType::F16, &[3, 100], 4), &f(), &f()).unwrap().unwrap();
    assert_eq!((p.launch.kernel, p.launch.grid), ("silu_and_mul_f16", (2, 1, 1)));
    assert_eq!(p.total, 300);
    assert_eq!((p.gate, p.up, p.out), (bytes(8, 608), bytes(0, 600), bytes(0, 600)));
    let e = |a: Operand, b: Operand, c: Operand| B.silu_and_mul(&a, &b, &c).unwrap_err();
    assert_eq!(e(f(), t(DType::F32, &[3, 100]), f()), un("cuda silu_and_mul: dtype mismatch"));
    assert_eq!(e(gappy(f()), f(), f()), KernelError::NonContiguous);
    assert_eq!(e(f(), t(DType::F16, &[3]), f()), un("cuda silu_and_mul: shape mismatch"));
    assert_eq!(e(host(f()), f(), f()), un("cuda silu_and_mul: gate non-cuda"));
    assert_eq!(e(f(), host(f()), f()), un("cuda silu_and_mul: up non-cuda"));
    assert_eq!(e(f(), f(), host(f())), un("cuda silu_and_mul: out non-cuda"));
    let u = || t(DType::U32, &[3]);
    assert_eq!(e(u(), u(), u()), KernelError::UnsupportedDType("cuda silu_and_mul: dtype {}", DType::U32));
    let z = || t(DType::U32, &[0]);
    assert_eq!(B.silu_and_mul(&z(), &z(), &z()), Ok(None));
}

#[test]
fn norms_of_tensors() {
    let x = || t(DType::F16, &[3, 5, 64]);
    let w = || t(DType::F16, &[64]);
    let p = B.rms_norm(&at(DType::F16, &[3, 5, 64], 8), &w(), &x(), true).unwrap().unwrap();
    assert_eq!((p.norm.launch.grid, p.norm.params.variant, p.x, p.y), ((15, 1, 1), 1, bytes(16, 1936), bytes(0, 1920)));
    let e = |a: Operand, b: Operand, c: Operand| B.rms_norm(&a, &b, &c, false).unwrap_err();
    assert_eq!(e(x(), t(DType::F32, &[64]), x()), un("cuda rms_norm: dtype mismatch x/w"));
    assert_eq!(e(t(DType::F16, &[]), w(), x()), un("cuda rms_norm: x scalar"));
    assert_eq!(e(x(), t(DType::F16, &[65]), x()), un("cuda rms_norm: weight shape"));
    assert_eq!(e(gappy(x()), w(), x()), KernelError::NonContiguous);
    assert_eq!(e(host(x()), w(), x()), un("cuda rms_norm: x non-cuda"));
    assert_eq!(e(x(), host(w()), x()), un("cuda rms_norm: w non-cuda"));
    assert_eq!(e(x(), w(), host(x())), un("cuda rms_norm: out non-cuda"));
    let p = B.rms_norm_residual(&x(), &x(), &w(), &x(), &x(), false).unwrap().unwrap();
    assert_eq!((p.norm.launch.kernel, p.norm.batch, p.norm.qwen), ("rmsnorm_residual_split_f16", 15, 0));
    let e = |a: Operand, r: Operand, b: Operand, h: Operand, y: Operand| {
        B.rms_norm_residual(&a, &r, &b, &h, &y, false).unwrap_err()
    };
    assert_eq!(e(x(), t(DType::F32, &[3]), w(), x(), x()), un("cuda rms_norm_residual: dtype mismatch"));
    assert_eq!(e(t(DType::F16, &[]), x(), w(), x(), x()), un("cuda rms_norm_residual: x scalar"));
    assert_eq!(e(x(), x(), x(), x(), x()), un("cuda rms_norm_residual: weight shape"));
    assert_eq!(e(at(DType::F16, &[3, 5, 64], 1), x(), w(), x(), x()), KernelError::NonContiguous);
    assert_eq!(e(host(x()), x(), w(), x(), x()), un("cuda rms_norm_residual: x non-cuda"));
    assert_eq!(e(x(), host(x()), w(), x(), x()), un("cuda rms_norm_residual: r non-cuda"));
    assert_eq!(e(x(), x(), host(w()), x(), x()), un("cuda rms_norm_residual: w non-cuda"));
    assert_eq!(e(x(), x(), w(), host(x()), x()), un("cuda rms_norm_residual: hidden_out non-cuda"));
    assert_eq!(e(x(), x(), w(), x(), host(x())), un("cuda rms_norm_residual: y non-cuda"));
    let p = B.layer_norm(&x(), &w(), Some(&at(DType::F16, &[64], 8)), &x()).unwrap().unwrap();
    assert_eq!((p.norm.params.has_beta, p.beta), (1, Some(bytes(16, 144))));
    let e = |a: Operand, b: Operand, s: Operand, c: Operand| B.layer_norm(&a, &b, Some(&s), &c).unwrap_err();
    assert_eq!(e(x(), t(DType::F32, &[64]), w(), x()), un("cuda layer_norm: dtype mismatch x/w"));
    assert_eq!(e(t(DType::F16, &[]), w(), w(), x()), un("cuda layer_norm: x scalar"));
    assert_eq!(e(x(), x(), w(), x()), un("cuda layer_norm: weight shape"));
    assert_eq!(e(gappy(x()), w(), w(), x()), KernelError::NonContiguous);
    assert_eq!(e(x(), w(), x(), x()), un("cuda layer_norm: bias shape/dtype"));
    assert_eq!(e(x(), w(), gappy(w()), x()), KernelError::NonContiguous);
    assert_eq!(e(host(x()), w(), w(), x()), un("cuda layer_norm: x non-cuda"));
    assert_eq!(e(x(), host(w()), w(), x()), un("cuda layer_norm: w non-cuda"));
    assert_eq!(e(x(), w(), w(), host(x())), un("cuda layer_norm: out non-cuda"));
    assert_eq!(e(x(), w(), host(w()), x()), un("cuda layer_norm: bias non-cuda"));
    assert_eq!(B.layer_norm(&t(DType::F16, &[0, 64]), &w(), None, &x()), Ok(None));
}

#[test]
fn weights_to_few_bits() {
    let s = QuantSwitches::default();
    let w = || t(DType::F16, &[32, 128]);
    let p = B.quantize_nvfp4(&w(), 32, 128, &s, 64).unwrap();
    assert_eq!((p.packed_bytes, p.scales_bytes), (2048, 1024));
    assert!(matches!(p.quant, Nvfp4QuantPlan::Fast { .. }));
    assert_eq!(B.quantize_nvfp4(&gappy(w()), 32, 128, &s, 0), Err(KernelError::NonContiguous));
    let text = un("quantize_nvfp4: требуется N%16==0 и K%64==0");
    assert_eq!(B.quantize_nvfp4(&w(), 33, 128, &s, 0), Err(text));
    assert_eq!(B.quantize_nvfp4(&w(), 32, 96, &s, 0), Err(text));
    assert_eq!(B.quantize_nvfp4(&host(w()), 32, 128, &s, 0), Err(un("quantize_nvfp4: w non-cuda")));
    let p = B.quantize_mxfp8(&w(), 32, 128, &s, 64).unwrap();
    assert_eq!((p.packed_bytes, p.scales_bytes, p.quant.launch.kernel), (4096, 128, "mxfp8_quant_natural_fast4"));
    assert_eq!(B.quantize_mxfp8(&gappy(w()), 32, 128, &s, 0), Err(KernelError::NonContiguous));
    assert_eq!(B.quantize_mxfp8(&w(), 32, 100, &s, 0), Err(un("quantize_mxfp8: требуется K%32==0")));
    assert_eq!(B.quantize_mxfp8(&host(w()), 32, 128, &s, 0), Err(un("quantize_mxfp8: w non-cuda")));
}

#[test]
fn activations_to_few_bits() {
    let s = QuantSwitches::default();
    let good = t(DType::F16, &[4, 64]);
    let o = ActOperands { x: &good, packed_cuda: true, scales_cuda: true };
    assert!(matches!(B.nvfp4_quantize_act(&o, 4, 64, &s, 8), Ok(Nvfp4QuantPlan::Slow { .. })));
    let far = at(DType::F16, &[4, 64], 1);
    let off = host(t(DType::F16, &[4, 64]));
    let e = |o: ActOperands| B.nvfp4_quantize_act(&o, 4, 64, &s, 0).unwrap_err();
    assert_eq!(e(ActOperands { x: &far, ..o }), KernelError::NonContiguous);
    assert_eq!(e(ActOperands { x: &off, ..o }), un("nvfp4_quantize_act: x non-cuda"));
    assert_eq!(e(ActOperands { packed_cuda: false, ..o }), un("nvfp4_quantize_act: packed non-cuda"));
    assert_eq!(e(ActOperands { scales_cuda: false, ..o }), un("nvfp4_quantize_act: scales non-cuda"));
    let p = B.silu_mul_quant_nvfp4(&ActOperands { x: &far, ..o }, 4, 32).unwrap();
    assert_eq!((p.bf16, p.quant.x), (false, bytes(2, 514)));
    let brain = t(DType::BF16, &[4, 64]);
    assert!(B.silu_mul_quant_nvfp4(&ActOperands { x: &brain, ..o }, 4, 32).unwrap().bf16);
    let single = t(DType::F32, &[4, 64]);
    let gap = gappy(t(DType::F16, &[4, 64]));
    let e = |o: ActOperands| B.silu_mul_quant_nvfp4(&o, 4, 32).unwrap_err();
    assert_eq!(e(ActOperands { x: &gap, ..o }), KernelError::NonContiguous);
    assert_eq!(e(ActOperands { x: &off, ..o }), un("silu_mul_quant_nvfp4: x non-cuda"));
    assert_eq!(e(ActOperands { x: &single, ..o }), un("silu_mul_quant_nvfp4: dtype"));
    assert_eq!(e(ActOperands { packed_cuda: false, ..o }), un("silu_mul_quant_nvfp4: packed non-cuda"));
    assert_eq!(e(ActOperands { scales_cuda: false, ..o }), un("silu_mul_quant_nvfp4: scales non-cuda"));
    let p = B.mxfp8_quantize_act(&ActOperands { x: &far, ..o }, 4, 64, &s, 16).unwrap();
    assert_eq!((p.x, p.quant.launch.kernel), (bytes(2, 514), "mxfp8_quant_natural_fast4"));
    let e = |o: ActOperands| B.mxfp8_quantize_act(&o, 4, 64, &s, 16).unwrap_err();
    assert_eq!(e(ActOperands { x: &gap, ..o }), KernelError::NonContiguous);
    assert_eq!(e(ActOperands { x: &single, ..o }), un("mxfp8_quantize_act: x не F16"));
    assert_eq!(e(ActOperands { x: &off, ..o }), un("mxfp8_quantize_act: x non-cuda"));
    assert_eq!(e(ActOperands { packed_cuda: false, ..o }), un("mxfp8_quantize_act: packed non-cuda"));
    assert_eq!(e(ActOperands { scales_cuda: false, ..o }), un("mxfp8_quantize_act: scales non-cuda"));
}

#[test]
fn norms_to_few_bits() {
    let x = t(DType::F16, &[4, 64]);
    let off = host(t(DType::F16, &[4, 64]));
    let gap = gappy(t(DType::F16, &[4, 64]));
    let o = ModQuantOperands { x: &x, scale: &x, shift: &x, y_cuda: true, packed_cuda: true, scales_cuda: true };
    let p = B.rms_mod_quant_nvfp4(&o, 4, 64, 0, 1).unwrap().unwrap();
    assert_eq!((p.launch.kernel, p.extra), ("rms_mod_quant_nvfp4_f16", None));
    let p = B.rms_mod_quant_mxfp8(&o, 4, 64, 3, 1).unwrap().unwrap();
    assert_eq!((p.launch.kernel, p.extra), ("rms_w_quant_mxfp8_f16", Some(1)));
    let p = B.rms_mod_quant_mxfp8(&o, 4, 64, 2, 1).unwrap().unwrap();
    assert_eq!(p.extra, Some(0));
    assert_eq!(B.rms_mod_quant_nvfp4(&o, 4, 64, 1, 2).unwrap().unwrap().launch.kernel, "ln_mod_quant_nvfp4_f16");
    let e = |o: ModQuantOperands| B.rms_mod_quant_nvfp4(&o, 4, 64, 0, 1).unwrap_err();
    assert_eq!(B.rms_mod_quant_nvfp4(&o, 4, 64, 4, 1), Err(KernelError::Cuda1("rms_mod_quant: неизвестный kind {}", 4)));
    assert_eq!(e(ModQuantOperands { scale: &gap, ..o }), KernelError::NonContiguous);
    assert_eq!(e(ModQuantOperands { x: &off, ..o }), un("rms_mod_quant: x non-cuda"));
    assert_eq!(e(ModQuantOperands { scale: &off, ..o }), un("rms_mod_quant: scale non-cuda"));
    assert_eq!(e(ModQuantOperands { shift: &off, ..o }), un("rms_mod_quant: shift non-cuda"));
    assert_eq!(e(ModQuantOperands { y_cuda: false, ..o }), un("rms_mod_quant: y non-cuda"));
    assert_eq!(e(ModQuantOperands { packed_cuda: false, ..o }), un("rms_mod_quant: packed non-cuda"));
    assert_eq!(e(ModQuantOperands { scales_cuda: false, ..o }), un("rms_mod_quant: scales non-cuda"));
    let e = |o: ModQuantOperands| B.rms_mod_quant_mxfp8(&o, 4, 64, 0, 1).unwrap_err();
    assert_eq!(B.rms_mod_quant_mxfp8(&o, 4, 64, 9, 1), Err(KernelError::Cuda1("rms_mod_quant_mxfp8: неизвестный kind {}", 9)));
    assert_eq!(e(ModQuantOperands { x: &off, ..o }), un("rms_mod_quant_mxfp8: x non-cuda"));
    assert_eq!(e(ModQuantOperands { y_cuda: false, ..o }), un("rms_mod_quant_mxfp8: y non-cuda"));
}

#[test]
fn gathers() {
    let table = || t(DType::F16, &[100, 8]);
    let ids = || at(DType::U32, &[5], 2);
    let out = || t(DType::F16, &[5, 8]);
    let p = B.embed_gather(&table(), &ids(), &out()).unwrap();
    assert_eq!(p.ids, bytes(8, 28));
    let g = p.gather.unwrap();
    assert_eq!((g.gather.n_ids, g.gather.dim, g.gather.vocab, g.table, g.out), (5, 8, 100, bytes(0, 1600), bytes(0, 80)));
    let e = |a: Operand, b: Operand, c: Operand| B.embed_gather(&a, &b, &c).unwrap_err();
    assert_eq!(e(table(), t(DType::I64, &[5]), out()), un("cuda embed_gather: ids must be U32"));
    assert_eq!(e(t(DType::F16, &[8]), ids(), out()), un("cuda embed_gather: table must be [vocab,dim]"));
    assert_eq!(e(gappy(table()), ids(), out()), KernelError::NonContiguous);
    assert_eq!(e(host(table()), ids(), out()), un("cuda embed_gather: table non-cuda"));
    assert_eq!(e(table(), host(ids()), out()), un("cuda embed_gather: ids non-cuda"));
    assert_eq!(e(table(), ids(), host(out())), un("cuda embed_gather: out non-cuda"));
    let p = B.embed_gather_mxfp8(true, true, &ids(), &out(), 100, 64).unwrap();
    assert_eq!((p.ids, p.n_ids, p.dim, p.vocab), (bytes(8, 28), 5, 64, 100));
    let e = |tc, sc, b: Operand, c: Operand| B.embed_gather_mxfp8(tc, sc, &b, &c, 100, 64).unwrap_err();
    assert_eq!(e(true, true, t(DType::I64, &[5]), out()), un("cuda embed_gather_mxfp8: ids must be U32"));
    assert_eq!(e(true, true, ids(), t(DType::F32, &[5])), un("cuda embed_gather_mxfp8: out must be F16"));
    assert_eq!(e(true, true, gappy(ids()), out()), KernelError::NonContiguous);
    assert_eq!(e(false, true, ids(), out()), un("cuda embed_gather_mxfp8: table non-cuda"));
    assert_eq!(e(true, false, ids(), out()), un("cuda embed_gather_mxfp8: scales non-cuda"));
    assert_eq!(e(true, true, host(ids()), out()), un("cuda embed_gather_mxfp8: ids non-cuda"));
    assert_eq!(e(true, true, ids(), host(out())), un("cuda embed_gather_mxfp8: out non-cuda"));
}

#[test]
fn rotations_of_tensors() {
    let x = || t(DType::F16, &[2, 3, 7, 64]);
    let c = || t(DType::F32, &[7, 32]);
    let p = B.rope_split(&x(), &c(), &c(), &x()).unwrap().unwrap();
    assert_eq!((p.launch.grid, p.launch.block, p.cos), ((42, 1, 1), (64, 1, 1), bytes(0, 896)));
    assert_eq!(p.args, (7, 64));
    let e = |a: Operand, b: Operand, s: Operand, o: Operand| B.rope_split(&a, &b, &s, &o).unwrap_err();
    assert_eq!(e(x(), t(DType::F16, &[7, 32]), c(), x()), un("cuda rope_split: cos/sin must be F32"));
    assert_eq!(e(t(DType::F16, &[64]), c(), c(), x()), un("cuda rope_split: x rank < 2"));
    assert_eq!(e(x(), t(DType::F32, &[8, 32]), c(), x()), un("cuda rope_split: cos shape"));
    assert_eq!(e(x(), c(), t(DType::F32, &[7, 31]), x()), un("cuda rope_split: sin shape"));
    assert_eq!(e(gappy(x()), c(), c(), x()), KernelError::NonContiguous);
    assert_eq!(e(host(x()), c(), c(), x()), un("cuda rope_split: x non-cuda"));
    assert_eq!(e(x(), host(c()), c(), x()), un("cuda rope_split: cos non-cuda"));
    assert_eq!(e(x(), c(), host(c()), x()), un("cuda rope_split: sin non-cuda"));
    assert_eq!(e(x(), c(), c(), host(x())), un("cuda rope_split: out non-cuda"));
}

#[test]
fn rotations_of_the_first_part() {
    let x = || t(DType::F16, &[2, 3, 7, 64]);
    let c = || t(DType::F32, &[7, 16]);
    let p = B.rope_split_partial(&x(), &c(), &c(), 32, &x()).unwrap().unwrap();
    assert_eq!((p.pos_div, p.rope.launch.grid, p.rope.cos), (1, (42, 1, 1), bytes(0, 448)));
    assert_eq!(p.rope.args, (7, 64, 32));
    let by_matrix = t(DType::F32, &[3, 16]);
    let p = B.rope_split_partial(&x(), &by_matrix, &t(DType::F32, &[3, 16]), 32, &x()).unwrap().unwrap();
    assert_eq!((p.pos_div, p.rope.cos, p.rope.args), (7, bytes(0, 192), (3, 64, 32)));
    for outer in 0..2u32 {
        for i in 0..3u32 {
            for j in 0..7u32 {
                let row = (outer * 3 + i) * 7 + j;
                assert_eq!(row % 7, j);
                assert_eq!(row / p.pos_div % 3, i);
            }
        }
    }
    let e = |a: Operand, b: Operand, s: Operand, r, o: Operand| B.rope_split_partial(&a, &b, &s, r, &o).unwrap_err();
    assert_eq!(e(x(), t(DType::F16, &[7, 16]), c(), 32, x()), un("cuda rope_split_partial: cos/sin must be F32"));
    assert_eq!(e(t(DType::F16, &[64]), c(), c(), 32, x()), un("cuda rope_split_partial: x rank < 2"));
    assert_eq!(e(x(), c(), c(), 0, x()), un("cuda rope_split_partial: rot_dim"));
    assert_eq!(e(x(), c(), c(), 66, x()), un("cuda rope_split_partial: rot_dim"));
    assert_eq!(e(x(), t(DType::F32, &[5, 16]), c(), 32, x()), un("cuda rope_split_partial: cos shape"));
    assert_eq!(e(x(), c(), t(DType::F32, &[3, 16]), 32, x()), un("cuda rope_split_partial: sin shape"));
    assert_eq!(e(gappy(x()), c(), c(), 32, x()), KernelError::NonContiguous);
    assert_eq!(e(host(x()), c(), c(), 32, x()), un("cuda rope_split_partial: x non-cuda"));
    assert_eq!(e(x(), host(c()), c(), 32, x()), un("cuda rope_split_partial: cos non-cuda"));
    assert_eq!(e(x(), c(), host(c()), 32, x()), un("cuda rope_split_partial: sin non-cuda"));
    assert_eq!(e(x(), c(), c(), 32, host(x())), un("cuda rope_split_partial: out non-cuda"));
}

#[test]
fn rotations_of_neighbours() {
    let x = || t(DType::F16, &[2, 7, 3, 64]);
    let c = || t(DType::F32, &[7, 64]);
    let p = B.rope_interleaved(&x(), &c(), &c(), 3, &x()).unwrap().unwrap();
    assert_eq!((p.launch.kernel, p.launch.grid, p.cos), ("rope_interleaved_f16", (42, 1, 1), bytes(0, 1792)));
    assert_eq!(p.args, (3, 7, 64));
    let e = |a: Operand, b: Operand, s: Operand, h, o: Operand| B.rope_interleaved(&a, &b, &s, h, &o).unwrap_err();
    assert_eq!(e(x(), t(DType::F16, &[7, 64]), c(), 3, x()), un("cuda rope_interleaved: cos/sin must be F32"));
    assert_eq!(e(t(DType::F16, &[64]), c(), c(), 3, x()), un("cuda rope_interleaved: x rank != 4"));
    assert_eq!(e(x(), c(), c(), 4, x()), un("cuda rope_interleaved: h mismatch"));
    assert_eq!(e(x(), t(DType::F32, &[7]), c(), 3, x()), un("cuda rope_interleaved: cos/sin numel"));
    assert_eq!(e(gappy(x()), c(), c(), 3, x()), KernelError::NonContiguous);
    assert_eq!(e(host(x()), c(), c(), 3, x()), un("cuda rope_interleaved: x non-cuda"));
    assert_eq!(e(x(), host(c()), c(), 3, x()), un("cuda rope_interleaved: cos non-cuda"));
    assert_eq!(e(x(), c(), host(c()), 3, x()), un("cuda rope_interleaved: sin non-cuda"));
    assert_eq!(e(x(), c(), c(), 3, host(x())), un("cuda rope_interleaved: out non-cuda"));
}

#[test]
fn rotations_at_a_device_position() {
    let x = || t(DType::F16, &[2, 3, 1, 64]);
    let c = || t(DType::F16, &[100, 32]);
    let s = || at(DType::U32, &[4], 1);
    let p = B.rope_apply_dev(&x(), &c(), &c(), &s(), &x(), 64).unwrap();
    assert_eq!(p.start_pos, bytes(4, 8));
    let r = p.rope.unwrap();
    assert_eq!((r.launch.kernel, r.launch.grid, r.cos), ("rope_apply_partial_f16", (6, 1, 1), bytes(0, 6400)));
    assert_eq!(r.args, (2, 3, 1, 64, 64));
    let e = |a: Operand, b: Operand, d: Operand, p: Operand, o: Operand| {
        B.rope_apply_dev(&a, &b, &d, &p, &o, 64).unwrap_err()
    };
    assert_eq!(e(x(), t(DType::F32, &[3200]), c(), s(), x()), un("cuda rope_apply_dev: cos/sin dtype must match x"));
    assert_eq!(e(x(), c(), c(), t(DType::I64, &[1]), x()), un("cuda rope_apply_dev: start_pos must be U32"));
    assert_eq!(e(t(DType::F16, &[64]), c(), c(), s(), x()), un("cuda rope_apply_dev: x must be rank-4 [b,h,t,hd]"));
    assert_eq!(e(gappy(x()), c(), c(), s(), x()), KernelError::NonContiguous);
    assert_eq!(e(x(), c(), t(DType::F16, &[3]), s(), x()), un("cuda rope_apply_dev: cos/sin numel mismatch"));
    assert_eq!(e(host(x()), c(), c(), s(), x()), un("cuda rope_apply_dev: x non-cuda"));
    assert_eq!(e(x(), host(c()), c(), s(), x()), un("cuda rope_apply_dev: cos non-cuda"));
    assert_eq!(e(x(), c(), host(c()), s(), x()), un("cuda rope_apply_dev: sin non-cuda"));
    assert_eq!(e(x(), c(), c(), host(s()), x()), un("cuda rope_apply_dev: start_pos non-cuda"));
    assert_eq!(e(x(), c(), c(), s(), host(x())), un("cuda rope_apply_dev: out non-cuda"));
}
