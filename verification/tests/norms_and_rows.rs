use synaptix_kernels_cuda::dtype::DType;
use synaptix_kernels_cuda::error::KernelError;
use synaptix_kernels_cuda::launch::Span;
use synaptix_kernels_cuda::reduction::groupnorm;
use synaptix_kernels_cuda::reduction::layernorm;
use synaptix_kernels_cuda::reduction::pixelnorm;
use synaptix_kernels_cuda::reduction::rmsnorm::{
    launch_cfg, row_block_threads, run_rms_norm, run_rms_norm_gated, run_rms_norm_u8, RmsVariant,
};
use synaptix_kernels_cuda::reduction::softmax::run_softmax;
use synaptix_kernels_cuda::reduction::topk;
use synaptix_kernels_cuda::scan::parallel_scan;

fn bytes(start: usize, end: usize) -> Span {
    Span { start, end }
}

#[test]
fn block_of_a_norm() {
    assert_eq!(row_block_threads(1, 100), 256);
    assert_eq!(row_block_threads(8, 513), 544);
    assert_eq!(row_block_threads(8, 4096), 1024);
    assert_eq!(row_block_threads(9, 4096), 256);
    for hidden in [1, 255, 256, 257, 1000, 1024, 5000] {
        let b = row_block_threads(3, hidden);
        assert!(b % 32 == 0 && b >= 256 && b <= 1024);
    }
    let l = launch_cfg("k", 0, 700);
    assert_eq!((l.grid, l.block), ((1, 1, 1), (704, 1, 1)));
}

#[test]
fn mean_square_norms() {
    let p = run_rms_norm(3, 64, RmsVariant::Qwen, DType::F16).unwrap();
    assert_eq!((p.launch.kernel, p.launch.grid, p.params.variant), ("rms_norm_f16", (3, 1, 1), 1));
    assert_eq!((p.params.batch, p.params.hidden, p.params.x_row_stride, p.params.g_row_stride), (3, 64, 64, 0));
    let p = run_rms_norm_gated(3, 64, DType::F32).unwrap();
    assert_eq!((p.launch.kernel, p.params.g_row_stride, p.params.variant), ("rms_norm_gated_f32", 64, 0));
    assert_eq!(run_rms_norm(1, 1, RmsVariant::Plain, DType::U8), Err(KernelError::Unsupported("rms_norm: dtype must be F32/F16/BF16")));
    assert_eq!(run_rms_norm_gated(1, 1, DType::U8), Err(KernelError::Unsupported("rms_norm_gated: dtype must be F32/F16/BF16")));
    let p = run_rms_norm_u8(2, 4, 6, 3, 64, RmsVariant::Plain, DType::BF16).unwrap().unwrap();
    assert_eq!((p.x, p.w, p.y), (bytes(2, 386), bytes(4, 132), bytes(6, 390)));
    assert_eq!(p.norm.launch.kernel, "rms_norm_bf16");
    assert_eq!(run_rms_norm_u8(0, 0, 0, 0, 64, RmsVariant::Plain, DType::U8), Ok(None));
    assert_eq!(run_rms_norm_u8(0, 0, 0, 1, 64, RmsVariant::Plain, DType::U8), Err(KernelError::Unsupported("rms_norm_u8: dtype")));
}

#[test]
fn layer_norms() {
    let p = layernorm::run(5, 64, true, DType::F32).unwrap();
    assert_eq!((p.launch.kernel, p.launch.grid, p.launch.block), ("layernorm_f32", (5, 1, 1), (256, 1, 1)));
    assert_eq!((p.params.has_beta, p.params.batch, p.params.hidden, p.params.y_row_stride), (1, 5, 64, 64));
    assert!(layernorm::run(5, 64, true, DType::U8).is_err());
    let p = layernorm::run_u8(2, 4, Some(6), 8, 5, 64, DType::F16).unwrap().unwrap();
    assert_eq!((p.x, p.w, p.beta, p.y), (bytes(2, 642), bytes(4, 132), Some(bytes(6, 134)), bytes(8, 648)));
    let p = layernorm::run_u8(2, 4, None, 8, 5, 64, DType::F16).unwrap().unwrap();
    assert_eq!((p.beta, p.norm.params.has_beta), (None, 0));
    assert_eq!(layernorm::run_u8(0, 0, None, 0, 5, 0, DType::U8), Ok(None));
    assert_eq!(layernorm::run_u8(0, 0, None, 0, 5, 1, DType::U8), Err(KernelError::Unsupported("layernorm_u8: dtype")));
}

#[test]
fn group_norms() {
    let p = groupnorm::run_u8(2, Some((4, 6)), 8, 2, 32, 100, 8, true, false, DType::F16).unwrap().unwrap();
    assert_eq!((p.launch.kernel, p.launch.grid), ("group_norm_f16", (16, 1, 1)));
    assert_eq!((p.x, p.y, p.affine), (bytes(2, 12802), bytes(8, 12808), Some((bytes(4, 68), bytes(6, 70)))));
    assert_eq!((p.params.c, p.params.hw, p.params.g, p.params.has_affine, p.params.apply_silu), (32, 100, 8, 1, 1));
    let p = groupnorm::run_u8(0, None, 0, 2, 32, 100, 8, false, true, DType::BF16).unwrap().unwrap();
    assert_eq!((p.launch.kernel, p.affine, p.params.has_affine, p.params.apply_silu), ("group_norm_nhwc_bf16", None, 0, 0));
    assert_eq!(groupnorm::run_u8(0, None, 0, 2, 32, 100, 0, false, true, DType::U8), Ok(None));
    assert_eq!(groupnorm::run_u8(0, None, 0, 2, 32, 100, 1, false, true, DType::U8), Err(KernelError::Unsupported("group_norm_u8: dtype")));
}

#[test]
fn point_norms() {
    let p = pixelnorm::run_u8(2, 4, 3, 16, 5000, true, DType::F32).unwrap().unwrap();
    assert_eq!((p.launch.kernel, p.launch.grid, p.launch.block), ("pixel_norm_f32", (5, 3, 1), (256, 1, 1)));
    assert_eq!((p.params.c, p.params.s, p.params.apply_silu), (16, 5000, 1));
    assert_eq!((p.x, p.y), (bytes(2, 960002), bytes(4, 960004)));
    let p = pixelnorm::run_u8(0, 0, 3, 16, 5000, false, DType::F16).unwrap().unwrap();
    assert_eq!(p.launch.grid, (3, 3, 1));
    assert!(p.launch.grid.0 * 256 * 8 >= 5000);
    assert_eq!(pixelnorm::run_u8(0, 0, 3, 16, 0, false, DType::U8), Ok(None));
    assert_eq!(pixelnorm::run_u8(0, 0, 3, 16, 1, false, DType::U8), Err(KernelError::Unsupported("pixel_norm_u8: dtype")));
}

#[test]
fn softmax_rows() {
    let p = run_softmax(0, 77, DType::F16).unwrap();
    assert_eq!((p.launch.kernel, p.launch.grid, p.batch, p.hidden), ("softmax_f16", (1, 1, 1), 0, 77));
    assert_eq!(run_softmax(1, 1, DType::U8), Err(KernelError::CudaDType("softmax: unsupported dtype {}", DType::U8)));
}

#[test]
fn largest_of_logits() {
    let p = topk::run(4, 32000, 50, DType::F32).unwrap();
    assert_eq!((p.launch.kernel, p.launch.grid, p.launch.shared_mem_bytes), ("topk_f32", (4, 1, 1), 6048));
    assert_eq!((p.batch, p.vocab, p.k), (4, 32000, 50));
    let mask = topk::run(1, topk::MAX_VOCAB, 1, DType::F16).unwrap().launch.shared_mem_bytes - 2048;
    assert!(mask <= topk::SMEM_OPT_IN_BYTES);
    assert_eq!(topk::SMEM_OPT_IN_BYTES, 101_376);
    assert_eq!(topk::run(1, 800_000, 1, DType::F16).unwrap().launch.shared_mem_bytes, 102_048);
    assert!(matches!(topk::run(1, 811_009, 1, DType::F16), Err(KernelError::Cuda2(_, 811_009, 811_008))));
    let roomy = |v| topk::run(1, v, 1, DType::F16).unwrap().launch.shared_mem_bytes <= topk::SMEM_OPT_IN_BYTES;
    assert!(roomy(topk::ROOMY_VOCAB) && !roomy(topk::ROOMY_VOCAB + 1) && !roomy(topk::MAX_VOCAB));
    assert!(matches!(topk::run(1, 10, 0, DType::F16), Err(KernelError::Cuda2(_, 0, 10))));
    assert!(matches!(topk::run(1, 10, 11, DType::F16), Err(KernelError::Cuda2(_, 11, 10))));
    assert_eq!(topk::run(1, 10, 1, DType::U8), Err(KernelError::Unsupported("topk: dtype must be F32/F16/BF16")));
}

#[test]
fn prefix_sums() {
    let p = parallel_scan::run(0, 8192, true, DType::BF16).unwrap();
    assert_eq!((p.launch.kernel, p.launch.grid, p.inclusive, p.n), ("scan_sum_bf16", (1, 1, 1), 1, 8192));
    assert_eq!(parallel_scan::run(3, 1, false, DType::F32).unwrap().inclusive, 0);
    assert!(matches!(parallel_scan::run(1, 8193, true, DType::F32), Err(KernelError::Cuda2(_, 8193, 8192))));
    assert!(parallel_scan::run(1, 0, true, DType::F32).is_err());
    assert!(parallel_scan::run(1, 1, true, DType::U8).is_err());
    assert!(parallel_scan::MAX_N <= parallel_scan::BLOCK * parallel_scan::MAX_PER_THREAD);
}

#[test]
fn norms_by_element_type() {
    assert_eq!(layernorm::run_f32(5, 64, true), layernorm::run(5, 64, true, DType::F32));
    assert_eq!(layernorm::run_f16(5, 64, true), layernorm::run(5, 64, true, DType::F16));
    assert_eq!(layernorm::run_bf16(5, 64, false), layernorm::run(5, 64, false, DType::BF16));
    assert_eq!(topk::run_f32(5, 64, 2), topk::run(5, 64, 2, DType::F32));
    assert_eq!(topk::run_f16(5, 64, 2), topk::run(5, 64, 2, DType::F16));
    assert_eq!(topk::run_bf16(5, 64, 65), topk::run(5, 64, 65, DType::BF16));
    assert_eq!(parallel_scan::run_f32(5, 64, true), parallel_scan::run(5, 64, true, DType::F32));
    assert_eq!(parallel_scan::run_f16(5, 64, true), parallel_scan::run(5, 64, true, DType::F16));
    assert_eq!(parallel_scan::run_bf16(5, 0, true), parallel_scan::run(5, 0, true, DType::BF16));
}
