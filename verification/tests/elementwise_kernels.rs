use synaptix_kernels_cuda::dtype::DType;
use synaptix_kernels_cuda::error::KernelError;
use synaptix_kernels_cuda::kernels::dwconv1d::run_dwconv1d;
use synaptix_kernels_cuda::kernels::elementwise::{
    binary_code, launch_cfg, pad_to, run_binary, run_cast, run_ternary_fused, run_unary, unary_code,
    BinaryOp, BinaryPlan, BinaryShape, CastPlan, TernaryFusedKind, UnaryOp, UnaryPlan,
};
use synaptix_kernels_cuda::kernels::qwen4_decode::{
    group_rms_f16, hc_inject_f16, hc_mix_f16, scale_act_f16, weighted_rows_sum_f16,
};
use synaptix_kernels_cuda::kernels::reduce::{op_code, run_reduce, ReduceOp};
use synaptix_kernels_cuda::kernels::topk_rows::{topk_rows_f32, MAX_COLS};
use synaptix_kernels_cuda::kernels::topk_wide::topk_wide_f32;
use synaptix_kernels_cuda::launch::Span;
use synaptix_kernels_cuda::layout::{Layout, Operand};

fn dense(dims: &[usize]) -> Vec<isize> {
    let mut s = vec![1isize; dims.len()];
    for i in (0..dims.len().saturating_sub(1)).rev() {
        s[i] = s[i + 1] * dims[i + 1] as isize;
    }
    s
}

fn strided(dtype: DType, dims: &[usize], strides: &[isize], offset: usize) -> Operand {
    let contiguous = strides == dense(dims).as_slice();
    Operand {
        cuda: true,
        layout: Layout {
            dtype,
            dims: dims.to_vec(),
            strides: strides.to_vec(),
            offset,
            byte_offset: offset * 4,
            numel: dims.iter().product(),
            contiguous,
            dense: contiguous,
        },
    }
}

fn tensor(dtype: DType, dims: &[usize]) -> Operand {
    strided(dtype, dims, &dense(dims), 0)
}

fn host(mut o: Operand) -> Operand {
    o.cuda = false;
    o
}

#[test]
fn operation_numbers() {
    let all = [
        UnaryOp::Neg,
        UnaryOp::Abs,
        UnaryOp::Sqrt,
        UnaryOp::Sqr,
        UnaryOp::Recip,
        UnaryOp::Exp,
        UnaryOp::Log,
        UnaryOp::Sin,
        UnaryOp::Cos,
        UnaryOp::Silu,
        UnaryOp::GeluTanh,
        UnaryOp::Tanh,
        UnaryOp::Clamp,
        UnaryOp::Powf,
        UnaryOp::Affine,
        UnaryOp::Erf,
        UnaryOp::Sigmoid,
        UnaryOp::Relu,
        UnaryOp::Relu2,
        UnaryOp::LeakyRelu,
        UnaryOp::Sign,
        UnaryOp::StepGtZero,
        UnaryOp::GeluExact,
        UnaryOp::Round,
        UnaryOp::Floor,
        UnaryOp::Ceil,
    ];
    for (i, op) in all.iter().enumerate() {
        assert_eq!(unary_code(*op), i as i32);
    }
    let two = [BinaryOp::Add, BinaryOp::Sub, BinaryOp::Mul, BinaryOp::Div, BinaryOp::Max, BinaryOp::Min];
    for (i, op) in two.iter().enumerate() {
        assert_eq!(binary_code(*op), i as i32);
    }
    let red = [ReduceOp::Sum, ReduceOp::Mean, ReduceOp::Max, ReduceOp::ArgMax];
    for (i, op) in red.iter().enumerate() {
        assert_eq!(op_code(*op), i as i32);
    }
}

#[test]
fn thread_per_item() {
    assert_eq!(launch_cfg("k", 0).grid, (1, 1, 1));
    assert_eq!(launch_cfg("k", -5).grid, (1, 1, 1));
    assert_eq!(launch_cfg("k", 256).grid, (1, 1, 1));
    assert_eq!(launch_cfg("k", 257).grid, (2, 1, 1));
    assert_eq!(launch_cfg("k", 257).block, (256, 1, 1));
    assert_eq!(launch_cfg("k", i64::MAX).grid, (u32::MAX, 1, 1));
}

#[test]
fn padding_of_extents() {
    assert_eq!(pad_to(&vec![3, -2, 7]).unwrap(), [3, -2, 7, 0, 0, 0, 0, 0]);
    assert_eq!(pad_to(&vec![]).unwrap(), [0; 8]);
    assert!(pad_to(&vec![1; 9]).is_err());
    assert!(pad_to(&vec![1, 1 << 31]).is_err());
    assert_eq!(pad_to(&vec![i32::MAX as i64]).unwrap()[0], i32::MAX);
}

#[test]
fn unary_contiguous_is_flat() {
    let x = tensor(DType::F16, &[3, 100]);
    match run_unary(UnaryOp::Silu, &x, &tensor(DType::F16, &[3, 100])).unwrap() {
        UnaryPlan::Flat { launch, op_code, numel, in_offset } => {
            assert_eq!(launch.kernel, "unary_flat_f16");
            assert_eq!(launch.grid, (1, 1, 1));
            assert_eq!((op_code, numel, in_offset), (9, 300, 0));
        }
        _ => panic!("not flat"),
    }
}

#[test]
fn unary_misaligned_offset_is_strided() {
    let x = strided(DType::F32, &[2, 6], &[6, 1], 3);
    match run_unary(UnaryOp::Neg, &x, &tensor(DType::F32, &[2, 6])).unwrap() {
        UnaryPlan::Strided { launch, params } => {
            assert_eq!(launch.kernel, "unary_f32");
            assert_eq!(params.rank, 2);
            assert_eq!(params.numel, 12);
            assert_eq!(params.in_offset, 3);
            assert_eq!(params.dims, [2, 6, 0, 0, 0, 0, 0, 0]);
            assert_eq!(params.in_strides, [6, 1, 0, 0, 0, 0, 0, 0]);
        }
        _ => panic!("not strided"),
    }
}

#[test]
fn unary_dense_rows_are_vectorised() {
    let x = strided(DType::BF16, &[4, 2, 16], &[64, 32, 1], 8);
    match run_unary(UnaryOp::Exp, &x, &tensor(DType::BF16, &[4, 2, 16])).unwrap() {
        UnaryPlan::Rows { launch, params } => {
            assert_eq!(launch.kernel, "unary_rows_bf16");
            assert_eq!((params.rank_outer, params.d, params.numel, params.in_offset), (2, 16, 128, 8));
            assert_eq!(params.dims, [4, 2, 0, 0, 0, 0, 0, 0]);
            assert_eq!(params.strides, [64, 32, 0, 0, 0, 0, 0, 0]);
        }
        _ => panic!("not by rows"),
    }
}

#[test]
fn unary_refusals() {
    let x = tensor(DType::F32, &[4]);
    let e = run_unary(UnaryOp::Neg, &x, &tensor(DType::F32, &[5]));
    assert_eq!(e, Err(KernelError::ShapeMismatch));
    let e = run_unary(UnaryOp::Neg, &x, &tensor(DType::F16, &[4]));
    assert_eq!(e, Err(KernelError::DTypeMismatch(DType::F32, DType::F16)));
    let e = run_unary(UnaryOp::Neg, &host(tensor(DType::F32, &[4])), &x);
    assert_eq!(e, Err(KernelError::Unsupported("cuda unary: src non-cuda")));
    let e = run_unary(UnaryOp::Neg, &x, &host(tensor(DType::F32, &[4])));
    assert_eq!(e, Err(KernelError::Unsupported("cuda unary: dst non-cuda")));
    let u = tensor(DType::U32, &[4]);
    let e = run_unary(UnaryOp::Neg, &u, &tensor(DType::U32, &[4]));
    assert_eq!(e, Err(KernelError::Unsupported("cuda unary: dtype")));
    let wide = strided(DType::F32, &[1; 9], &[1; 9], 1);
    assert!(run_unary(UnaryOp::Neg, &wide, &tensor(DType::F32, &[1; 9])).is_err());
}

#[test]
fn binary_shapes_of_the_second_operand() {
    let a = tensor(DType::F32, &[3, 8]);
    let dst = tensor(DType::F32, &[3, 8]);
    let shape = |b: &Operand| match run_binary(BinaryOp::Mul, &a, b, &dst).unwrap() {
        BinaryPlan::Fast { launch, shape, d, .. } => Some((launch.kernel, shape, d)),
        BinaryPlan::Strided { .. } => None,
    };
    assert_eq!(shape(&tensor(DType::F32, &[3, 8])), Some(("binary_flat_f32", BinaryShape::Flat, None)));
    let row = strided(DType::F32, &[3, 8], &[0, 1], 0);
    assert_eq!(shape(&row), Some(("binary_rowb_f32", BinaryShape::Row, Some(8))));
    let col = strided(DType::F32, &[3, 8], &[1, 0], 0);
    assert_eq!(shape(&col), Some(("binary_colb_f32", BinaryShape::Column, Some(8))));
    let other = strided(DType::F32, &[3, 8], &[2, 0], 0);
    assert_eq!(shape(&other), None);
    let transposed = strided(DType::F32, &[3, 8], &[1, 3], 0);
    assert_eq!(shape(&transposed), None);
}

#[test]
fn binary_fast_paths_read_what_strides_say() {
    let dims = [2usize, 3, 8];
    let cases: [([isize; 3], BinaryShape); 2] =
        [([0, 0, 1], BinaryShape::Row), ([3, 1, 0], BinaryShape::Column)];
    for (strides, want) in cases {
        let a = tensor(DType::F16, &dims);
        let b = strided(DType::F16, &dims, &strides, 0);
        match run_binary(BinaryOp::Add, &a, &b, &tensor(DType::F16, &dims)).unwrap() {
            BinaryPlan::Fast { shape, d, .. } => {
                assert_eq!(shape, want);
                let d = d.unwrap() as isize;
                for i in 0..2isize {
                    for j in 0..3isize {
                        for k in 0..8isize {
                            let flat = (i * 3 + j) * 8 + k;
                            let place = i * strides[0] + j * strides[1] + k * strides[2];
                            let fast = if want == BinaryShape::Row { flat % d } else { flat / d };
                            assert_eq!(place, fast);
                        }
                    }
                }
            }
            _ => panic!("not fast"),
        }
    }
}

#[test]
fn binary_refusals() {
    let a = tensor(DType::F32, &[4]);
    let b = tensor(DType::F32, &[4]);
    let e = run_binary(BinaryOp::Add, &a, &tensor(DType::F16, &[4]), &b);
    assert_eq!(e, Err(KernelError::DTypeMismatch(DType::F32, DType::F32)));
    assert_eq!(run_binary(BinaryOp::Add, &a, &tensor(DType::F32, &[3]), &b), Err(KernelError::ShapeMismatch));
    let e = run_binary(BinaryOp::Add, &host(tensor(DType::F32, &[4])), &b, &b);
    assert_eq!(e, Err(KernelError::Unsupported("cuda binary: a non-cuda")));
    let e = run_binary(BinaryOp::Add, &a, &host(tensor(DType::F32, &[4])), &b);
    assert_eq!(e, Err(KernelError::Unsupported("cuda binary: b non-cuda")));
    let e = run_binary(BinaryOp::Add, &a, &b, &host(tensor(DType::F32, &[4])));
    assert_eq!(e, Err(KernelError::Unsupported("cuda binary: dst non-cuda")));
    let i = tensor(DType::I64, &[4]);
    let e = run_binary(BinaryOp::Add, &i, &tensor(DType::I64, &[4]), &tensor(DType::I64, &[4]));
    assert_eq!(e, Err(KernelError::Unsupported("cuda binary: dtype")));
}

#[test]
fn ternary_kinds() {
    let x = tensor(DType::F16, &[2, 8]);
    let row = tensor(DType::F16, &[8]);
    let p = run_ternary_fused(TernaryFusedKind::FmaFlat, &x, &x, &x, &tensor(DType::F16, &[2, 8])).unwrap();
    assert_eq!((p.launch.kernel, p.numel, p.d), ("fma_flat_f16", 16, None));
    let p = run_ternary_fused(TernaryFusedKind::FmaRowb, &x, &x, &row, &tensor(DType::F16, &[2, 8])).unwrap();
    assert_eq!((p.launch.kernel, p.d), ("fma_rowb_f16", Some(8)));
    let p = run_ternary_fused(TernaryFusedKind::ModRowb, &x, &row, &row, &tensor(DType::F16, &[2, 8])).unwrap();
    assert_eq!((p.launch.kernel, p.d), ("mod_rowb_f16", Some(8)));
    let e = run_ternary_fused(TernaryFusedKind::FmaFlat, &x, &x, &row, &tensor(DType::F16, &[2, 8]));
    assert_eq!(e, Err(KernelError::Unsupported("fma flat: b/c")));
    let e = run_ternary_fused(TernaryFusedKind::FmaRowb, &x, &row, &row, &tensor(DType::F16, &[2, 8]));
    assert_eq!(e, Err(KernelError::Unsupported("fma rowb: b/c")));
    let e = run_ternary_fused(TernaryFusedKind::ModRowb, &x, &x, &row, &tensor(DType::F16, &[2, 8]));
    assert_eq!(e, Err(KernelError::Unsupported("mod rowb: s/sh")));
    let e = run_ternary_fused(TernaryFusedKind::FmaFlat, &x, &tensor(DType::F32, &[2, 8]), &x, &x);
    assert_eq!(e, Err(KernelError::Unsupported("ternary fused: dtype")));
    let e = run_ternary_fused(TernaryFusedKind::FmaFlat, &x, &x, &x, &tensor(DType::F16, &[8, 2]));
    assert_eq!(e, Err(KernelError::Unsupported("ternary fused: формы/offset")));
    let odd = tensor(DType::F16, &[3]);
    let e = run_ternary_fused(TernaryFusedKind::FmaFlat, &odd, &odd, &odd, &tensor(DType::F16, &[3]));
    assert_eq!(e, Err(KernelError::Unsupported("ternary fused: x")));
    let h = host(tensor(DType::F16, &[2, 8]));
    let e = run_ternary_fused(TernaryFusedKind::FmaFlat, &h, &x, &x, &x);
    assert_eq!(e, Err(KernelError::Unsupported("ternary fused: x cuda")));
    let e = run_ternary_fused(TernaryFusedKind::FmaFlat, &x, &h, &x, &x);
    assert_eq!(e, Err(KernelError::Unsupported("ternary fused: b cuda")));
    let e = run_ternary_fused(TernaryFusedKind::FmaFlat, &x, &x, &h, &x);
    assert_eq!(e, Err(KernelError::Unsupported("ternary fused: c cuda")));
    let e = run_ternary_fused(TernaryFusedKind::FmaFlat, &x, &x, &x, &h);
    assert_eq!(e, Err(KernelError::Unsupported("ternary fused: dst cuda")));
}

#[test]
fn casts() {
    let flat = run_cast(&tensor(DType::F32, &[17]), &tensor(DType::BF16, &[17])).unwrap();
    assert!(matches!(flat, CastPlan::Flat { launch, numel: 17, in_offset: 0 } if launch.kernel == "cast_flat_f32_bf16"));
    let one = run_cast(&tensor(DType::U32, &[17]), &tensor(DType::I64, &[17])).unwrap();
    assert!(matches!(one, CastPlan::Strided { launch, params } if launch.kernel == "cast_u32_i64" && params.numel == 17));
    let t = strided(DType::F16, &[2, 4], &[1, 2], 0);
    let s = run_cast(&t, &tensor(DType::F32, &[2, 4])).unwrap();
    assert!(matches!(s, CastPlan::Strided { launch, .. } if launch.kernel == "cast_f16_f32"));
    let e = run_cast(&tensor(DType::U8, &[1]), &tensor(DType::F32, &[1]));
    assert_eq!(e, Err(KernelError::Unsupported("cuda cast: dtype pair")));
    assert_eq!(run_cast(&tensor(DType::F32, &[1]), &tensor(DType::F16, &[2])), Err(KernelError::ShapeMismatch));
    let e = run_cast(&host(tensor(DType::F32, &[1])), &tensor(DType::F16, &[1]));
    assert_eq!(e, Err(KernelError::Unsupported("cuda cast: src non-cuda")));
    let e = run_cast(&tensor(DType::F32, &[1]), &host(tensor(DType::F16, &[1])));
    assert_eq!(e, Err(KernelError::Unsupported("cuda cast: dst non-cuda")));
}

#[test]
fn reduction_parameters() {
    let x = tensor(DType::F32, &[2, 3, 5]);
    let p = run_reduce(ReduceOp::Sum, &x, &tensor(DType::F32, &[2, 1, 1]), &vec![2, 1]).unwrap();
    assert_eq!(p.launch.kernel, "reduce_f32");
    assert_eq!(p.launch.grid, (1, 1, 1));
    assert_eq!((p.params.op_code, p.params.rank, p.params.n_reduce), (0, 3, 2));
    assert_eq!((p.params.out_numel, p.params.inner_size), (2, 15));
    assert_eq!(p.params.dims_out, [2, 1, 1, 0, 0, 0, 0, 0]);
    assert_eq!(p.params.dims_red, [5, 3, 0, 0, 0, 0, 0, 0]);
    assert_eq!(p.params.red_axes, [2, 1, 0, 0, 0, 0, 0, 0]);
    assert_eq!(p.params.strides_in, [15, 5, 1, 0, 0, 0, 0, 0]);
}

#[test]
fn reduction_covers_every_element() {
    let x = tensor(DType::F16, &[4, 3, 2, 5]);
    for axes in [vec![], vec![0], vec![3, 0], vec![1, 2], vec![0, 1, 2, 3]] {
        let p = run_reduce(ReduceOp::Max, &x, &tensor(DType::F16, &[1]), &axes).unwrap();
        assert_eq!(p.params.out_numel * p.params.inner_size, 120);
    }
}

#[test]
fn reduction_refusals() {
    let x = tensor(DType::F32, &[4]);
    let e = run_reduce(ReduceOp::Sum, &host(tensor(DType::F32, &[4])), &x, &vec![0]);
    assert_eq!(e, Err(KernelError::Unsupported("cuda reduce: src non-cuda")));
    let e = run_reduce(ReduceOp::Sum, &x, &host(tensor(DType::F32, &[1])), &vec![0]);
    assert_eq!(e, Err(KernelError::Unsupported("cuda reduce: dst non-cuda")));
    let e = run_reduce(ReduceOp::ArgMax, &x, &tensor(DType::F32, &[1]), &vec![0]);
    assert_eq!(e, Err(KernelError::DTypeMismatch(DType::U32, DType::F32)));
    let e = run_reduce(ReduceOp::Mean, &x, &tensor(DType::F16, &[1]), &vec![0]);
    assert_eq!(e, Err(KernelError::DTypeMismatch(DType::F32, DType::F16)));
    let u = tensor(DType::U32, &[4]);
    let e = run_reduce(ReduceOp::ArgMax, &u, &tensor(DType::U32, &[1]), &vec![0]);
    assert_eq!(e, Err(KernelError::Unsupported("cuda argmax: dtype")));
    let e = run_reduce(ReduceOp::Sum, &u, &tensor(DType::U32, &[1]), &vec![0]);
    assert_eq!(e, Err(KernelError::Unsupported("cuda reduce: dtype")));
    let wide = tensor(DType::F32, &[1; 9]);
    let e = run_reduce(ReduceOp::Sum, &wide, &tensor(DType::F32, &[1; 9]), &vec![0]);
    assert_eq!(e, Err(KernelError::Unsupported("rank > MAX_RANK")));
    let p = run_reduce(ReduceOp::ArgMax, &x, &tensor(DType::U32, &[1]), &vec![0]).unwrap();
    assert_eq!(p.launch.kernel, "argmax_f32");
}

#[test]
fn channel_convolutions() {
    let x = tensor(DType::BF16, &[2, 4, 100]);
    let w = tensor(DType::BF16, &[4, 1, 7]);
    let o = tensor(DType::BF16, &[2, 4, 94]);
    let b = tensor(DType::BF16, &[4]);
    let p = run_dwconv1d(&x, &w, Some(&b), &o, 1, 3, false).unwrap();
    assert_eq!(p.launch.kernel, "dwconv1d_bf16");
    assert_eq!(p.launch.grid, (3, 1, 1));
    assert_eq!((p.c, p.l, p.k, p.lo, p.stride, p.pad, p.total), (4, 100, 7, 94, 1, Some(3), 752));
    assert!(p.bias);
    let p = run_dwconv1d(&x, &w, None, &o, 2, 3, true).unwrap();
    assert_eq!((p.launch.kernel, p.pad, p.bias), ("dwconvt1d_bf16", None, false));
    let e = run_dwconv1d(&x, &tensor(DType::F32, &[4, 1, 7]), None, &o, 1, 0, false);
    assert_eq!(e, Err(KernelError::Unsupported("dwconv1d: dtype mismatch")));
    let gap = strided(DType::BF16, &[2, 4, 100], &[800, 200, 2], 0);
    let e = run_dwconv1d(&gap, &w, None, &o, 1, 0, false);
    assert_eq!(e, Err(KernelError::Unsupported("dwconv1d: non-contiguous")));
    let e = run_dwconv1d(&host(tensor(DType::BF16, &[2, 4, 100])), &w, None, &o, 1, 0, false);
    assert_eq!(e, Err(KernelError::Unsupported("dwconv1d: x non-cuda")));
    let e = run_dwconv1d(&x, &host(tensor(DType::BF16, &[4, 1, 7])), None, &o, 1, 0, false);
    assert_eq!(e, Err(KernelError::Unsupported("dwconv1d: w non-cuda")));
    let e = run_dwconv1d(&x, &w, None, &host(tensor(DType::BF16, &[2, 4, 94])), 1, 0, false);
    assert_eq!(e, Err(KernelError::Unsupported("dwconv1d: out non-cuda")));
    let e = run_dwconv1d(&x, &w, Some(&tensor(DType::F32, &[4])), &o, 1, 0, false);
    assert_eq!(e, Err(KernelError::Unsupported("dwconv1d: bias layout")));
    let e = run_dwconv1d(&x, &w, Some(&host(tensor(DType::BF16, &[4]))), &o, 1, 0, false);
    assert_eq!(e, Err(KernelError::Unsupported("dwconv1d: bias non-cuda")));
    let u = |d: &[usize]| tensor(DType::U8, d);
    let e = run_dwconv1d(&u(&[2, 4, 100]), &u(&[4, 1, 7]), None, &u(&[2, 4, 94]), 1, 0, false);
    assert_eq!(e, Err(KernelError::Unsupported("dwconv1d: dtype")));
}

#[test]
fn greatest_of_rows() {
    let c = topk_rows_f32(5, 128, 8).unwrap().unwrap();
    assert_eq!(c.args, (5, 128, 8));
    let l = c.launch;
    assert_eq!(l.kernel, "topk_rows_f32");
    assert_eq!((l.grid, l.block, l.shared_mem_bytes), ((5, 1, 1), (256, 1, 1), 2560));
    assert_eq!(topk_rows_f32(0, 128, 8), Ok(None));
    assert_eq!(topk_rows_f32(5, 128, 0), Ok(None));
    let refused = Err(KernelError::Unsupported("topk_rows: строка шире потолка"));
    assert_eq!(topk_rows_f32(5, MAX_COLS as u32 + 1, 8), refused);
    assert_eq!(topk_rows_f32(5, 7, 8), refused);
    assert_eq!(topk_rows_f32(1, MAX_COLS as u32, 1).unwrap().unwrap().launch.shared_mem_bytes, 10240);
    let c = topk_wide_f32(3, 100_000, 16).unwrap().unwrap();
    assert_eq!((c.launch.grid, c.args), ((3, 1, 1), (3, 100_000, 16)));
    assert_eq!(topk_wide_f32(3, 4, 5), Err(KernelError::Unsupported("topk_wide: k шире строки")));
    assert_eq!(topk_wide_f32(3, 4, 0), Ok(None));
}

#[test]
fn small_decoder_stages() {
    let g = group_rms_f16(10, 20, 30, 2, 3, 96);
    assert_eq!((g.launch.grid, g.launch.block), ((6, 1, 1), (128, 1, 1)));
    assert_eq!(g.args, (2, 3, 96));
    assert_eq!(g.x, Span { start: 10, end: 10 + 1152 });
    assert_eq!(g.w, Span { start: 20, end: 20 + 576 });
    assert_eq!(g.out, Span { start: 30, end: 30 + 1152 });
    assert_eq!(group_rms_f16(0, 0, 0, 1, 1, 0).launch.block, (32, 1, 1));
    assert_eq!(group_rms_f16(0, 0, 0, 1, 1, 33).launch.block, (64, 1, 1));
    assert_eq!(group_rms_f16(0, 0, 0, 1, 1, 4096).launch.block, (256, 1, 1));
    let m = hc_mix_f16(0, 4, 8, 2, 4, 300);
    assert_eq!((m.launch.kernel, m.launch.grid), ("hc_mix_f16", (3, 1, 1)));
    assert_eq!(m.args, (2, 4, 300));
    assert_eq!((m.up, m.normed, m.out), (Span { start: 0, end: 4800 }, Span { start: 4, end: 4804 }, Span { start: 8, end: 1208 }));
    let j = hc_inject_f16(0, 2, 4, 6, 2, 4, 300);
    assert_eq!((j.launch.grid, j.args), ((10, 1, 1), (2, 4, 300)));
    assert_eq!((j.block, j.w), (Span { start: 2, end: 1202 }, Span { start: 4, end: 20 }));
    assert_eq!((j.hyper, j.out), (Span { start: 0, end: 4800 }, Span { start: 6, end: 4806 }));
    assert_eq!(scale_act_f16(2, 4, 9, 3).args, (9, 3));
    let s = scale_act_f16(2, 4, 0, 1);
    assert_eq!((s.launch.grid, s.x, s.out), ((1, 1, 1), Span { start: 2, end: 2 }, Span { start: 4, end: 4 }));
    let w = weighted_rows_sum_f16(0, 2, 4, 3, 2, 100);
    assert_eq!((w.parts, w.w, w.out), (Span { start: 0, end: 1200 }, Span { start: 2, end: 26 }, Span { start: 4, end: 604 }));
    assert_eq!((w.launch.grid, w.args), ((2, 1, 1), (3, 2, 100)));
}

/// The place that the first `rank` strides give the element at `index`.
fn place(strides: &[i32; 8], rank: i32, index: &[usize]) -> i64 {
    (0..rank as usize).map(|j| strides[j] as i64 * index[j] as i64).sum()
}

#[test]
fn every_path_reads_what_the_strides_name() {
    let sources = [
        strided(DType::F16, &[2, 3, 8], &[24, 8, 1], 16),
        strided(DType::F16, &[2, 3, 8], &[64, 16, 1], 16),
        strided(DType::F16, &[2, 3, 8], &[8, 16, 1], 5),
        strided(DType::F16, &[2, 3, 8], &[1, 2, 6], 0),
    ];
    let (mut kinds, mut casts) = ([0; 3], [0; 2]);
    for src in &sources {
        let p = run_unary(UnaryOp::Neg, src, &tensor(DType::F16, &[2, 3, 8])).unwrap();
        let c = run_cast(src, &tensor(DType::F32, &[2, 3, 8])).unwrap();
        kinds[match p {
            UnaryPlan::Flat { .. } => 0,
            UnaryPlan::Rows { .. } => 1,
            UnaryPlan::Strided { .. } => 2,
        }] += 1;
        casts[if matches!(c, CastPlan::Flat { .. }) { 0 } else { 1 }] += 1;
        for (a, b, e) in [(0usize, 0usize, 0usize), (0, 2, 7), (1, 0, 3), (1, 2, 7)] {
            let index = [a, b, e];
            let flat = ((a * 3 + b) * 8 + e) as i64;
            let named: i64 = (0..3).map(|j| src.layout.strides[j] as i64 * index[j] as i64).sum();
            let want = src.layout.offset as i64 + named;
            let read = match p {
                UnaryPlan::Flat { in_offset, .. } => in_offset + flat,
                UnaryPlan::Rows { params: n, .. } => n.in_offset + place(&n.strides, n.rank_outer, &index) + e as i64,
                UnaryPlan::Strided { params: n, .. } => n.in_offset + place(&n.in_strides, n.rank, &index),
            };
            assert_eq!(read, want);
            let read = match c {
                CastPlan::Flat { in_offset, .. } => in_offset + flat,
                CastPlan::Strided { params: n, .. } => n.in_offset + place(&n.in_strides, n.rank, &index),
            };
            assert_eq!(read, want);
        }
    }
    assert_eq!((kinds, casts), ([1, 1, 2], [1, 3]));
}

#[test]
fn both_operands_are_read_where_the_strides_name() {
    let dims = [2usize, 3, 8];
    let a = tensor(DType::F16, &dims);
    let seconds = [
        tensor(DType::F16, &dims),
        strided(DType::F16, &dims, &[0, 0, 1], 8),
        strided(DType::F16, &dims, &[3, 1, 0], 8),
        strided(DType::F16, &dims, &[1, 2, 6], 0),
    ];
    let mut shapes = Vec::new();
    for b in &seconds {
        let p = run_binary(BinaryOp::Add, &a, b, &tensor(DType::F16, &dims)).unwrap();
        for index in [[0usize, 0, 0], [0, 2, 7], [1, 0, 3], [1, 2, 7]] {
            let flat = ((index[0] * 3 + index[1]) * 8 + index[2]) as i64;
            let named: i64 = (0..3).map(|j| b.layout.strides[j] as i64 * index[j] as i64).sum();
            let read = match p {
                BinaryPlan::Fast { shape, a_offset, b_offset, d, .. } => {
                    let row = d.map_or(1, |d| d as i64);
                    let second = match shape {
                        BinaryShape::Flat => flat,
                        BinaryShape::Row => flat % row,
                        BinaryShape::Column => flat / row,
                    };
                    (a_offset + flat, b_offset + second)
                }
                BinaryPlan::Strided { params: n, .. } => (
                    n.a_offset + place(&n.a_strides, n.rank, &index),
                    n.b_offset + place(&n.b_strides, n.rank, &index),
                ),
            };
            assert_eq!(read, (flat, b.layout.offset as i64 + named));
        }
        shapes.push(match p {
            BinaryPlan::Fast { shape, .. } => Some(shape),
            BinaryPlan::Strided { .. } => None,
        });
    }
    assert_eq!(shapes, vec![Some(BinaryShape::Flat), Some(BinaryShape::Row), Some(BinaryShape::Column), None]);
}

#[test]
fn reductions_read_every_element_where_it_lies() {
    let x = strided(DType::F32, &[2, 3, 4], &[40, 1, 6], 7);
    for axes in [vec![], vec![1], vec![2, 0], vec![0, 1, 2]] {
        let p = run_reduce(ReduceOp::Sum, &x, &tensor(DType::F32, &[1]), &axes).unwrap().params;
        for (a, b, c) in [(0usize, 0usize, 0usize), (1, 2, 3), (1, 0, 2), (0, 1, 3)] {
            let index = [a, b, c];
            let mut read = p.in_offset;
            for j in 0..p.rank as usize {
                let kept = if axes.contains(&j) { 0 } else { index[j] };
                assert!((kept as i32) < p.dims_out[j]);
                read += kept as i64 * p.strides_in[j] as i64;
            }
            for k in 0..p.n_reduce as usize {
                let axis = p.red_axes[k] as usize;
                assert!((index[axis] as i32) < p.dims_red[k]);
                read += index[axis] as i64 * p.strides_in[axis] as i64;
            }
            assert_eq!(read, (7 + a * 40 + b + c * 6) as i64);
        }
    }
}

#[test]
fn every_path_walks_over_the_shape() {
    let dst = tensor(DType::F16, &[2, 3, 8]);
    for (strides, offset) in [([24isize, 8, 1], 16), ([64, 16, 1], 16), ([1, 2, 6], 0)] {
        let src = strided(DType::F16, &[2, 3, 8], &strides, offset);
        match run_unary(UnaryOp::Neg, &src, &dst).unwrap() {
            UnaryPlan::Flat { numel, .. } => assert_eq!(numel, 48),
            UnaryPlan::Rows { params: n, .. } => {
                assert_eq!((n.numel, n.rank_outer, n.d), (48, 2, 8));
                assert_eq!(n.dims, [2, 3, 0, 0, 0, 0, 0, 0]);
            }
            UnaryPlan::Strided { params: n, .. } => {
                assert_eq!((n.numel, n.rank, n.dims), (48, 3, [2, 3, 8, 0, 0, 0, 0, 0]));
            }
        }
    }
}
