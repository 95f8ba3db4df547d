use synaptix_kernels_cuda::cuda_backend::conv::{Conv2dPlan, ConvEpiloguePlan, ImagePlan};
use synaptix_kernels_cuda::cuda_backend::linear_attn::{GdrOperands, LinearDecode, LinearPrefill};
use synaptix_kernels_cuda::cuda_backend::CudaBackend;
use synaptix_kernels_cuda::dtype::DType;
use synaptix_kernels_cuda::error::KernelError;
use synaptix_kernels_cuda::layout::{Layout, Operand};

const B: CudaBackend = CudaBackend;

fn dense(dims: &[usize]) -> Vec<isize> {
    let mut s = vec![1isize; dims.len()];
    for i in (0..dims.len().saturating_sub(1)).rev() {
        s[i] = s[i + 1] * dims[i + 1] as isize;
    }
    s
}

fn size(dtype: DType) -> usize {
    match dtype {
        DType::F16 | DType::BF16 => 2,
        DType::U8 | DType::MXFP8 => 1,
        DType::I64 | DType::F64 => 8,
        _ => 4,
    }
}

fn at(dtype: DType, dims: &[usize], offset: usize) -> Operand {
    Operand {
        cuda: true,
        layout: Layout {
            dtype,
            dims: dims.to_vec(),
            strides: dense(dims),
            offset,
            byte_offset: offset * size(dtype),
            numel: dims.iter().product(),
            contiguous: true,
            dense: true,
        },
    }
}

fn t(dtype: DType, dims: &[usize]) -> Operand {
    at(dtype, dims, 0)
}

fn host(mut o: Operand) -> Operand {
    o.cuda = false;
    o
}

fn gappy(mut o: Operand) -> Operand {
    for s in o.layout.strides.iter_mut() {
        *s *= 2;
    }
    o.layout.contiguous = false;
    o.layout.dense = false;
    o
}

fn un(text: &'static str) -> KernelError {
    KernelError::Unsupported(text)
}

#[test]
fn convolutions() {
    let f = |d: &[usize]| t(DType::F16, d);
    let out = f(&[1, 8, 5, 5]);
    let (x, w, bias) = (at(DType::F16, &[2, 3, 10, 12], 4), f(&[8, 3, 5, 4]), at(DType::F16, &[8], 7));
    assert_eq!(
        B.conv2d(&x, &w, Some(&bias), &out, (2, 1), (0, 3)),
        Ok(Conv2dPlan {
            dtype: DType::F16,
            b: 2,
            c_in: 3,
            h: 10,
            w: 12,
            c_out: 8,
            kh: 5,
            kw: 4,
            stride: (2, 1),
            padding: (0, 3),
            in_off: 8,
            w_off: 0,
            bias_off: Some(14),
        })
    );
    let e = |x: &Operand, w: &Operand, b: Option<&Operand>, o: &Operand| {
        B.conv2d(x, w, b, o, (1, 1), (0, 0)).unwrap_err()
    };
    assert_eq!(e(&t(DType::U8, &[2, 3, 10, 12]), &w, None, &out), un("cuda conv2d: dtype"));
    assert_eq!(e(&x, &t(DType::F32, &[8, 3, 5, 4]), None, &out), un("cuda conv2d: dtype mismatch x/w"));
    assert_eq!(e(&x, &f(&[8, 3, 5]), None, &out), un("cuda conv2d: rank != 4"));
    assert_eq!(e(&gappy(f(&[2, 3, 10, 12])), &w, None, &out), KernelError::NonContiguous);
    assert_eq!(e(&x, &f(&[8, 4, 5, 4]), None, &out), un("cuda conv2d: c_in mismatch"));
    assert_eq!(e(&x, &w, Some(&f(&[7])), &out), un("cuda conv2d: bias shape/dtype"));
    assert_eq!(e(&x, &w, Some(&gappy(f(&[8]))), &out), KernelError::NonContiguous);
    assert_eq!(e(&host(f(&[2, 3, 10, 12])), &w, None, &out), un("cuda conv2d: in non-cuda"));
    assert_eq!(e(&x, &host(f(&[8, 3, 5, 4])), None, &out), un("cuda conv2d: w non-cuda"));
    assert_eq!(e(&x, &w, Some(&host(f(&[8]))), &out), un("cuda conv2d: bias non-cuda"));
    assert_eq!(e(&x, &w, None, &host(f(&[1]))), un("cuda conv2d: out non-cuda"));
    let (x5, w5) = (f(&[2, 3, 6, 10, 12]), f(&[8, 3, 2, 5, 4]));
    let p = B.conv3d(&x5, &w5, None, &out, (1, 2, 3), (4, 5, 6)).unwrap();
    assert_eq!((p.b, p.c_in, p.d, p.h, p.w), (2, 3, 6, 10, 12));
    assert_eq!((p.c_out, p.kd, p.kh, p.kw, p.bias_off), (8, 2, 5, 4, None));
    assert_eq!((p.stride, p.padding), ((1, 2, 3), (4, 5, 6)));
    let e = |x: &Operand, w: &Operand, b: Option<&Operand>| {
        B.conv3d(x, w, b, &out, (1, 1, 1), (0, 0, 0)).unwrap_err()
    };
    assert_eq!(e(&x, &w5, None), un("cuda conv3d: rank != 5"));
    assert_eq!(e(&x5, &f(&[8, 4, 2, 5, 4]), None), un("cuda conv3d: c_in mismatch"));
    assert_eq!(e(&x5, &w5, Some(&f(&[1, 8]))), un("cuda conv3d: bias shape/dtype"));
}

#[test]
fn image_moves() {
    let f = |d: &[usize]| t(DType::F32, d);
    let (x, y) = (at(DType::F32, &[2, 3, 10, 12], 5), f(&[2, 10, 12, 3]));
    let image = ImagePlan { dtype: DType::F32, b: 2, c: 3, h: 10, w: 12, in_off: 20 };
    assert_eq!(B.nchw_to_nhwc(&x, &y), Ok(image));
    // The move back takes the sizes from where it goes.
    assert_eq!(B.nhwc_to_nchw(&y, &x), Ok(ImagePlan { in_off: 0, ..image }));
    assert_eq!(B.upsample_nearest2x(&x, &y), Ok(image));
    let (g, n, h3) = (gappy(f(&[2, 3, 10, 12])), host(f(&[2, 3, 10, 12])), f(&[2, 3, 4]));
    let u8s = t(DType::U8, &[2, 3, 10, 12]);
    assert_eq!(B.nchw_to_nhwc(&u8s, &y), Err(un("cuda nchw_to_nhwc: dtype")));
    assert_eq!(B.nchw_to_nhwc(&g, &y), Err(KernelError::NonContiguous));
    assert_eq!(B.nchw_to_nhwc(&h3, &y), Err(KernelError::NonContiguous));
    assert_eq!(B.nchw_to_nhwc(&n, &y), Err(un("cuda nchw_to_nhwc: src non-cuda")));
    assert_eq!(B.nchw_to_nhwc(&x, &n), Err(un("cuda nchw_to_nhwc: dst non-cuda")));
    assert_eq!(B.nhwc_to_nchw(&g, &x), Err(KernelError::NonContiguous));
    assert_eq!(B.nhwc_to_nchw(&n, &x), Err(un("cuda nhwc_to_nchw: src non-cuda")));
    assert_eq!(B.upsample_nearest2x(&u8s, &y), Err(un("cuda upsample2x: dtype")));
    assert_eq!(B.upsample_nearest2x(&h3, &y), Err(un("cuda upsample2x: rank != 4")));
    assert_eq!(B.upsample_nearest2x(&g, &y), Err(KernelError::NonContiguous));
    assert_eq!(B.upsample_nearest2x(&n, &y), Err(un("cuda upsample2x: in non-cuda")));
    assert_eq!(B.upsample_nearest2x(&x, &n), Err(un("cuda upsample2x: out non-cuda")));
    let p = B.im2col(&x, &y, 3, 4, 8, 9, (1, 2), (3, 4), 100, 50).unwrap();
    assert_eq!((p.b, p.c_in, p.h, p.w, p.kh, p.kw, p.h_out, p.w_out), (2, 3, 10, 12, 3, 4, 8, 9));
    assert_eq!((p.stride, p.padding, p.m_offset, p.m_count, p.in_off), ((1, 2), (3, 4), 100, 50, 20));
    let e = |x: &Operand, c: &Operand| B.im2col(x, c, 1, 1, 1, 1, (1, 1), (0, 0), 0, 0).unwrap_err();
    assert_eq!(e(&u8s, &y), un("cuda im2col: dtype"));
    assert_eq!(e(&h3, &y), un("cuda im2col: rank != 4"));
    assert_eq!(e(&g, &y), KernelError::NonContiguous);
    assert_eq!(e(&n, &y), un("cuda im2col: in non-cuda"));
    assert_eq!(e(&x, &n), un("cuda im2col: col non-cuda"));
}

#[test]
fn convolutions_as_one_product() {
    let f = |d: &[usize]| t(DType::BF16, d);
    let (x, w) = (f(&[2, 10, 12, 3]), f(&[8, 5, 4, 3]));
    let (nhwc, nchw) = (f(&[2, 6, 9, 8]), f(&[2, 8, 6, 9]));
    let (bias, res, temb) = (f(&[8]), f(&[2, 6, 9, 8]), f(&[2, 8]));
    let run = |b: Option<&Operand>, r: Option<&Operand>, te: Option<&Operand>, o: &Operand, last: bool| {
        B.conv2d_implicit_nhwc(&x, &w, b, r, te, o, last, (1, 2), (3, 4))
    };
    let p = run(Some(&bias), Some(&res), Some(&temb), &nhwc, true).unwrap();
    assert_eq!((p.n, p.h, p.w, p.c, p.k, p.r, p.s, p.p, p.q), (2, 10, 12, 3, 8, 5, 4, 6, 9));
    assert_eq!((p.bias, p.residual, p.temb, p.out_nhwc), (true, true, true, true));
    let q = run(None, None, None, &nchw, false).unwrap();
    assert_eq!((q.p, q.q, q.bias, q.residual, q.temb, q.out_nhwc), (6, 9, false, false, false, false));
    assert_eq!(run(None, None, None, &nchw, true), Err(un("conv2d_implicit: out shape nhwc")));
    assert_eq!(run(None, None, None, &nhwc, false), Err(un("conv2d_implicit: out shape")));
    assert_eq!(run(Some(&f(&[7])), None, None, &nhwc, true), Err(un("conv2d_implicit: bias shape")));
    assert_eq!(run(Some(&host(f(&[8]))), None, None, &nhwc, true), Err(un("conv2d_implicit: bias non-cuda")));
    let late = at(DType::BF16, &[2, 6, 9, 8], 1);
    assert_eq!(run(None, Some(&late), None, &nhwc, true), Err(un("conv2d_implicit: residual shape")));
    assert_eq!(run(None, None, Some(&bias), &nhwc, true), Err(un("conv2d_implicit: temb shape")));
    assert_eq!(run(None, None, None, &host(f(&[2, 6, 9, 8])), true), Err(un("conv2d_implicit: out non-cuda")));
    let e = |x: &Operand, w: &Operand| {
        B.conv2d_implicit_nhwc(x, w, None, None, None, &nhwc, true, (1, 1), (0, 0)).unwrap_err()
    };
    assert_eq!(e(&t(DType::F32, &[2, 10, 12, 3]), &w), un("conv2d_implicit: dtype F16/BF16"));
    assert_eq!(e(&x, &t(DType::F16, &[8, 5, 4, 3])), un("conv2d_implicit: filter dtype"));
    assert_eq!(e(&f(&[2, 10, 12]), &w), un("conv2d_implicit: rank != 4"));
    assert_eq!(e(&gappy(f(&[2, 10, 12, 3])), &w), KernelError::NonContiguous);
    assert_eq!(e(&x, &f(&[8, 5, 4, 2])), un("conv2d_implicit: C mismatch"));
    assert_eq!(e(&host(f(&[2, 10, 12, 3])), &w), un("conv2d_implicit: in non-cuda"));
    assert_eq!(e(&x, &host(f(&[8, 5, 4, 3]))), un("conv2d_implicit: f non-cuda"));
}

#[test]
fn sums_behind_a_convolution() {
    let f = |d: &[usize]| t(DType::F32, d);
    let (m, out) = (at(DType::F32, &[120, 8], 3), f(&[2, 8, 6, 10]));
    let (bias, res, temb) = (at(DType::F32, &[8], 1), at(DType::F32, &[2, 8, 6, 10], 2), f(&[2, 8]));
    let run = |m: &Operand, b: Option<&Operand>, r: Option<&Operand>, te: Option<&Operand>| {
        B.conv_epilogue(m, b, r, te, &out, 2, 8, 6, 10)
    };
    assert_eq!(
        run(&m, Some(&bias), Some(&res), Some(&temb)),
        Ok(ConvEpiloguePlan {
            dtype: DType::F32,
            b: 2,
            c: 8,
            h: 6,
            w: 10,
            in_off: 12,
            bias_off: Some(4),
            residual_off: Some(8),
            temb_off: Some(0),
        })
    );
    assert_eq!(run(&t(DType::U8, &[120, 8]), None, None, None), Err(un("cuda conv_epilogue: dtype")));
    assert_eq!(run(&gappy(f(&[120, 8])), None, None, None), Err(KernelError::NonContiguous));
    assert_eq!(run(&m, Some(&f(&[7])), None, None), Err(un("cuda conv_epilogue: bias shape/dtype")));
    assert_eq!(run(&m, None, Some(&f(&[2, 6, 10, 8])), None), Err(un("cuda conv_epilogue: residual shape/dtype")));
    assert_eq!(run(&m, None, None, Some(&f(&[16]))), Err(un("cuda conv_epilogue: temb shape/dtype")));
    assert_eq!(run(&host(f(&[120, 8])), None, None, None), Err(un("cuda conv_epilogue: in non-cuda")));
    assert_eq!(run(&m, Some(&host(f(&[8]))), None, None), Err(un("cuda conv_epilogue: bias non-cuda")));
    assert_eq!(run(&m, None, Some(&host(f(&[2, 8, 6, 10]))), None), Err(un("cuda conv_epilogue: residual non-cuda")));
    assert_eq!(run(&m, None, None, Some(&host(f(&[2, 8])))), Err(un("cuda conv_epilogue: temb non-cuda")));
}

#[test]
fn norms_of_channels() {
    let f = |d: &[usize]| t(DType::F16, d);
    let (x, w, out) = (f(&[2, 32, 5, 7]), f(&[32]), f(&[2, 32, 5, 7]));
    let p = B.group_norm(&x, Some(&w), Some(&w), &out, 8, true, false).unwrap().unwrap();
    assert_eq!((p.launch.kernel, p.launch.grid, p.params.has_affine), ("group_norm_f16", (16, 1, 1), 1));
    let p = B.group_norm(&f(&[2, 5, 7, 32]), None, None, &out, 8, false, true).unwrap().unwrap();
    assert_eq!((p.launch.kernel, p.affine, p.params.apply_silu), ("group_norm_nhwc_f16", None, 0));
    let e = |x: &Operand, w: Option<&Operand>, b: Option<&Operand>, o: &Operand, g: usize| {
        B.group_norm(x, w, b, o, g, false, false).unwrap_err()
    };
    assert_eq!(e(&t(DType::U8, &[2, 32, 5, 7]), None, None, &out, 8), un("cuda group_norm: dtype"));
    assert_eq!(e(&f(&[32]), None, None, &out, 8), un("cuda group_norm: rank < 2"));
    assert_eq!(e(&gappy(f(&[2, 32, 5, 7])), None, None, &out, 8), KernelError::NonContiguous);
    assert_eq!(e(&x, None, None, &out, 0), un("cuda group_norm: c % num_groups"));
    assert_eq!(e(&x, None, None, &out, 5), un("cuda group_norm: c % num_groups"));
    assert_eq!(e(&x, None, Some(&w), &out, 8), un("cuda group_norm: bias без weight"));
    assert_eq!(e(&x, Some(&w), None, &out, 8), un("cuda group_norm: weight без bias"));
    let other = t(DType::F32, &[32]);
    assert_eq!(e(&x, Some(&w), Some(&other), &out, 8), un("cuda group_norm: affine dtype"));
    assert_eq!(e(&x, Some(&gappy(f(&[32]))), Some(&w), &out, 8), KernelError::NonContiguous);
    assert_eq!(e(&host(f(&[2, 32, 5, 7])), None, None, &out, 8), un("cuda group_norm: x non-cuda"));
    assert_eq!(e(&x, Some(&host(f(&[32]))), Some(&w), &out, 8), un("cuda group_norm: w non-cuda"));
    assert_eq!(e(&x, Some(&w), Some(&host(f(&[32]))), &out, 8), un("cuda group_norm: b non-cuda"));
    assert_eq!(e(&x, None, None, &host(f(&[1])), 8), un("cuda group_norm: out non-cuda"));
    let p = B.pixel_norm(&t(DType::F32, &[3, 16, 50, 100]), &out, 16, true).unwrap().unwrap();
    assert_eq!((p.launch.kernel, p.launch.grid), ("pixel_norm_f32", (5, 3, 1)));
    assert_eq!(B.pixel_norm(&x, &out, 31, false), Err(un("cuda pixel_norm: shape")));
    assert_eq!(B.pixel_norm(&gappy(f(&[2, 32, 5, 7])), &out, 32, false), Err(KernelError::NonContiguous));
    assert_eq!(B.pixel_norm(&host(f(&[2, 32, 5])), &out, 32, false), Err(un("cuda pixel_norm: x non-cuda")));
    assert_eq!(B.pixel_norm(&x, &host(f(&[1])), 32, false), Err(un("cuda pixel_norm: out non-cuda")));
}

#[test]
fn gated_and_periodic_activations() {
    let f = |d: &[usize]| t(DType::F16, d);
    let out = f(&[3, 100]);
    let p = B.geglu_split(&f(&[3, 200]), &out).unwrap().unwrap();
    assert_eq!((p.t, p.inner), (3, 100));
    let e = |x: &Operand, o: &Operand| B.geglu_split(x, o).unwrap_err();
    assert_eq!(e(&t(DType::U8, &[3, 200]), &out), un("cuda geglu_split: dtype"));
    assert_eq!(e(&gappy(f(&[3, 200])), &out), KernelError::NonContiguous);
    assert_eq!(e(&f(&[]), &out), un("cuda geglu_split: scalar"));
    assert_eq!(e(&f(&[3, 201]), &out), un("cuda geglu_split: last dim odd"));
    assert_eq!(e(&host(f(&[3, 200])), &out), un("cuda geglu_split: in non-cuda"));
    assert_eq!(e(&f(&[3, 200]), &host(f(&[1]))), un("cuda geglu_split: out non-cuda"));
    let a = t(DType::F32, &[10]);
    let x = f(&[1, 10, 100]);
    let p = B.snake(&x, &a, &a, &out, 10, 100).unwrap().unwrap();
    assert_eq!((p.launch.kernel, p.n, p.chans, p.t_len), ("snake_act_f16", 1000, 10, 100));
    let e = |x: &Operand, a: &Operand, b: &Operand, o: &Operand| B.snake(x, a, b, o, 10, 100).unwrap_err();
    assert_eq!(e(&t(DType::U8, &[1, 10, 100]), &a, &a, &out), un("cuda snake: dtype"));
    assert_eq!(e(&gappy(f(&[1, 10, 100])), &a, &a, &out), KernelError::NonContiguous);
    assert_eq!(e(&x, &f(&[10]), &a, &out), un("cuda snake: a/binv must be f32"));
    assert_eq!(e(&host(f(&[1, 10, 100])), &a, &a, &out), un("cuda snake: x non-cuda"));
    assert_eq!(e(&x, &host(t(DType::F32, &[10])), &a, &out), un("cuda snake: a non-cuda"));
    assert_eq!(e(&x, &a, &host(t(DType::F32, &[10])), &out), un("cuda snake: binv non-cuda"));
    assert_eq!(e(&x, &a, &a, &host(f(&[1]))), un("cuda snake: out non-cuda"));
}

fn step(o: &[Operand; 11]) -> Result<LinearDecode, KernelError> {
    B.linear_attn_decode_step(
        &o[0], &o[1], &o[2], &o[3], &o[4], &o[5], &o[6], &o[7], &o[8], &o[9], &o[10], 16, 32, 128, 64, 4,
    )
}

fn prompt(o: &[Operand; 9], silu: bool, capturing: bool) -> Result<LinearPrefill, KernelError> {
    B.linear_attn_chunk_prefill(
        &o[0], &o[1], &o[2], &o[3], &o[4], &o[5], &o[6], &o[7], &o[8], 16, 32, 128, 64, 4, 100, 128, 64, silu, capturing,
    )
}

#[test]
fn steps_of_linear_attention() {
    let h = || at(DType::F16, &[4], 3);
    let f = || at(DType::F32, &[4], 3);
    let names = ["qkv", "conv_w", "a", "b", "dt_bias", "a_log", "z", "norm_w", "conv_state", "ssm_state", "out"];
    let refusals = [
        "linear_decode: qkv non-cuda",
        "linear_decode: conv_w non-cuda",
        "linear_decode: a non-cuda",
        "linear_decode: b non-cuda",
        "linear_decode: dt_bias non-cuda",
        "linear_decode: a_log non-cuda",
        "linear_decode: z non-cuda",
        "linear_decode: norm_w non-cuda",
        "linear_decode: conv_state non-cuda",
        "linear_decode: ssm_state non-cuda",
        "linear_decode: out non-cuda",
    ];
    let all = || [h(), h(), h(), h(), f(), f(), h(), h(), h(), f(), h()];
    let p = step(&all()).unwrap();
    assert_eq!((p.num_k, p.num_v, p.dk, p.dv, p.conv_kernel), (16, 32, 128, 64, 4));
    assert_eq!((p.qkv, p.dt_bias, p.out), (6, 12, 6));
    for i in 0..11 {
        let mut o = all();
        let want = o[i].layout.dtype;
        o[i] = t(DType::U8, &[4]);
        assert_eq!(
            step(&o),
            Err(KernelError::CudaOperand(
                "linear_attn_decode_step: {} must be {}, got {}",
                names[i],
                want,
                DType::U8
            ))
        );
        let mut o = all();
        o[i].cuda = false;
        assert_eq!(step(&o), Err(un(refusals[i])));
    }
}

#[test]
fn prompts_of_linear_attention() {
    let x = || at(DType::BF16, &[4], 3);
    let h = || at(DType::F16, &[4], 3);
    let f = || at(DType::F32, &[4], 3);
    let names = ["qkv", "conv_w", "a", "b", "dt_bias", "a_log", "conv_state", "ssm_state", "out"];
    let refusals = [
        "linear_prefill: qkv non-cuda",
        "linear_prefill: conv_w non-cuda",
        "linear_prefill: a non-cuda",
        "linear_prefill: b non-cuda",
        "linear_prefill: dt_bias non-cuda",
        "linear_prefill: a_log non-cuda",
        "linear_prefill: conv_state non-cuda",
        "linear_prefill: ssm_state non-cuda",
        "linear_prefill: out non-cuda",
    ];
    let all = || [x(), x(), h(), h(), f(), f(), x(), f(), f()];
    let p = prompt(&all(), true, false).unwrap();
    assert_eq!((p.dtype, p.t_in, p.t_pad, p.chunk_size, p.synchronize), (DType::BF16, 100, 128, 64, true));
    assert!(p.silu);
    let p = prompt(&all(), false, true).unwrap();
    assert!(!p.synchronize && !p.silu);
    for i in 0..9 {
        let mut o = all();
        let want = o[i].layout.dtype;
        o[i] = t(DType::U8, &[4]);
        let e = if i == 0 {
            KernelError::CudaDType(
                "linear_attn_chunk_prefill: qkv dtype {} not supported (F32/F16/BF16)",
                DType::U8,
            )
        } else {
            KernelError::CudaOperand(
                "linear_attn_chunk_prefill: {} must be {}, got {}",
                names[i],
                want,
                DType::U8,
            )
        };
        assert_eq!(prompt(&o, true, false), Err(e));
        let mut o = all();
        o[i].cuda = false;
        assert_eq!(prompt(&o, true, false), Err(un(refusals[i])));
    }
}

#[test]
fn gated_rule_over_a_prompt() {
    let names = ["q", "k", "v", "g", "beta", "ssm_state", "out"];
    let run = |o: &[Operand; 7]| {
        let ops = GdrOperands {
            q: &o[0],
            k: &o[1],
            v: &o[2],
            g: &o[3],
            beta: &o[4],
            ssm_state: &o[5],
            out: &o[6],
        };
        B.gated_delta_rule_prefill(&ops, 4, 128, 64, 32, 64)
    };
    let f = || t(DType::F32, &[4]);
    let all = || [f(), f(), f(), f(), f(), f(), f()];
    let p = run(&all()).unwrap();
    assert_eq!((p.n_qk, p.n_v, p.n_g, p.n_state), (4 * 128 * 64, 4 * 128 * 32, 512, 4 * 64 * 32));
    assert_eq!(p.refused_at_end, None);
    for i in 0..7 {
        let mut o = all();
        o[i] = t(DType::F16, &[4]);
        assert_eq!(
            run(&o).unwrap_err(),
            KernelError::CudaOperand(
                "gated_delta_rule_prefill: {} must be {}, got {}",
                names[i],
                DType::F32,
                DType::F16
            )
        );
        let mut o = all();
        o[i].cuda = false;
        match i {
            0 => assert_eq!(run(&o).unwrap_err(), un("gdr_prefill: q non-cuda")),
            6 => assert!(run(&o).unwrap().refused_at_end.is_some()),
            _ => assert_eq!(run(&o).unwrap_err(), un("gdr_prefill: input non-cuda")),
        }
    }
}
