use synaptix_kernels_cuda::cuda_backend::attention::{AttnMode, FlashKernel, FlashShape};
use synaptix_kernels_cuda::cuda_backend::mxfp8_cache::Mxfp8AttnKernel;
use synaptix_kernels_cuda::cuda_backend::CudaBackend;
use synaptix_kernels_cuda::dtype::DType;
use synaptix_kernels_cuda::error::KernelError;
use synaptix_kernels_cuda::layout::{Layout, Operand};

const B: CudaBackend = CudaBackend;

fn dense(dims: &[usize]) -> Vec<isize> {
    let mut s = vec![1isize; dims.len()];
    for i in (0..dims.len().saturating_sub(1)).rev() {
        s[i] = s[i + 1] * dims[i + 1] as isize;
    }
    s
}

fn size(dtype: DType) -> usize {
    match dtype {
        DType::F16 | DType::BF16 => 2,
        DType::U8 | DType::MXFP8 => 1,
        DType::I64 | DType::F64 => 8,
        _ => 4,
    }
}

fn at(dtype: DType, dims: &[usize], offset: usize) -> Operand {
    Operand {
        cuda: true,
        layout: Layout {
            dtype,
            dims: dims.to_vec(),
            strides: dense(dims),
            offset,
            byte_offset: offset * size(dtype),
            numel: dims.iter().product(),
            contiguous: true,
            dense: true,
        },
    }
}

fn t(dtype: DType, dims: &[usize]) -> Operand {
    at(dtype, dims, 0)
}

fn host(mut o: Operand) -> Operand {
    o.cuda = false;
    o
}

fn gappy(mut o: Operand) -> Operand {
    for s in o.layout.strides.iter_mut() {
        *s *= 2;
    }
    o.layout.contiguous = false;
    o.layout.dense = false;
    o
}

fn un(text: &'static str) -> KernelError {
    KernelError::Unsupported(text)
}

/// A cache of `room` rows per head of which `rows` are read.
fn cache(dtype: DType, b: usize, heads: usize, rows: usize, d: usize, room: usize) -> Operand {
    let mut o = t(dtype, &[b, heads, rows, d]);
    let (r, w) = (room as isize, d as isize);
    o.layout.strides = vec![heads as isize * r * w, r * w, w, 1];
    o.layout.contiguous = rows == room;
    o.layout.dense = rows == room;
    o
}

fn word(offset: usize) -> Operand {
    at(DType::U32, &[1], offset)
}

#[test]
fn attention_kernels() {
    let out = t(DType::F16, &[1, 8, 4, 128]);
    let q = t(DType::F16, &[1, 8, 4, 128]);
    let (k, v) = (cache(DType::F16, 1, 2, 300, 128, 512), cache(DType::F16, 1, 2, 300, 128, 512));
    let p = B.flash_attention(&q, &k, &v, &out, AttnMode::Auto, true).unwrap();
    assert_eq!(
        p.shape,
        FlashShape {
            dtype: DType::F16,
            b: 1,
            nh: 8,
            nkv: 2,
            t_q: 4,
            t_kv: 300,
            d: 128,
            t_stride: 512,
            q_off: 0,
            k_off: 0,
            v_off: 0,
            causal: true,
        }
    );
    assert_eq!(p.kernel, FlashKernel::SplitQ);
    let kernel = |q: &Operand, k: &Operand, m: AttnMode| B.flash_attention(q, k, k, &out, m, false).unwrap().kernel;
    let one = t(DType::F16, &[1, 8, 1, 128]);
    assert_eq!(kernel(&one, &k, AttnMode::Auto), FlashKernel::Decode { split_k: 16 });
    assert_eq!(kernel(&one, &k, AttnMode::Fa4), FlashKernel::SplitQ);
    assert_eq!(kernel(&q, &k, AttnMode::FlashDecode), FlashKernel::Decode { split_k: 1 });
    // Half floats are not for the older kernel; brain floats are.
    assert_eq!(kernel(&q, &k, AttnMode::Fa2), FlashKernel::Decode { split_k: 1 });
    let (qb, kb) = (t(DType::BF16, &[1, 8, 4, 128]), cache(DType::BF16, 1, 2, 300, 128, 300));
    assert_eq!(kernel(&qb, &kb, AttnMode::Fa2), FlashKernel::Tiled { n_rep: 4, q_pos_base: 296 });
    let (q96, k96) = (t(DType::F16, &[1, 8, 4, 96]), t(DType::F16, &[1, 2, 300, 96]));
    assert_eq!(kernel(&q96, &k96, AttnMode::Auto), FlashKernel::Decode { split_k: 1 });
    assert_eq!(kernel(&q96, &k96, AttnMode::Fa4), FlashKernel::Decode { split_k: 1 });
}

#[test]
fn key_segments() {
    let out = t(DType::F32, &[1]);
    let split = |b: usize, nh: usize, t_kv: usize| {
        let (q, k) = (t(DType::F32, &[b, nh, 1, 8]), t(DType::F32, &[b, nh, t_kv, 8]));
        match B.flash_attention(&q, &k, &k, &out, AttnMode::Auto, true).unwrap().kernel {
            FlashKernel::Decode { split_k } => split_k,
            _ => panic!("not one query at a time"),
        }
    };
    assert_eq!((split(1, 1, 10), split(1, 8, 10), split(1, 128, 10), split(4, 64, 10)), (32, 16, 1, 1));
    assert_eq!((split(1, 128, 2048), split(1, 128, 2049), split(1, 128, 65536)), (1, 2, 32));
    for t_kv in [1usize, 2048, 5000, 65536] {
        assert!(split(1, 128, t_kv) as usize * 2048 >= t_kv);
    }
    assert_eq!(split(1, 128, 100000), 32);
}

#[test]
fn refused_attention() {
    let h = |d: &[usize]| t(DType::F16, d);
    let out = h(&[1, 4, 2, 64]);
    let (q, k) = (h(&[1, 4, 2, 64]), h(&[1, 2, 9, 64]));
    let e = |q: &Operand, k: &Operand, v: &Operand, o: &Operand| {
        B.flash_attention(q, k, v, o, AttnMode::Auto, true).unwrap_err()
    };
    assert_eq!(e(&q, &t(DType::BF16, &[1, 2, 9, 64]), &k, &out), un("cuda flash: dtype mismatch q/k/v"));
    assert_eq!(e(&h(&[4, 2, 64]), &k, &k, &out), un("cuda flash: expect rank-4 [B,H,T,D]"));
    assert_eq!(e(&q, &h(&[2, 2, 9, 64]), &h(&[2, 2, 9, 64]), &out), un("cuda flash: k/v shape"));
    assert_eq!(e(&q, &k, &h(&[1, 2, 8, 64]), &out), un("cuda flash: k/v shape"));
    assert_eq!(e(&q, &h(&[1, 3, 9, 64]), &h(&[1, 3, 9, 64]), &out), un("cuda flash: GQA/D constraints"));
    let wide = |n: usize| h(&[1, n, 2, 1025]);
    assert_eq!(e(&wide(4), &wide(2), &wide(2), &out), un("cuda flash: GQA/D constraints"));
    assert_eq!(e(&gappy(h(&[1, 4, 2, 64])), &k, &k, &out), KernelError::NonContiguous);
    assert_eq!(e(&q, &gappy(h(&[1, 2, 9, 64])), &k, &out), KernelError::NonContiguous);
    let longer = cache(DType::F16, 1, 2, 9, 64, 16);
    assert_eq!(e(&q, &k, &longer, &out), un("cuda flash: k/v t_stride mismatch"));
    assert_eq!(e(&host(h(&[1, 4, 2, 64])), &k, &k, &out), un("cuda flash: q non-cuda"));
    assert_eq!(e(&q, &k, &k, &host(h(&[1]))), un("cuda flash: out non-cuda"));
}

#[test]
fn attention_within_a_window() {
    let h = |d: &[usize]| t(DType::BF16, d);
    let out = h(&[1, 4, 2, 128]);
    let (q, k) = (h(&[1, 4, 2, 128]), cache(DType::BF16, 1, 2, 9, 128, 16));
    let p = B.flash_attention_window(&q, &k, &k, &out, 512, true).unwrap();
    assert_eq!((p.window, p.shape.t_q, p.shape.t_kv, p.shape.t_stride), (512, 2, 9, 16));
    let e = |q: &Operand, k: &Operand, v: &Operand, o: &Operand| {
        B.flash_attention_window(q, k, v, o, 1, true).unwrap_err()
    };
    let f = t(DType::F32, &[1, 4, 2, 128]);
    assert_eq!(e(&f, &f, &f, &out), un("flash_window: f16/bf16 only"));
    assert_eq!(e(&h(&[4, 2, 128]), &k, &k, &out), un("flash_window: rank-4"));
    let s = h(&[1, 2, 9, 64]);
    assert_eq!(e(&s, &s, &s, &out), un("flash_window: HD=128 only"));
    assert_eq!(e(&q, &k, &h(&[1, 2, 8, 128]), &out), un("flash_window: k/v shape"));
    let k3 = h(&[1, 3, 9, 128]);
    assert_eq!(e(&q, &k3, &k3, &out), un("flash_window: GQA"));
    assert_eq!(e(&gappy(h(&[1, 4, 2, 128])), &k, &k, &out), KernelError::NonContiguous);
    assert_eq!(e(&q, &k, &h(&[1, 2, 9, 128]), &out), un("flash_window: k/v t_stride"));
    assert_eq!(e(&host(h(&[1, 4, 2, 128])), &k, &k, &out), un("flash_window: q non-cuda"));
    assert_eq!(e(&q, &k, &k, &host(h(&[1]))), un("flash_window: out non-cuda"));
}

#[test]
fn attention_with_heads_inside() {
    let h = |d: &[usize]| t(DType::F16, d);
    let out = h(&[1, 5, 8, 64]);
    let (q, k) = (h(&[1, 5, 8, 64]), h(&[1, 9, 2, 64]));
    let p = B.flash_attention_bshd(&q, &k, &k, &out, false).unwrap();
    assert_eq!((p.b, p.nh, p.nkv, p.t_q, p.t_kv, p.d, p.t_stride), (1, 8, 2, 5, 9, 64, 0));
    let e = |q: &Operand, k: &Operand, v: &Operand, o: &Operand| {
        B.flash_attention_bshd(q, k, v, o, false).unwrap_err()
    };
    assert_eq!(e(&t(DType::F32, &[1, 5, 8, 64]), &k, &k, &out), un("flash_bshd: dtype"));
    assert_eq!(e(&h(&[5, 8, 64]), &k, &k, &out), un("flash_bshd: rank"));
    let w = h(&[1, 5, 8, 256]);
    assert_eq!(e(&w, &w, &w, &out), un("flash_bshd: shape/HD"));
    let k3 = h(&[1, 9, 3, 64]);
    assert_eq!(e(&q, &k3, &k3, &out), un("flash_bshd: GQA"));
    assert_eq!(e(&q, &gappy(h(&[1, 9, 2, 64])), &k, &out), KernelError::NonContiguous);
    assert_eq!(e(&q, &at(DType::F16, &[1, 9, 2, 64], 64), &k, &out), un("flash_bshd: nonzero offset"));
    assert_eq!(e(&host(h(&[1, 5, 8, 64])), &k, &k, &out), un("flash_bshd: q non-cuda"));
    assert_eq!(e(&q, &host(h(&[1, 9, 2, 64])), &k, &out), un("flash_bshd: k non-cuda"));
    assert_eq!(e(&q, &k, &host(h(&[1, 9, 2, 64])), &out), un("flash_bshd: v non-cuda"));
    assert_eq!(e(&q, &k, &k, &host(h(&[1]))), un("flash_bshd: out non-cuda"));
}

#[test]
fn appends_to_a_cache() {
    let h = |d: &[usize]| t(DType::F16, d);
    let (dst, src) = (h(&[2, 3, 100, 64]), h(&[2, 3, 4, 64]));
    let p = B.kv_append(&dst, &src, 96).unwrap();
    assert_eq!((p.seq_pos, p.launch.kernel, p.launch.grid), (Some(96), "kv_append_slice_f16", (6, 1, 1)));
    assert_eq!(p.args, (2, 3, 4, 64, 100));
    assert_eq!(
        B.kv_append(&dst, &src, 97),
        Err(KernelError::Other3("cuda kv_append: seq_pos {} + t_new {} > max_seq {}", 97, 4, 100))
    );
    let last = usize::MAX;
    let far = |text| Err(KernelError::Other3(text, last as u64, 4, 100));
    assert_eq!(B.kv_append(&dst, &src, last), far("cuda kv_append: seq_pos {} + t_new {} > max_seq {}"));
    let e = |d: &Operand, s: &Operand| B.kv_append(d, s, 0).unwrap_err();
    assert_eq!(e(&dst, &t(DType::F32, &[2, 3, 4, 64])), un("cuda kv_append: dtype mismatch src/dst"));
    assert_eq!(e(&h(&[3, 100, 64]), &src), un("cuda kv_append: expect rank-4 [B,nkv,T,hd]"));
    assert_eq!(e(&dst, &gappy(h(&[2, 3, 4, 64]))), KernelError::NonContiguous);
    assert_eq!(e(&dst, &h(&[2, 2, 4, 64])), un("cuda kv_append: src/dst shape mismatch"));
    assert_eq!(e(&host(h(&[2, 3, 100, 64])), &src), un("cuda kv_append: dst non-cuda"));
    assert_eq!(e(&dst, &host(h(&[2, 3, 4, 64]))), un("cuda kv_append: src non-cuda"));
    let p = B.kv_append_dev(&dst, &src, &word(3)).unwrap();
    assert_eq!((p.seq_pos.start, p.seq_pos.end), (12, 16));
    assert_eq!(p.append.launch.kernel, "kv_append_slice_f16_dev");
    let e = |d: &Operand, s: &Operand, w: &Operand| B.kv_append_dev(d, s, w).unwrap_err();
    let w = word(0);
    assert_eq!(e(&dst, &t(DType::F32, &[2, 3, 4, 64]), &w), un("cuda kv_append_dev: dtype mismatch src/dst"));
    assert_eq!(e(&dst, &src, &h(&[1])), un("cuda kv_append_dev: seq_pos must be U32"));
    assert_eq!(e(&h(&[3, 100, 64]), &src, &w), un("cuda kv_append_dev: expect rank-4 [B,nkv,T,hd]"));
    assert_eq!(e(&gappy(h(&[2, 3, 100, 64])), &src, &w), KernelError::NonContiguous);
    assert_eq!(e(&dst, &h(&[2, 3, 4, 32]), &w), un("cuda kv_append_dev: src/dst shape mismatch"));
    assert_eq!(e(&host(h(&[2, 3, 100, 64])), &src, &w), un("cuda kv_append_dev: dst non-cuda"));
    assert_eq!(e(&dst, &src, &host(word(0))), un("cuda kv_append_dev: seq_pos non-cuda"));
    assert_eq!(e(&dst, &host(h(&[2, 3, 4, 64])), &w), un("cuda kv_append_dev: src non-cuda"));
}

#[test]
fn attention_with_a_length_on_the_device() {
    let h = |d: &[usize]| t(DType::F16, d);
    let out = h(&[1, 8, 1, 128]);
    let (q, k) = (h(&[1, 8, 1, 128]), cache(DType::F16, 1, 2, 300, 128, 40960));
    let p = B.flash_attention_dev(&q, &k, &k, &word(1), &out, true).unwrap();
    assert_eq!((p.shape.t_stride, p.shape.t_cache.start, p.shape.t_cache.end, p.split_k), (40960, 4, 8, 20));
    // However many keys there are, a segment has no more than 2048.
    assert!(p.split_k * 2048 >= p.shape.t_stride);
    let small = h(&[1, 2, 300, 128]);
    assert_eq!(B.flash_attention_dev(&q, &small, &small, &word(0), &out, true).unwrap().split_k, 16);
    let p = B.flash_attention_window_dev(&q, &k, &k, &word(0), &out, 77, true).unwrap();
    assert_eq!((p.window, p.shape.nh, p.shape.nkv, p.shape.t_q, p.shape.d), (77, 8, 2, 1, 128));
    let p = B.flash_attention_prefill_dev(&h(&[1, 8, 5, 128]), &k, &k, &word(0), &out, true).unwrap();
    assert_eq!((p.t_q, p.d, p.t_stride), (5, 128, 40960));
}

#[test]
fn refused_attention_with_a_length_on_the_device() {
    let h = |d: &[usize]| t(DType::F16, d);
    let out = h(&[1, 4, 2, 128]);
    let w = word(0);
    let (q, k) = (h(&[1, 4, 2, 128]), h(&[1, 2, 9, 128]));
    let f = t(DType::F32, &[1, 4, 2, 128]);
    let k3 = h(&[1, 3, 9, 128]);
    let longer = cache(DType::F16, 1, 2, 9, 128, 16);
    let e = |q: &Operand, k: &Operand, v: &Operand, w: &Operand, o: &Operand| {
        B.flash_attention_dev(q, k, v, w, o, true).unwrap_err()
    };
    assert_eq!(e(&f, &k, &k, &w, &out), un("cuda flash_dev: dtype mismatch q/k/v"));
    assert_eq!(e(&q, &k, &k, &h(&[1]), &out), un("cuda flash_dev: t_cache must be U32"));
    assert_eq!(e(&h(&[2, 128]), &k, &k, &w, &out), un("cuda flash_dev: expect rank-4 [B,H,T,D]"));
    assert_eq!(e(&q, &k, &h(&[1, 2, 8, 128]), &w, &out), un("cuda flash_dev: k/v shape"));
    assert_eq!(e(&q, &k3, &k3, &w, &out), un("cuda flash_dev: GQA/D constraints"));
    assert_eq!(e(&q, &gappy(h(&[1, 2, 9, 128])), &k, &w, &out), KernelError::NonContiguous);
    assert_eq!(e(&q, &k, &longer, &w, &out), un("cuda flash_dev: k/v t_stride mismatch"));
    assert_eq!(e(&host(h(&[1, 4, 2, 128])), &k, &k, &w, &out), un("cuda flash_dev: q non-cuda"));
    assert_eq!(e(&q, &k, &k, &host(word(0)), &out), un("cuda flash_dev: t_cache non-cuda"));
    assert_eq!(e(&q, &k, &k, &w, &host(h(&[1]))), un("cuda flash_dev: out non-cuda"));
    let e = |q: &Operand, k: &Operand, v: &Operand, w: &Operand, o: &Operand| {
        B.flash_attention_window_dev(q, k, v, w, o, 1, true).unwrap_err()
    };
    assert_eq!(e(&f, &f, &f, &w, &out), un("flash_window_dev: f16/bf16 only"));
    assert_eq!(e(&q, &k, &k, &h(&[1]), &out), un("flash_window_dev: t_cache must be U32"));
    assert_eq!(e(&h(&[2, 128]), &k, &k, &w, &out), un("flash_window_dev: rank-4"));
    let s = h(&[1, 2, 9, 64]);
    assert_eq!(e(&s, &s, &s, &w, &out), un("flash_window_dev: HD=128 only"));
    assert_eq!(e(&q, &k, &h(&[1, 2, 8, 128]), &w, &out), un("flash_window_dev: k/v shape"));
    assert_eq!(e(&q, &k3, &k3, &w, &out), un("flash_window_dev: GQA"));
    assert_eq!(e(&gappy(h(&[1, 4, 2, 128])), &k, &k, &w, &out), KernelError::NonContiguous);
    assert_eq!(e(&q, &k, &longer, &w, &out), un("flash_window_dev: k/v t_stride"));
    assert_eq!(e(&host(h(&[1, 4, 2, 128])), &k, &k, &w, &out), un("flash_window_dev: q non-cuda"));
    assert_eq!(e(&q, &k, &k, &host(word(0)), &out), un("flash_window_dev: t_cache non-cuda"));
    assert_eq!(e(&q, &k, &k, &w, &host(h(&[1]))), un("flash_window_dev: out non-cuda"));
    let e = |q: &Operand, k: &Operand, v: &Operand, w: &Operand, o: &Operand| {
        B.flash_attention_prefill_dev(q, k, v, w, o, true).unwrap_err()
    };
    assert_eq!(e(&f, &k, &k, &w, &out), un("cuda flash_prefill_dev: dtype mismatch q/k/v"));
    assert_eq!(e(&q, &k, &k, &h(&[1]), &out), un("cuda flash_prefill_dev: t_cache must be U32"));
    assert_eq!(e(&f, &f, &f, &w, &out), un("cuda flash_prefill_dev: tensor-core path требует F16/BF16"));
    assert_eq!(e(&h(&[2, 128]), &k, &k, &w, &out), un("cuda flash_prefill_dev: expect rank-4 [B,H,T,D]"));
    assert_eq!(e(&q, &k, &h(&[1, 2, 8, 128]), &w, &out), un("cuda flash_prefill_dev: k/v shape"));
    assert_eq!(e(&q, &k3, &k3, &w, &out), un("cuda flash_prefill_dev: GQA constraint NH % NKV == 0"));
    let s = h(&[1, 2, 9, 96]);
    assert_eq!(e(&s, &s, &s, &w, &out), un("cuda flash_prefill_dev: HD must be 64, 128 or 256"));
    assert_eq!(e(&q, &gappy(h(&[1, 2, 9, 128])), &k, &w, &out), KernelError::NonContiguous);
    assert_eq!(e(&q, &k, &longer, &w, &out), un("cuda flash_prefill_dev: k/v t_stride mismatch"));
    assert_eq!(e(&host(h(&[1, 4, 2, 128])), &k, &k, &w, &out), un("cuda flash_prefill_dev: q non-cuda"));
    assert_eq!(e(&q, &k, &k, &host(word(0)), &out), un("cuda flash_prefill_dev: t_cache non-cuda"));
    assert_eq!(e(&q, &k, &k, &w, &host(h(&[1]))), un("cuda flash_prefill_dev: out non-cuda"));
}

#[test]
fn appends_to_an_eight_bit_cache() {
    let dst = t(DType::MXFP8, &[2, 3, 100, 64]);
    let scales = t(DType::U8, &[2, 3, 100, 2]);
    let src = t(DType::BF16, &[2, 3, 4, 64]);
    let a = B.kv_append_quant_mxfp8(&dst, &scales, &src, 96).unwrap().unwrap();
    assert_eq!((a.seq_pos, a.launch.kernel, a.launch.grid), (Some(96), "kv_quant_append_mxfp8_bf16", (24, 1, 1)));
    assert_eq!(a.args, (2, 3, 4, 64, 100));
    assert_eq!(
        B.kv_append_quant_mxfp8(&dst, &scales, &src, 97),
        Err(KernelError::Other3("cuda kv_quant mxfp8: seq_pos {} + t_new {} > max_seq {}", 97, 4, 100))
    );
    assert_eq!(
        B.kv_append_quant_mxfp8(&dst, &scales, &src, usize::MAX),
        Err(KernelError::Other3(
            "cuda kv_quant mxfp8: seq_pos {} + t_new {} > max_seq {}",
            usize::MAX as u64,
            4,
            100
        ))
    );
    let p = B.kv_append_quant_mxfp8_dev(&dst, &scales, &src, &word(2)).unwrap();
    assert_eq!((p.seq_pos.start, p.seq_pos.end), (8, 12));
    assert_eq!(p.append.unwrap().launch.kernel, "kv_quant_append_mxfp8_bf16_dev");
    let e = |d: &Operand, c: &Operand, s: &Operand| B.kv_append_quant_mxfp8(d, c, s, 0).unwrap_err();
    assert_eq!(e(&src, &scales, &src), un("cuda kv_quant mxfp8: dst must be MXFP8"));
    assert_eq!(e(&dst, &src, &src), un("cuda kv_quant mxfp8: scale must be U8"));
    assert_eq!(e(&dst, &scales, &scales), un("cuda kv_quant mxfp8: src must be BF16/F16"));
    assert_eq!(e(&dst, &t(DType::U8, &[3, 100, 2]), &src), un("cuda kv_quant mxfp8: ranks [4,4,4]"));
    assert_eq!(e(&dst, &scales, &gappy(t(DType::BF16, &[2, 3, 4, 64]))), KernelError::NonContiguous);
    let d48 = t(DType::MXFP8, &[2, 3, 100, 48]);
    assert_eq!(e(&d48, &scales, &src), un("cuda kv_quant mxfp8: hd % 32 != 0"));
    assert_eq!(e(&dst, &scales, &t(DType::BF16, &[2, 2, 4, 64])), un("cuda kv_quant mxfp8: src/dst shape mismatch"));
    assert_eq!(e(&dst, &t(DType::U8, &[2, 3, 100, 4]), &src), un("cuda kv_quant mxfp8: scale shape"));
    assert_eq!(e(&host(t(DType::MXFP8, &[2, 3, 100, 64])), &scales, &src), un("cuda kv_quant mxfp8: dst non-cuda"));
    assert_eq!(e(&dst, &scales, &host(t(DType::BF16, &[2, 3, 4, 64]))), un("cuda kv_quant mxfp8: src non-cuda"));
    assert_eq!(e(&dst, &host(t(DType::U8, &[2, 3, 100, 2])), &src), un("cuda kv_quant mxfp8: scale non-cuda"));
    let e = |d: &Operand, c: &Operand, s: &Operand, w: &Operand| {
        B.kv_append_quant_mxfp8_dev(d, c, s, w).unwrap_err()
    };
    let w = word(0);
    assert_eq!(e(&src, &scales, &src, &w), un("cuda kv_quant mxfp8 dev: dst must be MXFP8"));
    assert_eq!(e(&dst, &src, &src, &w), un("cuda kv_quant mxfp8 dev: scale must be U8"));
    assert_eq!(e(&dst, &scales, &scales, &w), un("cuda kv_quant mxfp8 dev: src must be BF16/F16"));
    assert_eq!(e(&dst, &scales, &src, &src), un("cuda kv_quant mxfp8 dev: seq_pos must be U32"));
    assert_eq!(e(&dst, &t(DType::U8, &[3, 100, 2]), &src, &w), un("cuda kv_quant mxfp8 dev: ranks [4,4,4]"));
    assert_eq!(e(&dst, &scales, &gappy(t(DType::BF16, &[2, 3, 4, 64])), &w), KernelError::NonContiguous);
    assert_eq!(e(&d48, &scales, &src, &w), un("cuda kv_quant mxfp8 dev: hd % 32 != 0"));
    assert_eq!(e(&dst, &scales, &t(DType::BF16, &[2, 2, 4, 64]), &w), un("cuda kv_quant mxfp8 dev: src/dst shape"));
    assert_eq!(e(&dst, &t(DType::U8, &[2, 3, 100, 4]), &src, &w), un("cuda kv_quant mxfp8 dev: scale shape"));
    assert_eq!(e(&host(t(DType::MXFP8, &[2, 3, 100, 64])), &scales, &src, &w), un("cuda kv_quant mxfp8 dev: dst non-cuda"));
    assert_eq!(e(&dst, &scales, &src, &host(word(0))), un("cuda kv_quant mxfp8 dev: seq_pos non-cuda"));
    assert_eq!(e(&dst, &scales, &host(t(DType::BF16, &[2, 3, 4, 64])), &w), un("cuda kv_quant mxfp8 dev: src non-cuda"));
    assert_eq!(e(&dst, &host(t(DType::U8, &[2, 3, 100, 2])), &src, &w), un("cuda kv_quant mxfp8 dev: scale non-cuda"));
}

#[test]
fn attention_over_an_eight_bit_cache() {
    let out = t(DType::F16, &[1, 8, 4, 128]);
    let q = |n: usize| t(DType::F16, &[1, 8, n, 128]);
    let k = cache(DType::MXFP8, 1, 2, 300, 128, 512);
    let ks = cache(DType::U8, 1, 2, 300, 4, 512);
    // The scale of a block lies where the block lies among all blocks.
    let (s, c) = (&ks.layout.strides, &k.layout.strides);
    assert_eq!(s[1] + 7 * s[2] + 3, (c[1] + 7 * c[2] + 3 * 32 + 5) / 32);
    let kernel = |n: usize, grouped: bool, split_q: bool| {
        B.flash_attention_mxfp8kv(&q(n), &k, &k, &ks, &ks, &out, true, grouped, split_q, true).unwrap().kernel
    };
    assert_eq!(kernel(4, true, true), Mxfp8AttnKernel::Grouped);
    assert_eq!(kernel(4, false, true), Mxfp8AttnKernel::SplitQ);
    assert_eq!(kernel(4, false, false), Mxfp8AttnKernel::Prefill);
    assert_eq!(kernel(1, false, true), Mxfp8AttnKernel::Decode { split_k: 16 });
    let p = B.flash_attention_mxfp8kv(&q(4), &k, &k, &ks, &ks, &out, true, true, true, true).unwrap();
    assert_eq!((p.shape.t_stride, p.shape.t_kv, p.k_scale_off, p.v_scale_off), (512, 300, 0, 0));
    let d = |n: usize, grouped: bool| {
        B.flash_attention_mxfp8kv_dev(&q(n), &k, &k, &ks, &ks, &word(1), &out, true, grouped, true).unwrap()
    };
    assert_eq!(d(4, true).kernel, Mxfp8AttnKernel::Grouped);
    assert_eq!(d(4, false).kernel, Mxfp8AttnKernel::Decode { split_k: 4 });
    assert_eq!((d(1, false).shape.t_cache.start, d(1, false).shape.t_cache.end), (4, 8));
}

#[test]
fn refused_attention_over_an_eight_bit_cache() {
    let out = t(DType::F16, &[1, 4, 2, 64]);
    let q = t(DType::F16, &[1, 4, 2, 64]);
    let m = |d: &[usize]| t(DType::MXFP8, d);
    let u = |d: &[usize]| t(DType::U8, d);
    let (k, ks, w) = (m(&[1, 2, 9, 64]), u(&[1, 2, 9, 2]), word(0));
    let e = |q: &Operand, k: &Operand, v: &Operand, ks: &Operand, vs: &Operand, o: &Operand, f: bool| {
        B.flash_attention_mxfp8kv(q, k, v, ks, vs, o, f, false, false, true).unwrap_err()
    };
    assert_eq!(e(&q, &k, &k, &ks, &ks, &out, false), un("cuda flash mxfp8: q must be float"));
    assert_eq!(e(&q, &q, &k, &ks, &ks, &out, true), un("cuda flash mxfp8: k/v must be MXFP8"));
    assert_eq!(e(&q, &k, &k, &k, &ks, &out, true), un("cuda flash mxfp8: scales must be U8"));
    assert_eq!(e(&q, &m(&[2, 9, 64]), &k, &ks, &ks, &out, true), un("cuda flash mxfp8: expect rank-4 [B,H,T,D]"));
    assert_eq!(e(&q, &k, &m(&[1, 2, 8, 64]), &ks, &ks, &out, true), un("cuda flash mxfp8: k/v shape"));
    let k3 = m(&[1, 3, 9, 64]);
    assert_eq!(e(&q, &k3, &k3, &ks, &ks, &out, true), un("cuda flash mxfp8: GQA/D/%32 constraints"));
    let (q48, k48) = (t(DType::F16, &[1, 4, 2, 48]), m(&[1, 2, 9, 48]));
    assert_eq!(e(&q48, &k48, &k48, &ks, &ks, &out, true), un("cuda flash mxfp8: GQA/D/%32 constraints"));
    assert_eq!(e(&q, &gappy(m(&[1, 2, 9, 64])), &k, &ks, &ks, &out, true), KernelError::NonContiguous);
    let longer = cache(DType::MXFP8, 1, 2, 9, 64, 16);
    assert_eq!(e(&q, &k, &longer, &ks, &ks, &out, true), un("cuda flash mxfp8: k/v t_stride mismatch"));
    assert_eq!(e(&q, &longer, &longer, &ks, &ks, &out, true), un("cuda flash mxfp8: scale layout/t_stride"));
    assert_eq!(e(&host(t(DType::F16, &[1, 4, 2, 64])), &k, &k, &ks, &ks, &out, true), un("cuda flash mxfp8: q non-cuda"));
    assert_eq!(e(&q, &k, &k, &host(u(&[1, 2, 9, 2])), &ks, &out, true), un("cuda flash mxfp8: k_scale non-cuda"));
    assert_eq!(e(&q, &k, &k, &ks, &host(u(&[1, 2, 9, 2])), &out, true), un("cuda flash mxfp8: v_scale non-cuda"));
    assert_eq!(e(&q, &k, &k, &ks, &ks, &host(u(&[1])), true), un("cuda flash mxfp8: out non-cuda"));
    let e = |q: &Operand, k: &Operand, v: &Operand, ks: &Operand, vs: &Operand, w: &Operand, o: &Operand, f: bool| {
        B.flash_attention_mxfp8kv_dev(q, k, v, ks, vs, w, o, f, false, true).unwrap_err()
    };
    assert_eq!(e(&q, &k, &k, &ks, &ks, &w, &out, false), un("cuda flash mxfp8 dev: q must be float"));
    assert_eq!(e(&q, &q, &k, &ks, &ks, &w, &out, true), un("cuda flash mxfp8 dev: k/v must be MXFP8"));
    assert_eq!(e(&q, &k, &k, &k, &ks, &w, &out, true), un("cuda flash mxfp8 dev: scales must be U8"));
    assert_eq!(e(&q, &k, &k, &ks, &ks, &q, &out, true), un("cuda flash mxfp8 dev: t_cache must be U32"));
    assert_eq!(e(&q, &m(&[2, 9, 64]), &k, &ks, &ks, &w, &out, true), un("cuda flash mxfp8 dev: rank-4 [B,H,T,D]"));
    assert_eq!(e(&q, &k, &m(&[1, 2, 8, 64]), &ks, &ks, &w, &out, true), un("cuda flash mxfp8 dev: k/v shape"));
    assert_eq!(e(&q, &k3, &k3, &ks, &ks, &w, &out, true), un("cuda flash mxfp8 dev: GQA/D/%32"));
    assert_eq!(e(&q, &gappy(m(&[1, 2, 9, 64])), &k, &ks, &ks, &w, &out, true), KernelError::NonContiguous);
    assert_eq!(e(&q, &k, &longer, &ks, &ks, &w, &out, true), un("cuda flash mxfp8 dev: k/v t_stride mismatch"));
    assert_eq!(e(&q, &k, &gappy(m(&[1, 2, 9, 64])), &ks, &ks, &w, &out, true), un("cuda flash mxfp8 dev: k/v t_stride mismatch"));
    assert_eq!(e(&q, &longer, &longer, &ks, &ks, &w, &out, true), un("cuda flash mxfp8 dev: scale layout/t_stride"));
    assert_eq!(e(&host(t(DType::F16, &[1, 4, 2, 64])), &k, &k, &ks, &ks, &w, &out, true), un("cuda flash mxfp8 dev: q non-cuda"));
    assert_eq!(e(&q, &k, &k, &ks, &ks, &host(word(0)), &out, true), un("cuda flash mxfp8 dev: t_cache non-cuda"));
    assert_eq!(e(&q, &k, &k, &host(u(&[1, 2, 9, 2])), &ks, &w, &out, true), un("cuda flash mxfp8 dev: k_scale non-cuda"));
    assert_eq!(e(&q, &k, &k, &ks, &host(u(&[1, 2, 9, 2])), &w, &out, true), un("cuda flash mxfp8 dev: v_scale non-cuda"));
    assert_eq!(e(&q, &k, &k, &ks, &ks, &w, &host(u(&[1])), true), un("cuda flash mxfp8 dev: out non-cuda"));
}

#[test]
fn attention_with_and_without_a_mask() {
    let h = |d: &[usize]| t(DType::F16, d);
    let (q, k, out) = (h(&[1, 4, 2, 128]), h(&[1, 2, 9, 128]), h(&[1, 4, 2, 128]));
    let (m, ms) = (t(DType::MXFP8, &[1, 2, 9, 128]), t(DType::U8, &[1, 2, 9, 4]));
    let w = word(0);
    for causal in [false, true] {
        for mode in [AttnMode::Auto, AttnMode::Fa4, AttnMode::Fa2, AttnMode::FlashDecode] {
            assert_eq!(B.flash_attention(&q, &k, &k, &out, mode, causal).unwrap().shape.causal, causal);
        }
        assert_eq!(B.flash_attention_window(&q, &k, &k, &out, 4, causal).unwrap().shape.causal, causal);
        let (qb, kb) = (h(&[1, 2, 4, 128]), h(&[1, 9, 2, 128]));
        assert_eq!(B.flash_attention_bshd(&qb, &kb, &kb, &qb, causal).unwrap().causal, causal);
        assert_eq!(B.flash_attention_dev(&q, &k, &k, &w, &out, causal).unwrap().shape.causal, causal);
        assert_eq!(B.flash_attention_window_dev(&q, &k, &k, &w, &out, 4, causal).unwrap().shape.causal, causal);
        assert_eq!(B.flash_attention_prefill_dev(&q, &k, &k, &w, &out, causal).unwrap().causal, causal);
        let p = B.flash_attention_mxfp8kv(&q, &m, &m, &ms, &ms, &out, true, true, true, causal).unwrap();
        assert_eq!(p.shape.causal, causal);
        let p = B.flash_attention_mxfp8kv_dev(&q, &m, &m, &ms, &ms, &w, &out, true, true, causal).unwrap();
        assert_eq!(p.shape.causal, causal);
    }
}

#[test]
fn a_narrowed_cache_attends_as_its_copy() {
    let out = t(DType::BF16, &[2, 8, 4, 128]);
    let (rows, room) = (300, 512);
    let (k, v) = (cache(DType::BF16, 2, 2, rows, 128, room), cache(DType::BF16, 2, 2, rows, 128, room));
    let (kc, vc) = (t(DType::BF16, &[2, 2, rows, 128]), t(DType::BF16, &[2, 2, rows, 128]));
    for n in [1, 4] {
        let q = t(DType::BF16, &[2, 8, n, 128]);
        for mode in [AttnMode::Auto, AttnMode::Fa4, AttnMode::Fa2, AttnMode::FlashDecode] {
            let a = B.flash_attention(&q, &k, &v, &out, mode, true).unwrap();
            let b = B.flash_attention(&q, &kc, &vc, &out, mode, true).unwrap();
            assert_eq!(a.kernel, b.kernel);
            assert_eq!((a.shape.t_stride, b.shape.t_stride), (512, 300));
            assert_eq!(a.shape, FlashShape { t_stride: 512, ..b.shape });
            for (h, r, e) in [(0, 0, 0), (1, 299, 127), (3, 17, 5)] {
                let place = |s: FlashShape| (h * s.t_stride as isize + r) * s.d as isize + e;
                let named = |o: &Operand| {
                    let s = &o.layout.strides;
                    h / 2 * s[0] + h % 2 * s[1] + r * s[2] + e * s[3]
                };
                assert_eq!((place(a.shape), place(a.shape)), (named(&k), named(&v)));
                assert_eq!((place(b.shape), place(b.shape)), (named(&kc), named(&vc)));
            }
        }
    }
    let q = t(DType::BF16, &[2, 7, 4, 128]);
    assert_eq!(
        B.flash_attention(&q, &k, &v, &out, AttnMode::Auto, true),
        B.flash_attention(&q, &kc, &vc, &out, AttnMode::Auto, true)
    );
}

#[test]
fn a_count_in_device_memory_attends_as_a_host_count() {
    let (rows, room) = (300, 512);
    let out = t(DType::F16, &[1, 8, 1, 64]);
    let q = t(DType::F16, &[1, 8, 1, 64]);
    let whole = |dtype: DType, d: usize| cache(dtype, 1, 2, room, d, room);
    let part = |dtype: DType, d: usize| cache(dtype, 1, 2, rows, d, room);
    let (k, ks) = (whole(DType::MXFP8, 64), whole(DType::U8, 2));
    let (kn, kns) = (part(DType::MXFP8, 64), part(DType::U8, 2));
    for grouped in [false, true] {
        let a = B.flash_attention_mxfp8kv_dev(&q, &k, &k, &ks, &ks, &word(3), &out, true, grouped, true).unwrap();
        let b = B.flash_attention_mxfp8kv(&q, &kn, &kn, &kns, &kns, &out, true, grouped, true, true).unwrap();
        let (x, y) = (a.shape, b.shape);
        assert_eq!((x.dtype, x.b, x.nh, x.nkv, x.t_q, x.d), (y.dtype, y.b, y.nh, y.nkv, y.t_q, y.d));
        assert_eq!((x.t_stride, x.q_off, x.k_off, x.v_off), (y.t_stride, y.q_off, y.k_off, y.v_off));
        assert_eq!((x.causal, y.t_stride, y.t_kv), (y.causal, 512, 300));
        assert_eq!((a.k_scale_off, a.v_scale_off), (b.k_scale_off, b.v_scale_off));
        let is_grouped = |k: Mxfp8AttnKernel| k == Mxfp8AttnKernel::Grouped;
        assert_eq!((is_grouped(a.kernel), is_grouped(b.kernel)), (grouped, grouped));
    }
    for count in [t(DType::F32, &[1]), t(DType::U8, &[4])] {
        assert_eq!(
            B.flash_attention_mxfp8kv_dev(&q, &k, &k, &ks, &ks, &count, &out, true, true, true),
            Err(un("cuda flash mxfp8 dev: t_cache must be U32"))
        );
    }
}
