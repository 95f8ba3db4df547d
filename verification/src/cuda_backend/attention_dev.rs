//! Attention and appends whose lengths are read from device memory, so that a captured launch can
//! be replayed for every length.

use vstd::prelude::*;

use crate::arith::{ceil_div, clamp3, clamp_u32, div_ceil_u32, lemma_ceil_div, max2, max_u32};
use crate::cuda_backend::attention::{derive_tstride, half_float, head_rows, kv_append_fits};
use crate::cuda_backend::attention_laws::attends_of;
use crate::cuda_backend::CudaBackend;
use crate::dtype::{is_half, DType};
use crate::elementwise::kv_append::{append_plan, append_u8_dev, AppendU8};
use crate::error::KernelError;
use crate::launch::{span, spec_span, Span};
use crate::layout::{lemma_four, same_dims, Layout, Operand};

verus! {

/// The sizes of an attention whose number of keys is read from device memory.
#[derive(Clone, Copy, Debug, PartialEq, Eq, Structural)]
pub struct FlashDevShape {
    pub dtype: DType,
    pub b: u32,
    pub nh: u32,
    pub nkv: u32,
    pub t_q: u32,
    pub d: u32,
    /// Rows between the starts of two heads of the cache.
    pub t_stride: u32,
    pub q_off: usize,
    pub k_off: usize,
    pub v_off: usize,
    /// The number of keys.
    pub t_cache: Span,
    /// A query sees no key behind its own position.
    pub causal: bool,
}

/// Attention within a window of the last `window` keys.
#[derive(Clone, Copy, Debug, PartialEq, Eq, Structural)]
pub struct FlashWindowDev {
    pub shape: FlashDevShape,
    pub window: i32,
}

/// Attention of few queries, the keys split over `split_k` segments.
#[derive(Clone, Copy, Debug, PartialEq, Eq, Structural)]
pub struct FlashDevDecode {
    pub shape: FlashDevShape,
    pub split_k: u32,
}

/// An append from the row on that `seq_pos` holds.
#[derive(Clone, Copy, Debug, PartialEq, Eq)]
pub struct KvAppendDev {
    pub append: AppendU8,
    pub seq_pos: Span,
}

/// The sizes of an attention over a cache.
pub open spec fn dev_shape(
    q: Layout,
    k: Layout,
    v: Layout,
    t_cache: Layout,
    causal: bool,
) -> FlashDevShape {
    FlashDevShape {
        dtype: q.dtype,
        b: q.dims@[0] as u32,
        nh: q.dims@[1] as u32,
        nkv: k.dims@[1] as u32,
        t_q: q.dims@[2] as u32,
        d: q.dims@[3] as u32,
        t_stride: head_rows(k)->0,
        q_off: q.byte_offset,
        k_off: k.byte_offset,
        v_off: v.byte_offset,
        t_cache: spec_span(t_cache.byte_offset as int, 1, 4),
        causal,
    }
}

pub(crate) fn dev_shape_of(
    q: &Layout,
    k: &Layout,
    v: &Layout,
    t_cache: &Layout,
    causal: bool,
) -> (r: FlashDevShape)
    requires
        q.dims@.len() == 4,
        k.dims@.len() == 4,
        k.wf(),
        t_cache.wf(),
        head_rows(*k) is Some,
    ensures
        r == dev_shape(*q, *k, *v, *t_cache, causal),
{
    let t_stride: u32 = match derive_tstride(k) {
        Some(t) => t,
        None => 0,
    };
    FlashDevShape {
        dtype: q.dtype,
        b: q.dims[0] as u32,
        nh: q.dims[1] as u32,
        nkv: k.dims[1] as u32,
        t_q: q.dims[2] as u32,
        d: q.dims[3] as u32,
        t_stride,
        q_off: q.byte_offset,
        k_off: k.byte_offset,
        v_off: v.byte_offset,
        t_cache: span(t_cache.byte_offset, 1, 4),
        causal,
    }
}

/// Segments of the keys by the room of the cache: enough to fill the device, and one for every
/// 2048 rows of a head.
pub open spec fn room_split(rows: u32, t_stride: u32) -> int {
    clamp3(
        max2(max2(128int / max2(rows as int, 1), 1), ceil_div(t_stride as int, 2048)),
        1,
        32,
    )
}

pub(crate) fn room_split_of(rows: u32, t_stride: u32) -> (r: u32)
    ensures
        r == room_split(rows, t_stride),
{
    let occ: u32 = max_u32(128 / max_u32(rows, 1), 1);
    let long: u32 = div_ceil_u32(t_stride, 2048);
    clamp_u32(max_u32(occ, long), 1, 32)
}

/// A split by the room is one that the kernel takes, and in a cache of up to 65536 rows no segment
/// has more than 2048 keys, however many there are.
pub proof fn room_split_bounds(rows: u32, t_stride: u32, t_kv: u32)
    requires
        t_kv <= t_stride,
    ensures
        1 <= room_split(rows, t_stride) <= 32,
        t_stride <= 65536 ==> room_split(rows, t_stride) * 2048 >= t_kv,
{
    lemma_ceil_div(t_stride as int, 2048);
}

/// The outcome of a request to append from a row on that is read from device memory.
pub open spec fn kv_append_dev_plan(
    dst: Operand,
    src: Operand,
    seq_pos: Operand,
) -> Result<KvAppendDev, KernelError> {
    let (dl, sl) = (dst.layout, src.layout);
    let dd = dl.dims@;
    let sd = sl.dims@;
    if sl.dtype != dl.dtype {
        Err(KernelError::Unsupported("cuda kv_append_dev: dtype mismatch src/dst"))
    } else if seq_pos.layout.dtype != DType::U32 {
        Err(KernelError::Unsupported("cuda kv_append_dev: seq_pos must be U32"))
    } else if dd.len() != 4 || sd.len() != 4 {
        Err(KernelError::Unsupported("cuda kv_append_dev: expect rank-4 [B,nkv,T,hd]"))
    } else if !dl.contiguous || !sl.contiguous {
        Err(KernelError::NonContiguous)
    } else if sd[0] != dd[0] || sd[1] != dd[1] || sd[3] != dd[3] {
        Err(KernelError::Unsupported("cuda kv_append_dev: src/dst shape mismatch"))
    } else if !dst.cuda {
        Err(KernelError::Unsupported("cuda kv_append_dev: dst non-cuda"))
    } else if !seq_pos.cuda {
        Err(KernelError::Unsupported("cuda kv_append_dev: seq_pos non-cuda"))
    } else if !src.cuda {
        Err(KernelError::Unsupported("cuda kv_append_dev: src non-cuda"))
    } else {
        match append_plan(
            sl.byte_offset as int,
            dl.byte_offset as int,
            dd[0] as u32,
            dd[1] as u32,
            sd[2] as u32,
            dd[3] as u32,
            dd[2] as u32,
            dl.dtype,
            None,
        ) {
            Err(e) => Err(e),
            Ok(append) => Ok(
                KvAppendDev { append, seq_pos: spec_span(seq_pos.layout.byte_offset as int, 1, 4) },
            ),
        }
    }
}

/// What is wrong with the layouts of a request for attention within a window, if anything.
pub open spec fn flash_attention_window_dev_early(
    q: Layout,
    k: Layout,
    v: Layout,
    t_cache: Layout,
) -> Option<KernelError> {
    let (ql, kl, vl) = (q, k, v);
    let qd = ql.dims@;
    let kd = kl.dims@;
    let vd = vl.dims@;
    if !is_half(ql.dtype) || kl.dtype != ql.dtype || vl.dtype != ql.dtype {
        Some(KernelError::Unsupported("flash_window_dev: f16/bf16 only"))
    } else if t_cache.dtype != DType::U32 {
        Some(KernelError::Unsupported("flash_window_dev: t_cache must be U32"))
    } else if qd.len() != 4 || kd.len() != 4 || vd.len() != 4 {
        Some(KernelError::Unsupported("flash_window_dev: rank-4"))
    } else if qd[3] != 128 {
        Some(KernelError::Unsupported("flash_window_dev: HD=128 only"))
    } else if kd[0] != qd[0] || kd[3] != qd[3] || vd != kd {
        Some(KernelError::Unsupported("flash_window_dev: k/v shape"))
    } else if kd[1] == 0 || qd[1] % kd[1] != 0 {
        Some(KernelError::Unsupported("flash_window_dev: GQA"))
    } else if !ql.contiguous || head_rows(kl) is None || head_rows(vl) is None {
        Some(KernelError::NonContiguous)
    } else if head_rows(kl) != head_rows(vl) {
        Some(KernelError::Unsupported("flash_window_dev: k/v t_stride"))
    } else {
        None
    }
}

/// The outcome of a request for attention within a window, the number of keys being in device memory.
pub open spec fn flash_attention_window_dev_plan(
    q: Operand,
    k: Operand,
    v: Operand,
    t_cache: Operand,
    out: Operand,
    window: i32,
    causal: bool,
) -> Result<FlashWindowDev, KernelError> {
    let (ql, kl, vl) = (q.layout, k.layout, v.layout);
    match flash_attention_window_dev_early(ql, kl, vl, t_cache.layout) {
        Some(e) => Err(e),
        None => if !q.cuda {
            Err(KernelError::Unsupported("flash_window_dev: q non-cuda"))
        } else if !t_cache.cuda {
            Err(KernelError::Unsupported("flash_window_dev: t_cache non-cuda"))
        } else if !out.cuda {
            Err(KernelError::Unsupported("flash_window_dev: out non-cuda"))
        } else {
            Ok(FlashWindowDev { shape: dev_shape(ql, kl, vl, t_cache.layout, causal), window })
        },
    }
}

/// What is wrong with the layouts of a request for attention of few queries, if anything.
pub open spec fn flash_attention_dev_early(
    q: Layout,
    k: Layout,
    v: Layout,
    t_cache: Layout,
) -> Option<KernelError> {
    let (ql, kl, vl) = (q, k, v);
    let qd = ql.dims@;
    let kd = kl.dims@;
    let vd = vl.dims@;
    if kl.dtype != ql.dtype || vl.dtype != ql.dtype {
        Some(KernelError::Unsupported("cuda flash_dev: dtype mismatch q/k/v"))
    } else if t_cache.dtype != DType::U32 {
        Some(KernelError::Unsupported("cuda flash_dev: t_cache must be U32"))
    } else if qd.len() != 4 || kd.len() != 4 || vd.len() != 4 {
        Some(KernelError::Unsupported("cuda flash_dev: expect rank-4 [B,H,T,D]"))
    } else if kd[0] != qd[0] || kd[3] != qd[3] || vd != kd {
        Some(KernelError::Unsupported("cuda flash_dev: k/v shape"))
    } else if kd[1] == 0 || qd[1] % kd[1] != 0 || qd[3] == 0 || qd[3] > 1024 {
        Some(KernelError::Unsupported("cuda flash_dev: GQA/D constraints"))
    } else if !ql.contiguous || head_rows(kl) is None || head_rows(vl) is None {
        Some(KernelError::NonContiguous)
    } else if head_rows(kl) != head_rows(vl) {
        Some(KernelError::Unsupported("cuda flash_dev: k/v t_stride mismatch"))
    } else {
        None
    }
}

/// The outcome of a request for attention of few queries, the number of keys being in device memory.
pub open spec fn flash_attention_dev_plan(
    q: Operand,
    k: Operand,
    v: Operand,
    t_cache: Operand,
    out: Operand,
    causal: bool,
) -> Result<FlashDevDecode, KernelError> {
    let (ql, kl, vl) = (q.layout, k.layout, v.layout);
    let qd = ql.dims@;
    match flash_attention_dev_early(ql, kl, vl, t_cache.layout) {
        Some(e) => Err(e),
        None => if !q.cuda {
            Err(KernelError::Unsupported("cuda flash_dev: q non-cuda"))
        } else if !t_cache.cuda {
            Err(KernelError::Unsupported("cuda flash_dev: t_cache non-cuda"))
        } else if !out.cuda {
            Err(KernelError::Unsupported("cuda flash_dev: out non-cuda"))
        } else {
            Ok(
                FlashDevDecode {
                    shape: dev_shape(ql, kl, vl, t_cache.layout, causal),
                    split_k: room_split(((qd[0] * qd[1] * qd[2]) as usize) as u32, head_rows(kl)->0) as u32,
                },
            )
        },
    }
}

/// What is wrong with the layouts of a request for attention of many queries, if anything.
pub open spec fn flash_attention_prefill_dev_early(
    q: Layout,
    k: Layout,
    v: Layout,
    t_cache: Layout,
) -> Option<KernelError> {
    let (ql, kl, vl) = (q, k, v);
    let qd = ql.dims@;
    let kd = kl.dims@;
    let vd = vl.dims@;
    if kl.dtype != ql.dtype || vl.dtype != ql.dtype {
        Some(KernelError::Unsupported("cuda flash_prefill_dev: dtype mismatch q/k/v"))
    } else if t_cache.dtype != DType::U32 {
        Some(KernelError::Unsupported("cuda flash_prefill_dev: t_cache must be U32"))
    } else if !is_half(ql.dtype) {
        Some(KernelError::Unsupported("cuda flash_prefill_dev: tensor-core path требует F16/BF16"))
    } else if qd.len() != 4 || kd.len() != 4 || vd.len() != 4 {
        Some(KernelError::Unsupported("cuda flash_prefill_dev: expect rank-4 [B,H,T,D]"))
    } else if kd[0] != qd[0] || kd[3] != qd[3] || vd != kd {
        Some(KernelError::Unsupported("cuda flash_prefill_dev: k/v shape"))
    } else if kd[1] == 0 || qd[1] % kd[1] != 0 {
        Some(KernelError::Unsupported("cuda flash_prefill_dev: GQA constraint NH % NKV == 0"))
    } else if qd[3] != 64 && qd[3] != 128 && qd[3] != 256 {
        Some(KernelError::Unsupported("cuda flash_prefill_dev: HD must be 64, 128 or 256"))
    } else if !ql.contiguous || head_rows(kl) is None || head_rows(vl) is None {
        Some(KernelError::NonContiguous)
    } else if head_rows(kl) != head_rows(vl) {
        Some(KernelError::Unsupported("cuda flash_prefill_dev: k/v t_stride mismatch"))
    } else {
        None
    }
}

/// The outcome of a request for attention of many queries, the number of keys being in device memory.
pub open spec fn flash_attention_prefill_dev_plan(
    q: Operand,
    k: Operand,
    v: Operand,
    t_cache: Operand,
    out: Operand,
    causal: bool,
) -> Result<FlashDevShape, KernelError> {
    let (ql, kl, vl) = (q.layout, k.layout, v.layout);
    match flash_attention_prefill_dev_early(ql, kl, vl, t_cache.layout) {
        Some(e) => Err(e),
        None => if !q.cuda {
            Err(KernelError::Unsupported("cuda flash_prefill_dev: q non-cuda"))
        } else if !t_cache.cuda {
            Err(KernelError::Unsupported("cuda flash_prefill_dev: t_cache non-cuda"))
        } else if !out.cuda {
            Err(KernelError::Unsupported("cuda flash_prefill_dev: out non-cuda"))
        } else {
            Ok(dev_shape(ql, kl, vl, t_cache.layout, causal))
        },
    }
}

impl CudaBackend {
    /// Plans an append of `src` to the cache `dst` from the row on that is read from device memory.
    pub fn kv_append_dev(
        &self,
        dst: &Operand,
        src: &Operand,
        seq_pos: &Operand,
    ) -> (r: Result<KvAppendDev, KernelError>)
        requires
            seq_pos.wf(),
            kv_append_dev_plan(*dst, *src, *seq_pos) is Ok ==> kv_append_fits(dst.layout, src.layout),
        ensures
            r == kv_append_dev_plan(*dst, *src, *seq_pos),
    {
        let (dl, sl): (&Layout, &Layout) = (&dst.layout, &src.layout);
        let (dd, sd) = (&dl.dims, &sl.dims);
        if sl.dtype != dl.dtype {
            return Err(KernelError::Unsupported("cuda kv_append_dev: dtype mismatch src/dst"));
        }
        if seq_pos.layout.dtype != DType::U32 {
            return Err(KernelError::Unsupported("cuda kv_append_dev: seq_pos must be U32"));
        }
        if dd.len() != 4 || sd.len() != 4 {
            return Err(KernelError::Unsupported("cuda kv_append_dev: expect rank-4 [B,nkv,T,hd]"));
        }
        if !dl.contiguous || !sl.contiguous {
            return Err(KernelError::NonContiguous);
        }
        if sd[0] != dd[0] || sd[1] != dd[1] || sd[3] != dd[3] {
            return Err(KernelError::Unsupported("cuda kv_append_dev: src/dst shape mismatch"));
        }
        if !dst.cuda {
            return Err(KernelError::Unsupported("cuda kv_append_dev: dst non-cuda"));
        }
        if !seq_pos.cuda {
            return Err(KernelError::Unsupported("cuda kv_append_dev: seq_pos non-cuda"));
        }
        if !src.cuda {
            return Err(KernelError::Unsupported("cuda kv_append_dev: src non-cuda"));
        }
        match append_u8_dev(
            sl.byte_offset,
            dl.byte_offset,
            dd[0] as u32,
            dd[1] as u32,
            sd[2] as u32,
            dd[3] as u32,
            dd[2] as u32,
            dl.dtype,
        ) {
            Err(e) => Err(e),
            Ok(append) => Ok(KvAppendDev { append, seq_pos: span(seq_pos.layout.byte_offset, 1, 4) }),
        }
    }

    /// Plans attention within a window of keys, their number read from device memory.
    pub fn flash_attention_window_dev(
        &self,
        q: &Operand,
        k: &Operand,
        v: &Operand,
        t_cache: &Operand,
        out: &Operand,
        window: i32,
        causal: bool,
    ) -> (r: Result<FlashWindowDev, KernelError>)
        requires
            q.wf(),
            k.wf(),
            v.wf(),
            t_cache.wf(),
            flash_attention_window_dev_early(q.layout, k.layout, v.layout, t_cache.layout) is None
                && q.cuda && t_cache.cuda ==> k.cuda && v.cuda,
        ensures
            r == flash_attention_window_dev_plan(*q, *k, *v, *t_cache, *out, window, causal),
            r matches Ok(p) ==> p.window == window && attends_of(
                p.shape,
                q.layout,
                k.layout,
                v.layout,
                causal,
            ),
    {
        let (ql, kl, vl): (&Layout, &Layout, &Layout) = (&q.layout, &k.layout, &v.layout);
        let (qd, kd, vd) = (&ql.dims, &kl.dims, &vl.dims);
        if !half_float(ql.dtype) || kl.dtype != ql.dtype || vl.dtype != ql.dtype {
            return Err(KernelError::Unsupported("flash_window_dev: f16/bf16 only"));
        }
        if t_cache.layout.dtype != DType::U32 {
            return Err(KernelError::Unsupported("flash_window_dev: t_cache must be U32"));
        }
        if qd.len() != 4 || kd.len() != 4 || vd.len() != 4 {
            return Err(KernelError::Unsupported("flash_window_dev: rank-4"));
        }
        if qd[3] != 128 {
            return Err(KernelError::Unsupported("flash_window_dev: HD=128 only"));
        }
        if kd[0] != qd[0] || kd[3] != qd[3] || !same_dims(vd, kd) {
            return Err(KernelError::Unsupported("flash_window_dev: k/v shape"));
        }
        if kd[1] == 0 || qd[1] % kd[1] != 0 {
            return Err(KernelError::Unsupported("flash_window_dev: GQA"));
        }
        if !ql.contiguous || derive_tstride(kl).is_none() || derive_tstride(vl).is_none() {
            return Err(KernelError::NonContiguous);
        }
        if derive_tstride(kl) != derive_tstride(vl) {
            return Err(KernelError::Unsupported("flash_window_dev: k/v t_stride"));
        }
        if !q.cuda {
            return Err(KernelError::Unsupported("flash_window_dev: q non-cuda"));
        }
        if !t_cache.cuda {
            return Err(KernelError::Unsupported("flash_window_dev: t_cache non-cuda"));
        }
        if !out.cuda {
            return Err(KernelError::Unsupported("flash_window_dev: out non-cuda"));
        }
        proof {
            lemma_four(ql.dims@);
        }
        Ok(FlashWindowDev { shape: dev_shape_of(ql, kl, vl, &t_cache.layout, causal), window })
    }

    /// Plans attention of few queries, the number of keys read from device memory. The split is by the
    /// room of the cache, so that one captured launch serves every number of keys.
    pub fn flash_attention_dev(
        &self,
        q: &Operand,
        k: &Operand,
        v: &Operand,
        t_cache: &Operand,
        out: &Operand,
        causal: bool,
    ) -> (r: Result<FlashDevDecode, KernelError>)
        requires
            q.wf(),
            k.wf(),
            v.wf(),
            t_cache.wf(),
            flash_attention_dev_early(q.layout, k.layout, v.layout, t_cache.layout) is None
                && q.cuda && t_cache.cuda ==> k.cuda && v.cuda,
        ensures
            r == flash_attention_dev_plan(*q, *k, *v, *t_cache, *out, causal),
            r matches Ok(p) ==> attends_of(p.shape, q.layout, k.layout, v.layout, causal),
    {
        let (ql, kl, vl): (&Layout, &Layout, &Layout) = (&q.layout, &k.layout, &v.layout);
        let (qd, kd, vd) = (&ql.dims, &kl.dims, &vl.dims);
        if kl.dtype != ql.dtype || vl.dtype != ql.dtype {
            return Err(KernelError::Unsupported("cuda flash_dev: dtype mismatch q/k/v"));
        }
        if t_cache.layout.dtype != DType::U32 {
            return Err(KernelError::Unsupported("cuda flash_dev: t_cache must be U32"));
        }
        if qd.len() != 4 || kd.len() != 4 || vd.len() != 4 {
            return Err(KernelError::Unsupported("cuda flash_dev: expect rank-4 [B,H,T,D]"));
        }
        if kd[0] != qd[0] || kd[3] != qd[3] || !same_dims(vd, kd) {
            return Err(KernelError::Unsupported("cuda flash_dev: k/v shape"));
        }
        if kd[1] == 0 || qd[1] % kd[1] != 0 || qd[3] == 0 || qd[3] > 1024 {
            return Err(KernelError::Unsupported("cuda flash_dev: GQA/D constraints"));
        }
        if !ql.contiguous || derive_tstride(kl).is_none() || derive_tstride(vl).is_none() {
            return Err(KernelError::NonContiguous);
        }
        if derive_tstride(kl) != derive_tstride(vl) {
            return Err(KernelError::Unsupported("cuda flash_dev: k/v t_stride mismatch"));
        }
        if !q.cuda {
            return Err(KernelError::Unsupported("cuda flash_dev: q non-cuda"));
        }
        if !t_cache.cuda {
            return Err(KernelError::Unsupported("cuda flash_dev: t_cache non-cuda"));
        }
        if !out.cuda {
            return Err(KernelError::Unsupported("cuda flash_dev: out non-cuda"));
        }
        proof {
            lemma_four(ql.dims@);
        }
        let shape = dev_shape_of(ql, kl, vl, &t_cache.layout, causal);
        let rows: u32 = (qd[0] * qd[1] * qd[2]) as u32;
        Ok(FlashDevDecode { shape, split_k: room_split_of(rows, shape.t_stride) })
    }

    /// Plans attention of many queries, the number of keys read from device memory.
    pub fn flash_attention_prefill_dev(
        &self,
        q: &Operand,
        k: &Operand,
        v: &Operand,
        t_cache: &Operand,
        out: &Operand,
        causal: bool,
    ) -> (r: Result<FlashDevShape, KernelError>)
        requires
            q.wf(),
            k.wf(),
            v.wf(),
            t_cache.wf(),
            flash_attention_prefill_dev_early(q.layout, k.layout, v.layout, t_cache.layout) is None
                && q.cuda ==> k.cuda && v.cuda,
        ensures
            r == flash_attention_prefill_dev_plan(*q, *k, *v, *t_cache, *out, causal),
            r matches Ok(s) ==> attends_of(s, q.layout, k.layout, v.layout, causal),
    {
        let (ql, kl, vl): (&Layout, &Layout, &Layout) = (&q.layout, &k.layout, &v.layout);
        let (qd, kd, vd) = (&ql.dims, &kl.dims, &vl.dims);
        if kl.dtype != ql.dtype || vl.dtype != ql.dtype {
            return Err(KernelError::Unsupported("cuda flash_prefill_dev: dtype mismatch q/k/v"));
        }
        if t_cache.layout.dtype != DType::U32 {
            return Err(KernelError::Unsupported("cuda flash_prefill_dev: t_cache must be U32"));
        }
        if !half_float(ql.dtype) {
            return Err(
                KernelError::Unsupported(
                    "cuda flash_prefill_dev: tensor-core path требует F16/BF16",
                ),
            );
        }
        if qd.len() != 4 || kd.len() != 4 || vd.len() != 4 {
            return Err(KernelError::Unsupported("cuda flash_prefill_dev: expect rank-4 [B,H,T,D]"));
        }
        if kd[0] != qd[0] || kd[3] != qd[3] || !same_dims(vd, kd) {
            return Err(KernelError::Unsupported("cuda flash_prefill_dev: k/v shape"));
        }
        if kd[1] == 0 || qd[1] % kd[1] != 0 {
            return Err(KernelError::Unsupported("cuda flash_prefill_dev: GQA constraint NH % NKV == 0"));
        }
        if qd[3] != 64 && qd[3] != 128 && qd[3] != 256 {
            return Err(KernelError::Unsupported("cuda flash_prefill_dev: HD must be 64, 128 or 256"));
        }
        if !ql.contiguous || derive_tstride(kl).is_none() || derive_tstride(vl).is_none() {
            return Err(KernelError::NonContiguous);
        }
        if derive_tstride(kl) != derive_tstride(vl) {
            return Err(KernelError::Unsupported("cuda flash_prefill_dev: k/v t_stride mismatch"));
        }
        if !q.cuda {
            return Err(KernelError::Unsupported("cuda flash_prefill_dev: q non-cuda"));
        }
        if !t_cache.cuda {
            return Err(KernelError::Unsupported("cuda flash_prefill_dev: t_cache non-cuda"));
        }
        if !out.cuda {
            return Err(KernelError::Unsupported("cuda flash_prefill_dev: out non-cuda"));
        }
        proof {
            lemma_four(ql.dims@);
        }
        Ok(dev_shape_of(ql, kl, vl, &t_cache.layout, causal))
    }
}

} // verus!
