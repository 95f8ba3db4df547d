//! The cache of keys and values in eight bits, with a scale for every 32 elements.

use vstd::prelude::*;

use crate::cuda_backend::attention::{
    cache_place, cache_rows_regular, decode_split, derive_tstride, flash_shape, half_float,
    head_rows, lemma_room_rows, shape_of, split_of, FlashShape,
};
use crate::cuda_backend::attention_dev::{
    dev_shape, dev_shape_of, room_split, room_split_of, FlashDevShape,
};
use crate::cuda_backend::attention_laws::{attends, attends_of};
use crate::cuda_backend::CudaBackend;
use crate::dtype::{is_half, DType};
use crate::elementwise::mxfp8_kv::{
    quant_append_fits, quant_append_mxfp8_u8, quant_append_mxfp8_u8_dev, quant_append_plan,
    QuantAppend,
};
use crate::error::KernelError;
use crate::launch::{span, spec_span, Span};
use crate::layout::{
    in_shape, lemma_four, lemma_volume_bounds, padded_volume, rows_of_cache, same_dims,
    strided_index, Layout, Operand,
};

verus! {

/// An append to an eight-bit cache from the row on that `seq_pos` holds.
#[derive(Clone, Copy, Debug, PartialEq, Eq)]
pub struct KvAppendQuantDev {
    pub append: Option<QuantAppend>,
    pub seq_pos: Span,
}

/// The kernel of an attention over an eight-bit cache.
#[derive(Clone, Copy, Debug, PartialEq, Eq, Structural)]
pub enum Mxfp8AttnKernel {
    /// The heads that share keys together.
    Grouped,
    /// Tiles of queries on tensor cores.
    SplitQ,
    /// The older tensor-core kernel.
    Prefill,
    /// One query at a time, the keys split over `split_k` segments.
    Decode { split_k: u32 },
}

/// An attention over an eight-bit cache.
#[derive(Clone, Copy, Debug, PartialEq, Eq, Structural)]
pub struct FlashMxfp8 {
    pub shape: FlashShape,
    pub k_scale_off: usize,
    pub v_scale_off: usize,
    pub kernel: Mxfp8AttnKernel,
}

/// An attention over an eight-bit cache whose number of keys is read from device memory.
#[derive(Clone, Copy, Debug, PartialEq, Eq, Structural)]
pub struct FlashMxfp8Dev {
    pub shape: FlashDevShape,
    pub k_scale_off: usize,
    pub v_scale_off: usize,
    pub kernel: Mxfp8AttnKernel,
}

/// The scales are laid out as the values are: `nb` per row, `t_stride` rows per head, head after
/// head.
pub open spec fn scale_rows_regular(lo: Layout, nb: usize, t_stride: u32) -> bool {
    let s = lo.strides@;
    let d = lo.dims@;
    &&& d.len() == 4
    &&& d[3] == nb
    &&& s[3] == 1
    &&& s[2] == nb
    &&& s[1] == t_stride * nb
    &&& s[0] == d[1] * s[1]
}

fn scale_rows(lo: &Layout, nb: usize, t_stride: u32) -> (r: bool)
    requires
        lo.wf(),
        nb <= 1024,
    ensures
        r == scale_rows_regular(*lo, nb, t_stride),
{
    if lo.dims.len() != 4 {
        return false;
    }
    let (s0, s1, s2, s3): (isize, isize, isize, isize) = (
        lo.strides[0],
        lo.strides[1],
        lo.strides[2],
        lo.strides[3],
    );
    proof {
        lemma_volume_bounds(lo.dims@);
        assert(lo.dims@[1] <= padded_volume(lo.dims@));
        assert(0 <= t_stride * nb <= 0x1_0000_0000 * 1024) by (nonlinear_arith)
            requires
                0 <= t_stride <= 0x1_0000_0000,
                0 <= nb <= 1024,
        ;
        let d1 = lo.dims@[1];
        assert(-0x4000_0000_0000_0000_0000_0000_0000_0000 <= d1 * s1
            <= 0x4000_0000_0000_0000_0000_0000_0000_0000) by (nonlinear_arith)
            requires
                0 <= d1 <= 0x7fff_ffff_ffff_ffff,
                -0x8000_0000_0000_0000 <= s1 <= 0x7fff_ffff_ffff_ffff,
        ;
    }
    lo.dims[3] == nb && s3 == 1 && s2 == nb as isize && s1 as i128 == (t_stride as i128) * (
    nb as i128) && s0 as i128 == (lo.dims[1] as i128) * (s1 as i128)
}

/// The scale of a block of 32 elements lies at the place of the block among all blocks of the
/// cache.
pub proof fn scale_of_element(k: Layout, ks: Layout, index: Seq<int>)
    requires
        k.wf(),
        ks.wf(),
        k.dims@.len() == 4,
        k.dims@[3] % 32 == 0,
        in_shape(k.dims@, index),
        head_rows(k) is Some,
        k.strides@[1] as int / k.dims@[3] as int <= u32::MAX,
        scale_rows_regular(ks, k.dims@[3] / 32, head_rows(k)->0),
        ks.dims@[1] == k.dims@[1],
    ensures
        strided_index(ks.strides@, seq![index[0], index[1], index[2], index[3] / 32])
            == strided_index(k.strides@, index) / 32,
{
    cache_rows_regular(k, index);
    let nb = (k.dims@[3] / 32) as int;
    let hd = k.dims@[3] as int;
    let ts = (head_rows(k)->0) as int;
    let nkv = k.dims@[1] as int;
    let (i0, i1, i2, i3) = (index[0], index[1], index[2], index[3]);
    let j = seq![i0, i1, i2, i3 / 32];
    let s = ks.strides@;
    reveal_with_fuel(strided_index, 5);
    let a = s.drop_last();
    let b = a.drop_last();
    let c = b.drop_last();
    let ja = j.drop_last();
    let jb = ja.drop_last();
    let jc = jb.drop_last();
    assert(s.last() == s[3] && a.last() == s[2] && b.last() == s[1] && c.last() == s[0]);
    assert(j.last() == j[3] && ja.last() == j[2] && jb.last() == j[1] && jc.last() == j[0]);
    assert(strided_index(c, jc) == j[0] * s[0]);
    let row = (i0 * nkv + i1) * ts + i2;
    assert(i0 * (nkv * (ts * nb)) + i1 * (ts * nb) + i2 * nb == row * nb) by {
        let head = i0 * nkv + i1;
        let w = ts * nb;
        assert(i0 * (nkv * w) + i1 * w == head * w) by (nonlinear_arith)
            requires
                head == i0 * nkv + i1,
        ;
        assert(head * w + i2 * nb == (head * ts + i2) * nb) by (nonlinear_arith)
            requires
                w == ts * nb,
        ;
    }
    assert(row * hd == (row * nb) * 32) by (nonlinear_arith)
        requires
            hd == nb * 32,
    ;
    assert(0 <= index[3] < hd);
}

/// The kernel of an attention over an eight-bit cache: heads that share keys together where that
/// kernel is there, else tensor cores for more than one query, else one query at a time.
pub open spec fn mxfp8_attn_kernel(
    qd: Seq<usize>,
    kd: Seq<usize>,
    grouped: bool,
    split_q: bool,
) -> Mxfp8AttnKernel {
    if grouped {
        Mxfp8AttnKernel::Grouped
    } else if qd[2] > 1 && split_q {
        Mxfp8AttnKernel::SplitQ
    } else if qd[2] > 1 && (qd[3] == 128 || qd[3] == 256) {
        Mxfp8AttnKernel::Prefill
    } else {
        Mxfp8AttnKernel::Decode { split_k: decode_split(qd[0], qd[1], qd[2], kd[2]) as u32 }
    }
}

/// The outcome of a request to append to an eight-bit cache.
pub open spec fn kv_append_quant_plan(
    dst: Operand,
    scale_dst: Operand,
    src: Operand,
    seq_pos: usize,
) -> Result<Option<QuantAppend>, KernelError> {
    let (dl, cl, sl) = (dst.layout, scale_dst.layout, src.layout);
    let dd = dl.dims@;
    let cd = cl.dims@;
    let sd = sl.dims@;
    if dl.dtype != DType::MXFP8 {
        Err(KernelError::Unsupported("cuda kv_quant mxfp8: dst must be MXFP8"))
    } else if cl.dtype != DType::U8 {
        Err(KernelError::Unsupported("cuda kv_quant mxfp8: scale must be U8"))
    } else if !is_half(sl.dtype) {
        Err(KernelError::Unsupported("cuda kv_quant mxfp8: src must be BF16/F16"))
    } else if dd.len() != 4 || sd.len() != 4 || cd.len() != 4 {
        Err(KernelError::Unsupported("cuda kv_quant mxfp8: ranks [4,4,4]"))
    } else if !dl.contiguous || !sl.contiguous || !cl.contiguous {
        Err(KernelError::NonContiguous)
    } else if dd[3] % 32 != 0 {
        Err(KernelError::Unsupported("cuda kv_quant mxfp8: hd % 32 != 0"))
    } else if sd[0] != dd[0] || sd[1] != dd[1] || sd[3] != dd[3] {
        Err(KernelError::Unsupported("cuda kv_quant mxfp8: src/dst shape mismatch"))
    } else if cd[0] != dd[0] || cd[1] != dd[1] || cd[2] != dd[2] || cd[3] != dd[3] / 32 {
        Err(KernelError::Unsupported("cuda kv_quant mxfp8: scale shape"))
    } else if seq_pos + sd[2] > dd[2] {
        Err(
            KernelError::Other3(
                "cuda kv_quant mxfp8: seq_pos {} + t_new {} > max_seq {}",
                seq_pos as u64,
                sd[2] as u64,
                dd[2] as u64,
            ),
        )
    } else if !dst.cuda {
        Err(KernelError::Unsupported("cuda kv_quant mxfp8: dst non-cuda"))
    } else if !src.cuda {
        Err(KernelError::Unsupported("cuda kv_quant mxfp8: src non-cuda"))
    } else if !scale_dst.cuda {
        Err(KernelError::Unsupported("cuda kv_quant mxfp8: scale non-cuda"))
    } else {
        quant_append_plan(
            sl.byte_offset as int,
            dl.byte_offset as int,
            cl.byte_offset as int,
            dd[0] as u32,
            dd[1] as u32,
            sd[2] as u32,
            dd[3] as u32,
            dd[2] as u32,
            sl.dtype,
            Some(seq_pos as u32),
        )
    }
}

/// The outcome of a request to append to an eight-bit cache from a row on that is read from device
/// memory.
pub open spec fn kv_append_quant_dev_plan(
    dst: Operand,
    scale_dst: Operand,
    src: Operand,
    seq_pos: Operand,
) -> Result<KvAppendQuantDev, KernelError> {
    let (dl, cl, sl) = (dst.layout, scale_dst.layout, src.layout);
    let dd = dl.dims@;
    let cd = cl.dims@;
    let sd = sl.dims@;
    if dl.dtype != DType::MXFP8 {
        Err(KernelError::Unsupported("cuda kv_quant mxfp8 dev: dst must be MXFP8"))
    } else if cl.dtype != DType::U8 {
        Err(KernelError::Unsupported("cuda kv_quant mxfp8 dev: scale must be U8"))
    } else if !is_half(sl.dtype) {
        Err(KernelError::Unsupported("cuda kv_quant mxfp8 dev: src must be BF16/F16"))
    } else if seq_pos.layout.dtype != DType::U32 {
        Err(KernelError::Unsupported("cuda kv_quant mxfp8 dev: seq_pos must be U32"))
    } else if dd.len() != 4 || sd.len() != 4 || cd.len() != 4 {
        Err(KernelError::Unsupported("cuda kv_quant mxfp8 dev: ranks [4,4,4]"))
    } else if !dl.contiguous || !sl.contiguous || !cl.contiguous {
        Err(KernelError::NonContiguous)
    } else if dd[3] % 32 != 0 {
        Err(KernelError::Unsupported("cuda kv_quant mxfp8 dev: hd % 32 != 0"))
    } else if sd[0] != dd[0] || sd[1] != dd[1] || sd[3] != dd[3] {
        Err(KernelError::Unsupported("cuda kv_quant mxfp8 dev: src/dst shape"))
    } else if cd[0] != dd[0] || cd[1] != dd[1] || cd[2] != dd[2] || cd[3] != dd[3] / 32 {
        Err(KernelError::Unsupported("cuda kv_quant mxfp8 dev: scale shape"))
    } else if !dst.cuda {
        Err(KernelError::Unsupported("cuda kv_quant mxfp8 dev: dst non-cuda"))
    } else if !seq_pos.cuda {
        Err(KernelError::Unsupported("cuda kv_quant mxfp8 dev: seq_pos non-cuda"))
    } else if !src.cuda {
        Err(KernelError::Unsupported("cuda kv_quant mxfp8 dev: src non-cuda"))
    } else if !scale_dst.cuda {
        Err(KernelError::Unsupported("cuda kv_quant mxfp8 dev: scale non-cuda"))
    } else {
        match quant_append_plan(
            sl.byte_offset as int,
            dl.byte_offset as int,
            cl.byte_offset as int,
            dd[0] as u32,
            dd[1] as u32,
            sd[2] as u32,
            dd[3] as u32,
            dd[2] as u32,
            sl.dtype,
            None,
        ) {
            Err(e) => Err(e),
            Ok(append) => Ok(
                KvAppendQuantDev { append, seq_pos: spec_span(seq_pos.layout.byte_offset as int, 1, 4) },
            ),
        }
    }
}

/// What is wrong with the layouts of an attention over an eight-bit cache, if anything.
pub open spec fn flash_mxfp8_early(
    q: Operand,
    k: Operand,
    v: Operand,
    k_scale: Operand,
    v_scale: Operand,
    q_float: bool,
) -> Option<KernelError> {
    let (ql, kl, vl) = (q.layout, k.layout, v.layout);
    let (ksl, vsl) = (k_scale.layout, v_scale.layout);
    let qd = ql.dims@;
    let kd = kl.dims@;
    let vd = vl.dims@;
    if !q_float {
        Some(KernelError::Unsupported("cuda flash mxfp8: q must be float"))
    } else if kl.dtype != DType::MXFP8 || vl.dtype != DType::MXFP8 {
        Some(KernelError::Unsupported("cuda flash mxfp8: k/v must be MXFP8"))
    } else if ksl.dtype != DType::U8 || vsl.dtype != DType::U8 {
        Some(KernelError::Unsupported("cuda flash mxfp8: scales must be U8"))
    } else if qd.len() != 4 || kd.len() != 4 || vd.len() != 4 {
        Some(KernelError::Unsupported("cuda flash mxfp8: expect rank-4 [B,H,T,D]"))
    } else if kd[0] != qd[0] || kd[3] != qd[3] || vd != kd {
        Some(KernelError::Unsupported("cuda flash mxfp8: k/v shape"))
    } else if kd[1] == 0 || qd[1] % kd[1] != 0 || qd[3] == 0 || qd[3] > 1024 || qd[3] % 32 != 0 {
        Some(KernelError::Unsupported("cuda flash mxfp8: GQA/D/%32 constraints"))
    } else if !ql.contiguous || head_rows(kl) is None || head_rows(vl) is None {
        Some(KernelError::NonContiguous)
    } else if head_rows(kl) != head_rows(vl) {
        Some(KernelError::Unsupported("cuda flash mxfp8: k/v t_stride mismatch"))
    } else if !scale_rows_regular(ksl, qd[3] / 32, head_rows(kl)->0) || !scale_rows_regular(
        vsl,
        qd[3] / 32,
        head_rows(kl)->0,
    ) {
        Some(KernelError::Unsupported("cuda flash mxfp8: scale layout/t_stride"))
    } else {
        None
    }
}

/// The outcome of a request for attention over an eight-bit cache.
pub open spec fn flash_mxfp8_plan(
    q: Operand,
    k: Operand,
    v: Operand,
    k_scale: Operand,
    v_scale: Operand,
    out: Operand,
    q_float: bool,
    grouped: bool,
    split_q: bool,
    causal: bool,
) -> Result<FlashMxfp8, KernelError> {
    let (ql, kl, vl) = (q.layout, k.layout, v.layout);
    let (ksl, vsl) = (k_scale.layout, v_scale.layout);
    let qd = ql.dims@;
    let kd = kl.dims@;
    match flash_mxfp8_early(q, k, v, k_scale, v_scale, q_float) {
        Some(e) => Err(e),
        None => if !q.cuda {
            Err(KernelError::Unsupported("cuda flash mxfp8: q non-cuda"))
        } else if !k_scale.cuda {
            Err(KernelError::Unsupported("cuda flash mxfp8: k_scale non-cuda"))
        } else if !v_scale.cuda {
            Err(KernelError::Unsupported("cuda flash mxfp8: v_scale non-cuda"))
        } else if !out.cuda {
            Err(KernelError::Unsupported("cuda flash mxfp8: out non-cuda"))
        } else {
            Ok(
                FlashMxfp8 {
                    shape: flash_shape(ql, kl, vl, causal),
                    k_scale_off: ksl.byte_offset,
                    v_scale_off: vsl.byte_offset,
                    kernel: mxfp8_attn_kernel(qd, kd, grouped, split_q),
                },
            )
        },
    }
}

/// What is wrong with the layouts of an attention over an eight-bit cache with the number of keys
/// in device memory, if anything.
pub open spec fn flash_mxfp8_dev_early(
    q: Operand,
    k: Operand,
    v: Operand,
    k_scale: Operand,
    v_scale: Operand,
    t_cache: Operand,
    q_float: bool,
) -> Option<KernelError> {
    let (ql, kl, vl) = (q.layout, k.layout, v.layout);
    let (ksl, vsl) = (k_scale.layout, v_scale.layout);
    let qd = ql.dims@;
    let kd = kl.dims@;
    let vd = vl.dims@;
    if !q_float {
        Some(KernelError::Unsupported("cuda flash mxfp8 dev: q must be float"))
    } else if kl.dtype != DType::MXFP8 || vl.dtype != DType::MXFP8 {
        Some(KernelError::Unsupported("cuda flash mxfp8 dev: k/v must be MXFP8"))
    } else if ksl.dtype != DType::U8 || vsl.dtype != DType::U8 {
        Some(KernelError::Unsupported("cuda flash mxfp8 dev: scales must be U8"))
    } else if t_cache.layout.dtype != DType::U32 {
        Some(KernelError::Unsupported("cuda flash mxfp8 dev: t_cache must be U32"))
    } else if qd.len() != 4 || kd.len() != 4 || vd.len() != 4 {
        Some(KernelError::Unsupported("cuda flash mxfp8 dev: rank-4 [B,H,T,D]"))
    } else if kd[0] != qd[0] || kd[3] != qd[3] || vd != kd {
        Some(KernelError::Unsupported("cuda flash mxfp8 dev: k/v shape"))
    } else if kd[1] == 0 || qd[1] % kd[1] != 0 || qd[3] == 0 || qd[3] > 1024 || qd[3] % 32 != 0 {
        Some(KernelError::Unsupported("cuda flash mxfp8 dev: GQA/D/%32"))
    } else if !ql.contiguous || head_rows(kl) is None {
        Some(KernelError::NonContiguous)
    } else if head_rows(kl) != head_rows(vl) {
        Some(KernelError::Unsupported("cuda flash mxfp8 dev: k/v t_stride mismatch"))
    } else if !scale_rows_regular(ksl, qd[3] / 32, head_rows(kl)->0) || !scale_rows_regular(
        vsl,
        qd[3] / 32,
        head_rows(kl)->0,
    ) {
        Some(KernelError::Unsupported("cuda flash mxfp8 dev: scale layout/t_stride"))
    } else {
        None
    }
}

/// The outcome of a request for attention over an eight-bit cache with the number of keys in device
/// memory.
pub open spec fn flash_mxfp8_dev_plan(
    q: Operand,
    k: Operand,
    v: Operand,
    k_scale: Operand,
    v_scale: Operand,
    t_cache: Operand,
    out: Operand,
    q_float: bool,
    grouped: bool,
    causal: bool,
) -> Result<FlashMxfp8Dev, KernelError> {
    let (ql, kl, vl) = (q.layout, k.layout, v.layout);
    let (ksl, vsl) = (k_scale.layout, v_scale.layout);
    let qd = ql.dims@;
    match flash_mxfp8_dev_early(q, k, v, k_scale, v_scale, t_cache, q_float) {
        Some(e) => Err(e),
        None => if !q.cuda {
            Err(KernelError::Unsupported("cuda flash mxfp8 dev: q non-cuda"))
        } else if !t_cache.cuda {
            Err(KernelError::Unsupported("cuda flash mxfp8 dev: t_cache non-cuda"))
        } else if !k_scale.cuda {
            Err(KernelError::Unsupported("cuda flash mxfp8 dev: k_scale non-cuda"))
        } else if !v_scale.cuda {
            Err(KernelError::Unsupported("cuda flash mxfp8 dev: v_scale non-cuda"))
        } else if !out.cuda {
            Err(KernelError::Unsupported("cuda flash mxfp8 dev: out non-cuda"))
        } else {
            Ok(
                FlashMxfp8Dev {
                    shape: dev_shape(ql, kl, vl, t_cache.layout, causal),
                    k_scale_off: ksl.byte_offset,
                    v_scale_off: vsl.byte_offset,
                    kernel: if grouped {
                        Mxfp8AttnKernel::Grouped
                    } else {
                        Mxfp8AttnKernel::Decode {
                            split_k: room_split(
                                ((qd[0] * qd[1] * qd[2]) as usize) as u32,
                                head_rows(kl)->0,
                            ) as u32,
                        }
                    },
                },
            )
        },
    }
}

/// The first rows of `cache`, and as many as there are in `part`.
pub open spec fn first_rows_of(part: Layout, cache: Layout) -> bool {
    let (p, c) = (part.dims@, cache.dims@);
    &&& p.len() == 4
    &&& c.len() == 4
    &&& p =~= c.update(2, p[2])
    &&& p[2] <= c[2]
    &&& part.strides@ == cache.strides@
    &&& part.dtype == cache.dtype
    &&& part.byte_offset == cache.byte_offset
}

/// The sizes that a host count of keys adds to those that are known without it.
pub open spec fn with_count(shape: FlashDevShape, t_kv: u32) -> FlashShape {
    FlashShape {
        dtype: shape.dtype,
        b: shape.b,
        nh: shape.nh,
        nkv: shape.nkv,
        t_q: shape.t_q,
        t_kv,
        d: shape.d,
        t_stride: shape.t_stride,
        q_off: shape.q_off,
        k_off: shape.k_off,
        v_off: shape.v_off,
        causal: shape.causal,
    }
}

/// Where an attention of the given sizes looks for the scale of the element `index` of the keys or
/// values of shape `dims`.
pub open spec fn scale_place(shape: FlashShape, dims: Seq<usize>, index: Seq<int>) -> int {
    ((index[0] * dims[1] + index[1]) * shape.t_stride + index[2]) * (dims[3] / 32) + index[3] / 32
}

/// Attention over a whole eight-bit cache with the number of keys in device memory, and over its
/// first rows `kn`, `vn` with their scales, are accepted together, with the same sizes and the
/// same places of the scales, the number of keys aside. Both look for every element of those rows
/// and for its scale where they lie, and the heads that share keys are taken together by both or
/// by neither. A number of keys that is no `U32` is refused.
pub proof fn device_count_attends_alike(
    q: Operand,
    k: Operand,
    v: Operand,
    k_scale: Operand,
    v_scale: Operand,
    kn: Operand,
    vn: Operand,
    kn_scale: Operand,
    vn_scale: Operand,
    t_cache: Operand,
    out: Operand,
    q_float: bool,
    grouped: bool,
    split_q: bool,
    causal: bool,
    room: u32,
)
    requires
        kn.wf(),
        vn.wf(),
        kn_scale.wf(),
        vn_scale.wf(),
        rows_of_cache(k.layout, room as int),
        rows_of_cache(v.layout, room as int),
        first_rows_of(kn.layout, k.layout),
        first_rows_of(vn.layout, v.layout),
        first_rows_of(kn_scale.layout, k_scale.layout),
        first_rows_of(vn_scale.layout, v_scale.layout),
        kn.layout.dims@[2] == vn.layout.dims@[2],
        k.layout.dims@[2] == room,
        v.layout.dims@[2] == room,
        kn_scale.layout.dims@[1] == kn.layout.dims@[1],
        vn_scale.layout.dims@[1] == vn.layout.dims@[1],
        kn_scale.cuda == k_scale.cuda,
        vn_scale.cuda == v_scale.cuda,
    ensures
        t_cache.layout.dtype != DType::U32 ==> flash_mxfp8_dev_plan(
            q, k, v, k_scale, v_scale, t_cache, out, q_float, grouped, causal,
        ) matches Err(KernelError::Unsupported(_)),
        t_cache.layout.dtype == DType::U32 && t_cache.cuda ==> match (
            flash_mxfp8_dev_plan(
                q, k, v, k_scale, v_scale, t_cache, out, q_float, grouped, causal,
            ),
            flash_mxfp8_plan(
                q, kn, vn, kn_scale, vn_scale, out, q_float, grouped, split_q, causal,
            ),
        ) {
            (Err(_), Err(_)) => true,
            (Ok(a), Ok(b)) => {
                &&& b.shape == with_count(a.shape, kn.layout.dims@[2] as u32)
                &&& b.shape.t_stride == room
                &&& a.k_scale_off == b.k_scale_off
                &&& a.v_scale_off == b.v_scale_off
                &&& a.kernel is Grouped <==> b.kernel is Grouped
                &&& forall|index: Seq<int>|
                    #![trigger in_shape(kn.layout.dims@, index)]
                    in_shape(kn.layout.dims@, index) ==> {
                        let dims = k.layout.dims@;
                        let block = seq![index[0], index[1], index[2], index[3] / 32];
                        let (place, scale) = (
                            cache_place(b.shape, dims, index),
                            scale_place(b.shape, dims, index),
                        );
                        &&& in_shape(dims, index)
                        &&& place == strided_index(k.layout.strides@, index)
                        &&& place == strided_index(kn.layout.strides@, index)
                        &&& place == strided_index(v.layout.strides@, index)
                        &&& place == strided_index(vn.layout.strides@, index)
                        &&& scale == place / 32
                        &&& scale == strided_index(k_scale.layout.strides@, block)
                        &&& scale == strided_index(kn_scale.layout.strides@, block)
                        &&& scale == strided_index(v_scale.layout.strides@, block)
                        &&& scale == strided_index(vn_scale.layout.strides@, block)
                    }
            },
            _ => false,
        },
{
    lemma_room_rows(k.layout, room);
    lemma_room_rows(v.layout, room);
    lemma_room_rows(kn.layout, room);
    lemma_room_rows(vn.layout, room);
    let host = flash_mxfp8_plan(
        q, kn, vn, kn_scale, vn_scale, out, q_float, grouped, split_q, causal,
    );
    if host is Ok {
        let dims = k.layout.dims@;
        assert(v.layout.dims@ =~= dims) by {
            assert(vn.layout.dims@.update(2, room as usize) =~= v.layout.dims@);
            assert(kn.layout.dims@.update(2, room as usize) =~= k.layout.dims@);
        }
        let shape = host->Ok_0.shape;
        assert forall|index: Seq<int>|
            #![trigger in_shape(kn.layout.dims@, index)]
            in_shape(kn.layout.dims@, index) implies {
            let block = seq![index[0], index[1], index[2], index[3] / 32];
            let (place, scale) = (cache_place(shape, dims, index), scale_place(shape, dims, index));
            &&& in_shape(dims, index)
            &&& place == strided_index(kn.layout.strides@, index)
            &&& place == strided_index(vn.layout.strides@, index)
            &&& scale == place / 32
            &&& scale == strided_index(kn_scale.layout.strides@, block)
            &&& scale == strided_index(vn_scale.layout.strides@, block)
        } by {
            assert forall|j: int| 0 <= j < dims.len() implies 0 <= #[trigger] index[j] < dims[j] by {
                assert(kn.layout.dims@[j] <= dims[j]);
            }
            cache_rows_regular(kn.layout, index);
            cache_rows_regular(vn.layout, index);
            scale_of_element(kn.layout, kn_scale.layout, index);
            scale_of_element(vn.layout, vn_scale.layout, index);
            let nb = (dims[3] / 32) as int;
            let hd = dims[3] as int;
            let row = (index[0] * dims[1] + index[1]) * room + index[2];
            assert(row * hd == (row * nb) * 32) by (nonlinear_arith)
                requires
                    hd == nb * 32,
            ;
        }
    }
}

impl CudaBackend {
    /// Plans an append of `src`, brought to eight bits, to the cache `dst` from row `seq_pos` on.
    pub fn kv_append_quant_mxfp8(
        &self,
        dst: &Operand,
        scale_dst: &Operand,
        src: &Operand,
        seq_pos: usize,
    ) -> (r: Result<Option<QuantAppend>, KernelError>)
        requires
            kv_append_quant_plan(*dst, *scale_dst, *src, seq_pos) is Ok ==> quant_append_fits(
                src.layout.byte_offset as int,
                dst.layout.byte_offset as int,
                scale_dst.layout.byte_offset as int,
                dst.layout.dims@[0] as u32,
                dst.layout.dims@[1] as u32,
                src.layout.dims@[2] as u32,
                dst.layout.dims@[3] as u32,
                dst.layout.dims@[2] as u32,
            ),
        ensures
            r == kv_append_quant_plan(*dst, *scale_dst, *src, seq_pos),
    {
        let (dl, cl, sl): (&Layout, &Layout, &Layout) = (&dst.layout, &scale_dst.layout, &src.layout);
        let (dd, cd, sd) = (&dl.dims, &cl.dims, &sl.dims);
        if dl.dtype != DType::MXFP8 {
            return Err(KernelError::Unsupported("cuda kv_quant mxfp8: dst must be MXFP8"));
        }
        if cl.dtype != DType::U8 {
            return Err(KernelError::Unsupported("cuda kv_quant mxfp8: scale must be U8"));
        }
        if !half_float(sl.dtype) {
            return Err(KernelError::Unsupported("cuda kv_quant mxfp8: src must be BF16/F16"));
        }
        if dd.len() != 4 || sd.len() != 4 || cd.len() != 4 {
            return Err(KernelError::Unsupported("cuda kv_quant mxfp8: ranks [4,4,4]"));
        }
        if !dl.contiguous || !sl.contiguous || !cl.contiguous {
            return Err(KernelError::NonContiguous);
        }
        if dd[3] % 32 != 0 {
            return Err(KernelError::Unsupported("cuda kv_quant mxfp8: hd % 32 != 0"));
        }
        if sd[0] != dd[0] || sd[1] != dd[1] || sd[3] != dd[3] {
            return Err(KernelError::Unsupported("cuda kv_quant mxfp8: src/dst shape mismatch"));
        }
        if cd[0] != dd[0] || cd[1] != dd[1] || cd[2] != dd[2] || cd[3] != dd[3] / 32 {
            return Err(KernelError::Unsupported("cuda kv_quant mxfp8: scale shape"));
        }
        if sd[2] > dd[2] || seq_pos > dd[2] - sd[2] {
            return Err(KernelError::Other3(
                "cuda kv_quant mxfp8: seq_pos {} + t_new {} > max_seq {}",
                seq_pos as u64,
                sd[2] as u64,
                dd[2] as u64,
            ));
        }
        if !dst.cuda {
            return Err(KernelError::Unsupported("cuda kv_quant mxfp8: dst non-cuda"));
        }
        if !src.cuda {
            return Err(KernelError::Unsupported("cuda kv_quant mxfp8: src non-cuda"));
        }
        if !scale_dst.cuda {
            return Err(KernelError::Unsupported("cuda kv_quant mxfp8: scale non-cuda"));
        }
        quant_append_mxfp8_u8(
            sl.byte_offset,
            dl.byte_offset,
            cl.byte_offset,
            dd[0] as u32,
            dd[1] as u32,
            sd[2] as u32,
            dd[3] as u32,
            dd[2] as u32,
            seq_pos as u32,
            sl.dtype,
        )
    }

    /// Plans an append of `src`, brought to eight bits, to the cache `dst` from the row on that is read
    /// from device memory.
    pub fn kv_append_quant_mxfp8_dev(
        &self,
        dst: &Operand,
        scale_dst: &Operand,
        src: &Operand,
        seq_pos: &Operand,
    ) -> (r: Result<KvAppendQuantDev, KernelError>)
        requires
            seq_pos.wf(),
            kv_append_quant_dev_plan(*dst, *scale_dst, *src, *seq_pos) is Ok ==> quant_append_fits(
                src.layout.byte_offset as int,
                dst.layout.byte_offset as int,
                scale_dst.layout.byte_offset as int,
                dst.layout.dims@[0] as u32,
                dst.layout.dims@[1] as u32,
                src.layout.dims@[2] as u32,
                dst.layout.dims@[3] as u32,
                dst.layout.dims@[2] as u32,
            ),
        ensures
            r == kv_append_quant_dev_plan(*dst, *scale_dst, *src, *seq_pos),
    {
        let (dl, cl, sl): (&Layout, &Layout, &Layout) = (&dst.layout, &scale_dst.layout, &src.layout);
        let (dd, cd, sd) = (&dl.dims, &cl.dims, &sl.dims);
        if dl.dtype != DType::MXFP8 {
            return Err(KernelError::Unsupported("cuda kv_quant mxfp8 dev: dst must be MXFP8"));
        }
        if cl.dtype != DType::U8 {
            return Err(KernelError::Unsupported("cuda kv_quant mxfp8 dev: scale must be U8"));
        }
        if !half_float(sl.dtype) {
            return Err(KernelError::Unsupported("cuda kv_quant mxfp8 dev: src must be BF16/F16"));
        }
        if seq_pos.layout.dtype != DType::U32 {
            return Err(KernelError::Unsupported("cuda kv_quant mxfp8 dev: seq_pos must be U32"));
        }
        if dd.len() != 4 || sd.len() != 4 || cd.len() != 4 {
            return Err(KernelError::Unsupported("cuda kv_quant mxfp8 dev: ranks [4,4,4]"));
        }
        if !dl.contiguous || !sl.contiguous || !cl.contiguous {
            return Err(KernelError::NonContiguous);
        }
        if dd[3] % 32 != 0 {
            return Err(KernelError::Unsupported("cuda kv_quant mxfp8 dev: hd % 32 != 0"));
        }
        if sd[0] != dd[0] || sd[1] != dd[1] || sd[3] != dd[3] {
            return Err(KernelError::Unsupported("cuda kv_quant mxfp8 dev: src/dst shape"));
        }
        if cd[0] != dd[0] || cd[1] != dd[1] || cd[2] != dd[2] || cd[3] != dd[3] / 32 {
            return Err(KernelError::Unsupported("cuda kv_quant mxfp8 dev: scale shape"));
        }
        if !dst.cuda {
            return Err(KernelError::Unsupported("cuda kv_quant mxfp8 dev: dst non-cuda"));
        }
        if !seq_pos.cuda {
            return Err(KernelError::Unsupported("cuda kv_quant mxfp8 dev: seq_pos non-cuda"));
        }
        if !src.cuda {
            return Err(KernelError::Unsupported("cuda kv_quant mxfp8 dev: src non-cuda"));
        }
        if !scale_dst.cuda {
            return Err(KernelError::Unsupported("cuda kv_quant mxfp8 dev: scale non-cuda"));
        }
        match quant_append_mxfp8_u8_dev(
            sl.byte_offset,
            dl.byte_offset,
            cl.byte_offset,
            dd[0] as u32,
            dd[1] as u32,
            sd[2] as u32,
            dd[3] as u32,
            dd[2] as u32,
            sl.dtype,
        ) {
            Err(e) => Err(e),
            Ok(append) => Ok(KvAppendQuantDev { append, seq_pos: span(seq_pos.layout.byte_offset, 1, 4) }),
        }
    }

    /// Plans attention over an eight-bit cache. `q_float` says that the queries are of a float type,
    /// `grouped` and `split_q` that the kernel of that kind takes the heads and is there.
    pub fn flash_attention_mxfp8kv(
        &self,
        q: &Operand,
        k: &Operand,
        v: &Operand,
        k_scale: &Operand,
        v_scale: &Operand,
        out: &Operand,
        q_float: bool,
        grouped: bool,
        split_q: bool,
        causal: bool,
    ) -> (r: Result<FlashMxfp8, KernelError>)
        requires
            q.wf(),
            k.wf(),
            v.wf(),
            k_scale.wf(),
            v_scale.wf(),
            flash_mxfp8_early(*q, *k, *v, *k_scale, *v_scale, q_float) is None && q.cuda ==> k.cuda && v.cuda,
        ensures
            r == flash_mxfp8_plan(
                *q,
                *k,
                *v,
                *k_scale,
                *v_scale,
                *out,
                q_float,
                grouped,
                split_q,
                causal,
            ),
            r matches Ok(p) ==> attends(p.shape, q.layout, k.layout, v.layout, causal),
    {
        let (ql, kl, vl): (&Layout, &Layout, &Layout) = (&q.layout, &k.layout, &v.layout);
        let (ksl, vsl): (&Layout, &Layout) = (&k_scale.layout, &v_scale.layout);
        let (qd, kd, vd) = (&ql.dims, &kl.dims, &vl.dims);
        if !q_float {
            return Err(KernelError::Unsupported("cuda flash mxfp8: q must be float"));
        }
        if kl.dtype != DType::MXFP8 || vl.dtype != DType::MXFP8 {
            return Err(KernelError::Unsupported("cuda flash mxfp8: k/v must be MXFP8"));
        }
        if ksl.dtype != DType::U8 || vsl.dtype != DType::U8 {
            return Err(KernelError::Unsupported("cuda flash mxfp8: scales must be U8"));
        }
        if qd.len() != 4 || kd.len() != 4 || vd.len() != 4 {
            return Err(KernelError::Unsupported("cuda flash mxfp8: expect rank-4 [B,H,T,D]"));
        }
        if kd[0] != qd[0] || kd[3] != qd[3] || !same_dims(vd, kd) {
            return Err(KernelError::Unsupported("cuda flash mxfp8: k/v shape"));
        }
        if kd[1] == 0 || qd[1] % kd[1] != 0 || qd[3] == 0 || qd[3] > 1024 || qd[3] % 32 != 0 {
            return Err(KernelError::Unsupported("cuda flash mxfp8: GQA/D/%32 constraints"));
        }
        if !ql.contiguous || derive_tstride(kl).is_none() || derive_tstride(vl).is_none() {
            return Err(KernelError::NonContiguous);
        }
        if derive_tstride(kl) != derive_tstride(vl) {
            return Err(KernelError::Unsupported("cuda flash mxfp8: k/v t_stride mismatch"));
        }
        let t_stride: u32 = match derive_tstride(kl) {
            Some(t) => t,
            None => 0,
        };
        if !scale_rows(ksl, qd[3] / 32, t_stride) || !scale_rows(vsl, qd[3] / 32, t_stride) {
            return Err(KernelError::Unsupported("cuda flash mxfp8: scale layout/t_stride"));
        }
        if !q.cuda {
            return Err(KernelError::Unsupported("cuda flash mxfp8: q non-cuda"));
        }
        if !k_scale.cuda {
            return Err(KernelError::Unsupported("cuda flash mxfp8: k_scale non-cuda"));
        }
        if !v_scale.cuda {
            return Err(KernelError::Unsupported("cuda flash mxfp8: v_scale non-cuda"));
        }
        if !out.cuda {
            return Err(KernelError::Unsupported("cuda flash mxfp8: out non-cuda"));
        }
        proof {
            lemma_four(ql.dims@);
        }
        let shape = shape_of(ql, kl, vl, t_stride, causal);
        let rows: u32 = (qd[0] * qd[1] * qd[2]) as u32;
        let kernel = if grouped {
            Mxfp8AttnKernel::Grouped
        } else if qd[2] > 1 && split_q {
            Mxfp8AttnKernel::SplitQ
        } else if qd[2] > 1 && (qd[3] == 128 || qd[3] == 256) {
            Mxfp8AttnKernel::Prefill
        } else {
            Mxfp8AttnKernel::Decode { split_k: split_of(rows, qd[2], kd[2]) }
        };
        Ok(
            FlashMxfp8 {
                shape,
                k_scale_off: ksl.byte_offset,
                v_scale_off: vsl.byte_offset,
                kernel,
            },
        )
    }

    /// Plans attention over an eight-bit cache, the number of keys read from device memory.
    pub fn flash_attention_mxfp8kv_dev(
        &self,
        q: &Operand,
        k: &Operand,
        v: &Operand,
        k_scale: &Operand,
        v_scale: &Operand,
        t_cache: &Operand,
        out: &Operand,
        q_float: bool,
        grouped: bool,
        causal: bool,
    ) -> (r: Result<FlashMxfp8Dev, KernelError>)
        requires
            q.wf(),
            k.wf(),
            v.wf(),
            k_scale.wf(),
            v_scale.wf(),
            t_cache.wf(),
            flash_mxfp8_dev_early(*q, *k, *v, *k_scale, *v_scale, *t_cache, q_float) is None && q.cuda
                && t_cache.cuda ==> k.cuda && v.cuda,
        ensures
            r == flash_mxfp8_dev_plan(
                *q,
                *k,
                *v,
                *k_scale,
                *v_scale,
                *t_cache,
                *out,
                q_float,
                grouped,
                causal,
            ),
            r matches Ok(p) ==> attends_of(p.shape, q.layout, k.layout, v.layout, causal),
    {
        let (ql, kl, vl): (&Layout, &Layout, &Layout) = (&q.layout, &k.layout, &v.layout);
        let (ksl, vsl): (&Layout, &Layout) = (&k_scale.layout, &v_scale.layout);
        let (qd, kd, vd) = (&ql.dims, &kl.dims, &vl.dims);
        if !q_float {
            return Err(KernelError::Unsupported("cuda flash mxfp8 dev: q must be float"));
        }
        if kl.dtype != DType::MXFP8 || vl.dtype != DType::MXFP8 {
            return Err(KernelError::Unsupported("cuda flash mxfp8 dev: k/v must be MXFP8"));
        }
        if ksl.dtype != DType::U8 || vsl.dtype != DType::U8 {
            return Err(KernelError::Unsupported("cuda flash mxfp8 dev: scales must be U8"));
        }
        if t_cache.layout.dtype != DType::U32 {
            return Err(KernelError::Unsupported("cuda flash mxfp8 dev: t_cache must be U32"));
        }
        if qd.len() != 4 || kd.len() != 4 || vd.len() != 4 {
            return Err(KernelError::Unsupported("cuda flash mxfp8 dev: rank-4 [B,H,T,D]"));
        }
        if kd[0] != qd[0] || kd[3] != qd[3] || !same_dims(vd, kd) {
            return Err(KernelError::Unsupported("cuda flash mxfp8 dev: k/v shape"));
        }
        if kd[1] == 0 || qd[1] % kd[1] != 0 || qd[3] == 0 || qd[3] > 1024 || qd[3] % 32 != 0 {
            return Err(KernelError::Unsupported("cuda flash mxfp8 dev: GQA/D/%32"));
        }
        if !ql.contiguous || derive_tstride(kl).is_none() {
            return Err(KernelError::NonContiguous);
        }
        if derive_tstride(kl) != derive_tstride(vl) {
            return Err(KernelError::Unsupported("cuda flash mxfp8 dev: k/v t_stride mismatch"));
        }
        let t_stride: u32 = match derive_tstride(kl) {
            Some(t) => t,
            None => 0,
        };
        if !scale_rows(ksl, qd[3] / 32, t_stride) || !scale_rows(vsl, qd[3] / 32, t_stride) {
            return Err(KernelError::Unsupported("cuda flash mxfp8 dev: scale layout/t_stride"));
        }
        if !q.cuda {
            return Err(KernelError::Unsupported("cuda flash mxfp8 dev: q non-cuda"));
        }
        if !t_cache.cuda {
            return Err(KernelError::Unsupported("cuda flash mxfp8 dev: t_cache non-cuda"));
        }
        if !k_scale.cuda {
            return Err(KernelError::Unsupported("cuda flash mxfp8 dev: k_scale non-cuda"));
        }
        if !v_scale.cuda {
            return Err(KernelError::Unsupported("cuda flash mxfp8 dev: v_scale non-cuda"));
        }
        if !out.cuda {
            return Err(KernelError::Unsupported("cuda flash mxfp8 dev: out non-cuda"));
        }
        proof {
            lemma_four(ql.dims@);
        }
        let shape = dev_shape_of(ql, kl, vl, &t_cache.layout, causal);
        let rows: u32 = (qd[0] * qd[1] * qd[2]) as u32;
        let kernel = if grouped {
            Mxfp8AttnKernel::Grouped
        } else {
            Mxfp8AttnKernel::Decode { split_k: room_split_of(rows, t_stride) }
        };
        Ok(
            FlashMxfp8Dev {
                shape,
                k_scale_off: ksl.byte_offset,
                v_scale_off: vsl.byte_offset,
                kernel,
            },
        )
    }
}

} // verus!
