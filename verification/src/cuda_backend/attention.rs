//! Attention over keys and values, and appends to the cache that holds them.

use vstd::prelude::*;

use crate::arith::{ceil_div, clamp3, clamp_u32, div_ceil_u32, lemma_ceil_div, max2, max_u32};
use crate::cuda_backend::attention_laws::attends;
use crate::cuda_backend::CudaBackend;
use crate::dtype::{is_half, DType};
use crate::elementwise::kv_append::{append_fits, append_plan, append_u8, AppendU8};
use crate::error::KernelError;
use crate::layout::{
    in_shape, lemma_four, lemma_volume_bounds, padded_volume, rows_of_cache, same_dims,
    strided_index, Layout, Operand,
};

verus! {

/// Which attention kernel is asked for.
#[derive(Clone, Copy, Debug, PartialEq, Eq, Structural)]
pub enum AttnMode {
    Auto,
    Fa4,
    Fa2,
    FlashDecode,
}

/// The sizes of an attention of `t_q` queries over `t_kv` keys, and where the operands start.
#[derive(Clone, Copy, Debug, PartialEq, Eq, Structural)]
pub struct FlashShape {
    pub dtype: DType,
    pub b: u32,
    pub nh: u32,
    pub nkv: u32,
    pub t_q: u32,
    pub t_kv: u32,
    pub d: u32,
    /// Rows between the starts of two heads of the cache.
    pub t_stride: u32,
    pub q_off: usize,
    pub k_off: usize,
    pub v_off: usize,
    /// A query sees no key behind its own position.
    pub causal: bool,
}

/// The kernel of an attention.
#[derive(Clone, Copy, Debug, PartialEq, Eq, Structural)]
pub enum FlashKernel {
    /// Tiles of queries on tensor cores.
    SplitQ,
    /// The older tiled kernel.
    Tiled { n_rep: u32, q_pos_base: u32 },
    /// One query at a time, the keys split over `split_k` segments.
    Decode { split_k: u32 },
}

/// An attention.
#[derive(Clone, Copy, Debug, PartialEq, Eq, Structural)]
pub struct FlashPlan {
    pub shape: FlashShape,
    pub kernel: FlashKernel,
}

/// Rows between the starts of two heads of a cache of shape `[B, heads, T, D]` whose rows are
/// dense and whose heads are evenly spaced.
pub open spec fn head_rows(lo: Layout) -> Option<u32> {
    let s = lo.strides@;
    let d = lo.dims@;
    if d[3] > 0 && s[3] == 1 && s[2] == d[3] && s[1] > 0 && s[1] as int % d[3] as int == 0 && s[0]
        == d[1] * s[1] {
        Some((s[1] as int / d[3] as int) as u32)
    } else {
        None
    }
}

pub(crate) fn derive_tstride(lo: &Layout) -> (r: Option<u32>)
    requires
        lo.wf(),
        lo.dims@.len() == 4,
    ensures
        r == head_rows(*lo),
{
    proof {
        lemma_volume_bounds(lo.dims@);
        assert(lo.dims@[1] <= padded_volume(lo.dims@));
        assert(lo.dims@[3] <= padded_volume(lo.dims@));
        assert(lo.strides@[0] * 8 <= isize::MAX);
    }
    let (d1, d3): (usize, usize) = (lo.dims[1], lo.dims[3]);
    let (s0, s1, s2, s3): (isize, isize, isize, isize) = (
        lo.strides[0],
        lo.strides[1],
        lo.strides[2],
        lo.strides[3],
    );
    if d3 == 0 || s3 != 1 || s2 != d3 as isize || s1 <= 0 || (s1 as usize) % d3 != 0 {
        return None;
    }
    proof {
        assert(-0x4000_0000_0000_0000_0000_0000_0000_0000 <= d1 * s1
            <= 0x4000_0000_0000_0000_0000_0000_0000_0000) by (nonlinear_arith)
            requires
                0 <= d1 <= 0x7fff_ffff_ffff_ffff,
                0 <= s1 <= 0x7fff_ffff_ffff_ffff,
        ;
    }
    if s0 as i128 != (d1 as i128) * (s1 as i128) {
        return None;
    }
    Some(((s1 as usize) / d3) as u32)
}

pub(crate) fn half_float(dtype: DType) -> (r: bool)
    ensures
        r == is_half(dtype),
{
    match dtype {
        DType::F16 | DType::BF16 => true,
        _ => false,
    }
}

/// An element of a cache with evenly spaced heads lies where the kernels look for it: `t_stride`
/// rows of `d` elements per head, head after head.
pub proof fn cache_rows_regular(lo: Layout, index: Seq<int>)
    requires
        lo.wf(),
        lo.dims@.len() == 4,
        in_shape(lo.dims@, index),
        head_rows(lo) is Some,
        lo.strides@[1] as int / lo.dims@[3] as int <= u32::MAX,
    ensures
        strided_index(lo.strides@, index) == ((index[0] * lo.dims@[1] + index[1]) * head_rows(lo)->0
            + index[2]) * lo.dims@[3] + index[3],
{
    let s = lo.strides@;
    let d = lo.dims@;
    let ts = (head_rows(lo)->0) as int;
    let hd = d[3] as int;
    let s1 = s[1] as int;
    assert(s1 == ts * hd) by (nonlinear_arith)
        requires
            ts == s1 / hd,
            s1 % hd == 0,
            hd > 0,
    ;
    reveal_with_fuel(strided_index, 5);
    let a = s.drop_last();
    let b = a.drop_last();
    let c = b.drop_last();
    let ia = index.drop_last();
    let ib = ia.drop_last();
    let ic = ib.drop_last();
    assert(s.last() == s[3] && a.last() == s[2] && b.last() == s[1] && c.last() == s[0]);
    assert(index.last() == index[3] && ia.last() == index[2] && ib.last() == index[1] && ic.last()
        == index[0]);
    assert(strided_index(c, ic) == index[0] * s[0]);
    assert(strided_index(s, index) == index[0] * s[0] + index[1] * s[1] + index[2] * s[2] + index[3]
        * s[3]);
    let (i0, i1, i2, i3) = (index[0], index[1], index[2], index[3]);
    let nkv = d[1] as int;
    assert(i0 * (nkv * s1) + i1 * s1 + i2 * hd + i3 * 1 == ((i0 * nkv + i1) * ts + i2) * hd + i3)
        by (nonlinear_arith)
        requires
            s1 == ts * hd,
    ;
}

/// In a buffer with `room` rows for each head, the heads are `room` rows apart.
pub proof fn lemma_room_rows(lo: Layout, room: u32)
    requires
        rows_of_cache(lo, room as int),
    ensures
        lo.dims@[3] > 0 && room > 0 ==> {
            &&& head_rows(lo) == Some(room)
            &&& lo.strides@[1] as int / lo.dims@[3] as int == room
        },
        lo.dims@[3] == 0 || room == 0 ==> head_rows(lo) is None,
{
    let d = lo.dims@[3] as int;
    let r = room as int;
    let s1 = lo.strides@[1] as int;
    if d > 0 && r > 0 {
        assert(r * d > 0 && (r * d) % d == 0 && (r * d) / d == r) by (nonlinear_arith)
            requires
                d > 0,
                r > 0,
        ;
    } else {
        assert(r * d == 0) by (nonlinear_arith)
            requires
                d == 0 || r == 0,
        ;
    }
}

/// Segments of the keys: for one query enough to fill the device, and one for every 2048 keys.
pub open spec fn decode_split(b: usize, nh: usize, t_q: usize, t_kv: usize) -> int {
    let rows = ((b * nh * t_q) as usize) as u32;
    if t_q == 1 {
        clamp3(
            max2(
                max2(128int / max2(rows as int, 1), 1),
                ceil_div((t_kv as u32) as int, 2048),
            ),
            1,
            32,
        )
    } else {
        1
    }
}

/// A split is one that the kernel takes, and up to 65536 keys no segment has more than 2048.
pub proof fn decode_split_bounds(b: usize, nh: usize, t_q: usize, t_kv: usize)
    requires
        t_kv <= u32::MAX,
    ensures
        1 <= decode_split(b, nh, t_q, t_kv) <= 32,
        t_q == 1 && t_kv <= 65536 ==> decode_split(b, nh, t_q, t_kv) * 2048 >= t_kv,
{
    lemma_ceil_div(t_kv as int, 2048);
}

pub(crate) fn split_of(rows: u32, t_q: usize, t_kv: usize) -> (r: u32)
    ensures
        r == (if t_q == 1 {
            clamp3(
                max2(
                    max2(128int / max2(rows as int, 1), 1),
                    ceil_div((t_kv as u32) as int, 2048),
                ),
                1,
                32,
            )
        } else {
            1
        }),
{
    if t_q == 1 {
        let occ: u32 = max_u32(128 / max_u32(rows, 1), 1);
        let long: u32 = div_ceil_u32(t_kv as u32, 2048);
        clamp_u32(max_u32(occ, long), 1, 32)
    } else {
        1
    }
}

/// What is wrong with the operands of an attention, before where they are is looked at.
pub open spec fn flash_early(q: Layout, k: Layout, v: Layout) -> Option<KernelError> {
    let qd = q.dims@;
    let kd = k.dims@;
    if k.dtype != q.dtype || v.dtype != q.dtype {
        Some(KernelError::Unsupported("cuda flash: dtype mismatch q/k/v"))
    } else if qd.len() != 4 || kd.len() != 4 || v.dims@.len() != 4 {
        Some(KernelError::Unsupported("cuda flash: expect rank-4 [B,H,T,D]"))
    } else if kd[0] != qd[0] || kd[3] != qd[3] || v.dims@ != kd {
        Some(KernelError::Unsupported("cuda flash: k/v shape"))
    } else if kd[1] == 0 || qd[1] % kd[1] != 0 || qd[3] == 0 || qd[3] > 1024 {
        Some(KernelError::Unsupported("cuda flash: GQA/D constraints"))
    } else if !q.contiguous || head_rows(k) is None || head_rows(v) is None {
        Some(KernelError::NonContiguous)
    } else if head_rows(k) != head_rows(v) {
        Some(KernelError::Unsupported("cuda flash: k/v t_stride mismatch"))
    } else {
        None
    }
}

/// The tensor-core kernel takes the heads.
pub open spec fn splitq_takes(dtype: DType, d: usize) -> bool {
    is_half(dtype) && (d == 64 || d == 128 || d == 256)
}

/// The older tiled kernel takes the heads.
pub open spec fn tiled_takes(dtype: DType, d: usize) -> bool {
    dtype == DType::BF16 && (d == 128 || d == 256)
}

/// The kernel of an attention: that asked for where it takes the heads, else the one for single
/// queries. Left to itself, more than one query goes to tensor cores.
pub open spec fn flash_kernel(mode: AttnMode, q: Layout, k: Layout) -> FlashKernel {
    let qd = q.dims@;
    let kd = k.dims@;
    let decode = FlashKernel::Decode {
        split_k: decode_split(qd[0], qd[1], qd[2], kd[2]) as u32,
    };
    match mode {
        AttnMode::Auto => if qd[2] > 1 && splitq_takes(q.dtype, qd[3]) {
            FlashKernel::SplitQ
        } else {
            decode
        },
        AttnMode::Fa4 => if splitq_takes(q.dtype, qd[3]) {
            FlashKernel::SplitQ
        } else {
            decode
        },
        AttnMode::Fa2 => if tiled_takes(q.dtype, qd[3]) {
            FlashKernel::Tiled {
                n_rep: (qd[1] / kd[1]) as u32,
                q_pos_base: ((kd[2] - qd[2]) as usize) as u32,
            }
        } else {
            decode
        },
        AttnMode::FlashDecode => decode,
    }
}

/// The sizes of an attention over a cache.
pub open spec fn flash_shape(q: Layout, k: Layout, v: Layout, causal: bool) -> FlashShape {
    FlashShape {
        dtype: q.dtype,
        b: q.dims@[0] as u32,
        nh: q.dims@[1] as u32,
        nkv: k.dims@[1] as u32,
        t_q: q.dims@[2] as u32,
        t_kv: k.dims@[2] as u32,
        d: q.dims@[3] as u32,
        t_stride: head_rows(k)->0,
        q_off: q.byte_offset,
        k_off: k.byte_offset,
        v_off: v.byte_offset,
        causal,
    }
}

pub(crate) fn shape_of(q: &Layout, k: &Layout, v: &Layout, t_stride: u32, causal: bool) -> (r:
    FlashShape)
    requires
        q.dims@.len() == 4,
        k.dims@.len() == 4,
        head_rows(*k) == Some(t_stride),
    ensures
        r == flash_shape(*q, *k, *v, causal),
{
    FlashShape {
        dtype: q.dtype,
        b: q.dims[0] as u32,
        nh: q.dims[1] as u32,
        nkv: k.dims[1] as u32,
        t_q: q.dims[2] as u32,
        t_kv: k.dims[2] as u32,
        d: q.dims[3] as u32,
        t_stride,
        q_off: q.byte_offset,
        k_off: k.byte_offset,
        v_off: v.byte_offset,
        causal,
    }
}

/// The outcome of a request for attention.
pub open spec fn flash_plan(
    q: Operand,
    k: Operand,
    v: Operand,
    out: Operand,
    mode: AttnMode,
    causal: bool,
) -> Result<
    FlashPlan,
    KernelError,
> {
    match flash_early(q.layout, k.layout, v.layout) {
        Some(e) => Err(e),
        None => if !q.cuda {
            Err(KernelError::Unsupported("cuda flash: q non-cuda"))
        } else if !out.cuda {
            Err(KernelError::Unsupported("cuda flash: out non-cuda"))
        } else {
            Ok(
                FlashPlan {
                    shape: flash_shape(q.layout, k.layout, v.layout, causal),
                    kernel: flash_kernel(mode, q.layout, k.layout),
                },
            )
        },
    }
}

/// Where an attention of the given sizes looks for the element `index` of the keys or values of
/// shape `dims`: `t_stride` rows per head, head after head.
pub open spec fn cache_place(shape: FlashShape, dims: Seq<usize>, index: Seq<int>) -> int {
    ((index[0] * dims[1] + index[1]) * shape.t_stride + index[2]) * dims[3] + index[3]
}

/// Attention over the first rows of a larger cache and over dense copies `kc` and `vc` of them is
/// accepted or refused alike, with the same kernel and the same sizes; only the rows between two
/// heads and the starts of the operands differ. Both look for every element where it lies, and
/// have the same number of rows to look at, whatever room the cache has behind them.
pub proof fn narrowed_cache_attends_alike(
    q: Operand,
    k: Operand,
    v: Operand,
    kc: Operand,
    vc: Operand,
    out: Operand,
    mode: AttnMode,
    causal: bool,
    room: u32,
)
    requires
        k.wf(),
        v.wf(),
        kc.wf(),
        vc.wf(),
        rows_of_cache(k.layout, room as int),
        rows_of_cache(v.layout, room as int),
        rows_of_cache(kc.layout, kc.layout.dims@[2] as int),
        rows_of_cache(vc.layout, vc.layout.dims@[2] as int),
        k.layout.dims@[2] > 0,
        kc.layout.dims@ == k.layout.dims@,
        vc.layout.dims@ == v.layout.dims@,
        kc.layout.dtype == k.layout.dtype,
        vc.layout.dtype == v.layout.dtype,
    ensures
        match (
            flash_plan(q, k, v, out, mode, causal),
            flash_plan(q, kc, vc, out, mode, causal),
        ) {
            (Err(a), Err(b)) => a == b,
            (Ok(a), Ok(b)) => {
                &&& a.kernel == b.kernel
                &&& a.shape.t_stride == room
                &&& b.shape.t_stride == k.layout.dims@[2]
                &&& a.shape == (FlashShape {
                    t_stride: a.shape.t_stride,
                    k_off: a.shape.k_off,
                    v_off: a.shape.v_off,
                    ..b.shape
                })
                &&& forall|index: Seq<int>|
                    #![trigger in_shape(k.layout.dims@, index)]
                    in_shape(k.layout.dims@, index) ==> {
                        let dims = k.layout.dims@;
                        &&& cache_place(a.shape, dims, index) == strided_index(k.layout.strides@, index)
                        &&& cache_place(a.shape, dims, index) == strided_index(v.layout.strides@, index)
                        &&& cache_place(b.shape, dims, index) == strided_index(kc.layout.strides@, index)
                        &&& cache_place(b.shape, dims, index) == strided_index(vc.layout.strides@, index)
                    }
            },
            _ => false,
        },
{
    let dims = k.layout.dims@;
    let copied = dims[2] as u32;
    lemma_room_rows(k.layout, room);
    lemma_room_rows(v.layout, room);
    lemma_room_rows(kc.layout, copied);
    if vc.layout.dims@ == dims {
        lemma_room_rows(vc.layout, copied);
    }
    if flash_plan(q, k, v, out, mode, causal) is Ok {
        assert forall|index: Seq<int>|
            #![trigger in_shape(k.layout.dims@, index)]
            in_shape(k.layout.dims@, index) implies {
            let a = flash_plan(q, k, v, out, mode, causal)->Ok_0;
            let b = flash_plan(q, kc, vc, out, mode, causal)->Ok_0;
            &&& cache_place(a.shape, dims, index) == strided_index(k.layout.strides@, index)
            &&& cache_place(a.shape, dims, index) == strided_index(v.layout.strides@, index)
            &&& cache_place(b.shape, dims, index) == strided_index(kc.layout.strides@, index)
            &&& cache_place(b.shape, dims, index) == strided_index(vc.layout.strides@, index)
        } by {
            cache_rows_regular(k.layout, index);
            cache_rows_regular(v.layout, index);
            cache_rows_regular(kc.layout, index);
            cache_rows_regular(vc.layout, index);
        }
    }
}

/// Attention within a window of the last `window` keys.
#[derive(Clone, Copy, Debug, PartialEq, Eq, Structural)]
pub struct FlashWindow {
    pub shape: FlashShape,
    pub window: i32,
}

/// What is wrong with the operands of an attention within a window, before where they are is
/// looked at.
pub open spec fn window_early(q: Layout, k: Layout, v: Layout) -> Option<KernelError> {
    let qd = q.dims@;
    let kd = k.dims@;
    if !is_half(q.dtype) || k.dtype != q.dtype || v.dtype != q.dtype {
        Some(KernelError::Unsupported("flash_window: f16/bf16 only"))
    } else if qd.len() != 4 || kd.len() != 4 || v.dims@.len() != 4 {
        Some(KernelError::Unsupported("flash_window: rank-4"))
    } else if qd[3] != 128 {
        Some(KernelError::Unsupported("flash_window: HD=128 only"))
    } else if kd[0] != qd[0] || kd[3] != qd[3] || v.dims@ != kd {
        Some(KernelError::Unsupported("flash_window: k/v shape"))
    } else if kd[1] == 0 || qd[1] % kd[1] != 0 {
        Some(KernelError::Unsupported("flash_window: GQA"))
    } else if !q.contiguous || head_rows(k) is None || head_rows(v) is None {
        Some(KernelError::NonContiguous)
    } else if head_rows(k) != head_rows(v) {
        Some(KernelError::Unsupported("flash_window: k/v t_stride"))
    } else {
        None
    }
}

/// The outcome of a request for attention within a window.
pub open spec fn window_plan(
    q: Operand,
    k: Operand,
    v: Operand,
    out: Operand,
    window: i32,
    causal: bool,
) -> Result<
    FlashWindow,
    KernelError,
> {
    match window_early(q.layout, k.layout, v.layout) {
        Some(e) => Err(e),
        None => if !q.cuda {
            Err(KernelError::Unsupported("flash_window: q non-cuda"))
        } else if !out.cuda {
            Err(KernelError::Unsupported("flash_window: out non-cuda"))
        } else {
            Ok(FlashWindow { shape: flash_shape(q.layout, k.layout, v.layout, causal), window })
        },
    }
}

/// The outcome of a request for attention on `[B, S, H, D]`.
pub open spec fn bshd_plan(q: Operand, k: Operand, v: Operand, out: Operand, causal: bool) -> Result<
    FlashShape,
    KernelError,
> {
    let (ql, kl, vl) = (q.layout, k.layout, v.layout);
    let qd = ql.dims@;
    let kd = kl.dims@;
    if !is_half(ql.dtype) || kl.dtype != ql.dtype || vl.dtype != ql.dtype {
        Err(KernelError::Unsupported("flash_bshd: dtype"))
    } else if qd.len() != 4 || kd.len() != 4 || vl.dims@.len() != 4 {
        Err(KernelError::Unsupported("flash_bshd: rank"))
    } else if !(qd[3] == 64 || qd[3] == 128) || kd[0] != qd[0] || kd[3] != qd[3] || vl.dims@ != kd {
        Err(KernelError::Unsupported("flash_bshd: shape/HD"))
    } else if kd[2] == 0 || qd[2] % kd[2] != 0 {
        Err(KernelError::Unsupported("flash_bshd: GQA"))
    } else if !ql.contiguous || !kl.contiguous || !vl.contiguous {
        Err(KernelError::NonContiguous)
    } else if ql.offset != 0 || kl.offset != 0 || vl.offset != 0 {
        Err(KernelError::Unsupported("flash_bshd: nonzero offset"))
    } else if !q.cuda {
        Err(KernelError::Unsupported("flash_bshd: q non-cuda"))
    } else if !k.cuda {
        Err(KernelError::Unsupported("flash_bshd: k non-cuda"))
    } else if !v.cuda {
        Err(KernelError::Unsupported("flash_bshd: v non-cuda"))
    } else if !out.cuda {
        Err(KernelError::Unsupported("flash_bshd: out non-cuda"))
    } else {
        Ok(
            FlashShape {
                dtype: ql.dtype,
                b: qd[0] as u32,
                nh: qd[2] as u32,
                nkv: kd[2] as u32,
                t_q: qd[1] as u32,
                t_kv: kd[1] as u32,
                d: qd[3] as u32,
                t_stride: 0,
                q_off: 0,
                k_off: 0,
                v_off: 0,
                causal,
            },
        )
    }
}

/// The outcome of a request to append to a cache.
pub open spec fn kv_append_plan(dst: Operand, src: Operand, seq_pos: usize) -> Result<
    AppendU8,
    KernelError,
> {
    let (dl, sl) = (dst.layout, src.layout);
    let dd = dl.dims@;
    let sd = sl.dims@;
    if sl.dtype != dl.dtype {
        Err(KernelError::Unsupported("cuda kv_append: dtype mismatch src/dst"))
    } else if dd.len() != 4 || sd.len() != 4 {
        Err(KernelError::Unsupported("cuda kv_append: expect rank-4 [B,nkv,T,hd]"))
    } else if !dl.contiguous || !sl.contiguous {
        Err(KernelError::NonContiguous)
    } else if sd[0] != dd[0] || sd[1] != dd[1] || sd[3] != dd[3] {
        Err(KernelError::Unsupported("cuda kv_append: src/dst shape mismatch"))
    } else if seq_pos + sd[2] > dd[2] {
        Err(
            KernelError::Other3(
                "cuda kv_append: seq_pos {} + t_new {} > max_seq {}",
                seq_pos as u64,
                sd[2] as u64,
                dd[2] as u64,
            ),
        )
    } else if !dst.cuda {
        Err(KernelError::Unsupported("cuda kv_append: dst non-cuda"))
    } else if !src.cuda {
        Err(KernelError::Unsupported("cuda kv_append: src non-cuda"))
    } else {
        append_plan(
            sl.byte_offset as int,
            dl.byte_offset as int,
            dd[0] as u32,
            dd[1] as u32,
            sd[2] as u32,
            dd[3] as u32,
            dd[2] as u32,
            dl.dtype,
            Some(seq_pos as u32),
        )
    }
}

/// An append that is accepted stays within the rows of the cache.
pub proof fn kv_append_within_cache(dst: Operand, src: Operand, seq_pos: usize)
    ensures
        kv_append_plan(dst, src, seq_pos) is Ok ==> seq_pos + src.layout.dims@[2]
            <= dst.layout.dims@[2],
{
}

/// The sizes of an append fit, where the shapes are such.
pub open spec fn kv_append_fits(dst: Layout, src: Layout) -> bool {
    append_fits(
        src.byte_offset as int,
        dst.byte_offset as int,
        dst.dims@[0] as u32,
        dst.dims@[1] as u32,
        src.dims@[2] as u32,
        dst.dims@[3] as u32,
        dst.dims@[2] as u32,
        dst.dtype,
    )
}

impl CudaBackend {
    /// Plans attention of `[B, H, T, D]` over keys and values that may be part of a larger cache.
    pub fn flash_attention(
        &self,
        q: &Operand,
        k: &Operand,
        v: &Operand,
        out: &Operand,
        mode: AttnMode,
        causal: bool,
    ) -> (r: Result<FlashPlan, KernelError>)
        requires
            q.wf(),
            k.wf(),
            v.wf(),
            flash_early(q.layout, k.layout, v.layout) is None && q.cuda ==> k.cuda && v.cuda,
            flash_early(q.layout, k.layout, v.layout) is None && mode == AttnMode::Fa2
                && tiled_takes(q.layout.dtype, q.layout.dims@[3]) ==> q.layout.dims@[2]
                <= k.layout.dims@[2],
        ensures
            r == flash_plan(*q, *k, *v, *out, mode, causal),
            r matches Ok(p) ==> attends(p.shape, q.layout, k.layout, v.layout, causal),
    {
        let (ql, kl, vl): (&Layout, &Layout, &Layout) = (&q.layout, &k.layout, &v.layout);
        let dtype = ql.dtype;
        if kl.dtype != dtype || vl.dtype != dtype {
            return Err(KernelError::Unsupported("cuda flash: dtype mismatch q/k/v"));
        }
        if ql.dims.len() != 4 || kl.dims.len() != 4 || vl.dims.len() != 4 {
            return Err(KernelError::Unsupported("cuda flash: expect rank-4 [B,H,T,D]"));
        }
        let (b, nh, t_q, d): (usize, usize, usize, usize) = (
            ql.dims[0],
            ql.dims[1],
            ql.dims[2],
            ql.dims[3],
        );
        let (nkv, t_kv): (usize, usize) = (kl.dims[1], kl.dims[2]);
        if kl.dims[0] != b || kl.dims[3] != d || !same_dims(&vl.dims, &kl.dims) {
            return Err(KernelError::Unsupported("cuda flash: k/v shape"));
        }
        if nkv == 0 || nh % nkv != 0 || d == 0 || d > 1024 {
            return Err(KernelError::Unsupported("cuda flash: GQA/D constraints"));
        }
        if !ql.contiguous {
            return Err(KernelError::NonContiguous);
        }
        let t_stride: u32 = match derive_tstride(kl) {
            None => {
                return Err(KernelError::NonContiguous);
            },
            Some(t) => t,
        };
        match derive_tstride(vl) {
            None => {
                return Err(KernelError::NonContiguous);
            },
            Some(t) => {
                if t != t_stride {
                    return Err(KernelError::Unsupported("cuda flash: k/v t_stride mismatch"));
                }
            },
        }
        if !q.cuda {
            return Err(KernelError::Unsupported("cuda flash: q non-cuda"));
        }
        if !out.cuda {
            return Err(KernelError::Unsupported("cuda flash: out non-cuda"));
        }
        let fa4_ok = (dtype == DType::BF16 || dtype == DType::F16) && (d == 64 || d == 128 || d
            == 256);
        let fa2_ok = dtype == DType::BF16 && (d == 128 || d == 256);
        proof {
            lemma_four(ql.dims@);
        }
        let rows: u32 = (b * nh * t_q) as u32;
        let decode = FlashKernel::Decode { split_k: split_of(rows, t_q, t_kv) };
        let kernel = match mode {
            AttnMode::Auto => if t_q > 1 && fa4_ok {
                FlashKernel::SplitQ
            } else {
                decode
            },
            AttnMode::Fa4 => if fa4_ok {
                FlashKernel::SplitQ
            } else {
                decode
            },
            AttnMode::Fa2 => if fa2_ok {
                FlashKernel::Tiled { n_rep: (nh / nkv) as u32, q_pos_base: (t_kv - t_q) as u32 }
            } else {
                decode
            },
            AttnMode::FlashDecode => decode,
        };
        Ok(FlashPlan { shape: shape_of(ql, kl, vl, t_stride, causal), kernel })
    }

    /// Plans attention within a window of keys.
    pub fn flash_attention_window(
        &self,
        q: &Operand,
        k: &Operand,
        v: &Operand,
        out: &Operand,
        window: i32,
        causal: bool,
    ) -> (r: Result<FlashWindow, KernelError>)
        requires
            q.wf(),
            k.wf(),
            v.wf(),
            window_early(q.layout, k.layout, v.layout) is None && q.cuda ==> k.cuda && v.cuda,
        ensures
            r == window_plan(*q, *k, *v, *out, window, causal),
            r matches Ok(p) ==> p.window == window && attends(
                p.shape,
                q.layout,
                k.layout,
                v.layout,
                causal,
            ),
    {
        let (ql, kl, vl): (&Layout, &Layout, &Layout) = (&q.layout, &k.layout, &v.layout);
        let dtype = ql.dtype;
        if !half_float(dtype) || kl.dtype != dtype || vl.dtype != dtype {
            return Err(KernelError::Unsupported("flash_window: f16/bf16 only"));
        }
        if ql.dims.len() != 4 || kl.dims.len() != 4 || vl.dims.len() != 4 {
            return Err(KernelError::Unsupported("flash_window: rank-4"));
        }
        let d: usize = ql.dims[3];
        if d != 128 {
            return Err(KernelError::Unsupported("flash_window: HD=128 only"));
        }
        if kl.dims[0] != ql.dims[0] || kl.dims[3] != d || !same_dims(&vl.dims, &kl.dims) {
            return Err(KernelError::Unsupported("flash_window: k/v shape"));
        }
        if kl.dims[1] == 0 || ql.dims[1] % kl.dims[1] != 0 {
            return Err(KernelError::Unsupported("flash_window: GQA"));
        }
        if !ql.contiguous {
            return Err(KernelError::NonContiguous);
        }
        let t_stride: u32 = match derive_tstride(kl) {
            None => {
                return Err(KernelError::NonContiguous);
            },
            Some(t) => t,
        };
        match derive_tstride(vl) {
            None => {
                return Err(KernelError::NonContiguous);
            },
            Some(t) => {
                if t != t_stride {
                    return Err(KernelError::Unsupported("flash_window: k/v t_stride"));
                }
            },
        }
        if !q.cuda {
            return Err(KernelError::Unsupported("flash_window: q non-cuda"));
        }
        if !out.cuda {
            return Err(KernelError::Unsupported("flash_window: out non-cuda"));
        }
        Ok(FlashWindow { shape: shape_of(ql, kl, vl, t_stride, causal), window })
    }

    /// Plans attention of dense `[B, S, H, D]`.
    pub fn flash_attention_bshd(
        &self,
        q: &Operand,
        k: &Operand,
        v: &Operand,
        out: &Operand,
        causal: bool,
    ) -> (r: Result<FlashShape, KernelError>)
        requires
            q.wf(),
            k.wf(),
            v.wf(),
        ensures
            r == bshd_plan(*q, *k, *v, *out, causal),
            r matches Ok(s) ==> s.causal == causal && s.dtype == q.layout.dtype,
    {
        let (ql, kl, vl): (&Layout, &Layout, &Layout) = (&q.layout, &k.layout, &v.layout);
        let dtype = ql.dtype;
        if !half_float(dtype) || kl.dtype != dtype || vl.dtype != dtype {
            return Err(KernelError::Unsupported("flash_bshd: dtype"));
        }
        if ql.dims.len() != 4 || kl.dims.len() != 4 || vl.dims.len() != 4 {
            return Err(KernelError::Unsupported("flash_bshd: rank"));
        }
        let (b, s_q, h, d): (usize, usize, usize, usize) = (
            ql.dims[0],
            ql.dims[1],
            ql.dims[2],
            ql.dims[3],
        );
        let (s_kv, hkv): (usize, usize) = (kl.dims[1], kl.dims[2]);
        if !(d == 64 || d == 128) || kl.dims[0] != b || kl.dims[3] != d || !same_dims(
            &vl.dims,
            &kl.dims,
        ) {
            return Err(KernelError::Unsupported("flash_bshd: shape/HD"));
        }
        if hkv == 0 || h % hkv != 0 {
            return Err(KernelError::Unsupported("flash_bshd: GQA"));
        }
        if !ql.contiguous || !kl.contiguous || !vl.contiguous {
            return Err(KernelError::NonContiguous);
        }
        if ql.offset != 0 || kl.offset != 0 || vl.offset != 0 {
            return Err(KernelError::Unsupported("flash_bshd: nonzero offset"));
        }
        if !q.cuda {
            return Err(KernelError::Unsupported("flash_bshd: q non-cuda"));
        }
        if !k.cuda {
            return Err(KernelError::Unsupported("flash_bshd: k non-cuda"));
        }
        if !v.cuda {
            return Err(KernelError::Unsupported("flash_bshd: v non-cuda"));
        }
        if !out.cuda {
            return Err(KernelError::Unsupported("flash_bshd: out non-cuda"));
        }
        Ok(
            FlashShape {
                dtype,
                b: b as u32,
                nh: h as u32,
                nkv: hkv as u32,
                t_q: s_q as u32,
                t_kv: s_kv as u32,
                d: d as u32,
                t_stride: 0,
                q_off: 0,
                k_off: 0,
                v_off: 0,
                causal,
            },
        )
    }

    /// Plans an append of `src` to the cache `dst` from row `seq_pos` on.
    pub fn kv_append(&self, dst: &Operand, src: &Operand, seq_pos: usize) -> (r: Result<
        AppendU8,
        KernelError,
    >)
        requires
            kv_append_plan(*dst, *src, seq_pos) is Ok ==> kv_append_fits(dst.layout, src.layout),
        ensures
            r == kv_append_plan(*dst, *src, seq_pos),
    {
        let (dl, sl): (&Layout, &Layout) = (&dst.layout, &src.layout);
        if sl.dtype != dl.dtype {
            return Err(KernelError::Unsupported("cuda kv_append: dtype mismatch src/dst"));
        }
        if dl.dims.len() != 4 || sl.dims.len() != 4 {
            return Err(KernelError::Unsupported("cuda kv_append: expect rank-4 [B,nkv,T,hd]"));
        }
        if !dl.contiguous || !sl.contiguous {
            return Err(KernelError::NonContiguous);
        }
        if sl.dims[0] != dl.dims[0] || sl.dims[1] != dl.dims[1] || sl.dims[3] != dl.dims[3] {
            return Err(KernelError::Unsupported("cuda kv_append: src/dst shape mismatch"));
        }
        let t_new: usize = sl.dims[2];
        let max_seq: usize = dl.dims[2];
        if t_new > max_seq || seq_pos > max_seq - t_new {
            return Err(
                KernelError::Other3(
                    "cuda kv_append: seq_pos {} + t_new {} > max_seq {}",
                    seq_pos as u64,
                    t_new as u64,
                    max_seq as u64,
                ),
            );
        }
        if !dst.cuda {
            return Err(KernelError::Unsupported("cuda kv_append: dst non-cuda"));
        }
        if !src.cuda {
            return Err(KernelError::Unsupported("cuda kv_append: src non-cuda"));
        }
        append_u8(
            sl.byte_offset,
            dl.byte_offset,
            dl.dims[0] as u32,
            dl.dims[1] as u32,
            t_new as u32,
            dl.dims[3] as u32,
            max_seq as u32,
            seq_pos as u32,
            dl.dtype,
        )
    }
}

} // verus!
