//! What an attention is asked to look at, and that its plan has it look at just that.

use vstd::prelude::*;

use crate::cuda_backend::attention::{
    bshd_plan, flash_plan, head_rows, window_plan, AttnMode, FlashKernel, FlashPlan, FlashShape,
};
use crate::cuda_backend::attention_dev::{
    flash_attention_dev_plan, flash_attention_prefill_dev_plan, flash_attention_window_dev_plan,
    FlashDevShape,
};
use crate::cuda_backend::mxfp8_cache::{
    flash_mxfp8_dev_plan, flash_mxfp8_plan, Mxfp8AttnKernel,
};
use crate::dtype::DType;
use crate::layout::{Layout, Operand};

verus! {

/// Every extent fits what the kernels take.
pub open spec fn extents_fit(dims: Seq<usize>) -> bool {
    forall|j: int| 0 <= j < dims.len() ==> #[trigger] dims[j] <= u32::MAX
}

/// Query `i` of `t_q` is to look at key `j` of `t_kv`: at every key, or where `causal` at none
/// behind its own position, the last query standing at the last key.
pub open spec fn to_see(causal: bool, t_q: int, t_kv: int, i: int, j: int) -> bool {
    0 <= i < t_q && 0 <= j < t_kv && (causal ==> j <= i + (t_kv - t_q))
}

/// The kernels have query `i` look at key `j`.
pub open spec fn sees(s: FlashShape, i: int, j: int) -> bool {
    to_see(s.causal, s.t_q as int, s.t_kv as int, i, j)
}

/// As `sees`, with the number of keys that is found in device memory.
pub open spec fn sees_of(s: FlashDevShape, t_kv: int, i: int, j: int) -> bool {
    to_see(s.causal, s.t_q as int, t_kv, i, j)
}

/// The head of the cache that head `h` of `nh` shares with its neighbours.
pub open spec fn shared_head(nh: int, nkv: int, h: int) -> int {
    h / (nh / nkv)
}

/// The sizes and starts of an attention of `q` over `k` and `v`.
pub open spec fn attends(s: FlashShape, q: Layout, k: Layout, v: Layout, causal: bool) -> bool {
    &&& s.causal == causal
    &&& s.dtype == q.dtype
    &&& (s.q_off, s.k_off, s.v_off) == (q.byte_offset, k.byte_offset, v.byte_offset)
    &&& extents_fit(q.dims@) && extents_fit(k.dims@) ==> {
        &&& q.dims@ =~= seq![s.b as usize, s.nh as usize, s.t_q as usize, s.d as usize]
        &&& k.dims@ =~= seq![s.b as usize, s.nkv as usize, s.t_kv as usize, s.d as usize]
        &&& v.dims@ == k.dims@
        &&& forall|i: int, j: int|
            #![trigger sees(s, i, j)]
            sees(s, i, j) <==> to_see(causal, q.dims@[2] as int, k.dims@[2] as int, i, j)
    }
}

/// As `attends`, the number of keys aside.
pub open spec fn attends_of(s: FlashDevShape, q: Layout, k: Layout, v: Layout, causal: bool) -> bool {
    &&& s.causal == causal
    &&& s.dtype == q.dtype
    &&& (s.q_off, s.k_off, s.v_off) == (q.byte_offset, k.byte_offset, v.byte_offset)
    &&& extents_fit(q.dims@) && extents_fit(k.dims@) ==> {
        &&& q.dims@ =~= seq![s.b as usize, s.nh as usize, s.t_q as usize, s.d as usize]
        &&& k.dims@[0] == s.b && k.dims@[1] == s.nkv && k.dims@[3] == s.d
        &&& v.dims@ == k.dims@
        &&& forall|t_kv: int, i: int, j: int|
            #![trigger sees_of(s, t_kv, i, j)]
            sees_of(s, t_kv, i, j) <==> to_see(causal, q.dims@[2] as int, t_kv, i, j)
    }
}

/// The kernels find both operands of a cache at the distance between its heads.
pub open spec fn spaced_alike(k: Layout, v: Layout, t_stride: u32) -> bool {
    &&& k.dims@[3] > 0 && k.strides@[1] > 0 && v.strides@[1] > 0
    &&& k.strides@[1] as int / k.dims@[3] as int <= u32::MAX ==> k.strides@[1] == t_stride * k.dims@[3]
    &&& v.strides@[1] as int / v.dims@[3] as int <= u32::MAX ==> v.strides@[1] == t_stride * v.dims@[3]
}

proof fn lemma_spaced(k: Layout, v: Layout, t_stride: u32)
    requires
        head_rows(k) == Some(t_stride),
        head_rows(v) == Some(t_stride),
    ensures
        spaced_alike(k, v, t_stride),
{
    let (a, b) = (k.strides@[1] as int, k.dims@[3] as int);
    let (c, d) = (v.strides@[1] as int, v.dims@[3] as int);
    assert(a == (a / b) * b) by (nonlinear_arith)
        requires
            a % b == 0,
            b > 0,
    ;
    assert(c == (c / d) * d) by (nonlinear_arith)
        requires
            c % d == 0,
            d > 0,
    ;
}

/// The kernel takes heads of width `d`, its parameters are those of the request, and no segment of
/// the keys is longer than 2048 as long as 32 segments are enough.
pub open spec fn kernel_serves(p: FlashPlan, q: Layout, k: Layout) -> bool {
    let (nh, t_q, d) = (q.dims@[1] as int, q.dims@[2] as int, q.dims@[3] as int);
    let (nkv, t_kv) = (k.dims@[1] as int, k.dims@[2] as int);
    match p.kernel {
        FlashKernel::SplitQ => {
            &&& q.dtype == DType::F16 || q.dtype == DType::BF16
            &&& d == 64 || d == 128 || d == 256
        },
        FlashKernel::Tiled { n_rep, q_pos_base } => {
            &&& q.dtype == DType::BF16
            &&& d == 128 || d == 256
            &&& n_rep * nkv == nh
            &&& q_pos_base + t_q == t_kv
            &&& forall|h: int|
                0 <= h < nh && n_rep > 0 ==> #[trigger] shared_head(nh, nkv, h) == h / (n_rep as int)
        },
        FlashKernel::Decode { split_k } => {
            &&& 1 <= split_k <= 32
            &&& t_q != 1 ==> split_k == 1
            &&& t_q == 1 && t_kv <= 65536 ==> split_k * 2048 >= t_kv
            &&& t_q == 1 && split_k < 32 ==> split_k * 2048 >= t_kv
        },
    }
}

/// What the mode asks for: the kernel named, where it takes the heads, else one query at a time.
pub open spec fn kernel_as_asked(p: FlashPlan, mode: AttnMode, q: Layout) -> bool {
    let (t_q, d) = (q.dims@[2] as int, q.dims@[3] as int);
    let half = q.dtype == DType::F16 || q.dtype == DType::BF16;
    &&& mode == AttnMode::FlashDecode ==> p.kernel is Decode
    &&& mode == AttnMode::Auto && t_q <= 1 ==> p.kernel is Decode
    &&& mode == AttnMode::Fa4 || mode == AttnMode::Auto && t_q > 1 ==> (p.kernel is SplitQ <==> half
        && (d == 64 || d == 128 || d == 256)) && p.kernel !is Tiled
    &&& mode == AttnMode::Fa2 ==> (p.kernel is Tiled <==> q.dtype == DType::BF16 && (d == 128 || d
        == 256)) && p.kernel !is SplitQ
}

/// An attention that is accepted has every query look at the keys that were asked for, masked
/// exactly where a mask was asked for, whatever the lengths; its sizes and starts are those of the
/// operands, its keys lie where the cache has them, and its kernel takes the heads.
pub proof fn attention_looks_as_asked(
    q: Operand,
    k: Operand,
    v: Operand,
    out: Operand,
    mode: AttnMode,
    causal: bool,
)
    requires
        extents_fit(q.layout.dims@),
        extents_fit(k.layout.dims@),
        k.layout.dims@.len() == 4 && q.layout.dims@.len() == 4 && mode == AttnMode::Fa2
            ==> q.layout.dims@[2] <= k.layout.dims@[2],
    ensures
        flash_plan(q, k, v, out, mode, causal) matches Ok(p) ==> {
            &&& attends(p.shape, q.layout, k.layout, v.layout, causal)
            &&& spaced_alike(k.layout, v.layout, p.shape.t_stride)
            &&& kernel_serves(p, q.layout, k.layout)
            &&& kernel_as_asked(p, mode, q.layout)
        },
{
    if flash_plan(q, k, v, out, mode, causal) is Ok {
        lemma_spaced(k.layout, v.layout, head_rows(k.layout)->0);
        let (nh, nkv) = (q.layout.dims@[1] as int, k.layout.dims@[1] as int);
        crate::arith::lemma_ceil_div(k.layout.dims@[2] as int, 2048);
        let rep = nh / nkv;
        assert(nh == rep * nkv && rep <= nh) by (nonlinear_arith)
            requires
                rep == nh / nkv,
                nh % nkv == 0,
                nkv > 0,
                nh >= 0,
        ;
    }
}

/// A mask changes nothing but itself: the plans with and without one are accepted together and
/// differ in the mask alone.
pub proof fn mask_changes_only_itself(
    q: Operand,
    k: Operand,
    v: Operand,
    out: Operand,
    mode: AttnMode,
)
    ensures
        match (flash_plan(q, k, v, out, mode, true), flash_plan(q, k, v, out, mode, false)) {
            (Ok(a), Ok(b)) => a.kernel == b.kernel && a.shape.causal && !b.shape.causal && a.shape
                == (FlashShape { causal: true, ..b.shape }),
            (Err(a), Err(b)) => a == b,
            _ => false,
        },
{
}

/// What an attention is accepted for: operands of one type, of four axes that agree, heads that are
/// shared evenly and at most 1024 wide, dense queries and evenly spaced rows of keys and values.
pub open spec fn attendable(q: Operand, k: Operand, v: Operand, out: Operand) -> bool {
    let (ql, kl, vl) = (q.layout, k.layout, v.layout);
    &&& q.cuda && out.cuda
    &&& kl.dtype == ql.dtype && vl.dtype == ql.dtype
    &&& ql.dims@.len() == 4 && kl.dims@.len() == 4
    &&& vl.dims@ == kl.dims@
    &&& kl.dims@[0] == ql.dims@[0] && kl.dims@[3] == ql.dims@[3]
    &&& kl.dims@[1] > 0 && ql.dims@[1] % kl.dims@[1] == 0
    &&& 0 < ql.dims@[3] <= 1024
    &&& ql.contiguous
    &&& head_rows(kl) is Some && head_rows(vl) == head_rows(kl)
}

/// Attention is accepted for just those operands, whatever the kernel asked for and the mask.
pub proof fn attention_accepts(
    q: Operand,
    k: Operand,
    v: Operand,
    out: Operand,
    mode: AttnMode,
    causal: bool,
)
    ensures
        flash_plan(q, k, v, out, mode, causal) is Ok <==> attendable(q, k, v, out),
{
}

/// Attention within a window looks as asked, through the window asked for.
pub proof fn windowed_attention_looks_as_asked(
    q: Operand,
    k: Operand,
    v: Operand,
    out: Operand,
    window: i32,
    causal: bool,
)
    requires
        extents_fit(q.layout.dims@),
        extents_fit(k.layout.dims@),
    ensures
        window_plan(q, k, v, out, window, causal) matches Ok(p) ==> {
            &&& p.window == window
            &&& attends(p.shape, q.layout, k.layout, v.layout, causal)
            &&& spaced_alike(k.layout, v.layout, p.shape.t_stride)
        },
        window_plan(q, k, v, out, window, causal) is Ok <==> attendable(q, k, v, out)
            && q.layout.dims@[3] == 128 && (q.layout.dtype == DType::F16 || q.layout.dtype
            == DType::BF16),
{
    if window_plan(q, k, v, out, window, causal) is Ok {
        lemma_spaced(k.layout, v.layout, head_rows(k.layout)->0);
    }
}

/// Attention of `[B, S, H, D]` looks as asked.
pub proof fn interleaved_attention_looks_as_asked(
    q: Operand,
    k: Operand,
    v: Operand,
    out: Operand,
    causal: bool,
)
    requires
        extents_fit(q.layout.dims@),
        extents_fit(k.layout.dims@),
    ensures
        bshd_plan(q, k, v, out, causal) matches Ok(s) ==> {
            let (qd, kd) = (q.layout.dims@, k.layout.dims@);
            &&& s.causal == causal
            &&& s.dtype == q.layout.dtype
            &&& qd =~= seq![s.b as usize, s.t_q as usize, s.nh as usize, s.d as usize]
            &&& kd =~= seq![s.b as usize, s.t_kv as usize, s.nkv as usize, s.d as usize]
            &&& v.layout.dims@ == kd
            &&& s.nkv > 0 && s.nh % s.nkv == 0
            &&& q.layout.contiguous && k.layout.contiguous && v.layout.contiguous
            &&& (q.layout.offset, k.layout.offset, v.layout.offset) == (0usize, 0usize, 0usize)
            &&& (s.q_off, s.k_off, s.v_off) == (0usize, 0usize, 0usize)
            &&& forall|i: int, j: int|
                #![trigger sees(s, i, j)]
                sees(s, i, j) <==> to_see(causal, qd[1] as int, kd[1] as int, i, j)
        },
{
}

/// With the number of keys in device memory an attention looks as asked whatever number is found
/// there, and reads it from where it lies.
pub proof fn attention_of_a_count_looks_as_asked(
    q: Operand,
    k: Operand,
    v: Operand,
    t_cache: Operand,
    out: Operand,
    window: i32,
    causal: bool,
)
    requires
        extents_fit(q.layout.dims@),
        extents_fit(k.layout.dims@),
        t_cache.wf(),
    ensures
        flash_attention_dev_plan(q, k, v, t_cache, out, causal) matches Ok(p) ==> {
            &&& attends_of(p.shape, q.layout, k.layout, v.layout, causal)
            &&& spaced_alike(k.layout, v.layout, p.shape.t_stride)
            &&& p.shape.t_cache.start == t_cache.layout.byte_offset
            &&& p.shape.t_cache.end == t_cache.layout.byte_offset + 4
            &&& 1 <= p.split_k <= 32
            &&& p.split_k < 32 ==> p.split_k * 2048 >= p.shape.t_stride
        },
        flash_attention_window_dev_plan(q, k, v, t_cache, out, window, causal) matches Ok(p) ==> {
            &&& p.window == window
            &&& attends_of(p.shape, q.layout, k.layout, v.layout, causal)
            &&& spaced_alike(k.layout, v.layout, p.shape.t_stride)
            &&& p.shape.t_cache.start == t_cache.layout.byte_offset
            &&& p.shape.t_cache.end == t_cache.layout.byte_offset + 4
        },
        flash_attention_prefill_dev_plan(q, k, v, t_cache, out, causal) matches Ok(s) ==> {
            &&& attends_of(s, q.layout, k.layout, v.layout, causal)
            &&& spaced_alike(k.layout, v.layout, s.t_stride)
            &&& s.t_cache.start == t_cache.layout.byte_offset
            &&& s.t_cache.end == t_cache.layout.byte_offset + 4
        },
{
    if head_rows(k.layout) is Some && head_rows(v.layout) == head_rows(k.layout) {
        lemma_spaced(k.layout, v.layout, head_rows(k.layout)->0);
        crate::arith::lemma_ceil_div((head_rows(k.layout)->0) as int, 2048);
    }
}

/// With the number of keys in device memory an attention is accepted for what it is accepted for
/// with a host count, given that number as one `U32` on the device; the form for many queries for
/// half floats with heads of width 64, 128 or 256.
pub proof fn attention_of_a_count_accepts(
    q: Operand,
    k: Operand,
    v: Operand,
    t_cache: Operand,
    out: Operand,
    window: i32,
    causal: bool,
)
    ensures
        ({
            let half = q.layout.dtype == DType::F16 || q.layout.dtype == DType::BF16;
            let d = q.layout.dims@[3];
            let counted = attendable(q, k, v, out) && t_cache.cuda && t_cache.layout.dtype
                == DType::U32;
            &&& flash_attention_dev_plan(q, k, v, t_cache, out, causal) is Ok <==> counted
            &&& flash_attention_window_dev_plan(q, k, v, t_cache, out, window, causal) is Ok
                <==> counted && half && d == 128
            &&& flash_attention_prefill_dev_plan(q, k, v, t_cache, out, causal) is Ok <==> counted
                && half && (d == 64 || d == 128 || d == 256)
        }),
{
}

/// Attention over an eight-bit cache looks as asked; its scales start where theirs do, and a kernel
/// for many queries is not given one.
pub proof fn eight_bit_attention_looks_as_asked(
    q: Operand,
    k: Operand,
    v: Operand,
    k_scale: Operand,
    v_scale: Operand,
    t_cache: Operand,
    out: Operand,
    q_float: bool,
    grouped: bool,
    split_q: bool,
    causal: bool,
)
    requires
        extents_fit(q.layout.dims@),
        extents_fit(k.layout.dims@),
        t_cache.wf(),
    ensures
        flash_mxfp8_plan(q, k, v, k_scale, v_scale, out, q_float, grouped, split_q, causal) matches Ok(p) ==> {
            &&& attends(p.shape, q.layout, k.layout, v.layout, causal)
            &&& spaced_alike(k.layout, v.layout, p.shape.t_stride)
            &&& p.k_scale_off == k_scale.layout.byte_offset
            &&& p.v_scale_off == v_scale.layout.byte_offset
            &&& p.kernel is Grouped <==> grouped
            &&& p.kernel is SplitQ ==> split_q && q.layout.dims@[2] > 1
            &&& p.kernel is Prefill ==> q.layout.dims@[2] > 1 && (q.layout.dims@[3] == 128
                || q.layout.dims@[3] == 256)
            &&& p.kernel matches Mxfp8AttnKernel::Decode { split_k } ==> {
                &&& 1 <= split_k <= 32
                &&& q.layout.dims@[2] == 1 && split_k < 32 ==> split_k * 2048 >= k.layout.dims@[2]
            }
        },
        flash_mxfp8_dev_plan(q, k, v, k_scale, v_scale, t_cache, out, q_float, grouped, causal) matches Ok(p) ==> {
            &&& attends_of(p.shape, q.layout, k.layout, v.layout, causal)
            &&& spaced_alike(k.layout, v.layout, p.shape.t_stride)
            &&& p.shape.t_cache.start == t_cache.layout.byte_offset
            &&& p.shape.t_cache.end == t_cache.layout.byte_offset + 4
            &&& p.k_scale_off == k_scale.layout.byte_offset
            &&& p.v_scale_off == v_scale.layout.byte_offset
            &&& p.kernel is Grouped <==> grouped
            &&& p.kernel matches Mxfp8AttnKernel::Decode { split_k } ==> {
                &&& 1 <= split_k <= 32
                &&& split_k < 32 ==> split_k * 2048 >= p.shape.t_stride
            }
        },
{
    crate::arith::lemma_ceil_div(k.layout.dims@[2] as int, 2048);
    if head_rows(k.layout) is Some && head_rows(v.layout) == head_rows(k.layout) {
        lemma_spaced(k.layout, v.layout, head_rows(k.layout)->0);
        crate::arith::lemma_ceil_div((head_rows(k.layout)->0) as int, 2048);
    }
}

} // verus!
