//! How keys are split over segments, and where the rows of a head lie.

use vstd::prelude::*;

use crate::arith::{ceil_div, clamp3, lemma_ceil_div, max2};
use crate::cuda_backend::attention::{decode_split, flash_plan, head_rows, AttnMode, FlashKernel};
use crate::cuda_backend::attention_dev::flash_attention_dev_plan;
use crate::cuda_backend::mxfp8_cache::{flash_mxfp8_dev_plan, flash_mxfp8_plan, Mxfp8AttnKernel};
use crate::layout::{Layout, Operand};

verus! {

/// The keys of each of `rows` queries are split over as few segments as leave none with more than 2048
/// and no room for one more in 128 blocks, and over 32 where that would take more.
pub open spec fn fills(split: int, rows: int, keys: int) -> bool {
    &&& 1 <= split <= 32
    &&& split < 32 ==> keys <= split * 2048 && (split + 1) * rows > 128
    &&& split > 1 ==> keys > (split - 1) * 2048 || split * rows <= 128
}

proof fn lemma_fills(rows: int, keys: int)
    requires
        0 <= rows,
        0 <= keys,
    ensures
        fills(
            clamp3(max2(max2(128int / max2(rows, 1), 1), ceil_div(keys, 2048)), 1, 32),
            rows,
            keys,
        ),
{
    lemma_ceil_div(keys, 2048);
    if rows == 0 {
        let one = max2(rows, 1);
        assert(128int / one == 128) by (nonlinear_arith)
            requires
                one == 1,
        ;
        assert(clamp3(max2(max2(128int, 1), ceil_div(keys, 2048)), 1, 32) == 32);
        assert(32 * rows == 0);
    } else {
        assert(max2(rows, 1) == rows);
        let e = 128int / rows;
        vstd::arithmetic::div_mod::lemma_fundamental_div_mod(128, rows);
        let r = 128int % rows;
        assert(e * rows <= 128 && (e + 1) * rows > 128 && 0 <= e) by (nonlinear_arith)
            requires
                128 == rows * e + r,
                0 <= r < rows,
        ;
        let s = clamp3(max2(max2(e, 1), ceil_div(keys, 2048)), 1, 32);
        if e <= s {
            assert((s + 1) * rows >= (e + 1) * rows) by (nonlinear_arith)
                requires
                    e <= s,
                    rows > 0,
            ;
        }
        if s <= e {
            assert(s * rows <= e * rows) by (nonlinear_arith)
                requires
                    s <= e,
                    rows > 0,
            ;
        }
    }
}

/// One query has its keys split to fill the device, and more than one not at all.
pub proof fn keys_are_split_to_fill(b: usize, nh: usize, t_q: usize, t_kv: usize)
    requires
        b * nh * t_q <= u32::MAX,
        t_kv <= u32::MAX,
    ensures
        t_q == 1 ==> fills(decode_split(b, nh, t_q, t_kv), b * nh, t_kv as int),
        t_q != 1 ==> decode_split(b, nh, t_q, t_kv) == 1,
{
    assert(0 <= b * nh) by (nonlinear_arith);
    assert(0 <= b * nh * t_q) by (nonlinear_arith)
        requires
            0 <= b * nh,
    ;
    lemma_fills(b * nh * t_q, t_kv as int);
}

/// Every attention that splits its keys does so by the queries of all heads and the keys there are, or,
/// where their number is found on the device, by the keys there is room for.
pub proof fn attentions_split_to_fill(
    q: Operand,
    k: Operand,
    v: Operand,
    ks: Operand,
    vs: Operand,
    t_cache: Operand,
    out: Operand,
    mode: AttnMode,
    q_float: bool,
    grouped: bool,
    split_q: bool,
    causal: bool,
)
    requires
        q.layout.dims@.len() == 4,
        k.layout.dims@.len() == 4,
        q.layout.dims@[0] * q.layout.dims@[1] * q.layout.dims@[2] <= u32::MAX,
        k.layout.dims@[2] <= u32::MAX,
    ensures
        ({
            let (qd, kd) = (q.layout.dims@, k.layout.dims@);
            let rows = qd[0] * qd[1] * qd[2];
            let room = head_rows(k.layout)->0 as int;
            &&& flash_plan(q, k, v, out, mode, causal) matches Ok(p) ==> (p.kernel matches FlashKernel::Decode {
                split_k,
            } ==> qd[2] == 1 ==> fills(split_k as int, qd[0] * qd[1], kd[2] as int))
            &&& flash_attention_dev_plan(q, k, v, t_cache, out, causal) matches Ok(p) ==> fills(
                p.split_k as int,
                rows,
                room,
            )
            &&& flash_mxfp8_plan(q, k, v, ks, vs, out, q_float, grouped, split_q, causal) matches Ok(p) ==> (
            p.kernel matches Mxfp8AttnKernel::Decode { split_k } ==> qd[2] == 1 ==> fills(
                split_k as int,
                qd[0] * qd[1],
                kd[2] as int,
            ))
            &&& flash_mxfp8_dev_plan(q, k, v, ks, vs, t_cache, out, q_float, grouped, causal) matches Ok(p) ==> (
            p.kernel matches Mxfp8AttnKernel::Decode { split_k } ==> fills(split_k as int, rows, room))
        }),
{
    let (qd, kd) = (q.layout.dims@, k.layout.dims@);
    keys_are_split_to_fill(qd[0], qd[1], qd[2], kd[2]);
    let (x, y, z) = (qd[0] as int, qd[1] as int, qd[2] as int);
    assert(0 <= x * y * z) by (nonlinear_arith)
        requires
            0 <= x,
            0 <= y,
            0 <= z,
    ;
    lemma_fills(x * y * z, head_rows(k.layout)->0 as int);
    assert(z == 1 ==> x * y * z == x * y);
}

/// The place of an element of a tensor of four axes.
pub open spec fn place(lo: Layout, b: int, h: int, t: int, j: int) -> int {
    b * lo.strides@[0] + h * lo.strides@[1] + t * lo.strides@[2] + j * lo.strides@[3]
}

/// The heads of the tensor have room for `r` rows each and lie one behind the other, the rows of a head
/// too, and the values of a row.
pub open spec fn heads_of(lo: Layout, r: int) -> bool {
    forall|b: int, h: int, t: int, j: int|
        #[trigger] place(lo, b, h, t, j) == ((b * lo.dims@[1] + h) * r + t) * lo.dims@[3] + j
}

/// Heads are found to have room exactly where they have some and lie one behind the other, and the room
/// that is found is theirs.
pub proof fn room_of_heads_is_found(lo: Layout, r: u32)
    requires
        lo.dims@.len() == 4,
        lo.dims@[3] > 0,
        lo.strides@[1] as int / lo.dims@[3] as int <= u32::MAX,
    ensures
        head_rows(lo) == Some(r) <==> r > 0 && heads_of(lo, r as int),
{
    let (s, d) = (lo.strides@, lo.dims@);
    let (w, n, k) = (d[3] as int, d[1] as int, r as int);
    if head_rows(lo) == Some(r) {
        vstd::arithmetic::div_mod::lemma_fundamental_div_mod(s[1] as int, w);
        assert(s[1] == k * w) by (nonlinear_arith)
            requires
                s[1] == w * (s[1] as int / w) + s[1] as int % w,
                s[1] as int % w == 0,
                k == s[1] as int / w,
        ;
        assert(k > 0) by (nonlinear_arith)
            requires
                s[1] == k * w,
                s[1] > 0,
                w > 0,
        ;
        assert forall|b: int, h: int, t: int, j: int| #[trigger]
            place(lo, b, h, t, j) == ((b * n + h) * k + t) * w + j by {
            let s0 = s[0] as int;
            let s1 = s[1] as int;
            assert(b * s0 + h * s1 + t * w + j * 1 == ((b * n + h) * k + t) * w + j) by (nonlinear_arith)
                requires
                    s0 == n * s1,
                    s1 == k * w,
            ;
        }
    }
    if r > 0 && heads_of(lo, k) {
        assert(place(lo, 0, 0, 0, 1) == ((0 * n + 0) * k + 0) * w + 1);
        assert(place(lo, 0, 0, 1, 0) == ((0 * n + 0) * k + 1) * w + 0);
        assert(place(lo, 0, 1, 0, 0) == ((0 * n + 1) * k + 0) * w + 0);
        assert(place(lo, 1, 0, 0, 0) == ((1 * n + 0) * k + 0) * w + 0);
        assert(((0 * n + 0) * k + 0) * w == 0) by (nonlinear_arith);
        assert(((0 * n + 0) * k + 1) * w == w) by (nonlinear_arith);
        assert(((0 * n + 1) * k + 0) * w == k * w) by (nonlinear_arith);
        assert(((1 * n + 0) * k + 0) * w == n * (k * w)) by (nonlinear_arith);
        assert(s[3] == 1 && s[2] == w && s[1] == k * w && s[0] == n * (k * w));
        assert(k * w > 0) by (nonlinear_arith)
            requires
                k > 0,
                w > 0,
        ;
        vstd::arithmetic::div_mod::lemma_div_multiples_vanish(k, w);
        vstd::arithmetic::div_mod::lemma_mod_multiples_basic(k, w);
        assert(w * k == k * w) by (nonlinear_arith);
    }
}

} // verus!
