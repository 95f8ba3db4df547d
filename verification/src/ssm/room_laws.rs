//! The workspace of the chunked state-space dual has room for what is kept in it.

use vstd::prelude::*;

use crate::ssm::mamba2_ssd_chunked::{ssd_workspace, SsdBuf, SsdDims};

verus! {

/// The tensor is one of the workspace: neither given nor asked for.
pub open spec fn is_kept(buf: SsdBuf) -> bool {
    match buf {
        SsdBuf::X | SsdBuf::Dt | SsdBuf::A | SsdBuf::B | SsdBuf::C | SsdBuf::DSkip | SsdBuf::Y => false,
        _ => true,
    }
}

/// The tensor is among those that are allocated.
pub open spec fn is_allocated(ws: Seq<(SsdBuf, usize)>, buf: SsdBuf) -> bool {
    exists|i: int| 0 <= i < ws.len() && (#[trigger] ws[i]).0 == buf
}

/// What is kept of a tensor: a row for every position of every head, or for those of one chunk, or a
/// state of every head.
pub open spec fn kept(d: SsdDims, buf: SsdBuf) -> int {
    let (heads, all) = (d.b * d.h, d.b * d.h * d.l);
    match buf {
        SsdBuf::AlphaCum => all,
        SsdBuf::CQn | SsdBuf::BQn | SsdBuf::BNq => all * d.n,
        SsdBuf::DtXQp | SsdBuf::DtXPq | SsdBuf::YIntra => all * d.p,
        SsdBuf::AIntra | SsdBuf::ADecayed => all * d.q,
        SsdBuf::CScaled => heads * d.q * d.n,
        SsdBuf::DtXScaledPq | SsdBuf::YOffChunk => heads * d.q * d.p,
        SsdBuf::StatePn | SsdBuf::StatePnBf16 | SsdBuf::StateUpdChunk => heads * d.p * d.n,
        _ => 0,
    }
}

proof fn lemma_rows(bh: int, t: int, q: int, l: int, w: int)
    requires
        t * q == l,
    ensures
        t * (bh * (q * w)) == bh * l * w,
        t * (bh * (w * q)) == bh * l * w,
        (bh * t) * q == bh * l,
        bh * (q * w) == bh * q * w,
        bh * (w * q) == bh * q * w,
{
    assert(t * (bh * (q * w)) == bh * (t * q) * w) by (nonlinear_arith);
    assert(t * (bh * (w * q)) == bh * (t * q) * w) by (nonlinear_arith);
    assert((bh * t) * q == bh * (t * q)) by (nonlinear_arith);
    assert(bh * (q * w) == bh * q * w) by (nonlinear_arith);
    assert(bh * (w * q) == bh * q * w) by (nonlinear_arith);
}

proof fn lemma_room(d: SsdDims, buf: SsdBuf)
    requires
        d.in_range(),
        d.l % d.q == 0,
        is_kept(buf),
    ensures
        d.elems(buf) == kept(d, buf),
        0 <= kept(d, buf) <= usize::MAX,
{
    let (bh, t, q, l) = (d.bh(), d.t(), d.q as int, d.l as int);
    vstd::arithmetic::div_mod::lemma_fundamental_div_mod(l, q);
    assert(t * q == l) by (nonlinear_arith)
        requires
            l == q * (l / q) + l % q,
            l % q == 0,
            t == l / q,
    ;
    lemma_rows(bh, t, q, l, d.n as int);
    lemma_rows(bh, t, q, l, d.p as int);
    lemma_rows(bh, t, q, l, q);
    assert(bh * (d.p * d.n) == bh * d.p * d.n) by (nonlinear_arith);
    assert(0 <= bh) by (nonlinear_arith)
        requires
            bh == d.b * d.h,
    ;
    assert(0 <= bh * l && 0 <= bh * q && 0 <= bh * d.p) by (nonlinear_arith)
        requires
            0 <= bh,
            0 <= l,
            0 <= q,
    ;
    let (x, y, z) = (bh * l, bh * q, bh * d.p);
    assert(0 <= x * d.n && 0 <= x * d.p && 0 <= x * d.q && 0 <= y * d.n && 0 <= y * d.p && 0 <= z * d.n)
        by (nonlinear_arith)
        requires
            0 <= x,
            0 <= y,
            0 <= z,
    ;
}

/// Every tensor that is kept is allocated once, and nothing else is, each with just the room for what
/// is kept of it.
pub proof fn workspace_has_the_room(d: SsdDims)
    requires
        d.in_range(),
        d.l % d.q == 0,
    ensures
        forall|buf: SsdBuf| is_kept(buf) <==> #[trigger] is_allocated(ssd_workspace(d), buf),
        forall|i: int, j: int|
            0 <= i < j < ssd_workspace(d).len() ==> (#[trigger] ssd_workspace(d)[i]).0 != (
            #[trigger] ssd_workspace(d)[j]).0,
        forall|i: int|
            0 <= i < ssd_workspace(d).len() ==> (#[trigger] ssd_workspace(d)[i]).1 == kept(
                d,
                ssd_workspace(d)[i].0,
            ),
{
    let ws = ssd_workspace(d);
    assert forall|i: int| 0 <= i < ws.len() implies (#[trigger] ws[i]).1 == kept(d, ws[i].0) by {
        lemma_room(d, ws[i].0);
    }
    assert forall|buf: SsdBuf| is_kept(buf) <==> #[trigger] is_allocated(ws, buf) by {
        let k: int = match buf {
            SsdBuf::AlphaCum => 0,
            SsdBuf::CQn => 1,
            SsdBuf::BQn => 2,
            SsdBuf::DtXQp => 3,
            SsdBuf::BNq => 4,
            SsdBuf::DtXPq => 5,
            SsdBuf::AIntra => 6,
            SsdBuf::ADecayed => 7,
            SsdBuf::YIntra => 8,
            SsdBuf::StatePn => 9,
            SsdBuf::StatePnBf16 => 10,
            SsdBuf::CScaled => 11,
            SsdBuf::DtXScaledPq => 12,
            SsdBuf::YOffChunk => 13,
            _ => 14,
        };
        assert(is_kept(buf) ==> ws[k].0 == buf);
    }
}

} // verus!
