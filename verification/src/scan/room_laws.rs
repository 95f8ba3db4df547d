//! The workspace of the chunked delta rule has room for what is kept in it.

use vstd::prelude::*;

use crate::scan::chunk_scan::{scan_workspace, ScanBuf, ScanDims};

verus! {

/// The tensor is one of the workspace: neither given nor asked for.
pub open spec fn is_kept(buf: ScanBuf) -> bool {
    match buf {
        ScanBuf::Q | ScanBuf::K | ScanBuf::V | ScanBuf::G | ScanBuf::Beta | ScanBuf::State | ScanBuf::Out => false,
        _ => true,
    }
}

/// The tensor is among those that are allocated.
pub open spec fn is_allocated(ws: Seq<(ScanBuf, usize)>, buf: ScanBuf) -> bool {
    exists|i: int| 0 <= i < ws.len() && (#[trigger] ws[i]).0 == buf
}

/// The elements of a row of a tensor.
pub open spec fn width(d: ScanDims, buf: ScanBuf) -> int {
    match buf {
        ScanBuf::GCumsum => 1,
        ScanBuf::Attn | ScanBuf::DecayMask | ScanBuf::AttnIntra => d.cs as int,
        ScanBuf::VBeta | ScanBuf::ValueProc | ScanBuf::VPrime => d.hv as int,
        _ => d.hk as int,
    }
}

/// The rows of a head that are kept of a tensor: one for every position, or for those of one chunk.
pub open spec fn depth(d: ScanDims, buf: ScanBuf) -> int {
    match buf {
        ScanBuf::VPrime | ScanBuf::AttnIntra | ScanBuf::KDecayed => d.cs as int,
        _ => d.t as int,
    }
}

proof fn lemma_room(d: ScanDims, buf: ScanBuf)
    requires
        d.in_range(),
        is_kept(buf),
    ensures
        d.elems(buf) == d.bh * depth(d, buf) * width(d, buf),
        0 <= d.elems(buf) <= usize::MAX,
{
    let (bh, r, w) = (d.bh as int, depth(d, buf), width(d, buf));
    assert(bh * (r * w) == bh * r * w) by (nonlinear_arith);
    assert(0 <= bh * r) by (nonlinear_arith)
        requires
            0 <= bh,
            0 <= r,
    ;
    assert(0 <= bh * r * w) by (nonlinear_arith)
        requires
            0 <= bh * r,
            0 <= w,
    ;
    assert(bh * r * 1 == bh * r);
}

/// Every tensor that is kept is allocated once, and nothing else is, each with just the room for its
/// rows.
pub proof fn workspace_has_the_room(d: ScanDims)
    requires
        d.in_range(),
    ensures
        forall|buf: ScanBuf| is_kept(buf) <==> #[trigger] is_allocated(scan_workspace(d), buf),
        forall|i: int, j: int|
            0 <= i < j < scan_workspace(d).len() ==> (#[trigger] scan_workspace(d)[i]).0 != (
            #[trigger] scan_workspace(d)[j]).0,
        forall|i: int|
            0 <= i < scan_workspace(d).len() ==> (#[trigger] scan_workspace(d)[i]).1 == d.bh * depth(
                d,
                scan_workspace(d)[i].0,
            ) * width(d, scan_workspace(d)[i].0),
{
    let ws = scan_workspace(d);
    assert forall|i: int| 0 <= i < ws.len() implies (#[trigger] ws[i]).1 == d.bh * depth(d, ws[i].0)
        * width(d, ws[i].0) by {
        lemma_room(d, ws[i].0);
    }
    assert forall|buf: ScanBuf| is_kept(buf) <==> #[trigger] is_allocated(ws, buf) by {
        let k: int = match buf {
            ScanBuf::QNorm => 0,
            ScanBuf::KNorm => 1,
            ScanBuf::VBeta => 2,
            ScanBuf::KBeta => 3,
            ScanBuf::GCumsum => 4,
            ScanBuf::Attn => 5,
            ScanBuf::DecayMask => 6,
            ScanBuf::ValueProc => 7,
            ScanBuf::KCumdecay => 8,
            ScanBuf::KCumdecayInput => 9,
            ScanBuf::QScaled => 10,
            ScanBuf::VPrime => 11,
            ScanBuf::AttnIntra => 12,
            _ => 13,
        };
        assert(is_kept(buf) ==> ws[k].0 == buf);
    }
}

} // verus!
