//! What the device operations of the chunked rule do, in exact arithmetic, and that together they
//! are the gated delta rule.

use vstd::prelude::*;

use crate::scan::chunk_scan::{
    attn_intra_call, chunk_steps, chunks_steps, k_cumdecay_call, lemma_scan_chunk_products,
    lemma_scan_products, out_intra_call, out_state_call, scan_prologue, state_update_call,
    v_prime_call, value_proc_call, BmmCall, ScanBuf, ScanDims, ScanStep,
};
use crate::scan::delta_rule::{
    corrected, corrections_within_chunk, inverse_gives_the_unknown, overlap, read_out,
    rule_is_a_recurrence, rule_output_is_a_recurrence, stepped, written, Head,
};
use crate::ssm::recurrence::{
    arrived, decayed, decays, is_exponential, output_within_chunk, score, state_after, state_within_chunk,
};
use crate::sums::{at2, at3, at4, lemma_at2, lemma_sum_eq, lemma_sum_prefix, sum};

verus! {

/// What the tensors hold, element by element.
pub type ScanMem = Map<ScanBuf, spec_fn(int) -> int>;

/// How a row of a given length is normalised, a query's or a key's.
pub type Unit = spec_fn(bool, spec_fn(int) -> int, int) -> spec_fn(int) -> int;

/// Nothing but `buf` is written.
pub open spec fn only(m: ScanMem, n: ScanMem, buf: ScanBuf) -> bool {
    forall|o: ScanBuf| o != buf ==> #[trigger] n[o] == m[o]
}

/// The elements from `at` on.
pub open spec fn row_of(f: spec_fn(int) -> int, at: int) -> spec_fn(int) -> int {
    |x: int| f(at + x)
}

/// Element `x` of row `r` of a matrix with rows of `dim` elements, normalised.
pub open spec fn normalised(
    unit: Unit,
    f: spec_fn(int) -> int,
    query: bool,
    r: int,
    dim: int,
    x: int,
) -> int {
    unit(query, row_of(f, at2(r, 0, dim)), dim)(x)
}

/// Rows brought to their length.
pub open spec fn normalises(
    unit: Unit,
    m: ScanMem,
    n: ScanMem,
    input: ScanBuf,
    out: ScanBuf,
    rows: int,
    dim: int,
    query: bool,
) -> bool {
    &&& only(m, n, out)
    &&& forall|r: int, x: int|
        #![trigger at2(r, x, dim)]
        0 <= r < rows && 0 <= x < dim ==> n[out](at2(r, x, dim)) == normalised(
            unit,
            m[input],
            query,
            r,
            dim,
            x,
        )
}

/// Every row times its scalar.
pub open spec fn gates_rows(
    m: ScanMem,
    n: ScanMem,
    input: ScanBuf,
    scal: ScanBuf,
    out: ScanBuf,
    rows: int,
    dim: int,
) -> bool {
    &&& only(m, n, out)
    &&& forall|r: int, x: int|
        #![trigger at2(r, x, dim)]
        0 <= r < rows && 0 <= x < dim ==> n[out](at2(r, x, dim)) == m[input](at2(r, x, dim))
            * m[scal](r)
}

/// The sum of `j` elements from `at` on.
pub open spec fn running(f: spec_fn(int) -> int, at: int, j: int) -> int {
    sum(j, |k: int| f(at + k))
}

/// Running sums along rows of `len` elements.
pub open spec fn sums_rows(
    m: ScanMem,
    n: ScanMem,
    input: ScanBuf,
    out: ScanBuf,
    rows: int,
    len: int,
) -> bool {
    &&& only(m, n, out)
    &&& forall|r: int, j: int|
        #![trigger at2(r, j, len)]
        0 <= r < rows && 0 <= j < len ==> n[out](at2(r, j, len)) == running(
            m[input],
            at2(r, 0, len),
            j + 1,
        )
}

/// The product of `k` elements of `f` from `i` on, every `di`-th, with as many of `g` from `j` on,
/// every `dj`-th.
pub open spec fn product(
    k: int,
    f: spec_fn(int) -> int,
    i: int,
    di: int,
    g: spec_fn(int) -> int,
    j: int,
    dj: int,
) -> int {
    sum(k, |x: int| f(i + x * di) * g(j + x * dj))
}

/// The exponential of the decay between positions `k` and `j` of chunk `z`.
pub open spec fn between(e: spec_fn(int) -> int, m: ScanMem, z: int, j: int, k: int, cs: int) -> int {
    e(m[ScanBuf::GCumsum](at2(z, j, cs)) - m[ScanBuf::GCumsum](at2(z, k, cs)))
}

/// Gated key `j` against key `k` of chunk `z`, decayed, where `k` comes before `j`.
pub open spec fn below(e: spec_fn(int) -> int, m: ScanMem, z: int, j: int, k: int, cs: int, hk: int) -> int {
    if k < j {
        product(
            hk,
            m[ScanBuf::KBeta],
            at3(z, j, 0, cs, hk),
            1,
            m[ScanBuf::KNorm],
            at3(z, k, 0, cs, hk),
            1,
        ) * between(e, m, z, j, k, cs)
    } else {
        0
    }
}

/// Row `i` of the attention of chunk `z` against column `k` of the triangle.
pub open spec fn against(
    e: spec_fn(int) -> int,
    m: ScanMem,
    n: ScanMem,
    z: int,
    i: int,
    k: int,
    cs: int,
    hk: int,
) -> int {
    sum(cs, |j: int| n[ScanBuf::Attn](at3(z, i, j, cs, cs)) * below(e, m, z, j, k, cs, hk))
}

/// The attention within each of `bnc` chunks, which is the inverse of the triangle with ones on its
/// diagonal, and the mask of decays.
pub open spec fn inverts(
    e: spec_fn(int) -> int,
    m: ScanMem,
    n: ScanMem,
    bnc: int,
    cs: int,
    hk: int,
) -> bool {
    &&& forall|o: ScanBuf| o != ScanBuf::Attn && o != ScanBuf::DecayMask ==> #[trigger] n[o] == m[o]
    &&& forall|z: int, i: int, k: int|
        #![trigger at3(z, i, k, cs, cs)]
        0 <= z < bnc && 0 <= i < cs && 0 <= k < cs ==> n[ScanBuf::Attn](at3(z, i, k, cs, cs)) + against(
            e,
            m,
            n,
            z,
            i,
            k,
            cs,
            hk,
        ) == (if i == k {
            1int
        } else {
            0int
        })
    &&& forall|z: int, i: int, k: int|
        #![trigger at3(z, i, k, cs, cs)]
        0 <= z < bnc && 0 <= i < cs && 0 <= k < cs ==> n[ScanBuf::DecayMask](at3(z, i, k, cs, cs)) == (
        if k <= i {
            between(e, m, z, i, k, cs)
        } else {
            0
        })
}

/// Every row times the exponential of its running decay.
pub open spec fn scales_rows(
    e: spec_fn(int) -> int,
    m: ScanMem,
    n: ScanMem,
    input: ScanBuf,
    out: ScanBuf,
    rows: int,
    dim: int,
) -> bool {
    &&& only(m, n, out)
    &&& forall|r: int, x: int|
        #![trigger at2(r, x, dim)]
        0 <= r < rows && 0 <= x < dim ==> n[out](at2(r, x, dim)) == m[input](at2(r, x, dim)) * e(
            m[ScanBuf::GCumsum](r),
        )
}

/// Where a product puts row `i`, column `j` of matrix `z`.
pub open spec fn spot(c: BmmCall, z: int, i: int, j: int) -> int {
    c.off_c + z * c.stride_c + at2(i, j, c.n as int)
}

/// Place `p` is that of row `i`, column `j` of matrix `z`.
pub open spec fn names(c: BmmCall, p: int, z: int, i: int, j: int) -> bool {
    0 <= z < c.batch && 0 <= i < c.m && 0 <= j < c.n && p == spot(c, z, i, j)
}

/// What a product comes to in row `i`, column `j` of matrix `z`.
pub open spec fn entry(m: ScanMem, c: BmmCall, z: int, i: int, j: int) -> int {
    (if c.accumulate {
        m[c.c](spot(c, z, i, j))
    } else {
        0
    }) + product(
        c.k as int,
        m[c.a],
        c.off_a + z * c.stride_a + (if c.trans_a {
            i
        } else {
            i * c.k
        }),
        if c.trans_a {
            c.m as int
        } else {
            1
        },
        m[c.b],
        c.off_b + z * c.stride_b + (if c.trans_b {
            j * c.k
        } else {
            j
        }),
        if c.trans_b {
            1
        } else {
            c.n as int
        },
    )
}

/// Place `p` got the entry of row `i`, column `j` of matrix `z`.
pub open spec fn wrote(m: ScanMem, n: ScanMem, c: BmmCall, p: int, z: int, i: int, j: int) -> bool {
    names(c, p, z, i, j) && n[c.c](p) == entry(m, c, z, i, j)
}

/// Place `p` got an entry that belongs there, or keeps what it held where none does.
pub open spec fn settled(m: ScanMem, n: ScanMem, c: BmmCall, p: int) -> bool {
    if exists|z: int, i: int, j: int| #[trigger] names(c, p, z, i, j) {
        exists|z: int, i: int, j: int| #[trigger] wrote(m, n, c, p, z, i, j)
    } else {
        n[c.c](p) == m[c.c](p)
    }
}

/// A batched product.
pub open spec fn multiplies(m: ScanMem, n: ScanMem, c: BmmCall) -> bool {
    &&& only(m, n, c.c)
    &&& forall|p: int| #[trigger] settled(m, n, c, p)
}

/// The prediction is taken from the values of chunk `ci`.
pub open spec fn takes_prediction(
    m: ScanMem,
    n: ScanMem,
    bh: int,
    nc: int,
    cs: int,
    hv: int,
    ci: int,
) -> bool {
    &&& only(m, n, ScanBuf::ValueProc)
    &&& forall|b: int, c: int, j: int, y: int|
        #![trigger at4(b, c, j, y, nc, cs, hv)]
        0 <= b < bh && 0 <= c < nc && 0 <= j < cs && 0 <= y < hv ==> n[ScanBuf::ValueProc](
            at4(b, c, j, y, nc, cs, hv),
        ) == m[ScanBuf::ValueProc](at4(b, c, j, y, nc, cs, hv)) - (if c == ci {
            m[ScanBuf::VPrime](at3(b, j, y, cs, hv))
        } else {
            0
        })
}

/// The scores of chunk `ci` times its mask.
pub open spec fn masks_scores(m: ScanMem, n: ScanMem, bh: int, nc: int, cs: int, ci: int) -> bool {
    &&& only(m, n, ScanBuf::AttnIntra)
    &&& forall|b: int, i: int, j: int|
        #![trigger at3(b, i, j, cs, cs)]
        0 <= b < bh && 0 <= i < cs && 0 <= j < cs ==> n[ScanBuf::AttnIntra](at3(b, i, j, cs, cs))
            == m[ScanBuf::AttnIntra](at3(b, i, j, cs, cs)) * m[ScanBuf::DecayMask](
            at4(b, ci, i, j, nc, cs, cs),
        )
}

/// The states decay over chunk `ci`.
pub open spec fn decays_states(
    e: spec_fn(int) -> int,
    m: ScanMem,
    n: ScanMem,
    bh: int,
    nc: int,
    cs: int,
    hk: int,
    hv: int,
    ci: int,
) -> bool {
    &&& only(m, n, ScanBuf::State)
    &&& forall|b: int, x: int, y: int|
        #![trigger at3(b, x, y, hk, hv)]
        0 <= b < bh && 0 <= x < hk && 0 <= y < hv ==> n[ScanBuf::State](at3(b, x, y, hk, hv))
            == m[ScanBuf::State](at3(b, x, y, hk, hv)) * e(
            m[ScanBuf::GCumsum](at3(b, ci, cs - 1, nc, cs)),
        )
}

/// The keys of chunk `ci` with the decay from their position to the chunk's end.
pub open spec fn decays_keys(
    e: spec_fn(int) -> int,
    m: ScanMem,
    n: ScanMem,
    bh: int,
    nc: int,
    cs: int,
    hk: int,
    ci: int,
) -> bool {
    &&& only(m, n, ScanBuf::KDecayed)
    &&& forall|b: int, j: int, x: int|
        #![trigger at3(b, j, x, cs, hk)]
        0 <= b < bh && 0 <= j < cs && 0 <= x < hk ==> n[ScanBuf::KDecayed](at3(b, j, x, cs, hk))
            == m[ScanBuf::KNorm](at4(b, ci, j, x, nc, cs, hk)) * between(
            e,
            m,
            at2(b, ci, nc),
            cs - 1,
            j,
            cs,
        )
}

/// The step brings the tensors from `m` to `n`; `e` is the exponential.
pub open spec fn does(e: spec_fn(int) -> int, unit: Unit, s: ScanStep, m: ScanMem, n: ScanMem) -> bool {
    match s {
        ScanStep::L2Norm { input, out, rows, dim, query } => normalises(
            unit,
            m,
            n,
            input,
            out,
            rows as int,
            dim as int,
            query,
        ),
        ScanStep::MulRowwise { input, scal, out, rows, dim } => gates_rows(
            m,
            n,
            input,
            scal,
            out,
            rows as int,
            dim as int,
        ),
        ScanStep::Cumsum { input, out, rows, n: len } => sums_rows(
            m,
            n,
            input,
            out,
            rows as int,
            len as int,
        ),
        ScanStep::ChunkAttn { bh, nc, cs, hk } => inverts(
            e,
            m,
            n,
            bh * nc,
            cs as int,
            hk as int,
        ),
        ScanStep::ScaleByExp { input, out, rows, dim, .. } => scales_rows(
            e,
            m,
            n,
            input,
            out,
            rows as int,
            dim as int,
        ),
        ScanStep::Bmm(c) => multiplies(m, n, c),
        ScanStep::SubChunk { bh, nc, cs, hv, ci } => takes_prediction(
            m,
            n,
            bh as int,
            nc as int,
            cs as int,
            hv as int,
            ci as int,
        ),
        ScanStep::MulDecayMask { bh, nc, cs, ci } => masks_scores(
            m,
            n,
            bh as int,
            nc as int,
            cs as int,
            ci as int,
        ),
        ScanStep::StateDecay { bh, nc, cs, hk, hv, ci } => decays_states(
            e,
            m,
            n,
            bh as int,
            nc as int,
            cs as int,
            hk as int,
            hv as int,
            ci as int,
        ),
        ScanStep::ScaleKDecayed { bh, nc, cs, hk, ci } => decays_keys(
            e,
            m,
            n,
            bh as int,
            nc as int,
            cs as int,
            hk as int,
            ci as int,
        ),
    }
}

/// Step `i` led from one state of the tensors in `trace` to the next.
pub open spec fn went(
    e: spec_fn(int) -> int,
    unit: Unit,
    steps: Seq<ScanStep>,
    trace: Seq<ScanMem>,
    i: int,
) -> bool {
    does(e, unit, steps[i], trace[i], trace[i + 1])
}

/// The tensors went through `trace`, one step after the other.
pub open spec fn ran(
    e: spec_fn(int) -> int,
    unit: Unit,
    steps: Seq<ScanStep>,
    trace: Seq<ScanMem>,
) -> bool {
    &&& trace.len() == steps.len() + 1
    &&& forall|i: int| 0 <= i < steps.len() ==> #[trigger] went(e, unit, steps, trace, i)
}

/// Column `y` of the values of head `b`, as the operands hold it.
pub open spec fn head(d: ScanDims, unit: Unit, m: ScanMem, b: int, y: int) -> Head {
    let t = d.t as int;
    let hk = d.hk as int;
    let hv = d.hv as int;
    Head {
        decay: |l: int|
            if 0 <= l < t {
                m[ScanBuf::G](at2(b, l, t))
            } else {
                0
            },
        gate: |l: int| m[ScanBuf::Beta](at2(b, l, t)),
        query: |l: int, x: int| normalised(unit, m[ScanBuf::Q], true, at2(b, l, t), hk, x),
        key: |l: int, x: int| normalised(unit, m[ScanBuf::K], false, at2(b, l, t), hk, x),
        value: |l: int| m[ScanBuf::V](at3(b, l, y, t, hv)),
        start: |x: int| m[ScanBuf::State](at3(b, x, y, hk, hv)),
    }
}

/// The coordinates are those of a column.
pub open spec fn is_column(d: ScanDims, b: int, y: int) -> bool {
    0 <= b < d.bh && 0 <= y < d.hv
}

/// No decay grows.
pub open spec fn all_decay(d: ScanDims, m: ScanMem) -> bool {
    forall|i: int| 0 <= i < d.bh * d.t ==> #[trigger] m[ScanBuf::G](i) <= 0
}

/// Whatever the tensors hold at first, the steps leave in `Out` at every position what reading the
/// state with the query gives after as many steps of the rule.
pub open spec fn outputs_of_the_rule(steps: Seq<ScanStep>, d: ScanDims) -> bool {
    forall|e: spec_fn(int) -> int, unit: Unit, trace: Seq<ScanMem>, b: int, y: int, l: int|
        #![trigger ran(e, unit, steps, trace), is_column(d, b, y), at3(b, l, y, d.t as int, d.hv as int)]
        is_exponential(e) && ran(e, unit, steps, trace) && all_decay(d, trace[0]) && is_column(d, b, y)
            && 0 <= l < d.t ==> trace.last()[ScanBuf::Out](at3(b, l, y, d.t as int, d.hv as int))
            == read_out(e, head(d, unit, trace[0], b, y), d.hk as int, l)
}

/// Whatever the tensors hold at first, the steps leave in `State` the state after as many steps of
/// the rule as there are positions.
pub open spec fn states_of_the_rule(steps: Seq<ScanStep>, d: ScanDims) -> bool {
    forall|e: spec_fn(int) -> int, unit: Unit, trace: Seq<ScanMem>, b: int, y: int, x: int|
        #![trigger ran(e, unit, steps, trace), is_column(d, b, y), at3(b, x, y, d.hk as int, d.hv as int)]
        is_exponential(e) && ran(e, unit, steps, trace) && all_decay(d, trace[0]) && is_column(d, b, y)
            && 0 <= x < d.hk ==> trace.last()[ScanBuf::State](
            at3(b, x, y, d.hk as int, d.hv as int),
        ) == stepped(e, head(d, unit, trace[0], b, y), d.hk as int, d.t as int)(x)
}

proof fn lemma_quotient(a: int, r: int, b: int, s: int, w: int)
    requires
        0 <= r < w,
        0 <= s < w,
        a * w + r == b * w + s,
    ensures
        a == b,
        r == s,
{
    assert(a == b) by (nonlinear_arith)
        requires
            0 <= r < w,
            0 <= s < w,
            a * w + r == b * w + s,
    ;
}

/// A product whose matrices do not run into each other writes every entry to its place.
proof fn lemma_entry(m: ScanMem, n: ScanMem, c: BmmCall, z: int, i: int, j: int)
    requires
        multiplies(m, n, c),
        0 <= z < c.batch,
        0 <= i < c.m,
        0 <= j < c.n,
        c.m * c.n <= c.stride_c,
    ensures
        n[c.c](spot(c, z, i, j)) == entry(m, c, z, i, j),
{
    let p = spot(c, z, i, j);
    assert(settled(m, n, c, p));
    assert(names(c, p, z, i, j));
    let (z2, i2, j2) = choose|z2: int, i2: int, j2: int| #[trigger] wrote(m, n, c, p, z2, i2, j2);
    assert(wrote(m, n, c, p, z2, i2, j2));
    lemma_at2(i, j, c.m as int, c.n as int);
    lemma_at2(i2, j2, c.m as int, c.n as int);
    lemma_quotient(
        z,
        at2(i, j, c.n as int),
        z2,
        at2(i2, j2, c.n as int),
        c.stride_c as int,
    );
    lemma_quotient(i, j, i2, j2, c.n as int);
}

/// The sum that a product stands for.
proof fn lemma_product(
    k: int,
    f: spec_fn(int) -> int,
    i: int,
    di: int,
    g: spec_fn(int) -> int,
    j: int,
    dj: int,
    want: spec_fn(int) -> int,
)
    requires
        forall|x: int| 0 <= x < k ==> f(i + x * di) * g(j + x * dj) == #[trigger] want(x),
    ensures
        product(k, f, i, di, g, j, dj) == sum(k, want),
{
    let have = |x: int| f(i + x * di) * g(j + x * dj);
    assert forall|x: int| 0 <= x < k implies #[trigger] have(x) == want(x) by {
        assert(f(i + x * di) * g(j + x * dj) == want(x));
    }
    lemma_sum_eq(k, have, want);
}

/// Where position `j` of chunk `c` of head `b` lies.
proof fn lemma_position(d: ScanDims, b: int, c: int, j: int)
    requires
        d.in_range(),
        d.t % d.cs == 0,
        0 <= b < d.bh,
        0 <= c < d.nc(),
        0 <= j < d.cs,
    ensures
        0 <= at2(b, c, d.nc()) < d.bh * d.nc(),
        0 <= at3(b, c, j, d.nc(), d.cs as int) < d.bh * d.t,
        at3(b, c, j, d.nc(), d.cs as int) == at2(b, c * d.cs + j, d.t as int),
        0 <= c * d.cs + j < d.t,
        at2(at2(b, c, d.nc()), 0, d.cs as int) == at2(b, c * d.cs, d.t as int),
        d.nc() * d.cs == d.t,
{
    lemma_scan_products(d);
    let (bh, nc, cs, t) = (d.bh as int, d.nc(), d.cs as int, d.t as int);
    lemma_at2(b, c, bh, nc);
    lemma_at2(at2(b, c, nc), j, bh * nc, cs);
    lemma_at2(c, j, nc, cs);
    assert((b * nc + c) * cs == b * t + c * cs) by (nonlinear_arith)
        requires
            nc * cs == t,
    ;
}

/// The casts in the products lose nothing.
proof fn lemma_casts(d: ScanDims)
    requires
        d.in_range(),
        d.t % d.cs == 0,
    ensures
        (d.bh * d.t) as u32 == d.bh * d.t,
        (d.bh * d.nc()) as u32 == d.bh * d.nc(),
        d.nc() as u32 == d.nc(),
        (d.cs * d.cs) as i64 == d.cs * d.cs,
        (d.cs * d.hv) as i64 == d.cs * d.hv,
        (d.cs * d.hk) as i64 == d.cs * d.hk,
        (d.t * d.hk) as i64 == d.t * d.hk,
        (d.t * d.hv) as i64 == d.t * d.hv,
        d.t > 0 ==> (d.hk * d.hv) as i64 == d.hk * d.hv,
{
    lemma_scan_products(d);
}

/// The rows that everything else is made from, for column `y` of head `b`.
spec fn has_rows(
    e: spec_fn(int) -> int,
    h: Head,
    m: ScanMem,
    b: int,
    nc: int,
    cs: int,
    hk: int,
) -> bool {
    &&& forall|c: int, j: int, x: int|
        #![trigger at4(b, c, j, x, nc, cs, hk)]
        0 <= c < nc && 0 <= j < cs && 0 <= x < hk ==> {
            &&& m[ScanBuf::QNorm](at4(b, c, j, x, nc, cs, hk)) == (h.query)(c * cs + j, x)
            &&& m[ScanBuf::KNorm](at4(b, c, j, x, nc, cs, hk)) == (h.key)(c * cs + j, x)
            &&& m[ScanBuf::QScaled](at4(b, c, j, x, nc, cs, hk)) == (h.query)(c * cs + j, x) * e(
                decayed(corrected(e, h, hk), c * cs, j + 1),
            )
        }
    &&& forall|c: int, j: int|
        #![trigger at3(b, c, j, nc, cs)]
        0 <= c < nc && 0 <= j < cs ==> m[ScanBuf::GCumsum](at3(b, c, j, nc, cs)) == decayed(
            corrected(e, h, hk),
            c * cs,
            j + 1,
        )
    &&& forall|c: int, i: int, k: int|
        #![trigger at4(b, c, i, k, nc, cs, cs)]
        0 <= c < nc && 0 <= i < cs && 0 <= k < cs ==> m[ScanBuf::DecayMask](
            at4(b, c, i, k, nc, cs, cs),
        ) == (if k <= i {
            e(
                decayed(corrected(e, h, hk), c * cs, i + 1) - decayed(
                    corrected(e, h, hk),
                    c * cs,
                    k + 1,
                ),
            )
        } else {
            0
        })
}

/// What the tensors hold of the gated rows.
spec fn has_gated(
    e: spec_fn(int) -> int,
    h: Head,
    m: ScanMem,
    b: int,
    y: int,
    nc: int,
    cs: int,
    hk: int,
    hv: int,
) -> bool {
    &&& forall|c: int, j: int|
        #![trigger at4(b, c, j, y, nc, cs, hv)]
        0 <= c < nc && 0 <= j < cs ==> m[ScanBuf::VBeta](at4(b, c, j, y, nc, cs, hv)) == (h.value)(
            c * cs + j,
        ) * (h.gate)(c * cs + j)
    &&& forall|c: int, j: int, x: int|
        #![trigger at4(b, c, j, x, nc, cs, hk)]
        0 <= c < nc && 0 <= j < cs && 0 <= x < hk ==> {
            &&& m[ScanBuf::KBeta](at4(b, c, j, x, nc, cs, hk)) == (h.key)(c * cs + j, x) * (h.gate)(
                c * cs + j,
            )
            &&& m[ScanBuf::KCumdecayInput](at4(b, c, j, x, nc, cs, hk)) == ((h.key)(c * cs + j, x) * (
            h.gate)(c * cs + j)) * e(decayed(corrected(e, h, hk), c * cs, j + 1))
        }
}

#[verifier::rlimit(60)]
proof fn lemma_rows(
    d: ScanDims,
    e: spec_fn(int) -> int,
    unit: Unit,
    trace: Seq<ScanMem>,
    b: int,
    y: int,
)
    requires
        d.in_range(),
        d.t % d.cs == 0,
        ran(e, unit, scan_prologue(d), trace),
        is_column(d, b, y),
    ensures
        has_rows(
            e,
            head(d, unit, trace[0], b, y),
            trace[10],
            b,
            d.nc(),
            d.cs as int,
            d.hk as int,
        ),
        has_gated(
            e,
            head(d, unit, trace[0], b, y),
            trace[10],
            b,
            y,
            d.nc(),
            d.cs as int,
            d.hk as int,
            d.hv as int,
        ),
        inverts(e, trace[10], trace[10], d.bh * d.nc(), d.cs as int, d.hk as int),
        multiplies(trace[8], trace[9], value_proc_call(d)),
        multiplies(trace[9], trace[10], k_cumdecay_call(d)),
        trace[10][ScanBuf::State] == trace[0][ScanBuf::State],
{
    let steps = scan_prologue(d);
    let h = head(d, unit, trace[0], b, y);
    let ch = corrected(e, h, d.hk as int);
    let (nc, cs, hk, hv, t) = (d.nc(), d.cs as int, d.hk as int, d.hv as int, d.t as int);
    let rows = d.bh * d.t;
    let bnc = d.bh * nc;
    lemma_casts(d);
    assert(went(e, unit, steps, trace, 0));
    assert(normalises(unit, trace[0], trace[1], ScanBuf::Q, ScanBuf::QNorm, rows, hk, true));
    assert(went(e, unit, steps, trace, 1));
    assert(normalises(unit, trace[1], trace[2], ScanBuf::K, ScanBuf::KNorm, rows, hk, false));
    assert(went(e, unit, steps, trace, 2));
    assert(gates_rows(
        trace[2],
        trace[3],
        ScanBuf::V,
        ScanBuf::Beta,
        ScanBuf::VBeta,
        rows,
        hv,
    ));
    assert(went(e, unit, steps, trace, 3));
    assert(gates_rows(
        trace[3],
        trace[4],
        ScanBuf::KNorm,
        ScanBuf::Beta,
        ScanBuf::KBeta,
        rows,
        hk,
    ));
    assert(went(e, unit, steps, trace, 4));
    assert(sums_rows(trace[4], trace[5], ScanBuf::G, ScanBuf::GCumsum, bnc, cs));
    assert(went(e, unit, steps, trace, 5));
    assert(inverts(e, trace[5], trace[6], bnc, cs, hk));
    assert(went(e, unit, steps, trace, 6));
    assert(scales_rows(
        e,
        trace[6],
        trace[7],
        ScanBuf::KBeta,
        ScanBuf::KCumdecayInput,
        rows,
        hk,
    ));
    assert(went(e, unit, steps, trace, 7));
    assert(scales_rows(e, trace[7], trace[8], ScanBuf::QNorm, ScanBuf::QScaled, rows, hk));
    assert(went(e, unit, steps, trace, 8));
    assert(multiplies(trace[8], trace[9], value_proc_call(d)));
    assert(went(e, unit, steps, trace, 9));
    assert(multiplies(trace[9], trace[10], k_cumdecay_call(d)));
    let m = trace[10];
    assert(m[ScanBuf::QNorm] == trace[1][ScanBuf::QNorm]);
    assert(m[ScanBuf::KNorm] == trace[2][ScanBuf::KNorm]);
    assert(m[ScanBuf::VBeta] == trace[3][ScanBuf::VBeta]);
    assert(m[ScanBuf::KBeta] == trace[4][ScanBuf::KBeta]);
    assert(m[ScanBuf::GCumsum] == trace[5][ScanBuf::GCumsum]);
    assert(m[ScanBuf::Attn] == trace[6][ScanBuf::Attn]);
    assert(m[ScanBuf::DecayMask] == trace[6][ScanBuf::DecayMask]);
    assert(m[ScanBuf::KCumdecayInput] == trace[7][ScanBuf::KCumdecayInput]);
    assert(m[ScanBuf::QScaled] == trace[8][ScanBuf::QScaled]);
    assert(trace[2][ScanBuf::V] == trace[0][ScanBuf::V]);
    assert(trace[3][ScanBuf::Beta] == trace[0][ScanBuf::Beta]);
    assert(trace[4][ScanBuf::G] == trace[0][ScanBuf::G]);
    assert forall|c: int, j: int|
        #![trigger at3(b, c, j, nc, cs)]
        0 <= c < nc && 0 <= j < cs implies m[ScanBuf::GCumsum](at3(b, c, j, nc, cs)) == decayed(
        ch,
        c * cs,
        j + 1,
    ) by {
        lemma_position(d, b, c, j);
        let z = at2(b, c, nc);
        let f = |k: int| trace[0][ScanBuf::G](at2(z, 0, cs) + k);
        let g = |k: int| (ch.decay)(c * cs + k);
        assert forall|k: int| 0 <= k < j + 1 implies #[trigger] f(k) == g(k) by {
            lemma_position(d, b, c, k);
        }
        lemma_sum_eq(j + 1, f, g);
    }
    assert forall|c: int, j: int, x: int|
        #![trigger at4(b, c, j, x, nc, cs, hk)]
        0 <= c < nc && 0 <= j < cs && 0 <= x < hk implies {
        &&& m[ScanBuf::QNorm](at4(b, c, j, x, nc, cs, hk)) == (h.query)(c * cs + j, x)
        &&& m[ScanBuf::KNorm](at4(b, c, j, x, nc, cs, hk)) == (h.key)(c * cs + j, x)
        &&& m[ScanBuf::QScaled](at4(b, c, j, x, nc, cs, hk)) == (h.query)(c * cs + j, x) * e(
            decayed(ch, c * cs, j + 1),
        )
        &&& m[ScanBuf::KBeta](at4(b, c, j, x, nc, cs, hk)) == (h.key)(c * cs + j, x) * (h.gate)(
            c * cs + j,
        )
        &&& m[ScanBuf::KCumdecayInput](at4(b, c, j, x, nc, cs, hk)) == ((h.key)(c * cs + j, x) * (
        h.gate)(c * cs + j)) * e(decayed(ch, c * cs, j + 1))
    } by {
        lemma_position(d, b, c, j);
        let r = at3(b, c, j, nc, cs);
        assert(m[ScanBuf::GCumsum](r) == decayed(ch, c * cs, j + 1));
        assert(at4(b, c, j, x, nc, cs, hk) == at2(r, x, hk));
        assert(trace[6][ScanBuf::KBeta] == m[ScanBuf::KBeta]);
        assert(trace[7][ScanBuf::QNorm] == m[ScanBuf::QNorm]);
        assert(trace[6][ScanBuf::GCumsum] == m[ScanBuf::GCumsum]);
        assert(trace[7][ScanBuf::GCumsum] == m[ScanBuf::GCumsum]);
        assert(trace[3][ScanBuf::KNorm] == m[ScanBuf::KNorm]);
    }
    assert forall|c: int, j: int|
        #![trigger at4(b, c, j, y, nc, cs, hv)]
        0 <= c < nc && 0 <= j < cs implies m[ScanBuf::VBeta](at4(b, c, j, y, nc, cs, hv)) == (h.value)(
        c * cs + j,
    ) * (h.gate)(c * cs + j) by {
        lemma_position(d, b, c, j);
        assert(at4(b, c, j, y, nc, cs, hv) == at2(at3(b, c, j, nc, cs), y, hv));
    }
    assert forall|c: int, i: int, k: int|
        #![trigger at4(b, c, i, k, nc, cs, cs)]
        0 <= c < nc && 0 <= i < cs && 0 <= k < cs implies m[ScanBuf::DecayMask](
        at4(b, c, i, k, nc, cs, cs),
    ) == (if k <= i {
        e(decayed(ch, c * cs, i + 1) - decayed(ch, c * cs, k + 1))
    } else {
        0
    }) by {
        lemma_position(d, b, c, i);
        assert(at4(b, c, i, k, nc, cs, cs) == at3(at2(b, c, nc), i, k, cs, cs));
        assert(m[ScanBuf::GCumsum](at3(b, c, i, nc, cs)) == decayed(ch, c * cs, i + 1));
        assert(m[ScanBuf::GCumsum](at3(b, c, k, nc, cs)) == decayed(ch, c * cs, k + 1));
    }
    assert forall|z: int, i: int, k: int|
        #![trigger at3(z, i, k, cs, cs)]
        0 <= z < bnc && 0 <= i < cs && 0 <= k < cs implies m[ScanBuf::Attn](at3(z, i, k, cs, cs)) + against(
        e,
        m,
        m,
        z,
        i,
        k,
        cs,
        hk,
    ) == (if i == k {
        1int
    } else {
        0int
    }) by {
        let f = |j: int|
            trace[6][ScanBuf::Attn](at3(z, i, j, cs, cs)) * below(e, trace[5], z, j, k, cs, hk);
        let g = |j: int| m[ScanBuf::Attn](at3(z, i, j, cs, cs)) * below(e, m, z, j, k, cs, hk);
        assert(trace[5][ScanBuf::KBeta] == m[ScanBuf::KBeta]);
        assert(trace[5][ScanBuf::KNorm] == m[ScanBuf::KNorm]);
        assert forall|j: int| 0 <= j < cs implies #[trigger] f(j) == g(j) by {
        }
        lemma_sum_eq(cs, f, g);
    }
}

/// What the state before chunk `c` recalls at its position `j`, by the keys after the attention.
spec fn recalled(
    e: spec_fn(int) -> int,
    h: Head,
    m: ScanMem,
    b: int,
    c: int,
    j: int,
    nc: int,
    cs: int,
    hk: int,
) -> int {
    sum(
        hk,
        |x: int| m[ScanBuf::KCumdecay](at4(b, c, j, x, nc, cs, hk)) * stepped(e, h, hk, c * cs)(x),
    )
}

/// From chunk `from` on, the values after the attention are the corrections but for what the state
/// recalls.
spec fn solved(
    e: spec_fn(int) -> int,
    h: Head,
    m: ScanMem,
    b: int,
    y: int,
    nc: int,
    cs: int,
    hk: int,
    hv: int,
    from: int,
) -> bool {
    forall|c: int, j: int|
        #![trigger at4(b, c, j, y, nc, cs, hv)]
        from <= c < nc && 0 <= j < cs ==> m[ScanBuf::ValueProc](at4(b, c, j, y, nc, cs, hv))
            - recalled(e, h, m, b, c, j, nc, cs, hk) == written(e, h, hk, c * cs + j)
}

proof fn lemma_decays(d: ScanDims, e: spec_fn(int) -> int, unit: Unit, m: ScanMem, b: int, y: int)
    requires
        all_decay(d, m),
        is_column(d, b, y),
    ensures
        decays(corrected(e, head(d, unit, m, b, y), d.hk as int)),
{
    let h = head(d, unit, m, b, y);
    assert forall|l: int| #[trigger] (corrected(e, h, d.hk as int).decay)(l) <= 0 by {
        if 0 <= l < d.t {
            lemma_at2(b, l, d.bh as int, d.t as int);
            assert(m[ScanBuf::G](at2(b, l, d.t as int)) <= 0);
        }
    }
}

#[verifier::rlimit(60)]
proof fn lemma_solved(
    d: ScanDims,
    e: spec_fn(int) -> int,
    unit: Unit,
    trace: Seq<ScanMem>,
    b: int,
    y: int,
    c: int,
    j: int,
)
    requires
        d.in_range(),
        d.t % d.cs == 0,
        is_exponential(e),
        all_decay(d, trace[0]),
        ran(e, unit, scan_prologue(d), trace),
        is_column(d, b, y),
        0 <= c < d.nc(),
        0 <= j < d.cs,
    ensures
        trace[10][ScanBuf::ValueProc](at4(b, c, j, y, d.nc(), d.cs as int, d.hv as int)) - recalled(
            e,
            head(d, unit, trace[0], b, y),
            trace[10],
            b,
            c,
            j,
            d.nc(),
            d.cs as int,
            d.hk as int,
        ) == written(e, head(d, unit, trace[0], b, y), d.hk as int, c * d.cs + j),
{
    let h = head(d, unit, trace[0], b, y);
    let m = trace[10];
    let nc = d.nc();
    let cs = d.cs as int;
    let hk = d.hk as int;
    let hv = d.hv as int;
    let l0 = c * cs;
    let z = at2(b, c, nc);
    let ch = corrected(e, h, hk);
    lemma_rows(d, e, unit, trace, b, y);
    lemma_casts(d);
    lemma_position(d, b, c, j);
    lemma_decays(d, e, unit, trace[0], b, y);
    assert(trace[8][ScanBuf::Attn] == m[ScanBuf::Attn]);
    assert(trace[9][ScanBuf::Attn] == m[ScanBuf::Attn]);
    assert(trace[8][ScanBuf::VBeta] == m[ScanBuf::VBeta]);
    assert(trace[9][ScanBuf::KCumdecayInput] == m[ScanBuf::KCumdecayInput]);
    assert(trace[9][ScanBuf::ValueProc] == m[ScanBuf::ValueProc]);
    let row = |i: int| m[ScanBuf::Attn](at3(z, j, i, cs, cs));
    let low = |i: int, k: int| overlap(e, h, hk, l0, i, k);
    let given = |i: int| (h.value)(l0 + i) * (h.gate)(l0 + i);
    let reader = |i: int, x: int|
        ((h.key)(l0 + i, x) * (h.gate)(l0 + i)) * e(decayed(ch, l0, i + 1));
    let s = stepped(e, h, hk, l0);
    let u = |i: int| written(e, h, hk, l0 + i);
    // The triangle is that of the overlaps.
    assert forall|i: int, k: int| 0 <= i < cs && 0 <= k < cs implies below(e, m, z, i, k, cs, hk)
        == #[trigger] low(i, k) by {
        if k < i {
            let want = |x: int| ((h.key)(l0 + i, x) * (h.gate)(l0 + i)) * (h.key)(l0 + k, x);
            let (fa, fb) = (m[ScanBuf::KBeta], m[ScanBuf::KNorm]);
            let (ia, ib) = (at3(z, i, 0, cs, hk), at3(z, k, 0, cs, hk));
            assert forall|x: int| 0 <= x < hk implies fa(ia + x * 1) * fb(ib + x * 1)
                == #[trigger] want(x) by {
                assert(at4(b, c, i, x, nc, cs, hk) == ia + x);
                assert(at4(b, c, k, x, nc, cs, hk) == ib + x);
            }
            lemma_product(hk, fa, ia, 1, fb, ib, 1, want);
            assert(m[ScanBuf::GCumsum](at3(b, c, i, nc, cs)) == decayed(ch, l0, i + 1));
            assert(m[ScanBuf::GCumsum](at3(b, c, k, nc, cs)) == decayed(ch, l0, k + 1));
        }
    }
    assert forall|k: int| 0 <= k < cs implies #[trigger] row(k) + sum(
        cs,
        |i: int| row(i) * low(i, k),
    ) == (if k == j {
        1int
    } else {
        0int
    }) by {
        assert(at3(z, j, k, cs, cs) == at3(z, j, k, cs, cs));
        let f = |i: int| m[ScanBuf::Attn](at3(z, j, i, cs, cs)) * below(e, m, z, i, k, cs, hk);
        let g = |i: int| row(i) * low(i, k);
        assert forall|i: int| 0 <= i < cs implies #[trigger] f(i) == g(i) by {
            assert(below(e, m, z, i, k, cs, hk) == low(i, k));
        }
        lemma_sum_eq(cs, f, g);
        assert(against(e, m, m, z, j, k, cs, hk) == sum(cs, f));
    }
    assert forall|i: int| 0 <= i < cs implies #[trigger] u(i) + sum(cs, |k: int| low(i, k) * u(k))
        == given(i) - sum(hk, |x: int| reader(i, x) * s(x)) by {
        corrections_within_chunk(e, h, hk, l0, i, cs);
        lemma_sum_eq(
            cs,
            |k: int| overlap(e, h, hk, l0, i, k) * written(e, h, hk, l0 + k),
            |k: int| low(i, k) * u(k),
        );
        lemma_sum_eq(
            hk,
            |x: int|
                (((h.key)(l0 + i, x) * (h.gate)(l0 + i)) * e(decayed(ch, l0, i + 1))) * stepped(
                    e,
                    h,
                    hk,
                    l0,
                )(x),
            |x: int| reader(i, x) * s(x),
        );
    }
    inverse_gives_the_unknown(cs, hk, row, low, given, reader, s, u, j);
    // The values after the attention.
    let vc = value_proc_call(d);
    lemma_entry(trace[8], trace[9], vc, z, j, y);
    assert(z * (cs * hv) + (j * hv + y) == (z * cs + j) * hv + y) by (nonlinear_arith);
    assert(spot(vc, z, j, y) == at4(b, c, j, y, nc, cs, hv));
    let taken = |i: int| row(i) * given(i);
    assert forall|i: int| 0 <= i < cs implies m[ScanBuf::Attn](z * (cs * cs) + j * cs + i * 1)
        * m[ScanBuf::VBeta](z * (cs * hv) + y + i * hv) == #[trigger] taken(i) by {
        assert(z * (cs * cs) + j * cs + i * 1 == (z * cs + j) * cs + i) by (nonlinear_arith);
        assert(z * (cs * hv) + y + i * hv == (z * cs + i) * hv + y) by (nonlinear_arith);
        assert(at4(b, c, i, y, nc, cs, hv) == (z * cs + i) * hv + y);
    }
    lemma_product(
        cs,
        m[ScanBuf::Attn],
        z * (cs * cs) + j * cs,
        1,
        m[ScanBuf::VBeta],
        z * (cs * hv) + y,
        hv,
        taken,
    );
    // The keys after the attention.
    let kc = k_cumdecay_call(d);
    let f = |x: int| m[ScanBuf::KCumdecay](at4(b, c, j, x, nc, cs, hk)) * stepped(e, h, hk, c * cs)(x);
    let g = |x: int| sum(cs, |i: int| row(i) * reader(i, x)) * s(x);
    assert forall|x: int| 0 <= x < hk implies #[trigger] f(x) == g(x) by {
        lemma_entry(trace[9], trace[10], kc, z, j, x);
        assert(z * (cs * hk) + (j * hk + x) == (z * cs + j) * hk + x) by (nonlinear_arith);
        assert(spot(kc, z, j, x) == at4(b, c, j, x, nc, cs, hk));
        let want = |i: int| row(i) * reader(i, x);
        assert forall|i: int| 0 <= i < cs implies m[ScanBuf::Attn](z * (cs * cs) + j * cs + i * 1)
            * m[ScanBuf::KCumdecayInput](z * (cs * hk) + x + i * hk) == #[trigger] want(i) by {
            assert(z * (cs * cs) + j * cs + i * 1 == (z * cs + j) * cs + i) by (nonlinear_arith);
            assert(z * (cs * hk) + x + i * hk == (z * cs + i) * hk + x) by (nonlinear_arith);
            assert(at4(b, c, i, x, nc, cs, hk) == (z * cs + i) * hk + x);
        }
        lemma_product(
            cs,
            m[ScanBuf::Attn],
            z * (cs * cs) + j * cs,
            1,
            m[ScanBuf::KCumdecayInput],
            z * (cs * hk) + x,
            hk,
            want,
        );
    }
    lemma_sum_eq(hk, f, g);
}

/// Element `x` of position `j` of chunk `c` of head `b`, in a tensor of rows of `w` elements.
proof fn lemma_place(b: int, c: int, j: int, x: int, nc: int, cs: int, w: int, t: int)
    requires
        nc * cs == t,
    ensures
        c * (cs * w) + b * (t * w) + (j * w + x) == at4(b, c, j, x, nc, cs, w),
        at4(b, c, j, x, nc, cs, w) == at3(b, c * cs + j, x, t, w),
{
    let z = b * nc + c;
    assert(z * cs == b * t + c * cs) by (nonlinear_arith)
        requires
            nc * cs == t,
            z == b * nc + c,
    ;
    let r = b * t + c * cs + j;
    assert(r * w == b * (t * w) + c * (cs * w) + j * w) by (nonlinear_arith)
        requires
            r == b * t + c * cs + j,
    ;
}

/// Row `x`, column `y` of matrix `b`.
proof fn lemma_matrix(b: int, x: int, y: int, h: int, w: int)
    ensures
        b * (h * w) + (x * w + y) == at3(b, x, y, h, w),
{
    assert(b * (h * w) + (x * w + y) == (b * h + x) * w + y) by (nonlinear_arith);
}

/// Column `y` of the state of head `b` is that after `l` steps.
spec fn holds_state(
    e: spec_fn(int) -> int,
    h: Head,
    m: ScanMem,
    b: int,
    y: int,
    l: int,
    hk: int,
    hv: int,
) -> bool {
    forall|x: int|
        #![trigger at3(b, x, y, hk, hv)]
        0 <= x < hk ==> m[ScanBuf::State](at3(b, x, y, hk, hv)) == stepped(e, h, hk, l)(x)
}

/// The values of chunk `c` are the corrections.
spec fn holds_corrections(
    e: spec_fn(int) -> int,
    h: Head,
    m: ScanMem,
    b: int,
    y: int,
    nc: int,
    cs: int,
    hk: int,
    hv: int,
    c: int,
) -> bool {
    forall|j: int|
        #![trigger at4(b, c, j, y, nc, cs, hv)]
        0 <= j < cs ==> m[ScanBuf::ValueProc](at4(b, c, j, y, nc, cs, hv)) == written(
            e,
            h,
            hk,
            c * cs + j,
        )
}

/// The prediction and the difference: the values of the chunk become the corrections.
#[verifier::rlimit(40)]
proof fn lemma_new_values(
    d: ScanDims,
    e: spec_fn(int) -> int,
    h: Head,
    m: ScanMem,
    p: ScanMem,
    n: ScanMem,
    b: int,
    y: int,
    c: int,
)
    requires
        d.in_range(),
        d.t % d.cs == 0,
        is_column(d, b, y),
        0 <= c < d.nc(),
        multiplies(m, p, v_prime_call(d, c)),
        takes_prediction(p, n, d.bh as int, d.nc(), d.cs as int, d.hv as int, c),
        solved(e, h, m, b, y, d.nc(), d.cs as int, d.hk as int, d.hv as int, c),
        holds_state(e, h, m, b, y, c * d.cs, d.hk as int, d.hv as int),
    ensures
        holds_corrections(e, h, n, b, y, d.nc(), d.cs as int, d.hk as int, d.hv as int, c),
        solved(e, h, n, b, y, d.nc(), d.cs as int, d.hk as int, d.hv as int, c + 1),
{
    let nc = d.nc();
    let cs = d.cs as int;
    let hk = d.hk as int;
    let hv = d.hv as int;
    let t = d.t as int;
    lemma_casts(d);
    lemma_scan_products(d);
    lemma_scan_chunk_products(d, c);
    let call = v_prime_call(d, c);
    assert(p[ScanBuf::ValueProc] == m[ScanBuf::ValueProc]);
    assert(p[ScanBuf::KCumdecay] == m[ScanBuf::KCumdecay]);
    assert(n[ScanBuf::KCumdecay] == m[ScanBuf::KCumdecay]);
    assert forall|j: int|
        #![trigger at4(b, c, j, y, nc, cs, hv)]
        0 <= j < cs implies n[ScanBuf::ValueProc](at4(b, c, j, y, nc, cs, hv)) == written(
        e,
        h,
        hk,
        c * cs + j,
    ) by {
        lemma_entry(m, p, call, b, j, y);
        lemma_matrix(b, j, y, cs, hv);
        assert(spot(call, b, j, y) == at3(b, j, y, cs, hv));
        let want = |x: int|
            m[ScanBuf::KCumdecay](at4(b, c, j, x, nc, cs, hk)) * stepped(e, h, hk, c * cs)(x);
        let ia = c * (cs * hk) + b * (t * hk) + j * hk;
        let ib = b * (hk * hv) + y;
        assert forall|x: int| 0 <= x < hk implies m[ScanBuf::KCumdecay](ia + x * 1) * m[ScanBuf::State](
            ib + x * hv,
        ) == #[trigger] want(x) by {
            lemma_place(b, c, j, x, nc, cs, hk, t);
            lemma_matrix(b, x, y, hk, hv);
        }
        lemma_product(
            hk,
            m[ScanBuf::KCumdecay],
            ia,
            1,
            m[ScanBuf::State],
            ib,
            hv,
            want,
        );
        assert(p[ScanBuf::VPrime](at3(b, j, y, cs, hv)) == recalled(e, h, m, b, c, j, nc, cs, hk));
    }
    assert forall|k: int, j: int|
        #![trigger at4(b, k, j, y, nc, cs, hv)]
        c + 1 <= k < nc && 0 <= j < cs implies n[ScanBuf::ValueProc](at4(b, k, j, y, nc, cs, hv))
        - recalled(e, h, n, b, k, j, nc, cs, hk) == written(e, h, hk, k * cs + j) by {
        assert(n[ScanBuf::ValueProc](at4(b, k, j, y, nc, cs, hv)) == m[ScanBuf::ValueProc](
            at4(b, k, j, y, nc, cs, hv),
        ));
        lemma_sum_eq(
            hk,
            |x: int|
                n[ScanBuf::KCumdecay](at4(b, k, j, x, nc, cs, hk)) * stepped(e, h, hk, k * cs)(x),
            |x: int|
                m[ScanBuf::KCumdecay](at4(b, k, j, x, nc, cs, hk)) * stepped(e, h, hk, k * cs)(x),
        );
    }
}

/// A product into chunk `c` of the outputs leaves those of other positions.
proof fn lemma_elsewhere(d: ScanDims, m: ScanMem, n: ScanMem, call: BmmCall, b: int, y: int, c: int, l: int)
    requires
        d.in_range(),
        d.t % d.cs == 0,
        is_column(d, b, y),
        0 <= c < d.nc(),
        0 <= l < d.t,
        !(c * d.cs <= l < c * d.cs + d.cs),
        multiplies(m, n, call),
        call.c == ScanBuf::Out,
        call.off_c == c * (d.cs * d.hv),
        call.stride_c == d.t * d.hv,
        call.m == d.cs,
        call.n == d.hv,
    ensures
        n[ScanBuf::Out](at3(b, l, y, d.t as int, d.hv as int)) == m[ScanBuf::Out](
            at3(b, l, y, d.t as int, d.hv as int),
        ),
{
    let nc = d.nc();
    let cs = d.cs as int;
    let hv = d.hv as int;
    let t = d.t as int;
    let p = at3(b, l, y, t, hv);
    lemma_scan_products(d);
    assert(settled(m, n, call, p));
    assert forall|z: int, i: int, j: int| !#[trigger] names(call, p, z, i, j) by {
        if names(call, p, z, i, j) {
            lemma_place(z, c, i, j, nc, cs, hv, t);
            lemma_quotient(at2(b, l, t), y, at2(z, c * cs + i, t), j, hv);
            lemma_at2(c, i, nc, cs);
            lemma_quotient(b, l, z, c * cs + i, t);
        }
    }
}

/// The outputs of the chunk: what the state gives, and what the chunk itself does.
#[verifier::rlimit(80)]
proof fn lemma_outputs(
    d: ScanDims,
    e: spec_fn(int) -> int,
    h: Head,
    m: ScanMem,
    m1: ScanMem,
    m2: ScanMem,
    m3: ScanMem,
    n: ScanMem,
    b: int,
    y: int,
    c: int,
    j: int,
)
    requires
        d.in_range(),
        d.t % d.cs == 0,
        is_exponential(e),
        decays(corrected(e, h, d.hk as int)),
        is_column(d, b, y),
        0 <= c < d.nc(),
        0 <= j < d.cs,
        multiplies(m, m1, out_state_call(d, c)),
        multiplies(m1, m2, attn_intra_call(d, c)),
        masks_scores(m2, m3, d.bh as int, d.nc(), d.cs as int, c),
        multiplies(m3, n, out_intra_call(d, c)),
        has_rows(e, h, m, b, d.nc(), d.cs as int, d.hk as int),
        holds_corrections(e, h, m, b, y, d.nc(), d.cs as int, d.hk as int, d.hv as int, c),
        holds_state(e, h, m, b, y, c * d.cs, d.hk as int, d.hv as int),
    ensures
        n[ScanBuf::Out](at3(b, c * d.cs + j, y, d.t as int, d.hv as int)) == read_out(
            e,
            h,
            d.hk as int,
            c * d.cs + j,
        ),
{
    let nc = d.nc();
    let cs = d.cs as int;
    let hk = d.hk as int;
    let hv = d.hv as int;
    let t = d.t as int;
    let l0 = c * cs;
    let ch = corrected(e, h, hk);
    lemma_casts(d);
    lemma_scan_products(d);
    lemma_scan_chunk_products(d, c);
    let p = at3(b, l0 + j, y, t, hv);
    lemma_place(b, c, j, y, nc, cs, hv, t);
    // What the state gives.
    let c1 = out_state_call(d, c);
    lemma_entry(m, m1, c1, b, j, y);
    assert(spot(c1, b, j, y) == p);
    let first = |x: int|
        ((ch.read)(l0 + j, x) * e(decayed(ch, l0, j + 1))) * state_after(e, ch, l0, x);
    let ia = c * (cs * hk) + b * (t * hk) + j * hk;
    let ib = b * (hk * hv) + y;
    assert forall|x: int| 0 <= x < hk implies m[ScanBuf::QScaled](ia + x * 1) * m[ScanBuf::State](
        ib + x * hv,
    ) == #[trigger] first(x) by {
        lemma_place(b, c, j, x, nc, cs, hk, t);
        lemma_matrix(b, x, y, hk, hv);
        rule_is_a_recurrence(e, h, hk, l0, x);
        assert(m[ScanBuf::QScaled](at4(b, c, j, x, nc, cs, hk)) == (h.query)(l0 + j, x) * e(
            decayed(ch, l0, j + 1),
        ));
        assert(m[ScanBuf::State](at3(b, x, y, hk, hv)) == stepped(e, h, hk, l0)(x));
    }
    lemma_product(hk, m[ScanBuf::QScaled], ia, 1, m[ScanBuf::State], ib, hv, first);
    assert(m1[ScanBuf::Out](p) == sum(hk, first));
    // The scores.
    let c2 = attn_intra_call(d, c);
    assert(m1[ScanBuf::QNorm] == m[ScanBuf::QNorm] && m1[ScanBuf::KNorm] == m[ScanBuf::KNorm]);
    assert(m2[ScanBuf::DecayMask] == m[ScanBuf::DecayMask]);
    assert(m3[ScanBuf::Out] == m1[ScanBuf::Out]);
    assert(m3[ScanBuf::ValueProc] == m[ScanBuf::ValueProc]);
    let second = |k: int| score(e, ch, hk, l0, j, k) * (ch.input)(l0 + k);
    let masked = |k: int| if k <= j { second(k) } else { 0int };
    let ja = b * (cs * cs) + j * cs;
    let jb = c * (cs * hv) + b * (t * hv) + y;
    assert forall|k: int| 0 <= k < cs implies m3[ScanBuf::AttnIntra](ja + k * 1) * m3[ScanBuf::ValueProc](
        jb + k * hv,
    ) == #[trigger] masked(k) by {
        lemma_entry(m1, m2, c2, b, j, k);
        lemma_matrix(b, j, k, cs, cs);
        assert(spot(c2, b, j, k) == at3(b, j, k, cs, cs));
        lemma_place(b, c, k, y, nc, cs, hv, t);
        let both = |x: int| (ch.read)(l0 + j, x) * (ch.spread)(l0 + k, x);
        let kb = c * (cs * hk) + b * (t * hk) + k * hk;
        assert forall|x: int| 0 <= x < hk implies m[ScanBuf::QNorm](ia + x * 1) * m[ScanBuf::KNorm](
            kb + x * 1,
        ) == #[trigger] both(x) by {
            lemma_place(b, c, j, x, nc, cs, hk, t);
            lemma_place(b, c, k, x, nc, cs, hk, t);
            assert(m[ScanBuf::QNorm](at4(b, c, j, x, nc, cs, hk)) == (h.query)(l0 + j, x));
            assert(m[ScanBuf::KNorm](at4(b, c, k, x, nc, cs, hk)) == (h.key)(l0 + k, x));
        }
        lemma_product(hk, m[ScanBuf::QNorm], ia, 1, m[ScanBuf::KNorm], kb, 1, both);
        assert(m2[ScanBuf::AttnIntra](at3(b, j, k, cs, cs)) == sum(hk, both));
        let mask = m[ScanBuf::DecayMask](at4(b, c, j, k, nc, cs, cs));
        assert(m3[ScanBuf::AttnIntra](at3(b, j, k, cs, cs)) == sum(hk, both) * mask);
        assert(m[ScanBuf::ValueProc](at4(b, c, k, y, nc, cs, hv)) == (ch.input)(l0 + k));
        if k > j {
            let s = sum(hk, both);
            let u = (ch.input)(l0 + k);
            assert(s * 0 == 0 && 0 * u == 0);
        }
    }
    lemma_product(
        cs,
        m3[ScanBuf::AttnIntra],
        ja,
        1,
        m3[ScanBuf::ValueProc],
        jb,
        hv,
        masked,
    );
    lemma_sum_prefix(j + 1, cs, masked);
    lemma_sum_eq(j + 1, masked, second);
    // Together.
    let c3 = out_intra_call(d, c);
    lemma_entry(m3, n, c3, b, j, y);
    assert(spot(c3, b, j, y) == p);
    output_within_chunk(e, ch, hk, l0, j);
    rule_output_is_a_recurrence(e, h, hk, l0 + j);
}

/// The state after the chunk.
#[verifier::rlimit(60)]
proof fn lemma_states(
    d: ScanDims,
    e: spec_fn(int) -> int,
    h: Head,
    m: ScanMem,
    m1: ScanMem,
    m2: ScanMem,
    n: ScanMem,
    b: int,
    y: int,
    c: int,
)
    requires
        d.in_range(),
        d.t % d.cs == 0,
        is_exponential(e),
        decays(corrected(e, h, d.hk as int)),
        is_column(d, b, y),
        0 <= c < d.nc(),
        decays_states(
            e,
            m,
            m1,
            d.bh as int,
            d.nc(),
            d.cs as int,
            d.hk as int,
            d.hv as int,
            c,
        ),
        decays_keys(e, m1, m2, d.bh as int, d.nc(), d.cs as int, d.hk as int, c),
        multiplies(m2, n, state_update_call(d, c)),
        has_rows(e, h, m, b, d.nc(), d.cs as int, d.hk as int),
        holds_corrections(e, h, m, b, y, d.nc(), d.cs as int, d.hk as int, d.hv as int, c),
        holds_state(e, h, m, b, y, c * d.cs, d.hk as int, d.hv as int),
    ensures
        holds_state(e, h, n, b, y, c * d.cs + d.cs, d.hk as int, d.hv as int),
{
    let nc = d.nc();
    let cs = d.cs as int;
    let hk = d.hk as int;
    let hv = d.hv as int;
    let t = d.t as int;
    let l0 = c * cs;
    let ch = corrected(e, h, hk);
    lemma_casts(d);
    lemma_scan_products(d);
    lemma_scan_chunk_products(d, c);
    let call = state_update_call(d, c);
    assert(m1[ScanBuf::GCumsum] == m[ScanBuf::GCumsum] && m1[ScanBuf::KNorm] == m[ScanBuf::KNorm]);
    assert(m2[ScanBuf::ValueProc] == m[ScanBuf::ValueProc]);
    assert(m2[ScanBuf::State] == m1[ScanBuf::State]);
    assert(m[ScanBuf::GCumsum](at3(b, c, cs - 1, nc, cs)) == decayed(ch, l0, cs));
    assert forall|x: int|
        #![trigger at3(b, x, y, hk, hv)]
        0 <= x < hk implies n[ScanBuf::State](at3(b, x, y, hk, hv)) == stepped(e, h, hk, l0 + cs)(
        x,
    ) by {
        lemma_entry(m2, n, call, b, x, y);
        lemma_matrix(b, x, y, hk, hv);
        assert(spot(call, b, x, y) == at3(b, x, y, hk, hv));
        let want = |k: int| arrived(e, ch, l0, cs, k, x);
        let ia = b * (cs * hk) + x;
        let ib = c * (cs * hv) + b * (t * hv) + y;
        assert forall|k: int| 0 <= k < cs implies m2[ScanBuf::KDecayed](ia + k * hk) * m2[ScanBuf::ValueProc](
            ib + k * hv,
        ) == #[trigger] want(k) by {
            lemma_matrix(b, k, x, cs, hk);
            lemma_place(b, c, k, y, nc, cs, hv, t);
            assert(m[ScanBuf::GCumsum](at3(b, c, k, nc, cs)) == decayed(ch, l0, k + 1));
            assert(m[ScanBuf::KNorm](at4(b, c, k, x, nc, cs, hk)) == (h.key)(l0 + k, x));
            let w = e(decayed(ch, l0, cs) - decayed(ch, l0, k + 1));
            assert(m2[ScanBuf::KDecayed](at3(b, k, x, cs, hk)) == (h.key)(l0 + k, x) * w);
            assert(m[ScanBuf::ValueProc](at4(b, c, k, y, nc, cs, hv)) == (ch.input)(l0 + k));
            let (kk, u) = ((h.key)(l0 + k, x), (ch.input)(l0 + k));
            assert((kk * w) * u == w * (u * kk)) by (nonlinear_arith);
        }
        lemma_product(
            cs,
            m2[ScanBuf::KDecayed],
            ia,
            hk,
            m2[ScanBuf::ValueProc],
            ib,
            hv,
            want,
        );
        state_within_chunk(e, ch, l0, cs, x);
        rule_is_a_recurrence(e, h, hk, l0, x);
        rule_is_a_recurrence(e, h, hk, l0 + cs, x);
        let (s, w) = (stepped(e, h, hk, l0)(x), e(decayed(ch, l0, cs)));
        assert(m[ScanBuf::State](at3(b, x, y, hk, hv)) == s);
        assert(s * w == w * s) by (nonlinear_arith);
    }
}

/// The outputs of column `y` of head `b` are done up to position `l`.
spec fn holds_outputs(
    e: spec_fn(int) -> int,
    h: Head,
    m: ScanMem,
    b: int,
    y: int,
    l: int,
    t: int,
    hk: int,
    hv: int,
) -> bool {
    forall|i: int|
        #![trigger at3(b, i, y, t, hv)]
        0 <= i < l ==> m[ScanBuf::Out](at3(b, i, y, t, hv)) == read_out(e, h, hk, i)
}

/// What the tensors hold of column `y` of head `b` before chunk `c`.
spec fn reached(
    d: ScanDims,
    e: spec_fn(int) -> int,
    h: Head,
    m: ScanMem,
    b: int,
    y: int,
    c: int,
) -> bool {
    &&& has_rows(e, h, m, b, d.nc(), d.cs as int, d.hk as int)
    &&& solved(e, h, m, b, y, d.nc(), d.cs as int, d.hk as int, d.hv as int, c)
    &&& holds_state(e, h, m, b, y, c * d.cs, d.hk as int, d.hv as int)
    &&& holds_outputs(e, h, m, b, y, c * d.cs, d.t as int, d.hk as int, d.hv as int)
}

/// Chunk `c` leads from what is held before it to what is held before the next.
#[verifier::rlimit(60)]
proof fn lemma_chunk(
    d: ScanDims,
    e: spec_fn(int) -> int,
    unit: Unit,
    h: Head,
    trace: Seq<ScanMem>,
    b: int,
    y: int,
    c: int,
)
    requires
        d.in_range(),
        d.t % d.cs == 0,
        is_exponential(e),
        decays(corrected(e, h, d.hk as int)),
        is_column(d, b, y),
        0 <= c < d.nc(),
        ran(e, unit, chunk_steps(d, c), trace),
        reached(d, e, h, trace[0], b, y, c),
    ensures
        reached(d, e, h, trace[9], b, y, c + 1),
{
    let steps = chunk_steps(d, c);
    let bh = d.bh as int;
    let nc = d.nc();
    let cs = d.cs as int;
    let hk = d.hk as int;
    let hv = d.hv as int;
    let t = d.t as int;
    lemma_casts(d);
    lemma_scan_products(d);
    lemma_scan_chunk_products(d, c);
    assert(went(e, unit, steps, trace, 0));
    assert(multiplies(trace[0], trace[1], v_prime_call(d, c)));
    assert(went(e, unit, steps, trace, 1));
    assert(takes_prediction(trace[1], trace[2], bh, nc, cs, hv, c));
    assert(went(e, unit, steps, trace, 2));
    assert(multiplies(trace[2], trace[3], out_state_call(d, c)));
    assert(went(e, unit, steps, trace, 3));
    assert(multiplies(trace[3], trace[4], attn_intra_call(d, c)));
    assert(went(e, unit, steps, trace, 4));
    assert(masks_scores(trace[4], trace[5], bh, nc, cs, c));
    assert(went(e, unit, steps, trace, 5));
    assert(multiplies(trace[5], trace[6], out_intra_call(d, c)));
    assert(went(e, unit, steps, trace, 6));
    assert(decays_states(e, trace[6], trace[7], bh, nc, cs, hk, hv, c));
    assert(went(e, unit, steps, trace, 7));
    assert(decays_keys(e, trace[7], trace[8], bh, nc, cs, hk, c));
    assert(went(e, unit, steps, trace, 8));
    assert(multiplies(trace[8], trace[9], state_update_call(d, c)));
    lemma_new_values(d, e, h, trace[0], trace[1], trace[2], b, y, c);
    assert(trace[2][ScanBuf::State] == trace[0][ScanBuf::State]);
    assert(trace[6][ScanBuf::State] == trace[0][ScanBuf::State]);
    assert(trace[6][ScanBuf::ValueProc] == trace[2][ScanBuf::ValueProc]);
    lemma_keeps_rows(e, h, trace[0], trace[2], b, nc, cs, hk);
    lemma_keeps_rows(e, h, trace[2], trace[6], b, nc, cs, hk);
    lemma_keeps_rows(e, h, trace[6], trace[9], b, nc, cs, hk);
    lemma_states(d, e, h, trace[6], trace[7], trace[8], trace[9], b, y, c);
    assert(c * cs + cs == (c + 1) * cs) by (nonlinear_arith);
    assert(trace[9][ScanBuf::Out] == trace[6][ScanBuf::Out]);
    assert(trace[2][ScanBuf::Out] == trace[0][ScanBuf::Out]);
    assert forall|i: int|
        #![trigger at3(b, i, y, t, hv)]
        0 <= i < (c + 1) * cs implies trace[9][ScanBuf::Out](at3(b, i, y, t, hv)) == read_out(
        e,
        h,
        hk,
        i,
    ) by {
        if i < c * cs {
            lemma_elsewhere(d, trace[2], trace[3], out_state_call(d, c), b, y, c, i);
            lemma_elsewhere(d, trace[5], trace[6], out_intra_call(d, c), b, y, c, i);
            assert(trace[5][ScanBuf::Out] == trace[3][ScanBuf::Out]);
        } else {
            let j = i - c * cs;
            lemma_outputs(
                d,
                e,
                h,
                trace[2],
                trace[3],
                trace[4],
                trace[5],
                trace[6],
                b,
                y,
                c,
                j,
            );
        }
    }
    assert(trace[9][ScanBuf::ValueProc] == trace[2][ScanBuf::ValueProc]);
    assert(trace[9][ScanBuf::KCumdecay] == trace[2][ScanBuf::KCumdecay]);
    lemma_keeps_solved(e, h, trace[2], trace[9], b, y, nc, cs, hk, hv, c + 1);
}

proof fn lemma_keeps_rows(
    e: spec_fn(int) -> int,
    h: Head,
    m: ScanMem,
    n: ScanMem,
    b: int,
    nc: int,
    cs: int,
    hk: int,
)
    requires
        has_rows(e, h, m, b, nc, cs, hk),
        n[ScanBuf::QNorm] == m[ScanBuf::QNorm],
        n[ScanBuf::KNorm] == m[ScanBuf::KNorm],
        n[ScanBuf::QScaled] == m[ScanBuf::QScaled],
        n[ScanBuf::GCumsum] == m[ScanBuf::GCumsum],
        n[ScanBuf::DecayMask] == m[ScanBuf::DecayMask],
    ensures
        has_rows(e, h, n, b, nc, cs, hk),
{
}

proof fn lemma_keeps_solved(
    e: spec_fn(int) -> int,
    h: Head,
    m: ScanMem,
    n: ScanMem,
    b: int,
    y: int,
    nc: int,
    cs: int,
    hk: int,
    hv: int,
    from: int,
)
    requires
        solved(e, h, m, b, y, nc, cs, hk, hv, from),
        n[ScanBuf::ValueProc] == m[ScanBuf::ValueProc],
        n[ScanBuf::KCumdecay] == m[ScanBuf::KCumdecay],
    ensures
        solved(e, h, n, b, y, nc, cs, hk, hv, from),
{
    assert forall|c: int, j: int|
        #![trigger at4(b, c, j, y, nc, cs, hv)]
        from <= c < nc && 0 <= j < cs implies n[ScanBuf::ValueProc](at4(b, c, j, y, nc, cs, hv))
        - recalled(e, h, n, b, c, j, nc, cs, hk) == written(e, h, hk, c * cs + j) by {
        lemma_sum_eq(
            hk,
            |x: int|
                n[ScanBuf::KCumdecay](at4(b, c, j, x, nc, cs, hk)) * stepped(e, h, hk, c * cs)(x),
            |x: int|
                m[ScanBuf::KCumdecay](at4(b, c, j, x, nc, cs, hk)) * stepped(e, h, hk, c * cs)(x),
        );
    }
}

proof fn lemma_chunk_steps(d: ScanDims, n: int, c: int, k: int)
    requires
        0 <= n,
    ensures
        chunks_steps(d, n).len() == 9 * n,
        0 <= c < n && 0 <= k < 9 ==> chunks_steps(d, n)[9 * c + k] == chunk_steps(d, c)[k],
    decreases n,
{
    if n > 0 {
        lemma_chunk_steps(d, n - 1, c, k);
    }
}

proof fn lemma_reached(
    d: ScanDims,
    e: spec_fn(int) -> int,
    unit: Unit,
    trace: Seq<ScanMem>,
    b: int,
    y: int,
    c: int,
)
    requires
        d.in_range(),
        d.t % d.cs == 0,
        is_exponential(e),
        all_decay(d, trace[0]),
        ran(e, unit, scan_prologue(d) + chunks_steps(d, d.nc()), trace),
        is_column(d, b, y),
        0 <= c <= d.nc(),
    ensures
        reached(d, e, head(d, unit, trace[0], b, y), trace[10 + 9 * c], b, y, c),
    decreases c,
{
    let steps = scan_prologue(d) + chunks_steps(d, d.nc());
    let h = head(d, unit, trace[0], b, y);
    lemma_decays(d, e, unit, trace[0], b, y);
    lemma_chunk_steps(d, d.nc(), 0, 0);
    if c == 0 {
        let sub = trace.subrange(0, 11);
        assert forall|j: int| 0 <= j < 10 implies #[trigger] went(e, unit, scan_prologue(d), sub, j) by {
            assert(went(e, unit, steps, trace, j));
        }
        lemma_rows(d, e, unit, sub, b, y);
        assert(0 * d.cs == 0);
        assert forall|k: int, j: int|
            #![trigger at4(b, k, j, y, d.nc(), d.cs as int, d.hv as int)]
            0 <= k < d.nc() && 0 <= j < d.cs implies sub[10][ScanBuf::ValueProc](
            at4(b, k, j, y, d.nc(), d.cs as int, d.hv as int),
        ) - recalled(e, h, sub[10], b, k, j, d.nc(), d.cs as int, d.hk as int) == written(
            e,
            h,
            d.hk as int,
            k * d.cs + j,
        ) by {
            lemma_solved(d, e, unit, sub, b, y, k, j);
        }
    } else {
        let a = c - 1;
        lemma_reached(d, e, unit, trace, b, y, a);
        let sub = trace.subrange(10 + 9 * a, 10 + 9 * a + 10);
        assert forall|j: int| 0 <= j < 9 implies #[trigger] went(e, unit, chunk_steps(d, a), sub, j) by {
            lemma_chunk_steps(d, d.nc(), a, j);
            assert(went(e, unit, steps, trace, 10 + 9 * a + j));
            assert(steps[10 + 9 * a + j] == chunks_steps(d, d.nc())[9 * a + j]);
        }
        lemma_chunk(d, e, unit, h, sub, b, y, a);
    }
}

/// The chunked rule is the rule: whatever the operands and the states hold, and however long the
/// chunks are, the outputs are those of as many single steps of the gated delta rule as there are
/// positions, with normalised queries and keys, and the states are those after them.
pub proof fn chunked_rule_is_the_rule(d: ScanDims)
    requires
        d.in_range(),
        d.t % d.cs == 0,
    ensures
        outputs_of_the_rule(scan_prologue(d) + chunks_steps(d, d.nc()), d),
        states_of_the_rule(scan_prologue(d) + chunks_steps(d, d.nc()), d),
{
    let steps = scan_prologue(d) + chunks_steps(d, d.nc());
    lemma_scan_products(d);
    lemma_chunk_steps(d, d.nc(), 0, 0);
    assert forall|e: spec_fn(int) -> int, unit: Unit, trace: Seq<ScanMem>, b: int, y: int, l: int|
        #![trigger ran(e, unit, steps, trace), is_column(d, b, y), at3(b, l, y, d.t as int, d.hv as int)]
        is_exponential(e) && ran(e, unit, steps, trace) && all_decay(d, trace[0]) && is_column(d, b, y)
            && 0 <= l < d.t implies trace.last()[ScanBuf::Out](at3(b, l, y, d.t as int, d.hv as int))
        == read_out(e, head(d, unit, trace[0], b, y), d.hk as int, l) by {
        lemma_reached(d, e, unit, trace, b, y, d.nc());
    }
    assert forall|e: spec_fn(int) -> int, unit: Unit, trace: Seq<ScanMem>, b: int, y: int, x: int|
        #![trigger ran(e, unit, steps, trace), is_column(d, b, y), at3(b, x, y, d.hk as int, d.hv as int)]
        is_exponential(e) && ran(e, unit, steps, trace) && all_decay(d, trace[0]) && is_column(d, b, y)
            && 0 <= x < d.hk implies trace.last()[ScanBuf::State](
        at3(b, x, y, d.hk as int, d.hv as int),
    ) == stepped(e, head(d, unit, trace[0], b, y), d.hk as int, d.t as int)(x) by {
        lemma_reached(d, e, unit, trace, b, y, d.nc());
    }
}

} // verus!
