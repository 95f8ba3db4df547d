//! What the device operations of the chunked form do, in exact arithmetic, and that together they
//! compute the recurrence.

use vstd::prelude::*;

use crate::ssm::mamba2_ssd_chunked::{
    chunk_part, ssd_chunk, ssd_chunks, ssd_prologue, ssd_steps, Part, SsdBuf, SsdDims, SsdStep,
};
use crate::ssm::recurrence::{
    arrived, decayed, decays, is_exponential, output_at, output_within_chunk, score, state_after, state_within_chunk, Channel,
};
use crate::sums::{at2, at3, at4, lemma_at2, lemma_sum_eq, lemma_sum_prefix, sum};

verus! {

/// What the tensors hold, element by element.
pub type SsdMem = Map<SsdBuf, spec_fn(int) -> int>;

/// Nothing but `buf` is written.
pub open spec fn only(m: SsdMem, n: SsdMem, buf: SsdBuf) -> bool {
    forall|o: SsdBuf| o != buf ==> #[trigger] n[o] == m[o]
}

/// Element `i` of a part.
pub open spec fn of_part(m: SsdMem, p: Part, i: int) -> int {
    m[p.buf](p.start + i)
}

/// Element `i` lies within a part.
pub open spec fn in_part(p: Part, i: int) -> bool {
    0 <= i && p.start + i < p.end
}

/// The sum of the exponents of the decay over `j` positions of head `hh` of sequence `bb`, of length
/// `l`, from `first` on.
pub open spec fn running(m: SsdMem, bb: int, hh: int, first: int, l: int, h: int, j: int) -> int {
    sum(j, |k: int| m[SsdBuf::A](hh) * m[SsdBuf::Dt](at3(bb, first + k, hh, l, h)))
}

/// The product of `k` elements of `f` from `i` on with as many of `g` from `j` on.
pub open spec fn dot(k: int, f: spec_fn(int) -> int, i: int, g: spec_fn(int) -> int, j: int) -> int {
    sum(k, |x: int| f(i + x) * g(j + x))
}

/// Running exponents of the decays of every chunk.
pub open spec fn sums_decays(m: SsdMem, n: SsdMem, b: int, h: int, t: int, q: int) -> bool {
    let bh = b * h;
    &&& only(m, n, SsdBuf::AlphaCum)
    &&& forall|c: int, bb: int, hh: int, j: int|
        #![trigger at3(c, at2(bb, hh, h), j, bh, q)]
        0 <= c < t && 0 <= bb < b && 0 <= hh < h && 0 <= j < q ==> n[SsdBuf::AlphaCum](
            at3(c, at2(bb, hh, h), j, bh, q),
        ) == running(m, bb, hh, c * q, t * q, h, j + 1)
}

/// `[b, l, h, x]` in chunks of `q` positions, chunk after chunk and head after head.
pub open spec fn permutes(
    m: SsdMem,
    n: SsdMem,
    src: SsdBuf,
    dst: SsdBuf,
    b: int,
    l: int,
    h: int,
    x: int,
    q: int,
) -> bool {
    let bh = b * h;
    &&& only(m, n, dst)
    &&& forall|c: int, bb: int, hh: int, j: int, i: int|
        #![trigger at4(c, at2(bb, hh, h), j, i, bh, q, x)]
        0 <= c < l / q && 0 <= bb < b && 0 <= hh < h && 0 <= j < q && 0 <= i < x ==> n[dst](
            at4(c, at2(bb, hh, h), j, i, bh, q, x),
        ) == m[src](at4(bb, c * q + j, hh, i, l, h, x))
}

/// Inputs times their steps, in chunks.
pub open spec fn steps_inputs(m: SsdMem, n: SsdMem, b: int, l: int, h: int, p: int, q: int) -> bool {
    let bh = b * h;
    &&& only(m, n, SsdBuf::DtXQp)
    &&& forall|c: int, bb: int, hh: int, j: int, i: int|
        #![trigger at4(c, at2(bb, hh, h), j, i, bh, q, p)]
        0 <= c < l / q && 0 <= bb < b && 0 <= hh < h && 0 <= j < q && 0 <= i < p
            ==> n[SsdBuf::DtXQp](at4(c, at2(bb, hh, h), j, i, bh, q, p)) == m[SsdBuf::Dt](
            at3(bb, c * q + j, hh, l, h),
        ) * m[SsdBuf::X](at4(bb, c * q + j, hh, i, l, h, p))
}

/// `bat` matrices of `r` rows of `c` elements, transposed.
pub open spec fn transposes(
    m: SsdMem,
    n: SsdMem,
    src: SsdBuf,
    dst: SsdBuf,
    bat: int,
    r: int,
    c: int,
) -> bool {
    &&& only(m, n, dst)
    &&& forall|z: int, i: int, j: int|
        #![trigger at3(z, j, i, c, r)]
        0 <= z < bat && 0 <= i < r && 0 <= j < c ==> n[dst](at3(z, j, i, c, r)) == m[src](
            at3(z, i, j, r, c),
        )
}

/// `batch` products of `rows` rows of `a` with `cols` rows of `b`, rows of `k` elements.
pub open spec fn multiplies(
    m: SsdMem,
    n: SsdMem,
    a: SsdBuf,
    b: Part,
    c: SsdBuf,
    rows: int,
    cols: int,
    k: int,
    batch: int,
) -> bool {
    &&& only(m, n, c)
    &&& forall|z: int, i: int, j: int|
        #![trigger at3(z, i, j, rows, cols)]
        0 <= z < batch && 0 <= i < rows && 0 <= j < cols && in_part(b, at3(z, j, 0, cols, k)) && in_part(
            b,
            at3(z, j, k - 1, cols, k),
        ) ==> n[c](at3(z, i, j, rows, cols)) == dot(
            k,
            m[a],
            at3(z, i, 0, rows, k),
            m[b.buf],
            b.start + at3(z, j, 0, cols, k),
        )
}

/// As `multiplies`, with a whole tensor as second operand.
pub open spec fn multiplies_all(
    m: SsdMem,
    n: SsdMem,
    a: SsdBuf,
    b: SsdBuf,
    c: SsdBuf,
    rows: int,
    cols: int,
    k: int,
    batch: int,
) -> bool {
    &&& only(m, n, c)
    &&& forall|z: int, i: int, j: int|
        #![trigger at3(z, i, j, rows, cols)]
        0 <= z < batch && 0 <= i < rows && 0 <= j < cols ==> n[c](at3(z, i, j, rows, cols)) == dot(
            k,
            m[a],
            at3(z, i, 0, rows, k),
            m[b],
            at3(z, j, 0, cols, k),
        )
}

/// Scores times the decay between their positions, those of later inputs zero.
pub open spec fn masks(e: spec_fn(int) -> int, m: SsdMem, n: SsdMem, bht: int, q: int) -> bool {
    &&& only(m, n, SsdBuf::ADecayed)
    &&& forall|z: int, i: int, j: int|
        #![trigger at3(z, i, j, q, q)]
        0 <= z < bht && 0 <= i < q && 0 <= j < q ==> n[SsdBuf::ADecayed](at3(z, i, j, q, q)) == (if j
            <= i {
            m[SsdBuf::AIntra](at3(z, i, j, q, q)) * e(
                m[SsdBuf::AlphaCum](at2(z, i, q)) - m[SsdBuf::AlphaCum](at2(z, j, q)),
            )
        } else {
            0
        })
}

/// The states in the type of the products.
pub open spec fn casts_state(m: SsdMem, n: SsdMem, count: int) -> bool {
    &&& only(m, n, SsdBuf::StatePnBf16)
    &&& forall|i: int|
        0 <= i < count ==> #[trigger] n[SsdBuf::StatePnBf16](i) == m[SsdBuf::StatePn](i)
}

/// The exponential of running exponent `i` of `q`, or with `from_end` of what is left behind it.
pub open spec fn weight_of(
    e: spec_fn(int) -> int,
    m: SsdMem,
    decay: Part,
    z: int,
    i: int,
    q: int,
    from_end: bool,
) -> int {
    e(
        if from_end {
            of_part(m, decay, at2(z, q - 1, q)) - of_part(m, decay, at2(z, i, q))
        } else {
            of_part(m, decay, at2(z, i, q))
        },
    )
}

/// Matrices of `r` rows of `c` elements, every row times its weight.
pub open spec fn weighs_rows(
    e: spec_fn(int) -> int,
    m: SsdMem,
    n: SsdMem,
    src: Part,
    decay: Part,
    dst: SsdBuf,
    bat: int,
    r: int,
    c: int,
    from_end: bool,
) -> bool {
    &&& only(m, n, dst)
    &&& forall|z: int, i: int, j: int|
        #![trigger at3(z, i, j, r, c)]
        0 <= z < bat && 0 <= i < r && 0 <= j < c && in_part(src, at3(z, i, j, r, c)) && in_part(
            decay,
            at2(z, i, r),
        ) && in_part(decay, at2(z, r - 1, r)) ==> n[dst](at3(z, i, j, r, c)) == of_part(
            m,
            src,
            at3(z, i, j, r, c),
        ) * weight_of(e, m, decay, z, i, r, from_end)
}

/// Matrices of `r` rows of `c` elements, every column times its weight of `q`.
pub open spec fn weighs_columns(
    e: spec_fn(int) -> int,
    m: SsdMem,
    n: SsdMem,
    src: Part,
    decay: Part,
    dst: SsdBuf,
    bat: int,
    r: int,
    c: int,
    q: int,
    from_end: bool,
) -> bool {
    &&& only(m, n, dst)
    &&& forall|z: int, i: int, j: int|
        #![trigger at3(z, i, j, r, c)]
        0 <= z < bat && 0 <= i < r && 0 <= j < c && in_part(src, at3(z, i, j, r, c)) && in_part(
            decay,
            at2(z, j, q),
        ) && in_part(decay, at2(z, q - 1, q)) ==> n[dst](at3(z, i, j, r, c)) == of_part(
            m,
            src,
            at3(z, i, j, r, c),
        ) * weight_of(e, m, decay, z, j, q, from_end)
}

/// What the states contribute is added to the outputs of one chunk of `t`.
pub open spec fn adds_outputs(
    m: SsdMem,
    n: SsdMem,
    bh: int,
    t: int,
    q: int,
    p: int,
    chunk: int,
) -> bool {
    &&& only(m, n, SsdBuf::YIntra)
    &&& forall|c: int, s: int, j: int, i: int|
        #![trigger at4(c, s, j, i, bh, q, p)]
        0 <= c < t && 0 <= s < bh && 0 <= j < q && 0 <= i < p ==> n[SsdBuf::YIntra](
            at4(c, s, j, i, bh, q, p),
        ) == m[SsdBuf::YIntra](at4(c, s, j, i, bh, q, p)) + (if c == chunk {
            m[SsdBuf::YOffChunk](at3(s, j, i, q, p))
        } else {
            0
        })
}

/// The states decay over one chunk.
pub open spec fn decays_state(
    e: spec_fn(int) -> int,
    m: SsdMem,
    n: SsdMem,
    bh: int,
    p: int,
    states: int,
    q: int,
    chunk: int,
) -> bool {
    &&& only(m, n, SsdBuf::StatePn)
    &&& forall|s: int, i: int, x: int|
        #![trigger at3(s, i, x, p, states)]
        0 <= s < bh && 0 <= i < p && 0 <= x < states ==> n[SsdBuf::StatePn](at3(s, i, x, p, states))
            == m[SsdBuf::StatePn](at3(s, i, x, p, states)) * e(
            m[SsdBuf::AlphaCum](at3(chunk, s, q - 1, bh, q)),
        )
}

/// The update of a chunk is added to the states.
pub open spec fn adds_state(m: SsdMem, n: SsdMem, count: int) -> bool {
    &&& only(m, n, SsdBuf::StatePn)
    &&& forall|i: int|
        0 <= i < count ==> #[trigger] n[SsdBuf::StatePn](i) == m[SsdBuf::StatePn](i)
            + m[SsdBuf::StateUpdChunk](i)
}

/// The outputs in the order `[b, l, h, p]`, with the skip connection where there is one.
pub open spec fn gives_outputs(
    m: SsdMem,
    n: SsdMem,
    b: int,
    l: int,
    h: int,
    p: int,
    q: int,
    has_d: bool,
) -> bool {
    let bh = b * h;
    &&& only(m, n, SsdBuf::Y)
    &&& forall|c: int, bb: int, hh: int, j: int, i: int|
        #![trigger at4(c, at2(bb, hh, h), j, i, bh, q, p)]
        0 <= c < l / q && 0 <= bb < b && 0 <= hh < h && 0 <= j < q && 0 <= i < p ==> n[SsdBuf::Y](
            at4(bb, c * q + j, hh, i, l, h, p),
        ) == m[SsdBuf::YIntra](at4(c, at2(bb, hh, h), j, i, bh, q, p)) + (if has_d {
            m[SsdBuf::DSkip](hh) * m[SsdBuf::X](at4(bb, c * q + j, hh, i, l, h, p))
        } else {
            0
        })
}

/// The step brings the tensors from `m` to `n`; `e` is the exponential.
pub open spec fn does(e: spec_fn(int) -> int, s: SsdStep, m: SsdMem, n: SsdMem) -> bool {
    match s {
        SsdStep::AlphaCum { b, h, t, q } => sums_decays(
            m,
            n,
            b as int,
            h as int,
            t as int,
            q as int,
        ),
        SsdStep::Permute { src, dst, b, l, h, x, q } => permutes(
            m,
            n,
            src,
            dst,
            b as int,
            l as int,
            h as int,
            x as int,
            q as int,
        ),
        SsdStep::DtX { b, l, h, p, q } => steps_inputs(
            m,
            n,
            b as int,
            l as int,
            h as int,
            p as int,
            q as int,
        ),
        SsdStep::Transpose { src, dst, bat, r, c } => transposes(
            m,
            n,
            src,
            dst,
            bat as int,
            r as int,
            c as int,
        ),
        SsdStep::Bmm { a, b, c, m: rows, n: cols, k, batch } => multiplies_all(
            m,
            n,
            a,
            b,
            c,
            rows as int,
            cols as int,
            k as int,
            batch as int,
        ),
        SsdStep::DecayMask { bht, q } => masks(e, m, n, bht as int, q as int),
        SsdStep::StateCast { n: count } => casts_state(m, n, count as int),
        SsdStep::ColExpMul { src, decay, dst, bat, r, c, from_end } => weighs_rows(
            e,
            m,
            n,
            src,
            decay,
            dst,
            bat as int,
            r as int,
            c as int,
            from_end,
        ),
        SsdStep::RowExpMul { src, decay, dst, bat, r, c, q, from_end } => weighs_columns(
            e,
            m,
            n,
            src,
            decay,
            dst,
            bat as int,
            r as int,
            c as int,
            q as int,
            from_end,
        ),
        SsdStep::BmmPart { a, b, c, m: rows, n: cols, k, batch } => multiplies(
            m,
            n,
            a,
            b,
            c,
            rows as int,
            cols as int,
            k as int,
            batch as int,
        ),
        SsdStep::AddYOff { bh, t, q, p, chunk } => adds_outputs(
            m,
            n,
            bh as int,
            t as int,
            q as int,
            p as int,
            chunk as int,
        ),
        SsdStep::StateDecay { bh, p, n: states, t, q, chunk } => decays_state(
            e,
            m,
            n,
            bh as int,
            p as int,
            states as int,
            q as int,
            chunk as int,
        ),
        SsdStep::AddState { n: count } => adds_state(m, n, count as int),
        SsdStep::Post { b, l, h, p, q, has_d } => gives_outputs(
            m,
            n,
            b as int,
            l as int,
            h as int,
            p as int,
            q as int,
            has_d,
        ),
    }
}

/// Step `i` led from one state of the tensors in `trace` to the next.
pub open spec fn went(e: spec_fn(int) -> int, steps: Seq<SsdStep>, trace: Seq<SsdMem>, i: int) -> bool {
    does(e, steps[i], trace[i], trace[i + 1])
}

/// The tensors went through `trace`, one step after the other.
pub open spec fn ran(e: spec_fn(int) -> int, steps: Seq<SsdStep>, trace: Seq<SsdMem>) -> bool {
    &&& trace.len() == steps.len() + 1
    &&& forall|i: int| 0 <= i < steps.len() ==> #[trigger] went(e, steps, trace, i)
}

/// Channel `i` of head `hh` of sequence `bb`, as the operands hold it.
pub open spec fn channel(d: SsdDims, m: SsdMem, bb: int, hh: int, i: int) -> Channel {
    let (l, h, p, n) = (d.l as int, d.h as int, d.p as int, d.n as int);
    Channel {
        decay: |t: int|
            if 0 <= t < l {
                m[SsdBuf::A](hh) * m[SsdBuf::Dt](at3(bb, t, hh, l, h))
            } else {
                0
            },
        input: |t: int|
            m[SsdBuf::Dt](at3(bb, t, hh, l, h)) * m[SsdBuf::X](at4(bb, t, hh, i, l, h, p)),
        spread: |t: int, x: int| m[SsdBuf::B](at4(bb, t, hh, x, l, h, n)),
        read: |t: int, x: int| m[SsdBuf::C](at4(bb, t, hh, x, l, h, n)),
        start: |x: int| m[SsdBuf::StatePn](at3(at2(bb, hh, h), i, x, p, n)),
    }
}

/// The skip connection of the channel at position `t`.
pub open spec fn skip(d: SsdDims, m: SsdMem, bb: int, hh: int, i: int, t: int, has_d: bool) -> int {
    if has_d {
        m[SsdBuf::DSkip](hh) * m[SsdBuf::X](at4(bb, t, hh, i, d.l as int, d.h as int, d.p as int))
    } else {
        0
    }
}

/// The coordinates are those of a channel.
pub open spec fn is_channel(d: SsdDims, bb: int, hh: int, i: int) -> bool {
    0 <= bb < d.b && 0 <= hh < d.h && 0 <= i < d.p
}

/// No decay grows.
pub open spec fn all_decay(d: SsdDims, m: SsdMem) -> bool {
    forall|bb: int, hh: int, i: int| #[trigger] is_channel(d, bb, hh, i) ==> decays(channel(d, m, bb, hh, i))
}

/// Whatever the tensors hold at first, the steps leave in `Y` the outputs of the recurrence from the
/// states that were there, with the skip connection where there is one.
pub open spec fn computes_recurrence(steps: Seq<SsdStep>, d: SsdDims, has_d: bool) -> bool {
    forall|e: spec_fn(int) -> int, trace: Seq<SsdMem>, bb: int, hh: int, i: int, t: int|
        #![trigger ran(e, steps, trace), is_channel(d, bb, hh, i), at4(bb, t, hh, i, d.l as int, d.h as int, d.p as int)]
        is_exponential(e) && ran(e, steps, trace) && all_decay(d, trace[0]) && is_channel(d, bb, hh, i)
            && 0 <= t < d.l ==> trace.last()[SsdBuf::Y](
            at4(bb, t, hh, i, d.l as int, d.h as int, d.p as int),
        ) == output_at(e, channel(d, trace[0], bb, hh, i), d.n as int, t) + skip(
            d,
            trace[0],
            bb,
            hh,
            i,
            t,
            has_d,
        )
}

/// Whatever the tensors hold at first, the steps leave in `StatePn` the states after the last input.
pub open spec fn leaves_states(steps: Seq<SsdStep>, d: SsdDims) -> bool {
    forall|e: spec_fn(int) -> int, trace: Seq<SsdMem>, bb: int, hh: int, i: int, x: int|
        #![trigger ran(e, steps, trace), is_channel(d, bb, hh, i), at3(at2(bb, hh, d.h as int), i, x, d.p as int, d.n as int)]
        is_exponential(e) && ran(e, steps, trace) && all_decay(d, trace[0]) && is_channel(d, bb, hh, i)
            && 0 <= x < d.n ==> trace.last()[SsdBuf::StatePn](
            at3(at2(bb, hh, d.h as int), i, x, d.p as int, d.n as int),
        ) == state_after(e, channel(d, trace[0], bb, hh, i), d.l as int, x)
}

/// What the tensors hold of one channel before the loop over chunks, and go on to hold through it.
spec fn prepared(d: SsdDims, e: spec_fn(int) -> int, m0: SsdMem, m: SsdMem, bb: int, hh: int, i: int) -> bool {
    &&& m[SsdBuf::X] == m0[SsdBuf::X]
    &&& m[SsdBuf::DSkip] == m0[SsdBuf::DSkip]
    &&& holds_channel(
        m,
        channel(d, m0, bb, hh, i),
        at2(bb, hh, d.h as int),
        i,
        d.t(),
        d.bh(),
        d.q as int,
        d.p as int,
        d.n as int,
    )
}

/// The tensors hold channel `i` of state `s` in `t` chunks.
spec fn holds_channel(
    m: SsdMem,
    c: Channel,
    s: int,
    i: int,
    t: int,
    bh: int,
    q: int,
    p: int,
    n: int,
) -> bool {
    &&& forall|k: int, j: int|
        #![trigger at3(k, s, j, bh, q)]
        0 <= k < t && 0 <= j < q ==> m[SsdBuf::AlphaCum](at3(k, s, j, bh, q)) == decayed(
            c,
            k * q,
            j + 1,
        )
    &&& forall|k: int, j: int, x: int|
        #![trigger at4(k, s, j, x, bh, q, n)]
        0 <= k < t && 0 <= j < q && 0 <= x < n ==> m[SsdBuf::CQn](at4(k, s, j, x, bh, q, n)) == (
        c.read)(k * q + j, x)
    &&& forall|k: int, j: int, x: int|
        #![trigger at4(k, s, x, j, bh, n, q)]
        0 <= k < t && 0 <= j < q && 0 <= x < n ==> m[SsdBuf::BNq](at4(k, s, x, j, bh, n, q)) == (
        c.spread)(k * q + j, x)
    &&& forall|k: int, j: int|
        #![trigger at4(k, s, i, j, bh, p, q)]
        0 <= k < t && 0 <= j < q ==> m[SsdBuf::DtXPq](at4(k, s, i, j, bh, p, q)) == (c.input)(
            k * q + j,
        )
}

/// What a chunk contributes to its own output at position `j`.
spec fn own(e: spec_fn(int) -> int, c: Channel, n: int, l0: int, j: int) -> int {
    sum(j + 1, |k: int| score(e, c, n, l0, j, k) * (c.input)(l0 + k))
}

proof fn lemma_places(d: SsdDims, k: int, bb: int, hh: int)
    requires
        0 <= k < d.t(),
        0 <= bb < d.b,
        0 <= hh < d.h,
    ensures
        0 <= at2(bb, hh, d.h as int) < d.bh(),
        0 <= at2(k, at2(bb, hh, d.h as int), d.bh()) < d.bht(),
{
    lemma_at2(bb, hh, d.b as int, d.h as int);
    lemma_at2(k, at2(bb, hh, d.h as int), d.t(), d.bh());
    assert(d.t() * d.bh() == d.bh() * d.t()) by (nonlinear_arith);
}

proof fn lemma_position(d: SsdDims, k: int, j: int)
    requires
        d.q > 0,
        d.l % d.q == 0,
        0 <= k < d.t(),
        0 <= j < d.q,
    ensures
        0 <= k * d.q + j < d.l,
        d.t() * d.q == d.l,
        d.l as int / d.q as int == d.t(),
{
    vstd::arithmetic::div_mod::lemma_fundamental_div_mod(d.l as int, d.q as int);
    lemma_at2(k, j, d.t(), d.q as int);
    assert(d.t() * d.q == d.q * d.t()) by (nonlinear_arith);
}

proof fn lemma_counts(d: SsdDims)
    requires
        d.in_range(),
        d.l % d.q == 0,
    ensures
        0 <= d.t() <= d.l,
        d.t() as u32 == d.t(),
        d.bh() as u32 == d.bh(),
        d.bht() as u32 == d.bht(),
        d.l as int / d.q as int == d.t(),
        d.t() * d.q == d.l,
{
    let (l, q) = (d.l as int, d.q as int);
    vstd::arithmetic::div_mod::lemma_fundamental_div_mod(l, q);
    assert(0 <= l / q <= l) by (nonlinear_arith)
        requires
            0 <= l,
            q > 0,
    ;
    assert(d.t() * q == q * d.t()) by (nonlinear_arith);
    let (b, h) = (d.b as int, d.h as int);
    assert(0 <= b * h) by (nonlinear_arith)
        requires
            0 <= b,
            0 <= h,
    ;
    let (bh, t) = (d.bh(), d.t());
    assert(0 <= bh * t) by (nonlinear_arith)
        requires
            0 <= bh,
            0 <= t,
    ;
}

#[verifier::rlimit(60)]
proof fn lemma_prologue(
    d: SsdDims,
    e: spec_fn(int) -> int,
    trace: Seq<SsdMem>,
    bb: int,
    hh: int,
    i: int,
)
    requires
        d.in_range(),
        d.l % d.q == 0,
        ran(e, ssd_prologue(d), trace),
        is_channel(d, bb, hh, i),
    ensures
        prepared(d, e, trace[0], trace[9], bb, hh, i),
        trace[9][SsdBuf::StatePn] == trace[0][SsdBuf::StatePn],
        forall|k: int, j: int|
            #![trigger at4(k, at2(bb, hh, d.h as int), j, i, d.bh(), d.q as int, d.p as int)]
            0 <= k < d.t() && 0 <= j < d.q ==> trace[9][SsdBuf::YIntra](
                at4(k, at2(bb, hh, d.h as int), j, i, d.bh(), d.q as int, d.p as int),
            ) == own(e, channel(d, trace[0], bb, hh, i), d.n as int, k * d.q, j),
{
    let steps = ssd_prologue(d);
    let c = channel(d, trace[0], bb, hh, i);
    let h = d.h as int;
    let s = at2(bb, hh, h);
    let (q, p, n, bh) = (d.q as int, d.p as int, d.n as int, d.bh());
    let m0 = trace[0];
    lemma_counts(d);
    let (t, l, b, bht) = (d.t(), d.l as int, d.b as int, d.bht());
    assert(went(e, steps, trace, 0));
    assert(sums_decays(trace[0], trace[1], b, h, t, q));
    assert(went(e, steps, trace, 1));
    assert(permutes(trace[1], trace[2], SsdBuf::C, SsdBuf::CQn, b, l, h, n, q));
    assert(went(e, steps, trace, 2));
    assert(permutes(trace[2], trace[3], SsdBuf::B, SsdBuf::BQn, b, l, h, n, q));
    assert(went(e, steps, trace, 3));
    assert(steps_inputs(trace[3], trace[4], b, l, h, p, q));
    assert(went(e, steps, trace, 4));
    assert(transposes(trace[4], trace[5], SsdBuf::BQn, SsdBuf::BNq, bht, q, n));
    assert(went(e, steps, trace, 5));
    assert(transposes(trace[5], trace[6], SsdBuf::DtXQp, SsdBuf::DtXPq, bht, q, p));
    assert(went(e, steps, trace, 6));
    assert(multiplies_all(
        trace[6],
        trace[7],
        SsdBuf::CQn,
        SsdBuf::BQn,
        SsdBuf::AIntra,
        q,
        q,
        n,
        bht,
    ));
    assert(went(e, steps, trace, 7));
    assert(masks(e, trace[7], trace[8], bht, q));
    assert(went(e, steps, trace, 8));
    assert(multiplies_all(
        trace[8],
        trace[9],
        SsdBuf::ADecayed,
        SsdBuf::DtXPq,
        SsdBuf::YIntra,
        q,
        p,
        q,
        bht,
    ));
    assert forall|k: int, j: int|
        #![trigger at3(k, s, j, bh, q)]
        0 <= k < d.t() && 0 <= j < q implies trace[9][SsdBuf::AlphaCum](at3(k, s, j, bh, q)) == decayed(
        c,
        k * q,
        j + 1,
    ) by {
        let f = |x: int| m0[SsdBuf::A](hh) * m0[SsdBuf::Dt](at3(bb, k * q + x, hh, d.l as int, h));
        let g = |x: int| (c.decay)(k * q + x);
        lemma_position(d, k, j);
        assert forall|x: int| 0 <= x < j + 1 implies #[trigger] f(x) == g(x) by {
            lemma_position(d, k, x);
        }
        lemma_sum_eq(j + 1, f, g);
        assert(trace[1][SsdBuf::AlphaCum](at3(k, at2(bb, hh, h), j, bh, q)) == running(
            m0,
            bb,
            hh,
            k * q,
            d.t() * q,
            h,
            j + 1,
        ));
        let r = |x: int| m0[SsdBuf::A](hh) * m0[SsdBuf::Dt](at3(bb, k * q + x, hh, d.t() * q, h));
        lemma_sum_eq(j + 1, r, f);
    }
    assert forall|k: int, j: int, x: int|
        #![trigger at4(k, s, j, x, bh, q, n)]
        0 <= k < d.t() && 0 <= j < q && 0 <= x < n implies trace[9][SsdBuf::CQn](
        at4(k, s, j, x, bh, q, n),
    ) == (c.read)(k * q + j, x) && trace[9][SsdBuf::BQn](at4(k, s, j, x, bh, q, n)) == (c.spread)(
        k * q + j,
        x,
    ) by {
        lemma_position(d, k, j);
        assert(trace[2][SsdBuf::CQn](at4(k, at2(bb, hh, h), j, x, bh, q, n)) == (c.read)(
            k * q + j,
            x,
        ));
    }
    assert forall|k: int, j: int, x: int|
        #![trigger at4(k, s, x, j, bh, n, q)]
        0 <= k < d.t() && 0 <= j < q && 0 <= x < n implies trace[9][SsdBuf::BNq](
        at4(k, s, x, j, bh, n, q),
    ) == (c.spread)(k * q + j, x) by {
        lemma_places(d, k, bb, hh);
        assert(trace[9][SsdBuf::BQn](at4(k, s, j, x, bh, q, n)) == (c.spread)(k * q + j, x));
        assert(trace[5][SsdBuf::BNq](at3(at2(k, s, bh), x, j, n, q)) == trace[4][SsdBuf::BQn](
            at3(at2(k, s, bh), j, x, q, n),
        ));
    }
    assert forall|k: int, j: int|
        #![trigger at4(k, s, i, j, bh, p, q)]
        0 <= k < d.t() && 0 <= j < q implies trace[9][SsdBuf::DtXPq](at4(k, s, i, j, bh, p, q)) == (
    c.input)(k * q + j) by {
        lemma_places(d, k, bb, hh);
        assert(trace[4][SsdBuf::DtXQp](at4(k, at2(bb, hh, h), j, i, bh, q, p)) == (c.input)(
            k * q + j,
        ));
        assert(trace[6][SsdBuf::DtXPq](at3(at2(k, s, bh), i, j, p, q)) == trace[5][SsdBuf::DtXQp](
            at3(at2(k, s, bh), j, i, q, p),
        ));
    }
    assert forall|k: int, j: int|
        #![trigger at4(k, s, j, i, bh, q, p)]
        0 <= k < d.t() && 0 <= j < q implies trace[9][SsdBuf::YIntra](at4(k, s, j, i, bh, q, p)) == own(
        e,
        c,
        n,
        k * q,
        j,
    ) by {
        lemma_places(d, k, bb, hh);
        let z = at2(k, s, bh);
        let (fa, fb) = (trace[8][SsdBuf::ADecayed], trace[8][SsdBuf::DtXPq]);
        let (ia, ib) = (at3(z, j, 0, q, q), at3(z, i, 0, p, q));
        let f = |x: int| fa(ia + x) * fb(ib + x);
        let g = |x: int| score(e, c, n, k * q, j, x) * (c.input)(k * q + x);
        assert(trace[9][SsdBuf::YIntra](at3(z, j, i, q, p)) == dot(q, fa, ia, fb, ib));
        assert forall|x: int| 0 <= x < q implies (#[trigger] f(x)) == (if x <= j { g(x) } else { 0 }) by {
            assert(trace[9][SsdBuf::DtXPq](at4(k, s, i, x, bh, p, q)) == (c.input)(k * q + x));
            assert(at3(z, j, x, q, q) == ia + x && at3(z, i, x, p, q) == ib + x);
            assert(trace[8][SsdBuf::ADecayed](at3(z, j, x, q, q)) == (if x <= j {
                trace[7][SsdBuf::AIntra](at3(z, j, x, q, q)) * e(
                    trace[7][SsdBuf::AlphaCum](at2(z, j, q)) - trace[7][SsdBuf::AlphaCum](at2(z, x, q)),
                )
            } else {
                0
            }));
            if x <= j {
                assert(at3(k, s, j, bh, q) == at2(z, j, q) && at3(k, s, x, bh, q) == at2(z, x, q));
                let (ga, gb) = (trace[6][SsdBuf::CQn], trace[6][SsdBuf::BQn]);
                let (ja, jb) = (at3(z, j, 0, q, n), at3(z, x, 0, q, n));
                let a = |y: int| ga(ja + y) * gb(jb + y);
                let b = |y: int| (c.read)(k * q + j, y) * (c.spread)(k * q + x, y);
                assert(trace[7][SsdBuf::AIntra](at3(z, j, x, q, q)) == dot(n, ga, ja, gb, jb));
                assert forall|y: int| 0 <= y < n implies #[trigger] a(y) == b(y) by {
                    assert(at3(z, j, y, q, n) == ja + y && at3(z, x, y, q, n) == jb + y);
                    assert(trace[9][SsdBuf::CQn](at4(k, s, j, y, bh, q, n)) == (c.read)(k * q + j, y));
                    assert(trace[9][SsdBuf::BQn](at4(k, s, x, y, bh, q, n)) == (c.spread)(k * q + x, y));
                }
                lemma_sum_eq(n, a, b);
            } else {
                assert(0 * fb(ib + x) == 0);
            }
        }
        lemma_sum_prefix(j + 1, q, f);
        lemma_sum_eq(j + 1, f, g);
    }
}

proof fn lemma_part(d: SsdDims, buf: SsdBuf, c: int, s: int, i: int, j: int, r: int, w: int)
    requires
        d.in_range(),
        0 <= c < d.t(),
        d.per_chunk(buf) == d.bh() * (r * w),
        d.t() * d.per_chunk(buf) <= usize::MAX,
        0 <= s < d.bh(),
        0 <= i < r,
        0 <= j < w,
    ensures
        in_part(chunk_part(d, buf, c), at3(s, i, j, r, w)),
        chunk_part(d, buf, c).start + at3(s, i, j, r, w) == at4(c, s, i, j, d.bh(), r, w),
{
    let (bh, size) = (d.bh(), d.per_chunk(buf));
    lemma_at2(i, j, r, w);
    let row = at2(i, j, w);
    lemma_at2(s, row, bh, r * w);
    assert(at3(s, i, j, r, w) == s * (r * w) + row) by (nonlinear_arith)
        requires
            at3(s, i, j, r, w) == (s * r + i) * w + j,
            row == i * w + j,
    ;
    let z = at2(c, s, bh);
    assert(at4(c, s, i, j, bh, r, w) == z * (r * w) + row) by (nonlinear_arith)
        requires
            at4(c, s, i, j, bh, r, w) == (z * r + i) * w + j,
            row == i * w + j,
    ;
    let rw = r * w;
    assert(z * rw == c * (bh * rw) + s * rw) by (nonlinear_arith)
        requires
            z == c * bh + s,
    ;
    let t = d.t();
    assert(0 <= c * size && c * size + size <= t * size) by (nonlinear_arith)
        requires
            0 <= c < t,
            0 <= size,
    ;
}

/// The sums are over as many elements as the row of a matrix has.
proof fn lemma_dot(
    k: int,
    f: spec_fn(int) -> int,
    i: int,
    g: spec_fn(int) -> int,
    j: int,
    want: spec_fn(int) -> int,
)
    requires
        forall|x: int| 0 <= x < k ==> f(i + x) * g(j + x) == #[trigger] want(x),
    ensures
        dot(k, f, i, g, j) == sum(k, want),
{
    let have = |x: int| f(i + x) * g(j + x);
    assert forall|x: int| 0 <= x < k implies #[trigger] have(x) == want(x) by {
        assert(f(i + x) * g(j + x) == want(x));
    }
    lemma_sum_eq(k, have, want);
}

proof fn lemma_in_range(d: SsdDims)
    requires
        d.in_range(),
        d.l % d.q == 0,
    ensures
        d.t() * d.per_chunk(SsdBuf::AlphaCum) <= usize::MAX,
        d.t() * d.per_chunk(SsdBuf::CQn) <= usize::MAX,
        d.t() * d.per_chunk(SsdBuf::DtXPq) <= usize::MAX,
        d.t() * d.per_chunk(SsdBuf::BNq) <= usize::MAX,
        d.bh() * (d.q * 1) == d.per_chunk(SsdBuf::AlphaCum),
        d.bh() * (d.q * d.n) == d.per_chunk(SsdBuf::CQn),
        d.bh() * (d.n * d.q) == d.per_chunk(SsdBuf::BNq),
        d.bh() * (d.p * d.q) == d.per_chunk(SsdBuf::DtXPq),
{
    let (t, bh, q, n) = (d.t(), d.bh(), d.q as int, d.n as int);
    assert(t * (bh * q) == bh * t * q && n * q == q * n) by (nonlinear_arith);
}

#[verifier::rlimit(80)]
proof fn lemma_chunk(
    d: SsdDims,
    e: spec_fn(int) -> int,
    m0: SsdMem,
    trace: Seq<SsdMem>,
    c: int,
    bb: int,
    hh: int,
    i: int,
)
    requires
        d.in_range(),
        d.l % d.q == 0,
        is_exponential(e),
        0 <= c < d.t(),
        ran(e, ssd_chunk(d, c), trace),
        is_channel(d, bb, hh, i),
        decays(channel(d, m0, bb, hh, i)),
        prepared(d, e, m0, trace[0], bb, hh, i),
        forall|x: int|
            #![trigger at3(at2(bb, hh, d.h as int), i, x, d.p as int, d.n as int)]
            0 <= x < d.n ==> trace[0][SsdBuf::StatePn](
                at3(at2(bb, hh, d.h as int), i, x, d.p as int, d.n as int),
            ) == state_after(e, channel(d, m0, bb, hh, i), c * d.q, x),
        forall|j: int|
            #![trigger at4(c, at2(bb, hh, d.h as int), j, i, d.bh(), d.q as int, d.p as int)]
            0 <= j < d.q ==> trace[0][SsdBuf::YIntra](
                at4(c, at2(bb, hh, d.h as int), j, i, d.bh(), d.q as int, d.p as int),
            ) == own(e, channel(d, m0, bb, hh, i), d.n as int, c * d.q, j),
    ensures
        prepared(d, e, m0, trace[8], bb, hh, i),
        forall|x: int|
            #![trigger at3(at2(bb, hh, d.h as int), i, x, d.p as int, d.n as int)]
            0 <= x < d.n ==> trace[8][SsdBuf::StatePn](
                at3(at2(bb, hh, d.h as int), i, x, d.p as int, d.n as int),
            ) == state_after(e, channel(d, m0, bb, hh, i), c * d.q + d.q, x),
        forall|k: int, j: int|
            #![trigger at4(k, at2(bb, hh, d.h as int), j, i, d.bh(), d.q as int, d.p as int)]
            0 <= k < d.t() && 0 <= j < d.q ==> trace[8][SsdBuf::YIntra](
                at4(k, at2(bb, hh, d.h as int), j, i, d.bh(), d.q as int, d.p as int),
            ) == (if k == c {
                output_at(e, channel(d, m0, bb, hh, i), d.n as int, c * d.q + j)
            } else {
                trace[0][SsdBuf::YIntra](
                    at4(k, at2(bb, hh, d.h as int), j, i, d.bh(), d.q as int, d.p as int),
                )
            }),
{
    let steps = ssd_chunk(d, c);
    let ch = channel(d, m0, bb, hh, i);
    let h = d.h as int;
    let s = at2(bb, hh, h);
    let (q, p, n, bh, t) = (d.q as int, d.p as int, d.n as int, d.bh(), d.t());
    let l0 = c * q;
    lemma_counts(d);
    lemma_in_range(d);
    lemma_places(d, c, bb, hh);
    let pn = bh * (p * n);
    let (cqn, alpha) = (chunk_part(d, SsdBuf::CQn, c), chunk_part(d, SsdBuf::AlphaCum, c));
    let (dtx, bnq) = (chunk_part(d, SsdBuf::DtXPq, c), chunk_part(d, SsdBuf::BNq, c));
    assert(0 <= p * n && 0 <= pn) by (nonlinear_arith)
        requires
            pn == bh * (p * n),
            0 <= p,
            0 <= n,
            0 <= bh,
    ;
    assert(went(e, steps, trace, 0));
    assert(casts_state(trace[0], trace[1], pn));
    assert(went(e, steps, trace, 1));
    assert(weighs_rows(e, trace[1], trace[2], cqn, alpha, SsdBuf::CScaled, bh, q, n, false));
    assert(went(e, steps, trace, 2));
    assert(multiplies_all(
        trace[2],
        trace[3],
        SsdBuf::CScaled,
        SsdBuf::StatePnBf16,
        SsdBuf::YOffChunk,
        q,
        p,
        n,
        bh,
    ));
    assert(went(e, steps, trace, 3));
    assert(adds_outputs(trace[3], trace[4], bh, t, q, p, c));
    assert(went(e, steps, trace, 4));
    assert(weighs_columns(e, trace[4], trace[5], dtx, alpha, SsdBuf::DtXScaledPq, bh, p, q, q, true));
    assert(went(e, steps, trace, 5));
    assert(multiplies(
        trace[5],
        trace[6],
        SsdBuf::DtXScaledPq,
        bnq,
        SsdBuf::StateUpdChunk,
        p,
        n,
        q,
        bh,
    ));
    assert(went(e, steps, trace, 6));
    assert(decays_state(e, trace[6], trace[7], bh, p, n, q, c));
    assert(went(e, steps, trace, 7));
    assert(adds_state(trace[7], trace[8], pn));
    // The running exponents of the chunk.
    assert forall|j: int| 0 <= j < q implies #[trigger] of_part(trace[0], alpha, at2(s, j, q)) == decayed(
        ch,
        l0,
        j + 1,
    ) && in_part(alpha, at2(s, j, q)) by {
        lemma_part(d, SsdBuf::AlphaCum, c, s, j, 0, q, 1);
        assert(at3(s, j, 0, q, 1) == at2(s, j, q));
        assert(at4(c, s, j, 0, bh, q, 1) == at3(c, s, j, bh, q));
    }
    assert(trace[1][SsdBuf::AlphaCum] == trace[0][SsdBuf::AlphaCum]);
    assert(trace[4][SsdBuf::AlphaCum] == trace[0][SsdBuf::AlphaCum]);
    // What the states contribute to the outputs.
    assert forall|j: int| 0 <= j < q implies trace[3][SsdBuf::YOffChunk](#[trigger] at3(s, j, i, q, p)) == sum(
        n,
        |x: int| ((ch.read)(l0 + j, x) * e(decayed(ch, l0, j + 1))) * state_after(e, ch, l0, x),
    ) by {
        let want = |x: int|
            ((ch.read)(l0 + j, x) * e(decayed(ch, l0, j + 1))) * state_after(e, ch, l0, x);
        let (fa, fb) = (trace[2][SsdBuf::CScaled], trace[2][SsdBuf::StatePnBf16]);
        let (ia, ib) = (at3(s, j, 0, q, n), at3(s, i, 0, p, n));
        assert(trace[3][SsdBuf::YOffChunk](at3(s, j, i, q, p)) == dot(n, fa, ia, fb, ib));
        assert forall|x: int| 0 <= x < n implies fa(ia + x) * fb(ib + x) == #[trigger] want(x) by {
            lemma_part(d, SsdBuf::CQn, c, s, j, x, q, n);
            assert(at3(s, j, x, q, n) == ia + x && at3(s, i, x, p, n) == ib + x);
            assert(of_part(trace[0], alpha, at2(s, j, q)) == decayed(ch, l0, j + 1));
            assert(of_part(trace[0], alpha, at2(s, q - 1, q)) == decayed(ch, l0, q));
            assert(trace[1][SsdBuf::CQn] == trace[0][SsdBuf::CQn]);
            assert(fa(at3(s, j, x, q, n)) == (ch.read)(l0 + j, x) * e(decayed(ch, l0, j + 1)));
            lemma_at2(i, x, p, n);
            lemma_at2(s, at2(i, x, n), bh, p * n);
            assert(at3(s, i, x, p, n) == s * (p * n) + at2(i, x, n)) by (nonlinear_arith)
                requires
                    at3(s, i, x, p, n) == (s * p + i) * n + x,
                    at2(i, x, n) == i * n + x,
            ;
            assert(trace[1][SsdBuf::StatePnBf16](at3(s, i, x, p, n)) == state_after(e, ch, l0, x));
        }
        lemma_dot(n, fa, ia, fb, ib, want);
    }
    assert forall|k: int, j: int|
        #![trigger at4(k, s, j, i, bh, q, p)]
        0 <= k < t && 0 <= j < q implies trace[8][SsdBuf::YIntra](at4(k, s, j, i, bh, q, p)) == (if k
        == c {
        output_at(e, ch, n, c * q + j)
    } else {
        trace[0][SsdBuf::YIntra](at4(k, s, j, i, bh, q, p))
    }) by {
        assert(trace[8][SsdBuf::YIntra] == trace[4][SsdBuf::YIntra]);
        assert(trace[3][SsdBuf::YIntra] == trace[0][SsdBuf::YIntra]);
        if k == c {
            output_within_chunk(e, ch, n, l0, j);
            assert(at3(s, j, i, q, p) == at3(s, j, i, q, p));
        }
    }
    // What the chunk leaves in the states.
    assert forall|x: int|
        #![trigger at3(s, i, x, p, n)]
        0 <= x < n implies trace[8][SsdBuf::StatePn](at3(s, i, x, p, n)) == state_after(
        e,
        ch,
        c * q + q,
        x,
    ) by {
        state_within_chunk(e, ch, l0, q, x);
        lemma_at2(i, x, p, n);
        lemma_at2(s, at2(i, x, n), bh, p * n);
        assert(at3(s, i, x, p, n) == s * (p * n) + at2(i, x, n)) by (nonlinear_arith)
            requires
                at3(s, i, x, p, n) == (s * p + i) * n + x,
                at2(i, x, n) == i * n + x,
        ;
        let want = |k: int| arrived(e, ch, l0, q, k, x);
        let (fa, fb) = (trace[5][SsdBuf::DtXScaledPq], trace[5][SsdBuf::BNq]);
        let (ia, ib) = (at3(s, i, 0, p, q), bnq.start + at3(s, x, 0, n, q));
        lemma_part(d, SsdBuf::BNq, c, s, x, 0, n, q);
        lemma_part(d, SsdBuf::BNq, c, s, x, q - 1, n, q);
        assert(trace[6][SsdBuf::StateUpdChunk](at3(s, i, x, p, n)) == dot(q, fa, ia, fb, ib));
        assert forall|k: int| 0 <= k < q implies fa(ia + k) * fb(ib + k) == #[trigger] want(k) by {
            lemma_part(d, SsdBuf::DtXPq, c, s, i, k, p, q);
            lemma_part(d, SsdBuf::BNq, c, s, x, k, n, q);
            assert(at3(s, i, k, p, q) == ia + k && bnq.start + at3(s, x, k, n, q) == ib + k);
            assert(of_part(trace[0], alpha, at2(s, k, q)) == decayed(ch, l0, k + 1));
            assert(of_part(trace[0], alpha, at2(s, q - 1, q)) == decayed(ch, l0, q));
            assert(trace[4][SsdBuf::DtXPq] == trace[0][SsdBuf::DtXPq]);
            assert(trace[5][SsdBuf::BNq] == trace[0][SsdBuf::BNq]);
            let (u, b) = ((ch.input)(l0 + k), (ch.spread)(l0 + k, x));
            let w = e(decayed(ch, l0, q) - decayed(ch, l0, k + 1));
            assert(fa(at3(s, i, k, p, q)) == u * w);
            assert(trace[0][SsdBuf::BNq](at4(c, s, x, k, bh, n, q)) == b);
            assert((u * w) * b == w * (u * b)) by (nonlinear_arith);
        }
        lemma_dot(q, fa, ia, fb, ib, want);
        let st = state_after(e, ch, l0, x);
        let w = e(decayed(ch, l0, q));
        assert(trace[6][SsdBuf::StatePn] == trace[0][SsdBuf::StatePn]);
        assert(trace[6][SsdBuf::AlphaCum](at3(c, s, q - 1, bh, q)) == decayed(ch, l0, q));
        assert(st * w == w * st) by (nonlinear_arith);
    }
}

proof fn lemma_chunk_steps(d: SsdDims, n: int, c: int, k: int)
    requires
        0 <= n,
    ensures
        ssd_chunks(d, n).len() == 8 * n,
        0 <= c < n && 0 <= k < 8 ==> ssd_chunks(d, n)[8 * c + k] == ssd_chunk(d, c)[k],
    decreases n,
{
    if n > 0 {
        lemma_chunk_steps(d, n - 1, c, k);
    }
}

/// Step `k` of chunk `c` in the whole run.
proof fn lemma_run_steps(d: SsdDims, has_d: bool, c: int, k: int)
    requires
        0 <= d.t(),
    ensures
        ssd_steps(d, has_d).len() == 10 + 8 * d.t(),
        forall|i: int| 0 <= i < 9 ==> #[trigger] ssd_steps(d, has_d)[i] == ssd_prologue(d)[i],
        0 <= c < d.t() && 0 <= k < 8 ==> ssd_steps(d, has_d)[9 + 8 * c + k] == ssd_chunk(d, c)[k],
        ssd_steps(d, has_d)[9 + 8 * d.t()] == (SsdStep::Post {
            b: d.b,
            l: d.l,
            h: d.h,
            p: d.p,
            q: d.q,
            has_d,
        }),
{
    lemma_chunk_steps(d, d.t(), c, k);
    let before = ssd_prologue(d) + ssd_chunks(d, d.t());
    assert(before.len() == 9 + 8 * d.t());
    if 0 <= c < d.t() && 0 <= k < 8 {
        assert(before[9 + 8 * c + k] == ssd_chunks(d, d.t())[8 * c + k]);
    }
}

/// What one channel's tensors hold before chunk `c`.
spec fn reached(
    d: SsdDims,
    e: spec_fn(int) -> int,
    m0: SsdMem,
    m: SsdMem,
    bb: int,
    hh: int,
    i: int,
    c: int,
) -> bool {
    &&& prepared(d, e, m0, m, bb, hh, i)
    &&& holds_state(
        e,
        m,
        channel(d, m0, bb, hh, i),
        at2(bb, hh, d.h as int),
        i,
        c * d.q,
        d.p as int,
        d.n as int,
    )
    &&& holds_outputs(
        e,
        m,
        channel(d, m0, bb, hh, i),
        at2(bb, hh, d.h as int),
        i,
        c,
        d.t(),
        d.bh(),
        d.q as int,
        d.p as int,
        d.n as int,
    )
}

/// The state is that after `l` positions.
spec fn holds_state(
    e: spec_fn(int) -> int,
    m: SsdMem,
    ch: Channel,
    s: int,
    i: int,
    l: int,
    p: int,
    n: int,
) -> bool {
    forall|x: int|
        #![trigger at3(s, i, x, p, n)]
        0 <= x < n ==> m[SsdBuf::StatePn](at3(s, i, x, p, n)) == state_after(e, ch, l, x)
}

/// The first `c` chunks of outputs are done, the others hold what they contribute to themselves.
spec fn holds_outputs(
    e: spec_fn(int) -> int,
    m: SsdMem,
    ch: Channel,
    s: int,
    i: int,
    c: int,
    t: int,
    bh: int,
    q: int,
    p: int,
    n: int,
) -> bool {
    forall|k: int, j: int|
        #![trigger at4(k, s, j, i, bh, q, p)]
        0 <= k < t && 0 <= j < q ==> m[SsdBuf::YIntra](at4(k, s, j, i, bh, q, p)) == (if k < c {
            output_at(e, ch, n, k * q + j)
        } else {
            own(e, ch, n, k * q, j)
        })
}

proof fn lemma_reached(
    d: SsdDims,
    has_d: bool,
    e: spec_fn(int) -> int,
    trace: Seq<SsdMem>,
    bb: int,
    hh: int,
    i: int,
    c: int,
)
    requires
        d.in_range(),
        d.l % d.q == 0,
        is_exponential(e),
        ran(e, ssd_steps(d, has_d), trace),
        is_channel(d, bb, hh, i),
        decays(channel(d, trace[0], bb, hh, i)),
        0 <= c <= d.t(),
    ensures
        reached(d, e, trace[0], trace[9 + 8 * c], bb, hh, i, c),
    decreases c,
{
    let steps = ssd_steps(d, has_d);
    if c == 0 {
        let sub = trace.subrange(0, 10);
        lemma_run_steps(d, has_d, 0, 0);
        assert forall|j: int| 0 <= j < 9 implies #[trigger] went(e, ssd_prologue(d), sub, j) by {
            assert(went(e, steps, trace, j));
        }
        lemma_prologue(d, e, sub, bb, hh, i);
        assert(0 * d.q == 0);
    } else {
        let b = c - 1;
        lemma_reached(d, has_d, e, trace, bb, hh, i, b);
        let sub = trace.subrange(9 + 8 * b, 9 + 8 * b + 9);
        lemma_run_steps(d, has_d, b, 0);
        assert forall|j: int| 0 <= j < 8 implies #[trigger] went(e, ssd_chunk(d, b), sub, j) by {
            lemma_run_steps(d, has_d, b, j);
            assert(went(e, steps, trace, 9 + 8 * b + j));
        }
        lemma_chunk(d, e, trace[0], sub, b, bb, hh, i);
        assert(b * d.q + d.q == c * d.q) by (nonlinear_arith)
            requires
                b == c - 1,
        ;
    }
}

/// The chunked form is the recurrence: whatever the operands and the states hold, and however long
/// the chunks are, output `t` of every channel is what reading the state after `t + 1` inputs gives,
/// where each input first decays the state and then adds its own spread to it undecayed.
pub proof fn chunked_form_is_the_recurrence(d: SsdDims, has_d: bool)
    requires
        d.in_range(),
        d.l % d.q == 0,
    ensures
        computes_recurrence(ssd_steps(d, has_d), d, has_d),
{
    let steps = ssd_steps(d, has_d);
    let (l, h, p, n, q) = (d.l as int, d.h as int, d.p as int, d.n as int, d.q as int);
    assert forall|e: spec_fn(int) -> int, trace: Seq<SsdMem>, bb: int, hh: int, i: int, t: int|
        #![trigger ran(e, steps, trace), is_channel(d, bb, hh, i), at4(bb, t, hh, i, d.l as int, d.h as int, d.p as int)]
        is_exponential(e) && ran(e, steps, trace) && all_decay(d, trace[0]) && is_channel(d, bb, hh, i)
            && 0 <= t < d.l implies trace.last()[SsdBuf::Y](
        at4(bb, t, hh, i, d.l as int, d.h as int, d.p as int),
    ) == output_at(e, channel(d, trace[0], bb, hh, i), d.n as int, t) + skip(
        d,
        trace[0],
        bb,
        hh,
        i,
        t,
        has_d,
    ) by {
        lemma_counts(d);
        lemma_run_steps(d, has_d, 0, 0);
        let end = 9 + 8 * d.t();
        lemma_reached(d, has_d, e, trace, bb, hh, i, d.t());
        assert(went(e, steps, trace, end));
        assert(gives_outputs(trace[end], trace[end + 1], d.b as int, l, h, p, q, has_d));
        let (c, j) = (t / q, t % q);
        vstd::arithmetic::div_mod::lemma_fundamental_div_mod(t, q);
        assert(q * c == c * q) by (nonlinear_arith);
        assert(0 <= c < d.t()) by (nonlinear_arith)
            requires
                t == c * q + j,
                0 <= j < q,
                0 <= t < d.t() * q,
        ;
        let place = at4(c, at2(bb, hh, h), j, i, d.bh(), q, p);
        assert(trace[end][SsdBuf::YIntra](place) == output_at(
            e,
            channel(d, trace[0], bb, hh, i),
            n,
            c * q + j,
        ));
    }
}

/// The states that the chunked form leaves are those of the recurrence after the last input.
pub proof fn chunked_form_leaves_the_states(d: SsdDims, has_d: bool)
    requires
        d.in_range(),
        d.l % d.q == 0,
    ensures
        leaves_states(ssd_steps(d, has_d), d),
{
    let steps = ssd_steps(d, has_d);
    assert forall|e: spec_fn(int) -> int, trace: Seq<SsdMem>, bb: int, hh: int, i: int, x: int|
        #![trigger ran(e, steps, trace), is_channel(d, bb, hh, i), at3(at2(bb, hh, d.h as int), i, x, d.p as int, d.n as int)]
        is_exponential(e) && ran(e, steps, trace) && all_decay(d, trace[0]) && is_channel(d, bb, hh, i)
            && 0 <= x < d.n implies trace.last()[SsdBuf::StatePn](
        at3(at2(bb, hh, d.h as int), i, x, d.p as int, d.n as int),
    ) == state_after(e, channel(d, trace[0], bb, hh, i), d.l as int, x) by {
        lemma_counts(d);
        lemma_run_steps(d, has_d, 0, 0);
        let end = 9 + 8 * d.t();
        lemma_reached(d, has_d, e, trace, bb, hh, i, d.t());
        assert(went(e, steps, trace, end));
        assert(gives_outputs(
            trace[end],
            trace[end + 1],
            d.b as int,
            d.l as int,
            d.h as int,
            d.p as int,
            d.q as int,
            has_d,
        ));
    }
}

/// The length of the chunks does not show in what comes out.
pub proof fn chunk_length_does_not_show(
    d: SsdDims,
    r: SsdDims,
    has_d: bool,
    e: spec_fn(int) -> int,
    left: Seq<SsdMem>,
    right: Seq<SsdMem>,
    bb: int,
    hh: int,
    i: int,
    t: int,
)
    requires
        d.in_range(),
        r.in_range(),
        d.l % d.q == 0,
        r.l % r.q == 0,
        r == (SsdDims { q: r.q, ..d }),
        is_exponential(e),
        ran(e, ssd_steps(d, has_d), left),
        ran(e, ssd_steps(r, has_d), right),
        left[0] == right[0],
        all_decay(d, left[0]),
        is_channel(d, bb, hh, i),
        0 <= t < d.l,
    ensures
        left.last()[SsdBuf::Y](at4(bb, t, hh, i, d.l as int, d.h as int, d.p as int))
            == right.last()[SsdBuf::Y](at4(bb, t, hh, i, d.l as int, d.h as int, d.p as int)),
{
    chunked_form_is_the_recurrence(d, has_d);
    chunked_form_is_the_recurrence(r, has_d);
    assert forall|bb: int, hh: int, i: int| #[trigger] is_channel(r, bb, hh, i) implies decays(
        channel(r, right[0], bb, hh, i),
    ) by {
        assert(is_channel(d, bb, hh, i));
        assert(channel(r, right[0], bb, hh, i) == channel(d, left[0], bb, hh, i));
    }
    assert(channel(r, right[0], bb, hh, i) == channel(d, left[0], bb, hh, i));
    assert(is_channel(r, bb, hh, i));
}

} // verus!
