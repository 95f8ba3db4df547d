//! The state-space dual, chunk by chunk.

use vstd::prelude::*;

use crate::dtype::{is_float3, DType};
use crate::error::KernelError;
use crate::ssm::mamba2_chunked_helpers::{spec_split_blh, split_blh};
use crate::ssm::mamba2_meaning::{
    chunked_form_is_the_recurrence, chunked_form_leaves_the_states, computes_recurrence,
    leaves_states,
};

verus! {

/// The tensors of the chunked form: the operands, then the workspace.
#[derive(Clone, Copy, Debug, PartialEq, Eq, Structural)]
pub enum SsdBuf {
    X,
    Dt,
    A,
    B,
    C,
    DSkip,
    Y,
    AlphaCum,
    CQn,
    BQn,
    DtXQp,
    BNq,
    DtXPq,
    AIntra,
    ADecayed,
    YIntra,
    StatePn,
    StatePnBf16,
    CScaled,
    DtXScaledPq,
    YOffChunk,
    StateUpdChunk,
}

/// A run of elements of a tensor.
#[derive(Clone, Copy, Debug, PartialEq, Eq, Structural)]
pub struct Part {
    pub buf: SsdBuf,
    pub start: usize,
    pub end: usize,
}

/// One device operation of the chunked form.
#[derive(Clone, Copy, Debug, PartialEq, Eq, Structural)]
pub enum SsdStep {
    AlphaCum { b: u32, h: u32, t: u32, q: u32 },
    Permute { src: SsdBuf, dst: SsdBuf, b: u32, l: u32, h: u32, x: u32, q: u32 },
    DtX { b: u32, l: u32, h: u32, p: u32, q: u32 },
    Transpose { src: SsdBuf, dst: SsdBuf, bat: u32, r: u32, c: u32 },
    /// `c[m, n] = a[m, k] * b[n, k]` for whole tensors.
    Bmm { a: SsdBuf, b: SsdBuf, c: SsdBuf, m: u32, n: u32, k: u32, batch: u32 },
    DecayMask { bht: u32, q: u32 },
    StateCast { n: usize },
    /// Rows of `src` times the exponential of the running decay, or with `from_end` of what is left
    /// of it.
    ColExpMul { src: Part, decay: Part, dst: SsdBuf, bat: u32, r: u32, c: u32, from_end: bool },
    /// Columns of `src` times the exponential of one of `q` running decays, or with `from_end` of
    /// what is left of it.
    RowExpMul {
        src: Part,
        decay: Part,
        dst: SsdBuf,
        bat: u32,
        r: u32,
        c: u32,
        q: u32,
        from_end: bool,
    },
    /// As `Bmm`, with a part of a tensor as second operand.
    BmmPart { a: SsdBuf, b: Part, c: SsdBuf, m: u32, n: u32, k: u32, batch: u32 },
    AddYOff { bh: u32, t: u32, q: u32, p: u32, chunk: u32 },
    StateDecay { bh: u32, p: u32, n: u32, t: u32, q: u32, chunk: u32 },
    AddState { n: usize },
    /// The outputs in their order, and with `has_d` the skip connection added.
    Post { b: u32, l: u32, h: u32, p: u32, q: u32, has_d: bool },
}

/// Batch, sequence length, heads, head width, states, chunk length.
#[derive(Clone, Copy, Debug, PartialEq, Eq, Structural)]
pub struct SsdDims {
    pub b: u32,
    pub l: u32,
    pub h: u32,
    pub p: u32,
    pub n: u32,
    pub q: u32,
}

impl SsdDims {
    /// The number of chunks.
    pub open spec fn t(&self) -> int {
        (self.l / self.q) as int
    }

    /// The number of states.
    pub open spec fn bh(&self) -> int {
        self.b * self.h
    }

    pub open spec fn bht(&self) -> int {
        self.bh() * self.t()
    }

    /// All counts fit their machine types.
    pub open spec fn in_range(&self) -> bool {
        &&& self.q > 0
        &&& self.bh() <= u32::MAX
        &&& self.bht() <= u32::MAX
        &&& self.bht() * self.q <= u32::MAX
        &&& self.q * self.n <= u32::MAX
        &&& self.p * self.q <= u32::MAX
        &&& self.q * self.q <= u32::MAX
        &&& self.bh() * self.p <= usize::MAX
        &&& self.bh() * (self.q * self.n) <= usize::MAX
        &&& self.bh() * (self.p * self.q) <= usize::MAX
        &&& self.bh() * (self.p * self.n) <= usize::MAX
        &&& self.t() * (self.bh() * (self.q * self.n)) <= usize::MAX
        &&& self.t() * (self.bh() * (self.p * self.q)) <= usize::MAX
        &&& self.t() * (self.bh() * (self.q * self.q)) <= usize::MAX
    }

    /// The elements of a tensor of the workspace that one chunk holds.
    pub open spec fn per_chunk(&self, buf: SsdBuf) -> int {
        match buf {
            SsdBuf::AlphaCum => self.bh() * self.q,
            SsdBuf::CQn | SsdBuf::BQn | SsdBuf::BNq => self.bh() * (self.q * self.n),
            SsdBuf::DtXQp | SsdBuf::DtXPq | SsdBuf::YIntra => self.bh() * (self.p * self.q),
            _ => self.bh() * (self.q * self.q),
        }
    }

    /// The elements of a tensor of the workspace.
    pub open spec fn elems(&self, buf: SsdBuf) -> int {
        match buf {
            SsdBuf::StatePn | SsdBuf::StatePnBf16 | SsdBuf::StateUpdChunk => self.bh() * (self.p
                * self.n),
            SsdBuf::CScaled => self.per_chunk(SsdBuf::CQn),
            SsdBuf::DtXScaledPq | SsdBuf::YOffChunk => self.per_chunk(SsdBuf::DtXPq),
            SsdBuf::AlphaCum => self.bht() * self.q,
            _ => self.t() * self.per_chunk(buf),
        }
    }
}

/// Chunk `c` of a tensor.
pub open spec fn chunk_part(d: SsdDims, buf: SsdBuf, c: int) -> Part {
    Part {
        buf,
        start: (c * d.per_chunk(buf)) as usize,
        end: (c * d.per_chunk(buf) + d.per_chunk(buf)) as usize,
    }
}

/// The tensors of the workspace with their elements, in the order they are allocated.
pub open spec fn ssd_workspace(d: SsdDims) -> Seq<(SsdBuf, usize)> {
    seq![
        (SsdBuf::AlphaCum, d.elems(SsdBuf::AlphaCum) as usize),
        (SsdBuf::CQn, d.elems(SsdBuf::CQn) as usize),
        (SsdBuf::BQn, d.elems(SsdBuf::BQn) as usize),
        (SsdBuf::DtXQp, d.elems(SsdBuf::DtXQp) as usize),
        (SsdBuf::BNq, d.elems(SsdBuf::BNq) as usize),
        (SsdBuf::DtXPq, d.elems(SsdBuf::DtXPq) as usize),
        (SsdBuf::AIntra, d.elems(SsdBuf::AIntra) as usize),
        (SsdBuf::ADecayed, d.elems(SsdBuf::ADecayed) as usize),
        (SsdBuf::YIntra, d.elems(SsdBuf::YIntra) as usize),
        (SsdBuf::StatePn, d.elems(SsdBuf::StatePn) as usize),
        (SsdBuf::StatePnBf16, d.elems(SsdBuf::StatePnBf16) as usize),
        (SsdBuf::CScaled, d.elems(SsdBuf::CScaled) as usize),
        (SsdBuf::DtXScaledPq, d.elems(SsdBuf::DtXScaledPq) as usize),
        (SsdBuf::YOffChunk, d.elems(SsdBuf::YOffChunk) as usize),
        (SsdBuf::StateUpdChunk, d.elems(SsdBuf::StateUpdChunk) as usize),
    ]
}

/// Before the loop: decays, operands in chunk order, and what each chunk contributes to itself.
pub open spec fn ssd_prologue(d: SsdDims) -> Seq<SsdStep> {
    let bht = d.bht() as u32;
    seq![
        SsdStep::AlphaCum { b: d.b, h: d.h, t: d.t() as u32, q: d.q },
        SsdStep::Permute {
            src: SsdBuf::C,
            dst: SsdBuf::CQn,
            b: d.b,
            l: d.l,
            h: d.h,
            x: d.n,
            q: d.q,
        },
        SsdStep::Permute {
            src: SsdBuf::B,
            dst: SsdBuf::BQn,
            b: d.b,
            l: d.l,
            h: d.h,
            x: d.n,
            q: d.q,
        },
        SsdStep::DtX { b: d.b, l: d.l, h: d.h, p: d.p, q: d.q },
        SsdStep::Transpose { src: SsdBuf::BQn, dst: SsdBuf::BNq, bat: bht, r: d.q, c: d.n },
        SsdStep::Transpose { src: SsdBuf::DtXQp, dst: SsdBuf::DtXPq, bat: bht, r: d.q, c: d.p },
        SsdStep::Bmm {
            a: SsdBuf::CQn,
            b: SsdBuf::BQn,
            c: SsdBuf::AIntra,
            m: d.q,
            n: d.q,
            k: d.n,
            batch: bht,
        },
        SsdStep::DecayMask { bht, q: d.q },
        SsdStep::Bmm {
            a: SsdBuf::ADecayed,
            b: SsdBuf::DtXPq,
            c: SsdBuf::YIntra,
            m: d.q,
            n: d.p,
            k: d.q,
            batch: bht,
        },
    ]
}

/// The work on chunk `c`: the state's contribution to its output, then the state after it.
pub open spec fn ssd_chunk(d: SsdDims, c: int) -> Seq<SsdStep> {
    let bh = d.bh() as u32;
    let t = d.t() as u32;
    let chunk = c as u32;
    let pn = (d.bh() * (d.p * d.n)) as usize;
    seq![
        SsdStep::StateCast { n: pn },
        SsdStep::ColExpMul {
            src: chunk_part(d, SsdBuf::CQn, c),
            decay: chunk_part(d, SsdBuf::AlphaCum, c),
            dst: SsdBuf::CScaled,
            bat: bh,
            r: d.q,
            c: d.n,
            from_end: false,
        },
        SsdStep::Bmm {
            a: SsdBuf::CScaled,
            b: SsdBuf::StatePnBf16,
            c: SsdBuf::YOffChunk,
            m: d.q,
            n: d.p,
            k: d.n,
            batch: bh,
        },
        SsdStep::AddYOff { bh, t, q: d.q, p: d.p, chunk },
        SsdStep::RowExpMul {
            src: chunk_part(d, SsdBuf::DtXPq, c),
            decay: chunk_part(d, SsdBuf::AlphaCum, c),
            dst: SsdBuf::DtXScaledPq,
            bat: bh,
            r: d.p,
            c: d.q,
            q: d.q,
            from_end: true,
        },
        SsdStep::BmmPart {
            a: SsdBuf::DtXScaledPq,
            b: chunk_part(d, SsdBuf::BNq, c),
            c: SsdBuf::StateUpdChunk,
            m: d.p,
            n: d.n,
            k: d.q,
            batch: bh,
        },
        SsdStep::StateDecay { bh, p: d.p, n: d.n, t, q: d.q, chunk },
        SsdStep::AddState { n: pn },
    ]
}

/// The work on the first `n` chunks, in order.
pub open spec fn ssd_chunks(d: SsdDims, n: int) -> Seq<SsdStep>
    decreases n,
{
    if n <= 0 {
        seq![]
    } else {
        ssd_chunks(d, n - 1) + ssd_chunk(d, n - 1)
    }
}

/// The whole run.
pub open spec fn ssd_steps(d: SsdDims, has_d: bool) -> Seq<SsdStep> {
    (ssd_prologue(d) + ssd_chunks(d, d.t())).push(
        SsdStep::Post { b: d.b, l: d.l, h: d.h, p: d.p, q: d.q, has_d },
    )
}

/// What is wrong with the dimensions or the element type, if anything, but for their product.
pub open spec fn ssd_shape_error(d: SsdDims, dtype: DType) -> Option<KernelError> {
    if d.l % d.q != 0 {
        Some(
            KernelError::Cuda2(
                "mamba2_ssd_chunked: L={} не делится на Q={}",
                d.l as u64,
                d.q as u64,
            ),
        )
    } else if d.q % 16 != 0 {
        Some(
            KernelError::Cuda1(
                "mamba2_ssd_chunked: Q={} должно быть кратно 16 (bmm m16n8k16)",
                d.q as u64,
            ),
        )
    } else if d.n % 16 != 0 {
        Some(KernelError::Cuda1("mamba2_ssd_chunked: N={} должно быть кратно 16", d.n as u64))
    } else if d.p % 16 != 0 {
        Some(KernelError::Cuda1("mamba2_ssd_chunked: P={} должно быть кратно 16", d.p as u64))
    } else if !is_float3(dtype) {
        Some(KernelError::CudaDType("mamba2_ssd_chunked: unsupported dtype {}", dtype))
    } else {
        None
    }
}

/// What is wrong with a request, if anything: the dimensions, the element type, or more positions
/// than a grid holds.
pub open spec fn ssd_error(d: SsdDims, dtype: DType) -> Option<KernelError> {
    if ssd_shape_error(d, dtype) is Some {
        ssd_shape_error(d, dtype)
    } else if spec_split_blh(d.b * d.l * d.h) is None {
        Some(
            KernelError::Cuda1(
                "permute_blhx: B*L*H={} does not fit grid.y*grid.z",
                (d.b * d.l * d.h) as u64,
            ),
        )
    } else {
        None
    }
}

/// The workspace and the device operations of the chunked form, in order.
#[derive(Debug, PartialEq, Eq)]
pub struct SsdPlan {
    pub workspace: Vec<(SsdBuf, usize)>,
    pub steps: Vec<SsdStep>,
}

/// The chunked kernels.
pub struct Mamba2SsdChunkedKernels;

proof fn lemma_ssd_products(d: SsdDims)
    requires
        d.in_range(),
    ensures
        0 <= d.bh(),
        0 <= d.bht(),
        0 <= d.q * d.n,
        0 <= d.p * d.q,
        0 <= d.q * d.q,
        0 <= d.p * d.n,
        d.n * d.q == d.q * d.n,
        d.q * d.p == d.p * d.q,
        0 <= d.bh() * (d.q * d.n),
        0 <= d.bh() * (d.p * d.q),
        0 <= d.bh() * (d.q * d.q),
        0 <= d.bh() * (d.p * d.n),
        0 <= d.bh() * d.q,
        0 <= d.bht() * d.q,
        d.bht() * d.q == d.t() * (d.bh() * d.q),
        d.bh() * d.p * d.n == d.bh() * (d.p * d.n),
        d.t() * d.bh() == d.bht(),
        d.t() * d.bh() * (d.q * d.q) == d.t() * (d.bh() * (d.q * d.q)),
{
    let (b, h, p, n, q) = (d.b as int, d.h as int, d.p as int, d.n as int, d.q as int);
    let bh = d.bh();
    let t = d.t();
    assert(0 <= b * h && 0 <= q * n && 0 <= p * q && 0 <= q * q && 0 <= p * n && n * q == q * n && q * p
        == p * q) by (nonlinear_arith)
        requires
            b >= 0,
            h >= 0,
            p >= 0,
            n >= 0,
            q >= 0,
    ;
    let (qn, pq, qq, pn) = (q * n, p * q, q * q, p * n);
    assert(0 <= bh * qn && 0 <= bh * pq && 0 <= bh * qq && 0 <= bh * pn && 0 <= bh * q && 0 <= bh * t
        && 0 <= bh * t * q && bh * t * q == t * (bh * q)) by (nonlinear_arith)
        requires
            bh >= 0,
            qn >= 0,
            pq >= 0,
            qq >= 0,
            pn >= 0,
            q >= 0,
            t >= 0,
    ;
    assert(bh * p * n == bh * (p * n) && t * bh == bh * t && t * bh * qq == t * (bh * qq))
        by (nonlinear_arith);
}

/// The chunks of all states make up all positions.
proof fn lemma_ssd_positions(d: SsdDims)
    requires
        d.q > 0,
        d.l % d.q == 0,
    ensures
        d.bht() * d.q == d.b * d.l * d.h,
{
    let (b, h, l, q, t) = (d.b as int, d.h as int, d.l as int, d.q as int, d.t());
    assert(l == t * q) by {
        vstd::arithmetic::div_mod::lemma_fundamental_div_mod(l, q);
        assert(q * t == t * q) by (nonlinear_arith);
    }
    assert(b * h * t * q == b * (t * q) * h) by (nonlinear_arith);
}

proof fn lemma_ssd_chunk_end(c: int, t: int, p: int)
    requires
        0 <= c < t,
        0 <= p,
    ensures
        0 <= c * p,
        c * p + p <= t * p,
{
    assert(0 <= c * p && c * p + p <= t * p) by (nonlinear_arith)
        requires
            0 <= c < t,
            0 <= p,
    ;
}

impl Mamba2SsdChunkedKernels {
    /// Plans the chunked form; the chunks have to divide the sequence, and chunk length, states
    /// and head width have to be multiples of sixteen. With `has_d` there is a skip connection.
    pub fn ssd(&self, d: SsdDims, has_d: bool, dtype: DType) -> (r: Result<SsdPlan, KernelError>)
        requires
            d.q > 0,
            ssd_shape_error(d, dtype) is None ==> d.in_range(),
        ensures
            match r {
                Err(e) => ssd_error(d, dtype) == Some(e),
                Ok(p) => {
                    &&& ssd_error(d, dtype) is None
                    &&& p.workspace@ == ssd_workspace(d)
                    &&& p.steps@ == ssd_steps(d, has_d)
                },
            },
            r matches Ok(p) ==> computes_recurrence(p.steps@, d, has_d) && leaves_states(p.steps@, d),
    {
        let (b, l, h, p, n, q): (u32, u32, u32, u32, u32, u32) = (d.b, d.l, d.h, d.p, d.n, d.q);
        if l % q != 0 {
            return Err(
                KernelError::Cuda2(
                    "mamba2_ssd_chunked: L={} не делится на Q={}",
                    l as u64,
                    q as u64,
                ),
            );
        }
        if q % 16 != 0 {
            return Err(
                KernelError::Cuda1(
                    "mamba2_ssd_chunked: Q={} должно быть кратно 16 (bmm m16n8k16)",
                    q as u64,
                ),
            );
        }
        if n % 16 != 0 {
            return Err(
                KernelError::Cuda1("mamba2_ssd_chunked: N={} должно быть кратно 16", n as u64),
            );
        }
        if p % 16 != 0 {
            return Err(
                KernelError::Cuda1("mamba2_ssd_chunked: P={} должно быть кратно 16", p as u64),
            );
        }
        match dtype {
            DType::F32 | DType::F16 | DType::BF16 => {},
            _ => {
                return Err(
                    KernelError::CudaDType("mamba2_ssd_chunked: unsupported dtype {}", dtype),
                );
            },
        }
        proof {
            lemma_ssd_products(d);
        }
        let t: u32 = l / q;
        let bh: u32 = b * h;
        let bht: u32 = bh * t;
        let blh: u32 = bht * q;
        proof {
            lemma_ssd_positions(d);
        }
        if split_blh(blh).is_none() {
            return Err(
                KernelError::Cuda1(
                    "permute_blhx: B*L*H={} does not fit grid.y*grid.z",
                    blh as u64,
                ),
            );
        }
        let qn: usize = (bh as usize) * ((q * n) as usize);
        let pq: usize = (bh as usize) * ((p * q) as usize);
        let pn: usize = (bh as usize) * (p as usize) * (n as usize);
        let tt: usize = t as usize;
        let qq: usize = tt * (bh as usize) * ((q * q) as usize);
        let workspace: Vec<(SsdBuf, usize)> = vec![
            (SsdBuf::AlphaCum, blh as usize),
            (SsdBuf::CQn, tt * qn),
            (SsdBuf::BQn, tt * qn),
            (SsdBuf::DtXQp, tt * pq),
            (SsdBuf::BNq, tt * qn),
            (SsdBuf::DtXPq, tt * pq),
            (SsdBuf::AIntra, qq),
            (SsdBuf::ADecayed, qq),
            (SsdBuf::YIntra, tt * pq),
            (SsdBuf::StatePn, pn),
            (SsdBuf::StatePnBf16, pn),
            (SsdBuf::CScaled, qn),
            (SsdBuf::DtXScaledPq, pq),
            (SsdBuf::YOffChunk, pq),
            (SsdBuf::StateUpdChunk, pn),
        ];
        proof {
            assert(workspace@ =~= ssd_workspace(d));
        }
        let mut steps: Vec<SsdStep> = vec![
            SsdStep::AlphaCum { b, h, t, q },
            SsdStep::Permute { src: SsdBuf::C, dst: SsdBuf::CQn, b, l, h, x: n, q },
            SsdStep::Permute { src: SsdBuf::B, dst: SsdBuf::BQn, b, l, h, x: n, q },
            SsdStep::DtX { b, l, h, p, q },
            SsdStep::Transpose { src: SsdBuf::BQn, dst: SsdBuf::BNq, bat: bht, r: q, c: n },
            SsdStep::Transpose { src: SsdBuf::DtXQp, dst: SsdBuf::DtXPq, bat: bht, r: q, c: p },
            SsdStep::Bmm {
                a: SsdBuf::CQn,
                b: SsdBuf::BQn,
                c: SsdBuf::AIntra,
                m: q,
                n: q,
                k: n,
                batch: bht,
            },
            SsdStep::DecayMask { bht, q },
            SsdStep::Bmm {
                a: SsdBuf::ADecayed,
                b: SsdBuf::DtXPq,
                c: SsdBuf::YIntra,
                m: q,
                n: p,
                k: q,
                batch: bht,
            },
        ];
        proof {
            assert(steps@ =~= ssd_prologue(d));
        }
        let mut chunk: u32 = 0;
        while chunk < t
            invariant
                d.in_range(),
                (b, l, h, p, n, q) == (d.b, d.l, d.h, d.p, d.n, d.q),
                chunk <= t,
                t == d.t(),
                bh == d.bh(),
                qn == d.bh() * (d.q * d.n),
                pq == d.bh() * (d.p * d.q),
                pn == d.bh() * (d.p * d.n),
                steps@ == ssd_prologue(d) + ssd_chunks(d, chunk as int),
            decreases t - chunk,
        {
            let ghost before = steps@;
            proof {
                lemma_ssd_products(d);
                lemma_ssd_chunk_end(chunk as int, d.t(), d.bh() * (d.q * d.n));
                lemma_ssd_chunk_end(chunk as int, d.t(), d.bh() * (d.p * d.q));
                lemma_ssd_chunk_end(chunk as int, d.t(), d.bh() * d.q);
            }
            let aq: usize = (bh as usize) * (q as usize);
            let c: usize = chunk as usize;
            let alpha = Part { buf: SsdBuf::AlphaCum, start: c * aq, end: c * aq + aq };
            steps.push(SsdStep::StateCast { n: pn });
            steps.push(
                SsdStep::ColExpMul {
                    src: Part { buf: SsdBuf::CQn, start: c * qn, end: c * qn + qn },
                    decay: alpha,
                    dst: SsdBuf::CScaled,
                    bat: bh,
                    r: q,
                    c: n,
                    from_end: false,
                },
            );
            steps.push(
                SsdStep::Bmm {
                    a: SsdBuf::CScaled,
                    b: SsdBuf::StatePnBf16,
                    c: SsdBuf::YOffChunk,
                    m: q,
                    n: p,
                    k: n,
                    batch: bh,
                },
            );
            steps.push(SsdStep::AddYOff { bh, t, q, p, chunk });
            steps.push(
                SsdStep::RowExpMul {
                    src: Part { buf: SsdBuf::DtXPq, start: c * pq, end: c * pq + pq },
                    decay: alpha,
                    dst: SsdBuf::DtXScaledPq,
                    bat: bh,
                    r: p,
                    c: q,
                    q,
                    from_end: true,
                },
            );
            steps.push(
                SsdStep::BmmPart {
                    a: SsdBuf::DtXScaledPq,
                    b: Part { buf: SsdBuf::BNq, start: c * qn, end: c * qn + qn },
                    c: SsdBuf::StateUpdChunk,
                    m: p,
                    n,
                    k: q,
                    batch: bh,
                },
            );
            steps.push(SsdStep::StateDecay { bh, p, n, t, q, chunk });
            steps.push(SsdStep::AddState { n: pn });
            proof {
                assert(steps@ =~= before + ssd_chunk(d, chunk as int));
                assert(steps@ =~= ssd_prologue(d) + ssd_chunks(d, chunk + 1));
            }
            chunk = chunk + 1;
        }
        steps.push(SsdStep::Post { b, l, h, p, q, has_d });
        proof {
            chunked_form_is_the_recurrence(d, has_d);
            chunked_form_leaves_the_states(d, has_d);
        }
        Ok(SsdPlan { workspace, steps })
    }
}

/// A tensor that the loop walks chunk by chunk.
pub open spec fn is_chunked_buf(buf: SsdBuf) -> bool {
    buf == SsdBuf::AlphaCum || buf == SsdBuf::CQn || buf == SsdBuf::BNq || buf == SsdBuf::DtXPq
}

/// The chunks of a tensor of the workspace lie one behind the other and make it up.
pub proof fn ssd_chunks_partition(d: SsdDims, buf: SsdBuf, c: int)
    requires
        d.in_range(),
        is_chunked_buf(buf),
        0 <= c < d.t(),
    ensures
        chunk_part(d, buf, 0).start == 0,
        chunk_part(d, buf, c).start <= chunk_part(d, buf, c).end <= d.elems(buf),
        c + 1 < d.t() ==> chunk_part(d, buf, c).end == chunk_part(d, buf, c + 1).start,
        c + 1 == d.t() ==> chunk_part(d, buf, c).end == d.elems(buf),
{
    lemma_ssd_products(d);
    let p = d.per_chunk(buf);
    lemma_ssd_chunk_end(c, d.t(), p);
    assert((c + 1) * p == c * p + p) by (nonlinear_arith);
    if c + 1 < d.t() {
        lemma_ssd_chunk_end(c + 1, d.t(), p);
    }
}

/// A product of whole tensors takes up all of each.
pub open spec fn bmm_fills(
    d: SsdDims,
    a: SsdBuf,
    b: int,
    c: SsdBuf,
    m: u32,
    n: u32,
    k: u32,
    batch: u32,
) -> bool {
    &&& batch * m * k == d.elems(a)
    &&& batch * n * k == b
    &&& batch * m * n == d.elems(c)
}

/// No product reaches beyond the tensors it works on, and none leaves a part of them out: each
/// takes up the whole of its tensors, or of the chunk that it is given.
pub proof fn ssd_products_in_bounds(d: SsdDims, i: int, c: int, j: int)
    requires
        d.in_range(),
        0 <= i < ssd_prologue(d).len(),
        0 <= c < d.t(),
        0 <= j < ssd_chunk(d, c).len(),
    ensures
        ssd_prologue(d)[i] matches SsdStep::Bmm { a, b, c, m, n, k, batch } ==> bmm_fills(
            d,
            a,
            d.elems(b),
            c,
            m,
            n,
            k,
            batch,
        ),
        ssd_chunk(d, c)[j] matches SsdStep::Bmm { a, b, c, m, n, k, batch } ==> bmm_fills(
            d,
            a,
            d.elems(b),
            c,
            m,
            n,
            k,
            batch,
        ),
        ssd_chunk(d, c)[j] matches SsdStep::BmmPart { a, b, c, m, n, k, batch } ==> bmm_fills(
            d,
            a,
            b.end - b.start,
            c,
            m,
            n,
            k,
            batch,
        ),
{
    lemma_ssd_products(d);
    lemma_ssd_chunk_end(c, d.t(), d.per_chunk(SsdBuf::BNq));
    let (bh, t, p, n, q) = (d.bh(), d.t(), d.p as int, d.n as int, d.q as int);
    let bht = d.bht();
    assert(bht * q * n == t * (bh * (q * n)) && bht * q * q == t * (bh * (q * q)) && bht * p * q == t * (
    bh * (p * q)) && bht * q * p == t * (bh * (p * q))) by (nonlinear_arith)
        requires
            bht == bh * t,
    ;
    assert(bh * q * n == bh * (q * n) && bh * p * n == bh * (p * n) && bh * q * p == bh * (p * q) && bh
        * p * q == bh * (p * q) && bh * n * q == bh * (q * n)) by (nonlinear_arith);
}

/// Where the chunked form is accepted, every product in it meets what the product kernels ask:
/// rows and depth a multiple of sixteen, columns a multiple of eight.
pub proof fn ssd_products_aligned(d: SsdDims, dtype: DType, i: int)
    requires
        d.in_range(),
        ssd_error(d, dtype) is None,
        0 <= i < ssd_prologue(d).len(),
    ensures
        ssd_prologue(d)[i] matches SsdStep::Bmm { m, n, k, .. } ==> m % 16 == 0 && n % 8 == 0 && k
            % 16 == 0,
        forall|c: int, j: int|
            0 <= j < 8 ==> (#[trigger] ssd_chunk(d, c)[j] matches SsdStep::Bmm { m, n, k, .. } ==> m
                % 16 == 0 && n % 8 == 0 && k % 16 == 0),
        forall|c: int, j: int|
            0 <= j < 8 ==> (#[trigger] ssd_chunk(d, c)[j] matches SsdStep::BmmPart { m, n, k, .. }
                ==> m % 16 == 0 && n % 8 == 0 && k % 16 == 0),
{
}

} // verus!
