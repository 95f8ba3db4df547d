//! The gated delta rule over a whole prompt, chunk by chunk.

use vstd::prelude::*;

use crate::arith::{ceil_div, div_ceil_u32};
use crate::error::KernelError;
use crate::launch::{launch1, spec_launch1, Call, Launch};
use crate::scan::chunk_meaning::{chunked_rule_is_the_rule, outputs_of_the_rule, states_of_the_rule};

verus! {

/// What a batched product `c = alpha * op(a) * op(b) + beta * c` of `m` by `k` with `k` by `n`
/// gets: where the operands start, which are transposed, the sizes, and the distance from one
/// matrix to the next. Offsets and strides are in elements.
#[derive(Clone, Copy, Debug, PartialEq, Eq, Structural)]
pub struct BmmArgs {
    pub off_a: u32,
    pub off_b: u32,
    pub off_c: u32,
    pub trans_a: bool,
    pub trans_b: bool,
    pub m: u32,
    pub n: u32,
    pub k: u32,
    pub stride_a: i64,
    pub stride_b: i64,
    pub stride_c: i64,
    pub batch: u32,
}

/// The primitives that the chunked rule is put together from.
pub struct ChunkScanKernels;

impl ChunkScanKernels {
    /// Running sums along `rows` rows of `n` elements, one thread per row.
    pub fn cumsum_lastdim(&self, rows: u32, n: u32) -> (r: Call<(u32, u32)>)
        ensures
            r == (Call {
                launch: spec_launch1("cumsum_lastdim_f32", ceil_div(rows as int, 128), 128),
                args: (rows, n),
            }),
    {
        Call {
            launch: launch1("cumsum_lastdim_f32", div_ceil_u32(rows, 128), 128),
            args: (rows, n),
        }
    }

    /// `rows` rows of `dim` elements scaled to a given length, one thread per row.
    pub fn l2norm_scale_lastdim(&self, rows: u32, dim: u32) -> (r: Call<(u32, u32)>)
        ensures
            r == (Call {
                launch: spec_launch1("l2norm_scale_lastdim_f32", ceil_div(rows as int, 128), 128),
                args: (rows, dim),
            }),
    {
        Call {
            launch: launch1("l2norm_scale_lastdim_f32", div_ceil_u32(rows, 128), 128),
            args: (rows, dim),
        }
    }

    /// `rows` rows of `dim` elements multiplied by one factor each.
    pub fn mul_rowwise(&self, rows: u32, dim: u32) -> (r: Call<(u32, u32)>)
        ensures
            r == (Call {
                launch: Launch {
                    kernel: "mul_rowwise_f32",
                    grid: (rows, ceil_div(dim as int, 128) as u32, 1),
                    block: (128, 1, 1),
                    shared_mem_bytes: 0,
                },
                args: (rows, dim),
            }),
    {
        Call {
            launch: Launch {
                kernel: "mul_rowwise_f32",
                grid: (rows, div_ceil_u32(dim, 128), 1),
                block: (128, 1, 1),
                shared_mem_bytes: 0,
            },
            args: (rows, dim),
        }
    }

    /// Products of pairs of matrices, one thread per element of the result.
    pub fn bmm(&self, args: BmmArgs) -> (r: Call<BmmArgs>)
        requires
            args.batch * args.m * args.n + 255 <= u64::MAX,
        ensures
            r == (Call {
                launch: spec_launch1("bmm_f32", ceil_div(args.batch * args.m * args.n, 256), 256),
                args,
            }),
    {
        let (m, n, batch): (u32, u32, u32) = (args.m, args.n, args.batch);
        proof {
            assert(0 <= batch * m <= u32::MAX * u32::MAX) by (nonlinear_arith);
        }
        let bm: u64 = (batch as u64) * (m as u64);
        let total: u64 = bm * (n as u64);
        Call { launch: launch1("bmm_f32", ((total + 255) / 256) as u32, 256), args }
    }
}

/// The tensors of the chunked rule: the operands, then the workspace.
#[derive(Clone, Copy, Debug, PartialEq, Eq, Structural)]
pub enum ScanBuf {
    Q,
    K,
    V,
    G,
    Beta,
    State,
    Out,
    QNorm,
    KNorm,
    VBeta,
    KBeta,
    GCumsum,
    Attn,
    DecayMask,
    ValueProc,
    KCumdecay,
    KCumdecayInput,
    QScaled,
    VPrime,
    AttnIntra,
    KDecayed,
}

/// One batched product `c = a * b`, or `c += a * b` with `accumulate`. Offsets and strides are in
/// elements.
#[derive(Clone, Copy, Debug, PartialEq, Eq, Structural)]
pub struct BmmCall {
    pub a: ScanBuf,
    pub off_a: u32,
    pub b: ScanBuf,
    pub off_b: u32,
    pub c: ScanBuf,
    pub off_c: u32,
    pub trans_a: bool,
    pub trans_b: bool,
    pub m: u32,
    pub n: u32,
    pub k: u32,
    pub stride_a: i64,
    pub stride_b: i64,
    pub stride_c: i64,
    pub batch: u32,
    pub accumulate: bool,
}

/// One device operation of the chunked rule.
#[derive(Clone, Copy, Debug, PartialEq, Eq, Structural)]
pub enum ScanStep {
    /// Rows to unit length, `query` ones to the query scale.
    L2Norm { input: ScanBuf, out: ScanBuf, rows: u32, dim: u32, query: bool },
    MulRowwise { input: ScanBuf, scal: ScanBuf, out: ScanBuf, rows: u32, dim: u32 },
    Cumsum { input: ScanBuf, out: ScanBuf, rows: u32, n: u32 },
    /// The attention within each chunk, and the mask of decays.
    ChunkAttn { bh: u32, nc: u32, cs: u32, hk: u32 },
    /// Rows times the exponential of the running decay.
    ScaleByExp { input: ScanBuf, out: ScanBuf, rows: u32, dim: u32, cs: u32 },
    Bmm(BmmCall),
    /// Takes the prediction from the values of chunk `ci`.
    SubChunk { bh: u32, nc: u32, cs: u32, hv: u32, ci: u32 },
    MulDecayMask { bh: u32, nc: u32, cs: u32, ci: u32 },
    StateDecay { bh: u32, nc: u32, cs: u32, hk: u32, hv: u32, ci: u32 },
    ScaleKDecayed { bh: u32, nc: u32, cs: u32, hk: u32, ci: u32 },
}

/// Batch times heads, sequence length, key and value widths, chunk length.
#[derive(Clone, Copy, Debug, PartialEq, Eq, Structural)]
pub struct ScanDims {
    pub bh: u32,
    pub t: u32,
    pub hk: u32,
    pub hv: u32,
    pub cs: u32,
}

impl ScanDims {
    /// The number of chunks.
    pub open spec fn nc(&self) -> int {
        (self.t / self.cs) as int
    }

    /// All counts fit their machine types; the size of a state is counted once per chunk.
    pub open spec fn in_range(&self) -> bool {
        &&& self.cs > 0
        &&& self.bh * self.t <= u32::MAX
        &&& self.cs * self.cs <= u32::MAX
        &&& self.t * self.hk <= u32::MAX
        &&& self.t * self.hv <= u32::MAX
        &&& self.t > 0 ==> self.hk * self.hv <= u32::MAX
        &&& self.cs * self.hk <= u32::MAX
        &&& self.cs * self.hv <= u32::MAX
        &&& self.bh * self.t * self.hk <= usize::MAX
        &&& self.bh * self.t * self.hv <= usize::MAX
        &&& self.bh * self.t * self.cs <= usize::MAX
        &&& self.bh * (self.cs * self.cs) <= usize::MAX
        &&& self.bh * (self.cs * self.hk) <= usize::MAX
        &&& self.bh * (self.cs * self.hv) <= usize::MAX
    }

    /// The elements of a tensor.
    pub open spec fn elems(&self, buf: ScanBuf) -> int {
        match buf {
            ScanBuf::Q | ScanBuf::K | ScanBuf::QNorm | ScanBuf::KNorm | ScanBuf::KBeta => self.bh
                * self.t * self.hk,
            ScanBuf::KCumdecay | ScanBuf::KCumdecayInput | ScanBuf::QScaled => self.bh * self.t
                * self.hk,
            ScanBuf::V | ScanBuf::Out | ScanBuf::VBeta | ScanBuf::ValueProc => self.bh * self.t
                * self.hv,
            ScanBuf::G | ScanBuf::Beta | ScanBuf::GCumsum => self.bh * self.t,
            ScanBuf::State => self.bh * (self.hk * self.hv),
            ScanBuf::Attn | ScanBuf::DecayMask => self.bh * self.t * self.cs,
            ScanBuf::VPrime => self.bh * (self.cs * self.hv),
            ScanBuf::AttnIntra => self.bh * (self.cs * self.cs),
            ScanBuf::KDecayed => self.bh * (self.cs * self.hk),
        }
    }
}

/// Before the loop over chunks: normalised queries and keys, gated values and keys, running
/// decays, attention within chunks, and the products that do not depend on the state.
pub open spec fn scan_prologue(d: ScanDims) -> Seq<ScanStep> {
    let rows = (d.bh * d.t) as u32;
    let bnc = (d.bh * d.nc()) as u32;
    let nc = d.nc() as u32;
    seq![
        ScanStep::L2Norm { input: ScanBuf::Q, out: ScanBuf::QNorm, rows, dim: d.hk, query: true },
        ScanStep::L2Norm { input: ScanBuf::K, out: ScanBuf::KNorm, rows, dim: d.hk, query: false },
        ScanStep::MulRowwise {
            input: ScanBuf::V,
            scal: ScanBuf::Beta,
            out: ScanBuf::VBeta,
            rows,
            dim: d.hv,
        },
        ScanStep::MulRowwise {
            input: ScanBuf::KNorm,
            scal: ScanBuf::Beta,
            out: ScanBuf::KBeta,
            rows,
            dim: d.hk,
        },
        ScanStep::Cumsum { input: ScanBuf::G, out: ScanBuf::GCumsum, rows: bnc, n: d.cs },
        ScanStep::ChunkAttn { bh: d.bh, nc, cs: d.cs, hk: d.hk },
        ScanStep::ScaleByExp {
            input: ScanBuf::KBeta,
            out: ScanBuf::KCumdecayInput,
            rows,
            dim: d.hk,
            cs: d.cs,
        },
        ScanStep::ScaleByExp {
            input: ScanBuf::QNorm,
            out: ScanBuf::QScaled,
            rows,
            dim: d.hk,
            cs: d.cs,
        },
        ScanStep::Bmm(value_proc_call(d)),
        ScanStep::Bmm(k_cumdecay_call(d)),
    ]
}

/// Values after the attention within chunks.
pub open spec fn value_proc_call(d: ScanDims) -> BmmCall {
    BmmCall {
        a: ScanBuf::Attn,
        off_a: 0,
        b: ScanBuf::VBeta,
        off_b: 0,
        c: ScanBuf::ValueProc,
        off_c: 0,
        trans_a: false,
        trans_b: false,
        m: d.cs,
        n: d.hv,
        k: d.cs,
        stride_a: (d.cs * d.cs) as i64,
        stride_b: (d.cs * d.hv) as i64,
        stride_c: (d.cs * d.hv) as i64,
        batch: (d.bh * d.nc()) as u32,
        accumulate: false,
    }
}

/// Keys after the attention within chunks, with their decay.
pub open spec fn k_cumdecay_call(d: ScanDims) -> BmmCall {
    BmmCall {
        a: ScanBuf::Attn,
        off_a: 0,
        b: ScanBuf::KCumdecayInput,
        off_b: 0,
        c: ScanBuf::KCumdecay,
        off_c: 0,
        trans_a: false,
        trans_b: false,
        m: d.cs,
        n: d.hk,
        k: d.cs,
        stride_a: (d.cs * d.cs) as i64,
        stride_b: (d.cs * d.hk) as i64,
        stride_c: (d.cs * d.hk) as i64,
        batch: (d.bh * d.nc()) as u32,
        accumulate: false,
    }
}

/// What the state predicts for the values of chunk `ci`.
pub open spec fn v_prime_call(d: ScanDims, ci: int) -> BmmCall {
    BmmCall {
        a: ScanBuf::KCumdecay,
        off_a: (ci * (d.cs * d.hk)) as u32,
        b: ScanBuf::State,
        off_b: 0,
        c: ScanBuf::VPrime,
        off_c: 0,
        trans_a: false,
        trans_b: false,
        m: d.cs,
        n: d.hv,
        k: d.hk,
        stride_a: (d.t * d.hk) as i64,
        stride_b: (d.hk * d.hv) as i64,
        stride_c: (d.cs * d.hv) as i64,
        batch: d.bh,
        accumulate: false,
    }
}

/// What the state contributes to the output of chunk `ci`.
pub open spec fn out_state_call(d: ScanDims, ci: int) -> BmmCall {
    BmmCall {
        a: ScanBuf::QScaled,
        off_a: (ci * (d.cs * d.hk)) as u32,
        b: ScanBuf::State,
        off_b: 0,
        c: ScanBuf::Out,
        off_c: (ci * (d.cs * d.hv)) as u32,
        trans_a: false,
        trans_b: false,
        m: d.cs,
        n: d.hv,
        k: d.hk,
        stride_a: (d.t * d.hk) as i64,
        stride_b: (d.hk * d.hv) as i64,
        stride_c: (d.t * d.hv) as i64,
        batch: d.bh,
        accumulate: false,
    }
}

/// Queries against keys within chunk `ci`.
pub open spec fn attn_intra_call(d: ScanDims, ci: int) -> BmmCall {
    BmmCall {
        a: ScanBuf::QNorm,
        off_a: (ci * (d.cs * d.hk)) as u32,
        b: ScanBuf::KNorm,
        off_b: (ci * (d.cs * d.hk)) as u32,
        c: ScanBuf::AttnIntra,
        off_c: 0,
        trans_a: false,
        trans_b: true,
        m: d.cs,
        n: d.cs,
        k: d.hk,
        stride_a: (d.t * d.hk) as i64,
        stride_b: (d.t * d.hk) as i64,
        stride_c: (d.cs * d.cs) as i64,
        batch: d.bh,
        accumulate: false,
    }
}

/// What chunk `ci` itself contributes to its output.
pub open spec fn out_intra_call(d: ScanDims, ci: int) -> BmmCall {
    BmmCall {
        a: ScanBuf::AttnIntra,
        off_a: 0,
        b: ScanBuf::ValueProc,
        off_b: (ci * (d.cs * d.hv)) as u32,
        c: ScanBuf::Out,
        off_c: (ci * (d.cs * d.hv)) as u32,
        trans_a: false,
        trans_b: false,
        m: d.cs,
        n: d.hv,
        k: d.cs,
        stride_a: (d.cs * d.cs) as i64,
        stride_b: (d.t * d.hv) as i64,
        stride_c: (d.t * d.hv) as i64,
        batch: d.bh,
        accumulate: true,
    }
}

/// What chunk `ci` adds to the state.
pub open spec fn state_update_call(d: ScanDims, ci: int) -> BmmCall {
    BmmCall {
        a: ScanBuf::KDecayed,
        off_a: 0,
        b: ScanBuf::ValueProc,
        off_b: (ci * (d.cs * d.hv)) as u32,
        c: ScanBuf::State,
        off_c: 0,
        trans_a: true,
        trans_b: false,
        m: d.hk,
        n: d.hv,
        k: d.cs,
        stride_a: (d.cs * d.hk) as i64,
        stride_b: (d.t * d.hv) as i64,
        stride_c: (d.hk * d.hv) as i64,
        batch: d.bh,
        accumulate: true,
    }
}

/// The work on chunk `ci`: the output first, while the state is that before the chunk, then the
/// state.
pub open spec fn chunk_steps(d: ScanDims, ci: int) -> Seq<ScanStep> {
    let c = ci as u32;
    let nc = d.nc() as u32;
    seq![
        ScanStep::Bmm(v_prime_call(d, ci)),
        ScanStep::SubChunk { bh: d.bh, nc, cs: d.cs, hv: d.hv, ci: c },
        ScanStep::Bmm(out_state_call(d, ci)),
        ScanStep::Bmm(attn_intra_call(d, ci)),
        ScanStep::MulDecayMask { bh: d.bh, nc, cs: d.cs, ci: c },
        ScanStep::Bmm(out_intra_call(d, ci)),
        ScanStep::StateDecay { bh: d.bh, nc, cs: d.cs, hk: d.hk, hv: d.hv, ci: c },
        ScanStep::ScaleKDecayed { bh: d.bh, nc, cs: d.cs, hk: d.hk, ci: c },
        ScanStep::Bmm(state_update_call(d, ci)),
    ]
}

/// The work on the first `n` chunks, in order.
pub open spec fn chunks_steps(d: ScanDims, n: int) -> Seq<ScanStep>
    decreases n,
{
    if n <= 0 {
        seq![]
    } else {
        chunks_steps(d, n - 1) + chunk_steps(d, n - 1)
    }
}

/// The tensors of the workspace with their elements, in the order they are allocated.
pub open spec fn scan_workspace(d: ScanDims) -> Seq<(ScanBuf, usize)> {
    seq![
        (ScanBuf::QNorm, d.elems(ScanBuf::QNorm) as usize),
        (ScanBuf::KNorm, d.elems(ScanBuf::KNorm) as usize),
        (ScanBuf::VBeta, d.elems(ScanBuf::VBeta) as usize),
        (ScanBuf::KBeta, d.elems(ScanBuf::KBeta) as usize),
        (ScanBuf::GCumsum, d.elems(ScanBuf::GCumsum) as usize),
        (ScanBuf::Attn, d.elems(ScanBuf::Attn) as usize),
        (ScanBuf::DecayMask, d.elems(ScanBuf::DecayMask) as usize),
        (ScanBuf::ValueProc, d.elems(ScanBuf::ValueProc) as usize),
        (ScanBuf::KCumdecay, d.elems(ScanBuf::KCumdecay) as usize),
        (ScanBuf::KCumdecayInput, d.elems(ScanBuf::KCumdecayInput) as usize),
        (ScanBuf::QScaled, d.elems(ScanBuf::QScaled) as usize),
        (ScanBuf::VPrime, d.elems(ScanBuf::VPrime) as usize),
        (ScanBuf::AttnIntra, d.elems(ScanBuf::AttnIntra) as usize),
        (ScanBuf::KDecayed, d.elems(ScanBuf::KDecayed) as usize),
    ]
}

/// The workspace and the device operations of the chunked rule, in order.
#[derive(Debug, PartialEq, Eq)]
pub struct ScanPlan {
    pub workspace: Vec<(ScanBuf, usize)>,
    pub steps: Vec<ScanStep>,
}

/// Products that are known to fit, for any number of chunks that divides the sequence.
pub(crate) proof fn lemma_scan_products(d: ScanDims)
    requires
        d.in_range(),
        d.t % d.cs == 0,
    ensures
        d.nc() * d.cs == d.t,
        0 <= d.nc() <= d.t,
        0 <= d.bh * d.t,
        0 <= d.bh * d.nc() <= d.bh * d.t,
        0 <= d.cs * d.hk,
        0 <= d.cs * d.hv,
        0 <= d.cs * d.cs,
        0 <= d.hk * d.hv,
        0 <= d.t * d.hk,
        0 <= d.t * d.hv,
        d.nc() * (d.cs * d.hk) == d.t * d.hk,
        d.nc() * (d.cs * d.hv) == d.t * d.hv,
        d.nc() * (d.cs * d.cs) == d.t * d.cs,
        d.bh * d.nc() * d.cs == d.bh * d.t,
{
    let nc = d.nc();
    let (bh, t, hk, hv, cs) = (d.bh as int, d.t as int, d.hk as int, d.hv as int, d.cs as int);
    vstd::arithmetic::div_mod::lemma_fundamental_div_mod(t, cs);
    assert(nc * cs == t) by (nonlinear_arith)
        requires
            t == cs * (t / cs) + t % cs,
            t % cs == 0,
            nc == t / cs,
    ;
    assert(0 <= nc <= t) by (nonlinear_arith)
        requires
            nc * cs == t,
            cs >= 1,
            t >= 0,
    ;
    assert(0 <= bh * nc <= bh * t) by (nonlinear_arith)
        requires
            0 <= nc <= t,
            bh >= 0,
    ;
    assert(0 <= cs * hk && 0 <= cs * hv && 0 <= cs * cs && 0 <= hk * hv && 0 <= t * hk && 0 <= t * hv
        && 0 <= bh * t) by (nonlinear_arith)
        requires
            cs >= 0,
            hk >= 0,
            hv >= 0,
            t >= 0,
            bh >= 0,
    ;
    assert(nc * (cs * hk) == (nc * cs) * hk && nc * (cs * hv) == (nc * cs) * hv && nc * (cs * cs)
        == (nc * cs) * cs && bh * nc * cs == bh * (nc * cs)) by (nonlinear_arith);
}

pub(crate) proof fn lemma_scan_chunk_products(d: ScanDims, ci: int)
    requires
        d.in_range(),
        d.t % d.cs == 0,
        0 <= ci < d.nc(),
    ensures
        0 <= ci * (d.cs * d.hk),
        ci * (d.cs * d.hk) + d.cs * d.hk <= d.t * d.hk,
        0 <= ci * (d.cs * d.hv),
        ci * (d.cs * d.hv) + d.cs * d.hv <= d.t * d.hv,
        ci * d.cs * d.hk == ci * (d.cs * d.hk),
        ci * d.cs * d.hv == ci * (d.cs * d.hv),
        0 <= ci * d.cs <= d.t,
{
    lemma_scan_products(d);
    lemma_chunk_end(ci, d.nc(), d.cs * d.hk);
    lemma_chunk_end(ci, d.nc(), d.cs * d.hv);
    lemma_chunk_end(ci, d.nc(), d.cs as int);
    let (cs, hk, hv) = (d.cs as int, d.hk as int, d.hv as int);
    assert(ci * cs * hk == ci * (cs * hk) && ci * cs * hv == ci * (cs * hv)) by (nonlinear_arith);
}

/// Chunk `ci` of `nc` chunks of length `p` ends within all of them.
proof fn lemma_chunk_end(ci: int, nc: int, p: int)
    requires
        0 <= ci < nc,
        0 <= p,
    ensures
        0 <= ci * p,
        ci * p + p <= nc * p,
{
    assert(0 <= ci * p && ci * p + p <= nc * p) by (nonlinear_arith)
        requires
            0 <= ci < nc,
            0 <= p,
    ;
}

/// `r` is the outcome of a request for the gated delta rule over a prompt.
pub open spec fn is_scan_plan(r: Result<ScanPlan, KernelError>, d: ScanDims) -> bool {
    match r {
        Err(e) => d.t % d.cs != 0 && e == KernelError::Cuda2(
            "chunk_gated_delta_rule: T={} не кратно cs={}",
            d.t as u64,
            d.cs as u64,
        ),
        Ok(p) => {
            &&& d.t % d.cs == 0
            &&& p.workspace@ == scan_workspace(d)
            &&& p.steps@ == scan_prologue(d) + chunks_steps(d, d.nc())
        },
    }
}

/// Plans the gated delta rule over a prompt: queries and keys of width `hk`, values of width
/// `hv`, chunks of `cs` positions, which have to divide the prompt.
pub fn chunk_gated_delta_rule(d: ScanDims) -> (r: Result<ScanPlan, KernelError>)
    requires
        d.cs > 0,
        d.t % d.cs == 0 ==> d.in_range(),
    ensures
        is_scan_plan(r, d),
        r matches Ok(p) ==> outputs_of_the_rule(p.steps@, d) && states_of_the_rule(p.steps@, d),
{
    if d.t % d.cs != 0 {
        return Err(
            KernelError::Cuda2(
                "chunk_gated_delta_rule: T={} не кратно cs={}",
                d.t as u64,
                d.cs as u64,
            ),
        );
    }
    proof {
        lemma_scan_products(d);
    }
    let (bh, t, hk, hv, cs): (u32, u32, u32, u32, u32) = (d.bh, d.t, d.hk, d.hv, d.cs);
    let nc: u32 = t / cs;
    let rows: u32 = bh * t;
    let bnc: u32 = bh * nc;
    let cc: i64 = (cs * cs) as i64;
    let ck: i64 = (cs * hk) as i64;
    let cv: i64 = (cs * hv) as i64;
    let tk: i64 = (t * hk) as i64;
    let tv: i64 = (t * hv) as i64;
    let btk: usize = (rows as usize) * (hk as usize);
    let btv: usize = (rows as usize) * (hv as usize);
    let btc: usize = (rows as usize) * (cs as usize);
    let workspace: Vec<(ScanBuf, usize)> = vec![
        (ScanBuf::QNorm, btk),
        (ScanBuf::KNorm, btk),
        (ScanBuf::VBeta, btv),
        (ScanBuf::KBeta, btk),
        (ScanBuf::GCumsum, rows as usize),
        (ScanBuf::Attn, btc),
        (ScanBuf::DecayMask, btc),
        (ScanBuf::ValueProc, btv),
        (ScanBuf::KCumdecay, btk),
        (ScanBuf::KCumdecayInput, btk),
        (ScanBuf::QScaled, btk),
        (ScanBuf::VPrime, (bh as usize) * ((cs * hv) as usize)),
        (ScanBuf::AttnIntra, (bh as usize) * ((cs * cs) as usize)),
        (ScanBuf::KDecayed, (bh as usize) * ((cs * hk) as usize)),
    ];
    proof {
        assert(workspace@ =~= scan_workspace(d));
    }
    let mut steps: Vec<ScanStep> = vec![
        ScanStep::L2Norm { input: ScanBuf::Q, out: ScanBuf::QNorm, rows, dim: hk, query: true },
        ScanStep::L2Norm { input: ScanBuf::K, out: ScanBuf::KNorm, rows, dim: hk, query: false },
        ScanStep::MulRowwise {
            input: ScanBuf::V,
            scal: ScanBuf::Beta,
            out: ScanBuf::VBeta,
            rows,
            dim: hv,
        },
        ScanStep::MulRowwise {
            input: ScanBuf::KNorm,
            scal: ScanBuf::Beta,
            out: ScanBuf::KBeta,
            rows,
            dim: hk,
        },
        ScanStep::Cumsum { input: ScanBuf::G, out: ScanBuf::GCumsum, rows: bnc, n: cs },
        ScanStep::ChunkAttn { bh, nc, cs, hk },
        ScanStep::ScaleByExp {
            input: ScanBuf::KBeta,
            out: ScanBuf::KCumdecayInput,
            rows,
            dim: hk,
            cs,
        },
        ScanStep::ScaleByExp { input: ScanBuf::QNorm, out: ScanBuf::QScaled, rows, dim: hk, cs },
        ScanStep::Bmm(
            BmmCall {
                a: ScanBuf::Attn,
                off_a: 0,
                b: ScanBuf::VBeta,
                off_b: 0,
                c: ScanBuf::ValueProc,
                off_c: 0,
                trans_a: false,
                trans_b: false,
                m: cs,
                n: hv,
                k: cs,
                stride_a: cc,
                stride_b: cv,
                stride_c: cv,
                batch: bnc,
                accumulate: false,
            },
        ),
        ScanStep::Bmm(
            BmmCall {
                a: ScanBuf::Attn,
                off_a: 0,
                b: ScanBuf::KCumdecayInput,
                off_b: 0,
                c: ScanBuf::KCumdecay,
                off_c: 0,
                trans_a: false,
                trans_b: false,
                m: cs,
                n: hk,
                k: cs,
                stride_a: cc,
                stride_b: ck,
                stride_c: ck,
                batch: bnc,
                accumulate: false,
            },
        ),
    ];
    proof {
        assert(steps@ =~= scan_prologue(d));
    }
    let mut ci: u32 = 0;
    while ci < nc
        invariant
            d.in_range(),
            d.t % d.cs == 0,
            ci <= nc,
            nc == d.nc(),
            (bh, t, hk, hv, cs) == (d.bh, d.t, d.hk, d.hv, d.cs),
            cc == d.cs * d.cs,
            ck == d.cs * d.hk,
            cv == d.cs * d.hv,
            tk == d.t * d.hk,
            tv == d.t * d.hv,
            steps@ == scan_prologue(d) + chunks_steps(d, ci as int),
        decreases nc - ci,
    {
        let ghost before = steps@;
        proof {
            lemma_scan_products(d);
            lemma_scan_chunk_products(d, ci as int);
        }
        let kv: i64 = (hk * hv) as i64;
        let off_hk: u32 = ci * cs * hk;
        let off_hv: u32 = ci * cs * hv;
        steps.push(
            ScanStep::Bmm(
                BmmCall {
                    a: ScanBuf::KCumdecay,
                    off_a: off_hk,
                    b: ScanBuf::State,
                    off_b: 0,
                    c: ScanBuf::VPrime,
                    off_c: 0,
                    trans_a: false,
                    trans_b: false,
                    m: cs,
                    n: hv,
                    k: hk,
                    stride_a: tk,
                    stride_b: kv,
                    stride_c: cv,
                    batch: bh,
                    accumulate: false,
                },
            ),
        );
        steps.push(ScanStep::SubChunk { bh, nc, cs, hv, ci });
        steps.push(
            ScanStep::Bmm(
                BmmCall {
                    a: ScanBuf::QScaled,
                    off_a: off_hk,
                    b: ScanBuf::State,
                    off_b: 0,
                    c: ScanBuf::Out,
                    off_c: off_hv,
                    trans_a: false,
                    trans_b: false,
                    m: cs,
                    n: hv,
                    k: hk,
                    stride_a: tk,
                    stride_b: kv,
                    stride_c: tv,
                    batch: bh,
                    accumulate: false,
                },
            ),
        );
        steps.push(
            ScanStep::Bmm(
                BmmCall {
                    a: ScanBuf::QNorm,
                    off_a: off_hk,
                    b: ScanBuf::KNorm,
                    off_b: off_hk,
                    c: ScanBuf::AttnIntra,
                    off_c: 0,
                    trans_a: false,
                    trans_b: true,
                    m: cs,
                    n: cs,
                    k: hk,
                    stride_a: tk,
                    stride_b: tk,
                    stride_c: cc,
                    batch: bh,
                    accumulate: false,
                },
            ),
        );
        steps.push(ScanStep::MulDecayMask { bh, nc, cs, ci });
        steps.push(
            ScanStep::Bmm(
                BmmCall {
                    a: ScanBuf::AttnIntra,
                    off_a: 0,
                    b: ScanBuf::ValueProc,
                    off_b: off_hv,
                    c: ScanBuf::Out,
                    off_c: off_hv,
                    trans_a: false,
                    trans_b: false,
                    m: cs,
                    n: hv,
                    k: cs,
                    stride_a: cc,
                    stride_b: tv,
                    stride_c: tv,
                    batch: bh,
                    accumulate: true,
                },
            ),
        );
        steps.push(ScanStep::StateDecay { bh, nc, cs, hk, hv, ci });
        steps.push(ScanStep::ScaleKDecayed { bh, nc, cs, hk, ci });
        steps.push(
            ScanStep::Bmm(
                BmmCall {
                    a: ScanBuf::KDecayed,
                    off_a: 0,
                    b: ScanBuf::ValueProc,
                    off_b: off_hv,
                    c: ScanBuf::State,
                    off_c: 0,
                    trans_a: true,
                    trans_b: false,
                    m: hk,
                    n: hv,
                    k: cs,
                    stride_a: ck,
                    stride_b: tv,
                    stride_c: kv,
                    batch: bh,
                    accumulate: true,
                },
            ),
        );
        proof {
            assert(steps@ =~= before + chunk_steps(d, ci as int));
            assert(steps@ =~= scan_prologue(d) + chunks_steps(d, ci + 1));
        }
        ci = ci + 1;
    }
    proof {
        chunked_rule_is_the_rule(d);
    }
    Ok(ScanPlan { workspace, steps })
}

/// A batched matrix of `size` elements each, `stride` apart from `off` on, lies within `len`.
pub open spec fn batch_fits(off: int, stride: int, batch: int, size: int, len: int) -> bool {
    0 <= off && 0 <= stride && (batch > 0 ==> off + (batch - 1) * stride + size <= len)
}

/// All three matrices of a product lie within their tensors.
pub open spec fn call_fits(d: ScanDims, c: BmmCall) -> bool {
    &&& batch_fits(c.off_a as int, c.stride_a as int, c.batch as int, c.m * c.k, d.elems(c.a))
    &&& batch_fits(c.off_b as int, c.stride_b as int, c.batch as int, c.k * c.n, d.elems(c.b))
    &&& batch_fits(c.off_c as int, c.stride_c as int, c.batch as int, c.m * c.n, d.elems(c.c))
}

proof fn lemma_batch_fits(off: int, stride: int, batch: int, size: int)
    requires
        0 <= off,
        0 <= size,
        off + size <= stride,
        0 <= batch,
    ensures
        batch_fits(off, stride, batch, size, batch * stride),
{
    if batch > 0 {
        assert(off + (batch - 1) * stride + size <= batch * stride) by (nonlinear_arith)
            requires
                off + size <= stride,
                batch > 0,
        ;
    }
}

/// No product before the loop and none in the loop reaches beyond the tensors it works on.
pub proof fn scan_products_in_bounds(d: ScanDims, ci: int)
    requires
        d.in_range(),
        d.t % d.cs == 0,
        0 <= ci < d.nc(),
    ensures
        call_fits(d, value_proc_call(d)),
        call_fits(d, k_cumdecay_call(d)),
        call_fits(d, v_prime_call(d, ci)),
        call_fits(d, out_state_call(d, ci)),
        call_fits(d, attn_intra_call(d, ci)),
        call_fits(d, out_intra_call(d, ci)),
        call_fits(d, state_update_call(d, ci)),
{
    lemma_scan_products(d);
    lemma_scan_chunk_products(d, ci);
    let (bh, t, hk, hv, cs) = (d.bh as int, d.t as int, d.hk as int, d.hv as int, d.cs as int);
    let nc = d.nc();
    let bnc = bh * nc;
    let ok = ci * (cs * hk);
    let ov = ci * (cs * hv);
    assert(hk * cs == cs * hk && cs * hv == hv * cs && hk * hv == hv * hk) by (nonlinear_arith);
    assert(bnc * (cs * cs) == bh * t * cs && bnc * (cs * hv) == bh * t * hv && bnc * (cs * hk) == bh
        * t * hk && bh * (t * hk) == bh * t * hk && bh * (t * hv) == bh * t * hv)
        by (nonlinear_arith)
        requires
            bnc == bh * nc,
            nc * cs == t,
    ;
    lemma_batch_fits(0, cs * cs, bnc, cs * cs);
    lemma_batch_fits(0, cs * hv, bnc, cs * hv);
    lemma_batch_fits(0, cs * hk, bnc, cs * hk);
    lemma_batch_fits(0, cs * cs, bh, cs * cs);
    lemma_batch_fits(0, cs * hv, bh, cs * hv);
    lemma_batch_fits(0, cs * hk, bh, cs * hk);
    lemma_batch_fits(0, hk * hv, bh, hk * hv);
    lemma_batch_fits(ok, t * hk, bh, cs * hk);
    lemma_batch_fits(ov, t * hv, bh, cs * hv);
}

/// The outputs of two chunks do not overlap, and together the chunks write the whole output: of
/// each of the `t * hv` values of a head, exactly one chunk writes it.
pub proof fn chunks_partition_output(d: ScanDims, i: int)
    requires
        d.in_range(),
        d.t % d.cs == 0,
        0 <= i < d.t * d.hv,
    ensures
        exists|ci: int|
            0 <= ci < d.nc() && #[trigger] out_state_call(d, ci).off_c <= i < out_state_call(
                d,
                ci,
            ).off_c + d.cs * d.hv,
        forall|a: int, b: int|
            0 <= a < b < d.nc() ==> #[trigger] out_state_call(d, a).off_c + d.cs * d.hv
                <= #[trigger] out_state_call(d, b).off_c,
{
    lemma_scan_products(d);
    let p = d.cs * d.hv;
    let nc = d.nc();
    assert(p > 0) by (nonlinear_arith)
        requires
            nc * p > i,
            i >= 0,
            p >= 0,
    ;
    let ci = i / p;
    vstd::arithmetic::div_mod::lemma_fundamental_div_mod(i, p);
    assert(0 <= ci < nc && ci * p <= i < ci * p + p) by (nonlinear_arith)
        requires
            i == p * (i / p) + i % p,
            0 <= i % p < p,
            ci == i / p,
            0 <= i < nc * p,
            p > 0,
    ;
    lemma_scan_chunk_products(d, ci);
    assert(out_state_call(d, ci).off_c == ci * p);
    assert forall|a: int, b: int| 0 <= a < b < nc implies #[trigger] out_state_call(d, a).off_c + p
        <= #[trigger] out_state_call(d, b).off_c by {
        lemma_scan_chunk_products(d, a);
        lemma_scan_chunk_products(d, b);
        assert(a * p + p <= b * p) by (nonlinear_arith)
            requires
                a < b,
                p >= 0,
        ;
    }
}

} // verus!
