//! Quantisation of activations and weights to NVFP4 and MXFP8.

use vstd::prelude::*;

use crate::arith::{
    ceil_div, div_ceil_u32, div_ceil_u64, div_ceil_usize, lemma_ceil_div, lemma_ceil_div_monotone,
    lemma_mul_bound, min2, round_up, round_up_u32,
};
use crate::error::KernelError;
use crate::launch::{launch1, span, spec_launch1, spec_span, Launch, Span};

verus! {

/// Which variants of the quantisation kernels are in use.
#[derive(Clone, Copy, Debug, PartialEq, Eq, Structural)]
pub struct QuantSwitches {
    pub nvfp4_slow: bool,
    pub mxfp8_slow: bool,
    pub mxfp8_fast4: bool,
}

impl Default for QuantSwitches {
    fn default() -> (r: Self)
        ensures
            r == (QuantSwitches { nvfp4_slow: false, mxfp8_slow: false, mxfp8_fast4: true }),
    {
        QuantSwitches { nvfp4_slow: false, mxfp8_slow: false, mxfp8_fast4: true }
    }
}

/// Falls back to the NVFP4 kernel that makes no demand on alignment, or leaves that fallback.
pub fn set_nvfp4_quant_slow(switches: &mut QuantSwitches, slow: bool)
    ensures
        *final(switches) == (QuantSwitches { nvfp4_slow: slow, ..*old(switches) }),
{
    switches.nvfp4_slow = slow;
}

/// Falls back to the MXFP8 kernel that makes no demand on alignment, or leaves that fallback.
pub fn set_mxfp8_quant_slow(switches: &mut QuantSwitches, slow: bool)
    ensures
        *final(switches) == (QuantSwitches { mxfp8_slow: slow, ..*old(switches) }),
{
    switches.mxfp8_slow = slow;
}

/// Lets four threads share one MXFP8 block, or gives each block to one thread.
pub fn set_mxfp8_quant_fast4(switches: &mut QuantSwitches, fast4: bool)
    ensures
        *final(switches) == (QuantSwitches { mxfp8_fast4: fast4, ..*old(switches) }),
{
    switches.mxfp8_fast4 = fast4;
}

/// Bytes of the scale buffer for `outer` rows of `inner` elements: one byte for each sixteen
/// elements, in tiles of four bytes by 128 rows.
pub open spec fn scale_buffer_size(outer: int, inner: int) -> int {
    (ceil_div(inner, 64) * 4) * (ceil_div(outer, 128) * 128)
}

/// Bytes of the NVFP4 scale buffer for `outer_dim` rows of `inner_dim` elements. Bytes of the
/// buffer that belong to no element are to be zero.
pub fn nvfp4_scale_buffer_size(outer_dim: usize, inner_dim: usize) -> (r: usize)
    requires
        ceil_div(inner_dim as int, 64) * 4 <= usize::MAX,
        ceil_div(outer_dim as int, 128) * 128 <= usize::MAX,
        scale_buffer_size(outer_dim as int, inner_dim as int) <= usize::MAX,
    ensures
        r == scale_buffer_size(outer_dim as int, inner_dim as int),
{
    let s_rows: usize = div_ceil_usize(inner_dim, 64) * 4;
    let s_cols: usize = div_ceil_usize(outer_dim, 128) * 128;
    s_rows * s_cols
}

/// The scale buffer has a byte for every block of sixteen elements.
pub proof fn scale_buffer_holds_blocks(outer: int, inner: int)
    requires
        0 <= outer,
        0 <= inner,
        inner % 16 == 0,
    ensures
        scale_buffer_size(outer, inner) >= outer * (inner / 16),
{
    lemma_ceil_div(inner, 64);
    lemma_ceil_div(outer, 128);
    let s_rows = ceil_div(inner, 64) * 4;
    assert(s_rows >= inner / 16);
    assert(s_rows * round_up(outer, 128) >= outer * (inner / 16)) by (nonlinear_arith)
        requires
            s_rows >= inner / 16,
            inner / 16 >= 0,
            round_up(outer, 128) >= outer,
            outer >= 0,
    ;
}

/// A buffer sized for `outer` rows serves every number of rows up to the next multiple of 128.
pub proof fn scale_buffer_covers_tile(outer: int, rows: int, inner: int)
    requires
        0 <= outer <= rows <= round_up(outer, 128),
        0 <= inner,
    ensures
        scale_buffer_size(rows, inner) == scale_buffer_size(outer, inner),
{
    lemma_ceil_div(outer, 128);
    lemma_ceil_div(rows, 128);
    lemma_ceil_div_monotone(outer, rows, 128);
    assert(ceil_div(rows, 128) == ceil_div(outer, 128));
}

/// Rows that one launch of the row-by-row kernels takes.
pub const QUANT_CHUNK: u32 = 32_768;

/// A launch on the rows from `outer_offset` on.
#[derive(Clone, Copy, Debug, PartialEq, Eq)]
pub struct ChunkLaunch {
    pub launch: Launch,
    pub outer_offset: u32,
}

/// The launch on the chunk of rows number `i`.
pub open spec fn chunk_launch(
    kernel: &'static str,
    outer: u32,
    blocks_per_row: u32,
    smem: u32,
    i: int,
) -> ChunkLaunch {
    ChunkLaunch {
        launch: Launch {
            kernel,
            grid: (blocks_per_row, min2(QUANT_CHUNK as int, outer - i * QUANT_CHUNK) as u32, 1),
            block: (16, 1, 1),
            shared_mem_bytes: smem,
        },
        outer_offset: (i * QUANT_CHUNK) as u32,
    }
}

/// `launches` take the rows `0..outer` chunk by chunk, in order.
pub open spec fn is_chunked(
    launches: Seq<ChunkLaunch>,
    kernel: &'static str,
    outer: u32,
    blocks_per_row: u32,
    smem: u32,
) -> bool {
    &&& launches.len() == ceil_div(outer as int, QUANT_CHUNK as int)
    &&& forall|i: int|
        0 <= i < launches.len() ==> #[trigger] launches[i] == chunk_launch(
            kernel,
            outer,
            blocks_per_row,
            smem,
            i,
        )
}

/// `row` is one of those that `c` works on.
pub open spec fn chunk_has_row(c: ChunkLaunch, row: int) -> bool {
    c.outer_offset <= row < c.outer_offset + c.launch.grid.1
}

/// Chunked launches work on every row once, and on no others.
pub proof fn chunks_partition_rows(
    launches: Seq<ChunkLaunch>,
    kernel: &'static str,
    outer: u32,
    blocks_per_row: u32,
    smem: u32,
    row: int,
)
    requires
        is_chunked(launches, kernel, outer, blocks_per_row, smem),
    ensures
        0 <= row < outer ==> exists|i: int|
            0 <= i < launches.len() && #[trigger] chunk_has_row(launches[i], row),
        forall|i: int, j: int|
            0 <= i < j < launches.len() && #[trigger] chunk_has_row(launches[i], row)
                ==> !#[trigger] chunk_has_row(launches[j], row),
        forall|i: int|
            0 <= i < launches.len() && #[trigger] chunk_has_row(launches[i], row) ==> 0 <= row
                < outer,
{
    lemma_ceil_div(outer as int, QUANT_CHUNK as int);
    assert forall|i: int| 0 <= i < launches.len() implies {
        &&& launches[i].outer_offset == i * QUANT_CHUNK
        &&& launches[i].launch.grid.1 == min2(QUANT_CHUNK as int, outer - i * QUANT_CHUNK)
        &&& 0 < #[trigger] launches[i].launch.grid.1
    } by {
        assert(launches[i] == chunk_launch(kernel, outer, blocks_per_row, smem, i));
    }
    if 0 <= row < outer {
        let i = row / (QUANT_CHUNK as int);
        assert(i < launches.len()) by {
            if i >= launches.len() {
                assert(i * QUANT_CHUNK >= launches.len() * QUANT_CHUNK);
            }
        }
        assert(chunk_has_row(launches[i], row)) by {
            assert(launches[i].launch.grid.1 > 0);
        }
    }
    assert forall|i: int, j: int|
        0 <= i < j < launches.len() && #[trigger] chunk_has_row(launches[i], row) implies !#[trigger] chunk_has_row(
        launches[j],
        row,
    ) by {
        assert(launches[i].launch.grid.1 > 0);
        assert(launches[j].launch.grid.1 > 0);
    }
    assert forall|i: int| 0 <= i < launches.len() && #[trigger] chunk_has_row(launches[i], row) implies 0
        <= row < outer by {
        assert(launches[i].launch.grid.1 > 0);
    }
}

/// The launches that take `outer` rows in chunks.
fn row_chunks(kernel: &'static str, outer: u32, blocks_per_row: u32, smem: u32) -> (r: Vec<
    ChunkLaunch,
>)
    ensures
        is_chunked(r@, kernel, outer, blocks_per_row, smem),
{
    let mut launches: Vec<ChunkLaunch> = Vec::new();
    let mut outer_offset: u32 = 0;
    proof {
        lemma_ceil_div(outer as int, QUANT_CHUNK as int);
    }
    while outer_offset < outer
        invariant
            outer_offset == min2(launches@.len() * QUANT_CHUNK, outer as int),
            launches@.len() <= ceil_div(outer as int, QUANT_CHUNK as int),
            ceil_div(outer as int, QUANT_CHUNK as int) * QUANT_CHUNK < outer + QUANT_CHUNK,
            outer <= ceil_div(outer as int, QUANT_CHUNK as int) * QUANT_CHUNK,
            forall|i: int|
                0 <= i < launches@.len() ==> #[trigger] launches@[i] == chunk_launch(
                    kernel,
                    outer,
                    blocks_per_row,
                    smem,
                    i,
                ),
        decreases outer - outer_offset,
    {
        let remaining: u32 = outer - outer_offset;
        let rows_this: u32 = if remaining < QUANT_CHUNK {
            remaining
        } else {
            QUANT_CHUNK
        };
        let launch = Launch {
            kernel,
            grid: (blocks_per_row, rows_this, 1),
            block: (16, 1, 1),
            shared_mem_bytes: smem,
        };
        launches.push(ChunkLaunch { launch, outer_offset });
        outer_offset = outer_offset + rows_this;
    }
    launches
}

/// How `outer_dim` rows are brought to NVFP4.
#[derive(Debug, PartialEq, Eq)]
pub enum Nvfp4QuantPlan {
    /// One launch that also writes the scales of the rows up to `outer_cov`.
    Fast { launch: Launch, outer_dim: u32, inner_dim: u32, sf_inner_dim: u32, outer_cov: u32 },
    /// The scales are zeroed, then each chunk of rows is launched.
    Slow { outer_dim: u32, inner_dim: u32, sf_inner_dim: u32, chunks: Vec<ChunkLaunch> },
}

/// Scale bytes per row of `inner` elements.
pub open spec fn spec_sf_inner(inner: int) -> int {
    ceil_div(inner, 64) * 4
}

pub fn sf_inner_dim(inner: u32) -> (r: u32)
    ensures
        r == spec_sf_inner(inner as int),
{
    proof {
        lemma_ceil_div(inner as int, 64);
    }
    div_ceil_u32(inner, 64) * 4
}

/// The launch with a thread for each block of sixteen elements in `round_up(outer, 128)` rows.
pub open spec fn fast_launch(kernel: &'static str, outer: u32, inner: u32) -> Launch {
    spec_launch1(kernel, ceil_div(round_up(outer as int, 128) * (inner / 16), 256), 256)
}

/// The launch has a thread for every block of sixteen elements of every row of the last tile,
/// so no scale byte is left undefined.
pub proof fn fast_launch_covers(kernel: &'static str, outer: u32, inner: u32)
    requires
        ceil_div(round_up(outer as int, 128) * (inner / 16), 256) <= u32::MAX,
    ensures
        fast_launch(kernel, outer, inner).grid.0 * 256 >= round_up(outer as int, 128) * (inner / 16),
{
    lemma_ceil_div(outer as int, 128);
    let total = round_up(outer as int, 128) * (inner / 16);
    assert(total >= 0) by (nonlinear_arith)
        requires
            total == round_up(outer as int, 128) * (inner / 16),
            round_up(outer as int, 128) >= 0,
    ;
    lemma_ceil_div(total, 256);
}

fn fast_quant_launch(kernel: &'static str, outer: u32, inner: u32) -> (r: Launch)
    requires
        round_up(outer as int, 128) <= u32::MAX,
    ensures
        r == fast_launch(kernel, outer, inner),
{
    let outer_cov: u32 = round_up_u32(outer, 128);
    proof {
        lemma_mul_bound(outer_cov as int, u32::MAX as int, (inner / 16) as int, u32::MAX as int);
    }
    let total: u64 = (outer_cov as u64) * ((inner / 16) as u64);
    let blocks: u32 = div_ceil_u64(total, 256) as u32;
    launch1(kernel, blocks, 256)
}

/// Rows at `x_ptr` are quantised to four bits in one launch.
pub open spec fn takes_fast_quant(switches: QuantSwitches, x_ptr: u64, inner_dim: u32) -> bool {
    inner_dim % 16 == 0 && x_ptr % 16 == 0 && !switches.nvfp4_slow
}

/// `r` is how `outer_dim` rows of `inner_dim` half floats at `x_ptr` are brought to NVFP4: in one
/// launch where the rows are aligned, else with zeroed scales and chunk by chunk; a row that is
/// no whole number of blocks is refused.
pub open spec fn is_nvfp4_quant(
    r: Result<Nvfp4QuantPlan, KernelError>,
    switches: QuantSwitches,
    x_ptr: u64,
    outer_dim: u32,
    inner_dim: u32,
) -> bool {
    match r {
        Err(e) => inner_dim % 16 != 0 && e == KernelError::Cuda1(
            "quantize_f16_to_nvfp4: inner_dim={} must be multiple of 16",
            inner_dim as u64,
        ),
        Ok(
            Nvfp4QuantPlan::Fast { launch, outer_dim: rows, inner_dim: width, sf_inner_dim, outer_cov },
        ) => {
            &&& inner_dim % 16 == 0
            &&& (rows, width) == (outer_dim, inner_dim)
            &&& x_ptr % 16 == 0 && !switches.nvfp4_slow
            &&& launch == fast_launch("quantize_f16_to_nvfp4_fast", outer_dim, inner_dim)
            &&& sf_inner_dim == spec_sf_inner(inner_dim as int)
            &&& outer_cov == round_up(outer_dim as int, 128)
        },
        Ok(Nvfp4QuantPlan::Slow { outer_dim: rows, inner_dim: width, sf_inner_dim, chunks }) => {
            &&& inner_dim % 16 == 0
            &&& (rows, width) == (outer_dim, inner_dim)
            &&& x_ptr % 16 != 0 || switches.nvfp4_slow
            &&& sf_inner_dim == spec_sf_inner(inner_dim as int)
            &&& is_chunked(chunks@, "quantize_f16_to_nvfp4", outer_dim, inner_dim / 16, 80)
        },
    }
}

/// The number of a block of sixteen elements among all blocks, row after row.
pub open spec fn block_number(row: int, block: int, blocks_per_row: int) -> int {
    row * blocks_per_row + block
}

/// `c` works on the block of sixteen elements number `block` of row `row`.
pub open spec fn chunk_has_block(c: ChunkLaunch, row: int, block: int) -> bool {
    chunk_has_row(c, row) && 0 <= block < c.launch.grid.0
}

/// One of the launches works on the block.
pub open spec fn some_chunk_has_block(launches: Seq<ChunkLaunch>, row: int, block: int) -> bool {
    exists|i: int| 0 <= i < launches.len() && #[trigger] chunk_has_block(launches[i], row, block)
}

/// One request, brought to NVFP4 in one launch (`fast`) and chunk by chunk (`slow`): both refuse it
/// for the same rows, or both take the same rows and blocks and lay the scales out alike. Every block
/// of every row has a thread of the one launch and belongs to exactly one chunk. The rows of the
/// last tile that hold nothing have threads too, and where whole tiles of 64 elements make up a row,
/// there are as many blocks in those rows as the scale buffer has bytes. The chunks leave those
/// rows out; their scales are zero from before.
pub proof fn fast_and_slow_cover_alike(
    fast: Result<Nvfp4QuantPlan, KernelError>,
    slow: Result<Nvfp4QuantPlan, KernelError>,
    switches: QuantSwitches,
    x_ptr: u64,
    outer_dim: u32,
    inner_dim: u32,
)
    requires
        is_nvfp4_quant(
            fast,
            (QuantSwitches { nvfp4_slow: false, ..switches }),
            x_ptr,
            outer_dim,
            inner_dim,
        ),
        is_nvfp4_quant(
            slow,
            (QuantSwitches { nvfp4_slow: true, ..switches }),
            x_ptr,
            outer_dim,
            inner_dim,
        ),
        x_ptr % 16 == 0,
        ceil_div(round_up(outer_dim as int, 128) * (inner_dim / 16), 256) <= u32::MAX,
    ensures
        match (fast, slow) {
            (Err(a), Err(b)) => inner_dim % 16 != 0 && a == b,
            (
                Ok(Nvfp4QuantPlan::Fast { launch, outer_dim: fo, inner_dim: fi, sf_inner_dim: fs, outer_cov }),
                Ok(Nvfp4QuantPlan::Slow { outer_dim: so, inner_dim: si, sf_inner_dim: ss, chunks }),
            ) => {
                let per_row = (inner_dim / 16) as int;
                &&& inner_dim % 16 == 0
                &&& (fo, fi, fs) == (so, si, ss)
                &&& outer_dim <= outer_cov
                &&& inner_dim % 64 == 0 ==> scale_buffer_size(outer_dim as int, inner_dim as int)
                    == outer_cov * per_row
                &&& forall|row: int, block: int|
                    #![trigger block_number(row, block, per_row)]
                    0 <= row < outer_cov && 0 <= block < per_row ==> 0 <= block_number(row, block, per_row)
                        < launch.grid.0 * launch.block.0
                &&& forall|row: int, block: int|
                    0 <= row < outer_dim && 0 <= block < per_row ==> #[trigger] some_chunk_has_block(
                        chunks@,
                        row,
                        block,
                    )
                &&& forall|row: int, block: int, i: int, j: int|
                    0 <= i < j < chunks@.len() && #[trigger] chunk_has_block(chunks@[i], row, block)
                        ==> !#[trigger] chunk_has_block(chunks@[j], row, block)
                &&& forall|row: int, block: int, i: int|
                    0 <= i < chunks@.len() && #[trigger] chunk_has_block(chunks@[i], row, block) ==> 0
                        <= row < outer_dim && block < per_row
            },
            _ => false,
        },
{
    lemma_ceil_div(outer_dim as int, 128);
    let per_row = (inner_dim / 16) as int;
    match (fast, slow) {
        (Ok(Nvfp4QuantPlan::Fast { launch, outer_cov, .. }), Ok(Nvfp4QuantPlan::Slow { chunks, .. })) => {
            fast_launch_covers("quantize_f16_to_nvfp4_fast", outer_dim, inner_dim);
            assert forall|row: int, block: int|
                #![trigger block_number(row, block, per_row)]
                0 <= row < outer_cov && 0 <= block < per_row implies 0 <= block_number(row, block, per_row)
                < launch.grid.0 * launch.block.0 by {
                assert(0 <= row * per_row + block < outer_cov * per_row) by (nonlinear_arith)
                    requires
                        0 <= row,
                        row + 1 <= outer_cov,
                        0 <= block < per_row,
                ;
            }
            if inner_dim % 64 == 0 {
                lemma_ceil_div(inner_dim as int, 64);
                assert(spec_sf_inner(inner_dim as int) == per_row);
                assert(per_row * (outer_cov as int) == outer_cov * per_row) by (nonlinear_arith);
            }
            assert forall|i: int| 0 <= i < chunks@.len() implies #[trigger] chunks@[i].launch.grid.0
                == per_row by {
                assert(chunks@[i] == chunk_launch(
                    "quantize_f16_to_nvfp4",
                    outer_dim,
                    inner_dim / 16,
                    80,
                    i,
                ));
            }
            assert forall|row: int, block: int|
                0 <= row < outer_dim && 0 <= block < per_row implies #[trigger] some_chunk_has_block(
                chunks@,
                row,
                block,
            ) by {
                chunks_partition_rows(
                    chunks@,
                    "quantize_f16_to_nvfp4",
                    outer_dim,
                    inner_dim / 16,
                    80,
                    row,
                );
                let i = choose|i: int|
                    0 <= i < chunks@.len() && #[trigger] chunk_has_row(chunks@[i], row);
                assert(chunks@[i].launch.grid.0 == per_row);
                assert(chunk_has_block(chunks@[i], row, block));
            }
            assert forall|row: int, block: int, i: int, j: int|
                0 <= i < j < chunks@.len() && #[trigger] chunk_has_block(chunks@[i], row, block)
                    implies !#[trigger] chunk_has_block(chunks@[j], row, block) by {
                chunks_partition_rows(
                    chunks@,
                    "quantize_f16_to_nvfp4",
                    outer_dim,
                    inner_dim / 16,
                    80,
                    row,
                );
            }
            assert forall|row: int, block: int, i: int|
                0 <= i < chunks@.len() && #[trigger] chunk_has_block(chunks@[i], row, block) implies 0
                <= row < outer_dim && block < per_row by {
                chunks_partition_rows(
                    chunks@,
                    "quantize_f16_to_nvfp4",
                    outer_dim,
                    inner_dim / 16,
                    80,
                    row,
                );
                assert(chunks@[i].launch.grid.0 == per_row);
            }
        },
        _ => {},
    }
}

/// Plans the quantisation of `outer_dim` rows of `inner_dim` half floats at the device address
/// `x_ptr` to NVFP4.
pub fn quantize_f16_to_nvfp4_view(
    switches: &QuantSwitches,
    x_ptr: u64,
    outer_dim: u32,
    inner_dim: u32,
) -> (r: Result<Nvfp4QuantPlan, KernelError>)
    requires
        takes_fast_quant(*switches, x_ptr, inner_dim) ==> round_up(outer_dim as int, 128)
            <= u32::MAX,
    ensures
        is_nvfp4_quant(r, *switches, x_ptr, outer_dim, inner_dim),
{
    if inner_dim % 16 != 0 {
        return Err(
            KernelError::Cuda1(
                "quantize_f16_to_nvfp4: inner_dim={} must be multiple of 16",
                inner_dim as u64,
            ),
        );
    }
    let sf: u32 = sf_inner_dim(inner_dim);
    if x_ptr % 16 == 0 && !switches.nvfp4_slow {
        let launch = fast_quant_launch("quantize_f16_to_nvfp4_fast", outer_dim, inner_dim);
        return Ok(
            Nvfp4QuantPlan::Fast {
                launch,
                outer_dim,
                inner_dim,
                sf_inner_dim: sf,
                outer_cov: round_up_u32(outer_dim, 128),
            },
        );
    }
    let chunks = row_chunks("quantize_f16_to_nvfp4", outer_dim, inner_dim / 16, 80);
    Ok(Nvfp4QuantPlan::Slow { outer_dim, inner_dim, sf_inner_dim: sf, chunks })
}

/// As `quantize_f16_to_nvfp4_view`, for a whole buffer.
pub fn quantize_f16_to_nvfp4(
    switches: &QuantSwitches,
    x_ptr: u64,
    outer_dim: u32,
    inner_dim: u32,
) -> (r: Result<Nvfp4QuantPlan, KernelError>)
    requires
        takes_fast_quant(*switches, x_ptr, inner_dim) ==> round_up(outer_dim as int, 128)
            <= u32::MAX,
    ensures
        is_nvfp4_quant(r, *switches, x_ptr, outer_dim, inner_dim),
{
    quantize_f16_to_nvfp4_view(switches, x_ptr, outer_dim, inner_dim)
}

/// How `silu(gate) * up` is brought to NVFP4.
#[derive(Clone, Copy, Debug, PartialEq, Eq)]
pub struct SiluMulQuantPlan {
    pub launch: Launch,
    /// Values of gate and up, next to one another.
    pub x: Span,
    pub outer_dim: u32,
    pub inner_dim: u32,
    pub sf_inner_dim: u32,
    pub outer_cov: u32,
}

/// The outcome of a request for `silu(gate) * up` with NVFP4 output.
pub open spec fn silu_mul_quant_plan(x_off_bytes: usize, outer_dim: u32, inner_dim: u32) -> Result<
    SiluMulQuantPlan,
    KernelError,
> {
    if inner_dim % 16 != 0 {
        Err(
            KernelError::Cuda1(
                "silu_mul_quantize_nvfp4: inner_dim={} must be multiple of 16",
                inner_dim as u64,
            ),
        )
    } else {
        Ok(
            SiluMulQuantPlan {
                launch: fast_launch("silu_mul_quantize_nvfp4_fast", outer_dim, inner_dim),
                x: spec_span(x_off_bytes as int, outer_dim * inner_dim * 2, 2),
                outer_dim,
                inner_dim,
                sf_inner_dim: spec_sf_inner(inner_dim as int) as u32,
                outer_cov: round_up(outer_dim as int, 128) as u32,
            },
        )
    }
}

/// Plans `silu(gate) * up` with NVFP4 output, gate and up lying side by side from byte
/// `x_off_bytes` of their buffer on.
pub fn silu_mul_quantize_nvfp4_u8(x_off_bytes: usize, outer_dim: u32, inner_dim: u32) -> (r: Result<
    SiluMulQuantPlan,
    KernelError,
>)
    requires
        silu_mul_quant_plan(x_off_bytes, outer_dim, inner_dim) is Ok ==> {
            &&& round_up(outer_dim as int, 128) <= u32::MAX
            &&& x_off_bytes + outer_dim * inner_dim * 4 <= usize::MAX
        },
    ensures
        r == silu_mul_quant_plan(x_off_bytes, outer_dim, inner_dim),
{
    if inner_dim % 16 != 0 {
        return Err(
            KernelError::Cuda1(
                "silu_mul_quantize_nvfp4: inner_dim={} must be multiple of 16",
                inner_dim as u64,
            ),
        );
    }
    proof {
        assert(0 <= outer_dim * inner_dim) by (nonlinear_arith);
    }
    let n: usize = (outer_dim as usize) * (inner_dim as usize) * 2;
    let x = span(x_off_bytes, n, 2);
    let launch = fast_quant_launch("silu_mul_quantize_nvfp4_fast", outer_dim, inner_dim);
    Ok(
        SiluMulQuantPlan {
            launch,
            x,
            outer_dim,
            inner_dim,
            sf_inner_dim: sf_inner_dim(inner_dim),
            outer_cov: round_up_u32(outer_dim, 128),
        },
    )
}

/// How NVFP4 rows are brought back to half floats.
#[derive(Debug, PartialEq, Eq)]
pub struct DequantPlan {
    pub outer_dim: u32,
    pub inner_dim: u32,
    pub sf_inner_dim: u32,
    pub chunks: Vec<ChunkLaunch>,
}

/// `r` is how `outer_dim` rows of `inner_dim` elements are brought back from NVFP4.
pub open spec fn is_nvfp4_dequant(
    r: Result<DequantPlan, KernelError>,
    outer_dim: u32,
    inner_dim: u32,
) -> bool {
    match r {
        Err(e) => inner_dim % 16 != 0 && e == KernelError::Cuda1(
            "nvfp4_dequant_f16: inner_dim={} must be multiple of 16",
            inner_dim as u64,
        ),
        Ok(p) => {
            &&& inner_dim % 16 == 0
            &&& (p.outer_dim, p.inner_dim) == (outer_dim, inner_dim)
            &&& p.sf_inner_dim == spec_sf_inner(inner_dim as int)
            &&& is_chunked(p.chunks@, "nvfp4_dequant_f16", outer_dim, inner_dim / 16, 0)
        },
    }
}

/// Plans the way back from NVFP4 to half floats.
pub fn nvfp4_dequant_f16(outer_dim: u32, inner_dim: u32) -> (r: Result<DequantPlan, KernelError>)
    ensures
        is_nvfp4_dequant(r, outer_dim, inner_dim),
{
    if inner_dim % 16 != 0 {
        return Err(
            KernelError::Cuda1(
                "nvfp4_dequant_f16: inner_dim={} must be multiple of 16",
                inner_dim as u64,
            ),
        );
    }
    let sf: u32 = sf_inner_dim(inner_dim);
    let chunks = row_chunks("nvfp4_dequant_f16", outer_dim, inner_dim / 16, 0);
    Ok(DequantPlan { outer_dim, inner_dim, sf_inner_dim: sf, chunks })
}

/// A launch over `rows` rows of `k` elements, with both counts as the kernels take them.
#[derive(Clone, Copy, Debug, PartialEq, Eq)]
pub struct RowsLaunch {
    pub launch: Launch,
    pub rows: i32,
    pub k: i32,
}

/// Threads per block of 32 elements in the MXFP8 kernel in use.
pub open spec fn mxfp8_threads_per_block(switches: QuantSwitches, in_ptr: u64) -> int {
    if in_ptr % 16 == 0 && !switches.mxfp8_slow && switches.mxfp8_fast4 { 4 } else { 1 }
}

/// The MXFP8 quantisation kernel in use for data at `in_ptr`.
pub open spec fn mxfp8_kernel(switches: QuantSwitches, in_ptr: u64) -> &'static str {
    if in_ptr % 16 == 0 && !switches.mxfp8_slow {
        if switches.mxfp8_fast4 { "mxfp8_quant_natural_fast4" } else { "mxfp8_quant_natural_fast" }
    } else {
        "mxfp8_quant_natural"
    }
}

/// The quantisation of `rows` rows of `k` half floats to MXFP8.
pub open spec fn mxfp8_natural(
    switches: QuantSwitches,
    in_ptr: u64,
    rows: u32,
    k: u32,
) -> RowsLaunch {
    RowsLaunch {
        launch: spec_launch1(
            mxfp8_kernel(switches, in_ptr),
            ceil_div(rows * (k / 32) * mxfp8_threads_per_block(switches, in_ptr), 256),
            256,
        ),
        rows: rows as i32,
        k: k as i32,
    }
}

/// Plans the quantisation of `rows` rows of `k` half floats at the device address `in_ptr` to
/// MXFP8, one scale for each 32 elements.
pub fn mxfp8_quant_natural(
    switches: &QuantSwitches,
    in_ptr: u64,
    rows: u32,
    k: u32,
) -> (r: RowsLaunch)
    requires
        rows * (k / 32) * mxfp8_threads_per_block(*switches, in_ptr) <= u32::MAX,
    ensures
        r == mxfp8_natural(*switches, in_ptr, rows, k),
{
    let aligned = in_ptr % 16 == 0;
    proof {
        assert(0 <= rows * (k / 32)) by (nonlinear_arith);
    }
    let blocks: u32 = rows * (k / 32);
    let launch = if aligned && !switches.mxfp8_slow && switches.mxfp8_fast4 {
        launch1("mxfp8_quant_natural_fast4", div_ceil_u32(blocks * 4, 256), 256)
    } else if aligned && !switches.mxfp8_slow {
        launch1("mxfp8_quant_natural_fast", div_ceil_u32(blocks, 256), 256)
    } else {
        launch1("mxfp8_quant_natural", div_ceil_u32(blocks, 256), 256)
    };
    RowsLaunch { launch, rows: rows as i32, k: k as i32 }
}

/// Plans the way back from MXFP8 to half floats for `rows` rows of `k` elements.
pub fn mxfp8_dequant_f16(rows: u32, k: u32) -> (r: RowsLaunch)
    requires
        rows * k <= u32::MAX,
    ensures
        r == (RowsLaunch {
            launch: spec_launch1("mxfp8_dequant_f16", ceil_div(rows * k, 256), 256),
            rows: rows as i32,
            k: k as i32,
        }),
{
    RowsLaunch {
        launch: launch1("mxfp8_dequant_f16", div_ceil_u32(rows * k, 256), 256),
        rows: rows as i32,
        k: k as i32,
    }
}

} // verus!
