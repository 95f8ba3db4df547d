//! What a way to few bits takes, and that its plan takes every value once.

use vstd::prelude::*;

use crate::arith::{ceil_div, lemma_ceil_div, round_up};
use crate::coverage::{spans, thread_each};
use crate::cuda_backend::quant_ops::{mod_quant_plan, ModQuantOperands};
use crate::dtype::DType;
use crate::elementwise::quant::{
    chunk_has_block, chunk_launch, is_chunked, is_nvfp4_dequant, is_nvfp4_quant, mxfp8_natural,
    silu_mul_quant_plan, some_chunk_has_block, ChunkLaunch, DequantPlan, Nvfp4QuantPlan, QuantSwitches,
    QUANT_CHUNK,
};
use crate::error::KernelError;
use crate::launch::Launch;

verus! {

/// The scales of `inner` values, one for every 16, up to a whole tile of four.
pub open spec fn scales_of(sf: int, inner: int) -> bool {
    sf % 4 == 0 && inner <= sf * 16 < inner + 64
}

/// The rows of a whole tile of scales.
pub open spec fn tile_of(cov: int, rows: int) -> bool {
    cov % 128 == 0 && rows <= cov < rows + 128
}

proof fn lemma_tiles(outer: int, inner: int)
    requires
        0 <= outer,
        0 <= inner,
    ensures
        scales_of(ceil_div(inner, 64) * 4, inner),
        tile_of(round_up(outer, 128), outer),
{
    lemma_ceil_div(inner, 64);
    lemma_ceil_div(outer, 128);
}

/// A launch has a thread for every block of 16 values of every row up to a whole tile.
pub open spec fn block_threads(l: Launch, outer: int, inner: int) -> bool {
    thread_each(l, round_up(outer, 128) * (inner / 16))
}

proof fn lemma_block_threads(kernel: &'static str, outer: u32, inner: u32)
    requires
        round_up(outer as int, 128) * (inner / 16) <= u32::MAX,
    ensures
        block_threads(
            crate::elementwise::quant::fast_launch(kernel, outer, inner),
            outer as int,
            inner as int,
        ),
{
    lemma_ceil_div(outer as int, 128);
    let n = round_up(outer as int, 128) * (inner / 16);
    assert(0 <= n) by (nonlinear_arith)
        requires
            n == round_up(outer as int, 128) * (inner / 16),
            round_up(outer as int, 128) >= 0,
    ;
    lemma_ceil_div(n, 256);
}

/// The way to four bits is of the rows and widths asked for, with a scale for every 16 values. The
/// launch that reads many values at once is given only aligned ones, and where nothing speaks
/// against it, it is taken. Rows whose width is no multiple of 16 are refused, and no others.
pub proof fn four_bit_values_are_as_asked(
    r: Result<Nvfp4QuantPlan, KernelError>,
    switches: QuantSwitches,
    x_ptr: u64,
    outer_dim: u32,
    inner_dim: u32,
)
    requires
        is_nvfp4_quant(r, switches, x_ptr, outer_dim, inner_dim),
        round_up(outer_dim as int, 128) * (inner_dim / 16) <= u32::MAX,
    ensures
        r is Ok <==> inner_dim % 16 == 0,
        r matches Ok(p) ==> {
            &&& p is Fast <==> x_ptr % 16 == 0 && !switches.nvfp4_slow
            &&& match p {
                Nvfp4QuantPlan::Fast { launch, outer_dim: rows, inner_dim: width, sf_inner_dim, outer_cov } => {
                    &&& (rows, width) == (outer_dim, inner_dim)
                    &&& scales_of(sf_inner_dim as int, inner_dim as int)
                    &&& tile_of(outer_cov as int, outer_dim as int)
                    &&& block_threads(launch, outer_dim as int, inner_dim as int)
                },
                Nvfp4QuantPlan::Slow { outer_dim: rows, inner_dim: width, sf_inner_dim, chunks } => {
                    &&& (rows, width) == (outer_dim, inner_dim)
                    &&& scales_of(sf_inner_dim as int, inner_dim as int)
                    &&& forall|row: int, block: int|
                        0 <= row < outer_dim && 0 <= block < inner_dim / 16
                            ==> #[trigger] some_chunk_has_block(chunks@, row, block)
                },
            }
        },
{
    lemma_tiles(outer_dim as int, inner_dim as int);
    lemma_block_threads("quantize_f16_to_nvfp4_fast", outer_dim, inner_dim);
    if let Ok(Nvfp4QuantPlan::Slow { chunks, .. }) = r {
        lemma_chunks_have_blocks(chunks@, "quantize_f16_to_nvfp4", outer_dim, inner_dim / 16, 80);
    }
}

/// Row by row, a block of threads has one for every value of its sixteen, no launch takes more rows than
/// the grid holds, and each starts where the one before it ends.
pub proof fn chunks_have_a_thread_for_every_value(
    chunks: Seq<ChunkLaunch>,
    kernel: &'static str,
    outer: u32,
    blocks: u32,
    smem: u32,
    i: int,
)
    requires
        is_chunked(chunks, kernel, outer, blocks, smem),
        0 <= i < chunks.len(),
    ensures
        chunks[i].launch.kernel == kernel && chunks[i].launch.shared_mem_bytes == smem,
        chunks[i].launch.block == (16u32, 1u32, 1u32),
        chunks[i].launch.grid.0 == blocks && chunks[i].launch.grid.2 == 1,
        0 < chunks[i].launch.grid.1 <= 65535,
        i == 0 ==> chunks[i].outer_offset == 0,
        i + 1 < chunks.len() ==> chunks[i].outer_offset + chunks[i].launch.grid.1 == chunks[i + 1].outer_offset,
        i + 1 == chunks.len() ==> chunks[i].outer_offset + chunks[i].launch.grid.1 == outer,
{
    let c = QUANT_CHUNK as int;
    lemma_ceil_div(outer as int, c);
    assert(chunks[i] == chunk_launch(kernel, outer, blocks, smem, i));
    if i + 1 < chunks.len() {
        assert(chunks[i + 1] == chunk_launch(kernel, outer, blocks, smem, i + 1));
    }
}

proof fn lemma_chunks_have_blocks(
    chunks: Seq<ChunkLaunch>,
    kernel: &'static str,
    outer: u32,
    blocks: u32,
    smem: u32,
)
    requires
        is_chunked(chunks, kernel, outer, blocks, smem),
    ensures
        forall|row: int, block: int|
            0 <= row < outer && 0 <= block < blocks ==> #[trigger] some_chunk_has_block(
                chunks,
                row,
                block,
            ),
{
    let c = QUANT_CHUNK as int;
    lemma_ceil_div(outer as int, c);
    assert forall|row: int, block: int|
        0 <= row < outer && 0 <= block < blocks implies #[trigger] some_chunk_has_block(
        chunks,
        row,
        block,
    ) by {
        let i = row / c;
        assert(0 <= i < chunks.len());
        assert(chunks[i] == chunk_launch(kernel, outer, blocks, smem, i));
        assert(chunk_has_block(chunks[i], row, block));
    }
}

/// The way back from four bits is of the rows and widths asked for, and takes every block.
pub proof fn four_bit_values_come_back(
    r: Result<DequantPlan, KernelError>,
    outer_dim: u32,
    inner_dim: u32,
)
    requires
        is_nvfp4_dequant(r, outer_dim, inner_dim),
    ensures
        r is Ok <==> inner_dim % 16 == 0,
        r matches Ok(p) ==> {
            &&& (p.outer_dim, p.inner_dim) == (outer_dim, inner_dim)
            &&& scales_of(p.sf_inner_dim as int, inner_dim as int)
            &&& forall|row: int, block: int|
                0 <= row < outer_dim && 0 <= block < inner_dim / 16
                    ==> #[trigger] some_chunk_has_block(p.chunks@, row, block)
        },
{
    lemma_tiles(outer_dim as int, inner_dim as int);
    if let Ok(p) = r {
        lemma_chunks_have_blocks(p.chunks@, "nvfp4_dequant_f16", outer_dim, inner_dim / 16, 0);
    }
}

/// A gate's activation times a value on its way to four bits takes a gate and a value for every
/// element of every row.
pub proof fn gated_four_bit_values_are_as_asked(x_off: usize, outer_dim: u32, inner_dim: u32)
    requires
        round_up(outer_dim as int, 128) <= u32::MAX,
        round_up(outer_dim as int, 128) * (inner_dim / 16) <= u32::MAX,
        x_off + outer_dim * inner_dim * 4 <= usize::MAX,
    ensures
        silu_mul_quant_plan(x_off, outer_dim, inner_dim) is Ok <==> inner_dim % 16 == 0,
        silu_mul_quant_plan(x_off, outer_dim, inner_dim) matches Ok(p) ==> {
            &&& (p.outer_dim, p.inner_dim) == (outer_dim, inner_dim)
            &&& spans(p.x, x_off as int, 2 * (outer_dim * inner_dim), 2)
            &&& scales_of(p.sf_inner_dim as int, inner_dim as int)
            &&& tile_of(p.outer_cov as int, outer_dim as int)
            &&& block_threads(p.launch, outer_dim as int, inner_dim as int)
        },
{
    lemma_tiles(outer_dim as int, inner_dim as int);
    lemma_block_threads("silu_mul_quantize_nvfp4_fast", outer_dim, inner_dim);
    let n = outer_dim * inner_dim;
    assert(0 <= n) by (nonlinear_arith)
        requires
            n == outer_dim * inner_dim,
    ;
}

/// The way to eight bits is of the rows and widths asked for: a thread for every 32 values, or four
/// where the values are aligned and four are wanted.
pub proof fn eight_bit_values_are_as_asked(switches: QuantSwitches, in_ptr: u64, rows: u32, k: u32)
    requires
        rows * (k / 32) * 4 <= u32::MAX,
        rows <= i32::MAX,
        k <= i32::MAX,
    ensures
        ({
            let p = mxfp8_natural(switches, in_ptr, rows, k);
            let four = in_ptr % 16 == 0 && !switches.mxfp8_slow && switches.mxfp8_fast4;
            &&& p.rows == rows && p.k == k
            &&& thread_each(p.launch, (rows * (k / 32)) * (if four { 4int } else { 1int }))
        }),
{
    let n = rows * (k / 32);
    assert(0 <= n) by (nonlinear_arith)
        requires
            n == rows * (k / 32),
    ;
    lemma_ceil_div(n, 256);
    lemma_ceil_div(n * 4, 256);
    assert(n * 1 == n);
}

/// A norm on its way to few bits takes every value of every row, and the scale and shift that the
/// number of the norm stands for: those of `mod_div` rows together, or one weight for all rows.
pub proof fn norm_to_few_bits_is_as_asked(
    o: ModQuantOperands,
    m: usize,
    k: usize,
    kind: u8,
    mod_div: usize,
    mxfp8: bool,
)
    requires
        0 < m <= i32::MAX - 127,
        0 < k <= i32::MAX - 63,
        k * 2 <= u32::MAX,
        0 < mod_div <= i32::MAX,
        m * k * 2 <= usize::MAX,
        o.x.layout.byte_offset + m * k * 2 <= usize::MAX,
        o.scale.layout.byte_offset + m * k * 2 <= usize::MAX,
        o.shift.layout.byte_offset + m * k * 2 <= usize::MAX,
    ensures
        mod_quant_plan(o, m, k, kind, mod_div, mxfp8) is Ok <==> {
            &&& kind <= 3
            &&& o.x.cuda && o.scale.cuda && o.shift.cuda
            &&& o.x.layout.contiguous && o.scale.layout.contiguous && o.shift.layout.contiguous
            &&& o.y_cuda && o.packed_cuda && o.scales_cuda
            &&& k % (if mxfp8 { 32usize } else { 16usize }) == 0
            &&& o.x.layout.dtype == DType::F16 || o.x.layout.dtype == DType::BF16
        },
        mod_quant_plan(o, m, k, kind, mod_div, mxfp8) matches Ok(r) ==> r is Some,
        mod_quant_plan(o, m, k, kind, mod_div, mxfp8) matches Ok(Some(p)) ==> {
            let len = if kind >= 2 { k as int } else { (m * k) / (mod_div as int) };
            &&& (p.params.batch as int, p.params.hidden as int) == (m as int, k as int)
            &&& tile_of(p.params.batch_cov as int, m as int)
            &&& scales_of(p.params.sf_inner_dim as int, k as int)
            &&& p.launch.grid.0 == (if mxfp8 { m as int } else { round_up(m as int, 128) })
            &&& p.launch.grid.1 == 1 && p.launch.grid.2 == 1
            &&& p.launch.block.1 == 1 && p.launch.block.2 == 1
            &&& p.launch.shared_mem_bytes == k * 2
            &&& spans(p.x, o.x.layout.byte_offset as int, m * k, 2)
            &&& spans(p.scale, o.scale.layout.byte_offset as int, len, 2)
            &&& spans(p.shift, o.shift.layout.byte_offset as int, len, 2)
            &&& spans(p.y, 0, m * k, 2)
            &&& kind == 0 ==> p.extra is None
            &&& kind == 1 ==> p.extra == Some(mod_div as i32)
            &&& kind == 2 ==> p.extra == Some(0i32)
            &&& kind == 3 ==> p.extra == Some(1i32)
        },
{
    lemma_tiles(m as int, k as int);
    lemma_ceil_div(m as int, 128);
    lemma_ceil_div(k as int, 64);
    let (a, b, c) = (m as int, k as int, mod_div as int);
    assert(0 <= a * b && b <= a * b) by (nonlinear_arith)
        requires
            1 <= a,
            1 <= b,
    ;
    let n = a * b;
    assert(0 <= n / c <= n) by (nonlinear_arith)
        requires
            0 <= n,
            1 <= c,
    ;
}

} // verus!
