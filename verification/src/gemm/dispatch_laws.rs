//! Which kernel a product is given to, and that it takes the product's shape.

use vstd::prelude::*;

use crate::arith::lemma_ceil_div;
use crate::dtype::DType;
use crate::gemm::dispatch::{
    dr_divides, first_fit, first_fit_fits, full_candidates, full_direct, mxfp8_prequant, mxfp8_tiled,
    nvfp4_choice, nvfp4_linear, run_rows, spec_dr_cfgs, spec_fits_2d, spec_fits_2dr, spec_fits_n8,
    FullChoices, FullTile, Gemm2drConfig, Nvfp4Plan, Prequant,
};
use crate::weight::{Packed, QuantWeight};

verus! {

proof fn lemma_tile(c: Gemm2drConfig, n: u32, m: u32, a: int, b: int, p: int, q: int, outs: int, rows: int)
    requires
        c.warps_m == a,
        c.mu == b,
        c.warps_n == p,
        c.nu == q,
        a * b * 16 == outs,
        p * q * 8 == rows,
    ensures
        dr_divides(c, n, m) <==> n as int % outs == 0 && m as int % rows == 0,
{
}

/// What the tiles of the kernels divide: those in registers 64 outputs by 32 rows, those for eight
/// rows 64 by 8, those that share a block 32 by 16.
pub proof fn tiles_divide(n: u32, m: u32)
    ensures
        spec_fits_2dr(n, m) <==> n % 64 == 0 && m % 32 == 0,
        spec_fits_n8(n, m) <==> n % 64 == 0 && m % 8 == 0,
        spec_fits_2d(n, m) <==> n % 32 == 0 && m % 16 == 0,
{
    let c = spec_dr_cfgs();
    lemma_tile(c[0], n, m, 2, 4, 2, 8, 128, 128);
    lemma_tile(c[1], n, m, 2, 4, 2, 4, 128, 64);
    lemma_tile(c[2], n, m, 4, 2, 2, 4, 128, 64);
    lemma_tile(c[3], n, m, 4, 2, 4, 2, 128, 64);
    lemma_tile(c[4], n, m, 2, 2, 2, 2, 64, 32);
    if n % 64 == 0 && m % 32 == 0 {
        assert(dr_divides(c[4], n, m));
    }
    if spec_fits_2dr(n, m) {
        let i = choose|i: int|
            0 <= i < 5 && dr_divides(#[trigger] spec_dr_cfgs()[i], n, m);
        assert(dr_divides(c[i], n, m));
        assert(i == 0 || i == 1 || i == 2 || i == 3 || i == 4);
    }
}

/// The kernel of a four-bit product takes its shape: the one for a single row exactly a single row,
/// the whole-product builds at least 32 rows and a depth in whole steps of 128, and the others
/// rows and outputs in whole tiles. The one that takes any shape is left for what no other takes.
pub proof fn four_bit_kernel_takes_the_shape(m: u32, n: u32, k: u32, full: FullChoices)
    ensures
        nvfp4_choice(m, n, k, full) is Gemv <==> m == 1,
        nvfp4_choice(m, n, k, full) is Full <==> m >= 32 && k % 128 == 0 && first_fit(
            full_candidates(m, n, k),
            full,
        ) is Some,
        nvfp4_choice(m, n, k, full) matches Nvfp4Plan::Full(c) ==> full.spec_fits(c.tile)
            && full_candidates(m, n, k).contains(c.tile),
        nvfp4_choice(m, n, k, full) is N8 ==> m % 8 == 0 && n % 64 == 0 && (m % 32 != 0 || m <= 64 && n
            <= 8192),
        nvfp4_choice(m, n, k, full) is Reg ==> m % 32 == 0 && n % 64 == 0 && (m > 64 || n > 8192),
        nvfp4_choice(m, n, k, full) is Coop ==> m % 16 == 0 && n % 32 == 0 && n % 64 != 0,
        nvfp4_choice(m, n, k, full) is Broadcast ==> m != 1 && !(m % 8 == 0 && n % 64 == 0) && !(m % 16
            == 0 && n % 32 == 0),
{
    tiles_divide(n, m);
    first_fit_fits(full_candidates(m, n, k), full);
}

/// The build that is tried first for a batch of `m` rows, of a product that widens where `n > k`
/// and else does not, of a weight of `bytes` bytes.
pub open spec fn first_try(m: int, widens: bool, bytes: int) -> Option<FullTile> {
    if m > 512 || m == 512 && !widens {
        Some(FullTile::C_128_256_S3_SWZ_ROT)
    } else if 32 <= m <= 96 || 97 <= m <= 128 && !widens {
        Some(FullTile::C_128_64_S4_SWZ)
    } else if 97 <= m <= 160 && widens && bytes <= 41_943_040 {
        Some(FullTile::C_PERSIST_C256_S4_SWZ)
    } else if 161 <= m <= 320 && widens && bytes <= 41_943_040 {
        Some(FullTile::C_128_256_S3_SWZ_DROT)
    } else if 321 <= m <= 512 && widens && bytes <= 41_943_040 {
        Some(FullTile::C_PERSIST_C256_S4_SWZ)
    } else if 129 <= m <= 320 && !widens {
        Some(FullTile::C_128_128_C256_S4_SWZ_DROT)
    } else if 321 <= m <= 511 && !widens {
        Some(FullTile::C_128_256_S3_SWZ_DROT)
    } else {
        None
    }
}

/// The builds are tried from the one that suits the batch on, and at the end the two that stay
/// resident where the weight is larger than the cache and the product widens, else the two that do
/// not.
pub proof fn builds_are_tried_in_order(m: u32, n: u32, k: u32)
    ensures
        ({
            let c = full_candidates(m, n, k);
            let bytes = (n * k) / 2;
            let big = bytes > 25_165_824 && n >= k;
            &&& c.len() >= 2
            &&& match first_try(m as int, n > k, bytes) {
                Some(t) => c[0] == t,
                None => c.len() == 2,
            }
            &&& c[c.len() - 2] == (if big {
                FullTile::C_PERSIST_C256_S4_SWZ
            } else {
                FullTile::C_128_128_C256_S4_SWZ
            })
            &&& c[c.len() - 1] == (if big {
                FullTile::C_PERSIST_C256_S3_SWZ
            } else {
                FullTile::C_128_128_C256_S3_SWZ
            })
        }),
{
}

/// The rows that a four-bit product runs on are the least multiple of its step that holds them all:
/// every row as it is where a build takes it so, else steps of 16 rows, of 128 from 128 rows on and
/// of 256 from 1280 rows on.
pub proof fn rows_are_run_in_steps(m: u32, n: u32, k: u32, full: FullChoices)
    ensures
        ({
            let run = run_rows(m, n, k, full);
            let step = if m >= 1280 { 256int } else if m >= 128 { 128int } else { 16int };
            &&& m <= run < m + step
            &&& m <= 1 || full_direct(m, n, k, full) ==> run == m
            &&& !(m <= 1 || full_direct(m, n, k, full)) ==> run % step == 0
            &&& full_direct(m, n, k, full) <==> m >= 32 && k % 128 == 0 && first_fit(
                full_candidates(m, n, k),
                full,
            ) is Some && !(first_fit(full_candidates(m, n, k), full)->0).persistent
        }),
{
    lemma_ceil_div(m as int, 256);
    lemma_ceil_div(m as int, 128);
    lemma_ceil_div(m as int, 16);
}

/// A four-bit product is accepted for a four-bit weight of a depth in whole steps of 64, on the
/// device or shuffled there already; where there is no row or no output there is no work.
pub proof fn four_bit_product_accepts(
    w: QuantWeight,
    m: u32,
    prequant: Option<Prequant>,
    full: FullChoices,
    full_run: FullChoices,
)
    requires
        w.n <= u32::MAX,
        w.k <= u32::MAX,
    ensures
        nvfp4_linear(w, m, prequant, full, full_run) is Ok <==> {
            &&& w.dtype == DType::NVFP4 && w.k % 64 == 0
            &&& m == 0 || w.n == 0 || w.scales_cuda && (w.shuffled || w.packed == Packed::Device)
        },
        nvfp4_linear(w, m, prequant, full, full_run) matches Ok(p) ==> {
            &&& p.work is None <==> m == 0 || w.n == 0
            &&& p.work matches Some(work) ==> (work.build_shuffled <==> !w.shuffled)
        },
{
}

/// An eight-bit product in tiles is for outputs and a depth in whole steps of 128 and nothing else,
/// of a weight on the device; the kernel that clips its last tile takes a depth in whole steps of
/// 512.
pub proof fn eight_bit_product_accepts(w: QuantWeight, m: u32)
    requires
        w.n <= u32::MAX,
        w.k <= u32::MAX,
        m + 127 <= u32::MAX,
    ensures
        mxfp8_tiled(w, m) matches Ok(r) ==> {
            &&& r is None <==> w.n % 128 != 0 || w.k % 128 != 0
            &&& r matches Some(p) ==> {
                &&& p.gemm is Rotating <==> w.k % 512 == 0 && w.k > 0
                &&& p.gemm is Direct <==> !(w.k % 512 == 0 && w.k > 0) && m % 128 == 0
                &&& (p.n as usize, p.k as usize) == (w.n, w.k)
                &&& p.m_pad % 128 == 0 && m <= p.m_pad < m + 128
            }
        },
        mxfp8_tiled(w, m) is Ok <==> w.n % 128 != 0 || w.k % 128 != 0 || w.packed == Packed::Device
            && w.scales_cuda,
        mxfp8_prequant(w, m) is Ok <==> w.n % 128 == 0 && w.k % 512 == 0 && w.k > 0 && w.packed
            == Packed::Device && w.scales_cuda,
{
    lemma_ceil_div(m as int, 128);
}

} // verus!
