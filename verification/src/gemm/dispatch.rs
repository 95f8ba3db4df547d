//! Choice of the matrix kernel for a quantised weight, and the buffers it works on.

use vstd::prelude::*;

use crate::arith::{ceil_div, lemma_ceil_div, lemma_ceil_div_monotone, round_up, round_up_u32};
use crate::dtype::DType;
use crate::elementwise::quant::{
    is_nvfp4_quant, nvfp4_scale_buffer_size, quantize_f16_to_nvfp4_view, scale_buffer_covers_tile,
    scale_buffer_size, takes_fast_quant, Nvfp4QuantPlan, QuantSwitches,
};
use crate::error::KernelError;
use crate::weight::{Packed, QuantWeight};

verus! {

/// The tilings that the large NVFP4 kernel was built with.
#[allow(non_camel_case_types)]
#[derive(Clone, Copy, Debug, PartialEq, Eq, Structural)]
pub enum FullTile {
    C_128_256_S3_SWZ_ROT,
    C_128_256_S3_SWZ_DROT,
    C_128_64_S4_SWZ,
    C_128_64_S3_SWZ,
    C_PERSIST_C256_S4_SWZ,
    C_PERSIST_C256_S3_SWZ,
    C_128_128_C256_S4_SWZ_DROT,
    C_128_128_C256_S4_SWZ,
    C_128_128_C256_S3_SWZ,
}

/// One build of the large NVFP4 kernel.
#[derive(Clone, Copy, Debug, PartialEq, Eq)]
pub struct Nvfp4FullCfg {
    pub tile: FullTile,
    /// Its blocks stay resident and walk the tiles.
    pub persistent: bool,
    /// The name of its entry.
    pub fname: &'static str,
}

/// A build, and whether it takes the shape in question.
#[derive(Clone, Copy, Debug, PartialEq, Eq)]
pub struct FullChoice {
    pub persistent: bool,
    pub fname: &'static str,
    pub fits: bool,
}

/// Every build of the large NVFP4 kernel, each with whether it takes the shape in question.
#[derive(Clone, Copy, Debug, PartialEq, Eq)]
pub struct FullChoices {
    pub c_128_256_s3_swz_rot: FullChoice,
    pub c_128_256_s3_swz_drot: FullChoice,
    pub c_128_64_s4_swz: FullChoice,
    pub c_128_64_s3_swz: FullChoice,
    pub c_persist_c256_s4_swz: FullChoice,
    pub c_persist_c256_s3_swz: FullChoice,
    pub c_128_128_c256_s4_swz_drot: FullChoice,
    pub c_128_128_c256_s4_swz: FullChoice,
    pub c_128_128_c256_s3_swz: FullChoice,
}

impl FullChoices {
    pub open spec fn spec_choice(&self, tile: FullTile) -> FullChoice {
        match tile {
            FullTile::C_128_256_S3_SWZ_ROT => self.c_128_256_s3_swz_rot,
            FullTile::C_128_256_S3_SWZ_DROT => self.c_128_256_s3_swz_drot,
            FullTile::C_128_64_S4_SWZ => self.c_128_64_s4_swz,
            FullTile::C_128_64_S3_SWZ => self.c_128_64_s3_swz,
            FullTile::C_PERSIST_C256_S4_SWZ => self.c_persist_c256_s4_swz,
            FullTile::C_PERSIST_C256_S3_SWZ => self.c_persist_c256_s3_swz,
            FullTile::C_128_128_C256_S4_SWZ_DROT => self.c_128_128_c256_s4_swz_drot,
            FullTile::C_128_128_C256_S4_SWZ => self.c_128_128_c256_s4_swz,
            FullTile::C_128_128_C256_S3_SWZ => self.c_128_128_c256_s3_swz,
        }
    }

    pub open spec fn spec_fits(&self, tile: FullTile) -> bool {
        self.spec_choice(tile).fits
    }

    pub open spec fn spec_cfg(&self, tile: FullTile) -> Nvfp4FullCfg {
        Nvfp4FullCfg {
            tile,
            persistent: self.spec_choice(tile).persistent,
            fname: self.spec_choice(tile).fname,
        }
    }

    pub fn choice(&self, tile: FullTile) -> (r: FullChoice)
        ensures
            r == self.spec_choice(tile),
    {
        match tile {
            FullTile::C_128_256_S3_SWZ_ROT => self.c_128_256_s3_swz_rot,
            FullTile::C_128_256_S3_SWZ_DROT => self.c_128_256_s3_swz_drot,
            FullTile::C_128_64_S4_SWZ => self.c_128_64_s4_swz,
            FullTile::C_128_64_S3_SWZ => self.c_128_64_s3_swz,
            FullTile::C_PERSIST_C256_S4_SWZ => self.c_persist_c256_s4_swz,
            FullTile::C_PERSIST_C256_S3_SWZ => self.c_persist_c256_s3_swz,
            FullTile::C_128_128_C256_S4_SWZ_DROT => self.c_128_128_c256_s4_swz_drot,
            FullTile::C_128_128_C256_S4_SWZ => self.c_128_128_c256_s4_swz,
            FullTile::C_128_128_C256_S3_SWZ => self.c_128_128_c256_s3_swz,
        }
    }

    /// The first of `tiles` that takes the shape.
    fn first_of(&self, tiles: &Vec<FullTile>) -> (r: Option<Nvfp4FullCfg>)
        ensures
            r == first_fit(tiles@, *self),
    {
        let n: usize = tiles.len();
        let mut i: usize = 0;
        proof {
            assert(tiles@.skip(0) =~= tiles@);
        }
        while i < n
            invariant
                i <= n,
                n == tiles@.len(),
                first_fit(tiles@, *self) == first_fit(tiles@.skip(i as int), *self),
            decreases n - i,
        {
            proof {
                assert(tiles@.skip(i as int)[0] == tiles@[i as int]);
                assert(tiles@.skip(i as int).skip(1) =~= tiles@.skip(i + 1));
            }
            let tile = tiles[i];
            let c = self.choice(tile);
            if c.fits {
                return Some(Nvfp4FullCfg { tile, persistent: c.persistent, fname: c.fname });
            }
            i = i + 1;
        }
        None
    }
}

/// The first of `tiles` that takes the shape `full` is about.
pub open spec fn first_fit(tiles: Seq<FullTile>, full: FullChoices) -> Option<Nvfp4FullCfg>
    decreases tiles.len(),
{
    if tiles.len() == 0 {
        None
    } else if full.spec_fits(tiles[0]) {
        Some(full.spec_cfg(tiles[0]))
    } else {
        first_fit(tiles.skip(1), full)
    }
}

/// A weight up to this size stays in the second-level cache.
pub const NVFP4_L2_WEIGHT_BYTES: u64 = 25_165_824;

/// A weight up to this size is in the range that the choice by batch was measured on.
pub const NVFP4_SWEPT_WEIGHT_BYTES: u64 = 41_943_040;

/// Bytes of an NVFP4 weight.
pub open spec fn weight_bytes(n: u32, k: u32) -> int {
    (n as int * k as int) / 2
}

/// Large batches take the rotating tile first, but for wide weights at a batch of 512.
pub open spec fn large_batch_tiles(m: u32, n: u32, k: u32) -> Seq<FullTile> {
    if m >= 512 && !(n > k && m == 512) {
        seq![FullTile::C_128_256_S3_SWZ_ROT]
    } else {
        seq![]
    }
}

/// Batches from 32 on take the tile of 64 rows: up to 128, up to 96 for wide weights.
pub open spec fn small_batch_tiles(m: u32, n: u32, k: u32) -> Seq<FullTile> {
    if 32 <= m <= 128 && (n <= k || m <= 96) {
        seq![FullTile::C_128_64_S4_SWZ, FullTile::C_128_64_S3_SWZ]
    } else {
        seq![]
    }
}

/// Batches from 97 to 512, by the zone they lie in; wide weights only up to the measured size.
pub open spec fn mid_batch_tiles(m: u32, n: u32, k: u32) -> Seq<FullTile> {
    if !(97 <= m <= 512) {
        seq![]
    } else if n > k {
        if weight_bytes(n, k) > NVFP4_SWEPT_WEIGHT_BYTES {
            seq![]
        } else if m <= 160 {
            seq![
                FullTile::C_PERSIST_C256_S4_SWZ,
                FullTile::C_128_128_C256_S4_SWZ_DROT,
                FullTile::C_128_128_C256_S4_SWZ,
            ]
        } else if m <= 320 {
            seq![
                FullTile::C_128_256_S3_SWZ_DROT,
                FullTile::C_128_256_S3_SWZ_ROT,
                FullTile::C_128_128_C256_S4_SWZ,
            ]
        } else {
            seq![
                FullTile::C_PERSIST_C256_S4_SWZ,
                FullTile::C_128_256_S3_SWZ_DROT,
                FullTile::C_128_128_C256_S4_SWZ,
            ]
        }
    } else if 129 <= m <= 320 {
        seq![FullTile::C_128_128_C256_S4_SWZ_DROT, FullTile::C_128_128_C256_S4_SWZ]
    } else if 321 <= m <= 511 {
        seq![
            FullTile::C_128_256_S3_SWZ_DROT,
            FullTile::C_128_256_S3_SWZ_ROT,
            FullTile::C_128_128_C256_S4_SWZ,
        ]
    } else {
        seq![]
    }
}

/// The last resort, by whether the weight stays in cache or is taller than wide.
pub open spec fn fallback_tiles(n: u32, k: u32) -> Seq<FullTile> {
    if weight_bytes(n, k) <= NVFP4_L2_WEIGHT_BYTES || k > n {
        seq![FullTile::C_128_128_C256_S4_SWZ, FullTile::C_128_128_C256_S3_SWZ]
    } else {
        seq![FullTile::C_PERSIST_C256_S4_SWZ, FullTile::C_PERSIST_C256_S3_SWZ]
    }
}

/// The tiles considered for a shape, best first.
pub open spec fn full_candidates(m: u32, n: u32, k: u32) -> Seq<FullTile> {
    large_batch_tiles(m, n, k) + small_batch_tiles(m, n, k) + mid_batch_tiles(m, n, k)
        + fallback_tiles(n, k)
}

/// The first fit in two lists is that of the first list, or else that of the second.
proof fn lemma_first_fit_concat(a: Seq<FullTile>, b: Seq<FullTile>, full: FullChoices)
    ensures
        first_fit(a + b, full) == (match first_fit(a, full) {
            Some(c) => Some(c),
            None => first_fit(b, full),
        }),
    decreases a.len(),
{
    if a.len() == 0 {
        assert(a + b =~= b);
    } else {
        assert((a + b).skip(1) =~= a.skip(1) + b);
        lemma_first_fit_concat(a.skip(1), b, full);
    }
}

/// What is picked takes the shape and is one of the candidates; where nothing is picked, no
/// candidate takes it.
pub proof fn first_fit_fits(tiles: Seq<FullTile>, full: FullChoices)
    ensures
        match first_fit(tiles, full) {
            Some(c) => full.spec_fits(c.tile) && tiles.contains(c.tile) && c == full.spec_cfg(
                c.tile,
            ),
            None => forall|i: int| 0 <= i < tiles.len() ==> !full.spec_fits(#[trigger] tiles[i]),
        },
    decreases tiles.len(),
{
    if tiles.len() > 0 && !full.spec_fits(tiles[0]) {
        let rest = tiles.skip(1);
        first_fit_fits(rest, full);
        match first_fit(rest, full) {
            Some(c) => {
                let i = choose|i: int| 0 <= i < rest.len() && rest[i] == c.tile;
                assert(tiles[i + 1] == c.tile);
            },
            None => {
                assert forall|i: int| 0 <= i < tiles.len() implies !full.spec_fits(
                    #[trigger] tiles[i],
                ) by {
                    if i > 0 {
                        assert(rest[i - 1] == tiles[i]);
                    }
                }
            },
        }
    } else if tiles.len() > 0 {
        assert(tiles.contains(tiles[0]));
    }
}

/// Picks the build of the large NVFP4 kernel for `m` rows against a weight of `n` by `k`.
pub fn pick_nvfp4_full(m: u32, n: u32, k: u32, full: &FullChoices) -> (r: Option<Nvfp4FullCfg>)
    ensures
        r == first_fit(full_candidates(m, n, k), *full),
{
    proof {
        let a = large_batch_tiles(m, n, k);
        let b = small_batch_tiles(m, n, k);
        let c = mid_batch_tiles(m, n, k);
        let d = fallback_tiles(n, k);
        lemma_first_fit_concat(a + b + c, d, *full);
        lemma_first_fit_concat(a + b, c, *full);
        lemma_first_fit_concat(a, b, *full);
        assert(n as int * k as int <= u32::MAX as int * u32::MAX as int) by (nonlinear_arith);
        assert(0 <= n as int * k as int) by (nonlinear_arith);
    }
    let bytes: u64 = (n as u64) * (k as u64) / 2;
    if m >= 512 && !(n > k && m == 512) {
        let t: Vec<FullTile> = vec![FullTile::C_128_256_S3_SWZ_ROT];
        proof {
            assert(t@ =~= large_batch_tiles(m, n, k));
        }
        let c = full.first_of(&t);
        if c.is_some() {
            return c;
        }
    }
    if m >= 32 && m <= 128 && (n <= k || m <= 96) {
        let t: Vec<FullTile> = vec![FullTile::C_128_64_S4_SWZ, FullTile::C_128_64_S3_SWZ];
        proof {
            assert(t@ =~= small_batch_tiles(m, n, k));
        }
        let c = full.first_of(&t);
        if c.is_some() {
            return c;
        }
    }
    if m >= 97 && m <= 512 && (n <= k || bytes <= NVFP4_SWEPT_WEIGHT_BYTES) {
        let t: Vec<FullTile> = if n > k {
            if m <= 160 {
                vec![
                    FullTile::C_PERSIST_C256_S4_SWZ,
                    FullTile::C_128_128_C256_S4_SWZ_DROT,
                    FullTile::C_128_128_C256_S4_SWZ,
                ]
            } else if m <= 320 {
                vec![
                    FullTile::C_128_256_S3_SWZ_DROT,
                    FullTile::C_128_256_S3_SWZ_ROT,
                    FullTile::C_128_128_C256_S4_SWZ,
                ]
            } else {
                vec![
                    FullTile::C_PERSIST_C256_S4_SWZ,
                    FullTile::C_128_256_S3_SWZ_DROT,
                    FullTile::C_128_128_C256_S4_SWZ,
                ]
            }
        } else if m >= 129 && m <= 320 {
            vec![FullTile::C_128_128_C256_S4_SWZ_DROT, FullTile::C_128_128_C256_S4_SWZ]
        } else if m >= 321 && m <= 511 {
            vec![
                FullTile::C_128_256_S3_SWZ_DROT,
                FullTile::C_128_256_S3_SWZ_ROT,
                FullTile::C_128_128_C256_S4_SWZ,
            ]
        } else {
            Vec::new()
        };
        proof {
            assert(t@ =~= mid_batch_tiles(m, n, k));
        }
        let c = full.first_of(&t);
        if c.is_some() {
            return c;
        }
    }
    let t: Vec<FullTile> = if bytes <= NVFP4_L2_WEIGHT_BYTES || k > n {
        vec![FullTile::C_128_128_C256_S4_SWZ, FullTile::C_128_128_C256_S3_SWZ]
    } else {
        vec![FullTile::C_PERSIST_C256_S4_SWZ, FullTile::C_PERSIST_C256_S3_SWZ]
    };
    proof {
        assert(t@ =~= fallback_tiles(n, k));
    }
    full.first_of(&t)
}

/// Which kernel multiplies by an NVFP4 weight.
#[derive(Clone, Copy, Debug, PartialEq, Eq)]
pub enum Nvfp4Plan {
    Gemv,
    Reg,
    Coop,
    N8,
    Broadcast,
    Full(Nvfp4FullCfg),
}

impl Nvfp4Plan {
    pub fn name(&self) -> (r: &'static str)
        ensures
            r == (match *self {
                Nvfp4Plan::Gemv => "gemv_shuf",
                Nvfp4Plan::Reg => "2dr",
                Nvfp4Plan::Coop => "2d_coop",
                Nvfp4Plan::N8 => "n8",
                Nvfp4Plan::Broadcast => "4a_broadcast",
                Nvfp4Plan::Full(cfg) => cfg.fname,
            }),
    {
        match self {
            Nvfp4Plan::Gemv => "gemv_shuf",
            Nvfp4Plan::Reg => "2dr",
            Nvfp4Plan::Coop => "2d_coop",
            Nvfp4Plan::N8 => "n8",
            Nvfp4Plan::Broadcast => "4a_broadcast",
            Nvfp4Plan::Full(cfg) => cfg.fname,
        }
    }
}

/// Warps and fragments of a build of the register-blocked kernel.
#[derive(Clone, Copy, Debug, PartialEq, Eq, Structural)]
pub struct Gemm2drConfig {
    pub warps_m: u32,
    pub mu: u32,
    pub warps_n: u32,
    pub nu: u32,
}

/// The builds of the register-blocked kernel.
pub open spec fn spec_dr_cfgs() -> Seq<Gemm2drConfig> {
    seq![
        Gemm2drConfig { warps_m: 2, mu: 4, warps_n: 2, nu: 8 },
        Gemm2drConfig { warps_m: 2, mu: 4, warps_n: 2, nu: 4 },
        Gemm2drConfig { warps_m: 4, mu: 2, warps_n: 2, nu: 4 },
        Gemm2drConfig { warps_m: 4, mu: 2, warps_n: 4, nu: 2 },
        Gemm2drConfig { warps_m: 2, mu: 2, warps_n: 2, nu: 2 },
    ]
}

fn dr_cfgs() -> (r: Vec<Gemm2drConfig>)
    ensures
        r@ == spec_dr_cfgs(),
{
    let v: Vec<Gemm2drConfig> = vec![
        Gemm2drConfig { warps_m: 2, mu: 4, warps_n: 2, nu: 8 },
        Gemm2drConfig { warps_m: 2, mu: 4, warps_n: 2, nu: 4 },
        Gemm2drConfig { warps_m: 4, mu: 2, warps_n: 2, nu: 4 },
        Gemm2drConfig { warps_m: 4, mu: 2, warps_n: 4, nu: 2 },
        Gemm2drConfig { warps_m: 2, mu: 2, warps_n: 2, nu: 2 },
    ];
    proof {
        assert(v@ =~= spec_dr_cfgs());
    }
    v
}

/// Weight rows and batch rows that one block of the register-blocked kernel takes.
pub fn dr_block(c: Gemm2drConfig) -> (r: (u32, u32))
    requires
        c.warps_m * c.mu * 16 <= u32::MAX,
        c.warps_n * c.nu * 8 <= u32::MAX,
    ensures
        r.0 == c.warps_m * c.mu * 16,
        r.1 == c.warps_n * c.nu * 8,
{
    proof {
        assert(0 <= c.warps_m * c.mu) by (nonlinear_arith);
        assert(0 <= c.warps_n * c.nu) by (nonlinear_arith);
    }
    (c.warps_m * c.mu * 16, c.warps_n * c.nu * 8)
}

/// A shape is cut by the block of `c` without remainder.
pub open spec fn dr_divides(c: Gemm2drConfig, n: u32, batch: u32) -> bool {
    n as int % (c.warps_m * c.mu * 16) == 0 && batch as int % (c.warps_n * c.nu * 8) == 0
}

/// Some build of the register-blocked kernel cuts the shape without remainder.
pub open spec fn spec_fits_2dr(n: u32, batch: u32) -> bool {
    exists|i: int| 0 <= i < 5 && dr_divides(#[trigger] spec_dr_cfgs()[i], n, batch)
}

pub fn fits_2dr(n: u32, batch: u32) -> (r: bool)
    ensures
        r == spec_fits_2dr(n, batch),
{
    let cfgs = dr_cfgs();
    let mut i: usize = 0;
    while i < 5
        invariant
            i <= 5,
            cfgs@ == spec_dr_cfgs(),
            forall|j: int| 0 <= j < i ==> !dr_divides(#[trigger] spec_dr_cfgs()[j], n, batch),
        decreases 5 - i,
    {
        let c = cfgs[i];
        proof {
            assert(c == spec_dr_cfgs()[i as int]);
            assert(2 <= c.warps_m <= 4 && 2 <= c.mu <= 4 && 2 <= c.warps_n <= 4 && 2 <= c.nu <= 8);
            assert(0 < c.warps_m * c.mu * 16 <= 256 && 0 < c.warps_n * c.nu * 8 <= 256)
                by (nonlinear_arith)
                requires
                    2 <= c.warps_m <= 4,
                    2 <= c.mu <= 4,
                    2 <= c.warps_n <= 4,
                    2 <= c.nu <= 8,
            ;
        }
        let (bm, bn) = dr_block(c);
        if n % bm == 0 && batch % bn == 0 {
            return true;
        }
        i = i + 1;
    }
    false
}

/// The kernel with eight batch rows per block takes the shape.
pub open spec fn spec_fits_n8(n: u32, batch: u32) -> bool {
    batch % 8 == 0 && n % 64 == 0
}

pub fn fits_n8(n: u32, batch: u32) -> (r: bool)
    ensures
        r == spec_fits_n8(n, batch),
{
    batch % 8 == 0 && n % 64 == 0
}

/// Some tiling of the cooperative kernel cuts the shape without remainder.
pub open spec fn spec_fits_2d(n: u32, batch: u32) -> bool {
    ||| n % 128 == 0 && batch % 32 == 0
    ||| n % 64 == 0 && batch % 64 == 0
    ||| n % 64 == 0 && batch % 32 == 0
    ||| n % 64 == 0 && batch % 16 == 0
    ||| n % 32 == 0 && batch % 16 == 0
}

pub fn fits_2d(n: u32, batch: u32) -> (r: bool)
    ensures
        r == spec_fits_2d(n, batch),
{
    (n % 128 == 0 && batch % 32 == 0) || (n % 64 == 0 && batch % 64 == 0) || (n % 64 == 0 && batch
        % 32 == 0) || (n % 64 == 0 && batch % 16 == 0) || (n % 32 == 0 && batch % 16 == 0)
}

/// The kernel for `m` rows against an NVFP4 weight of `n` by `k`.
pub open spec fn nvfp4_choice(m: u32, n: u32, k: u32, full: FullChoices) -> Nvfp4Plan {
    if m == 1 {
        Nvfp4Plan::Gemv
    } else if m >= 32 && k % 128 == 0 && first_fit(full_candidates(m, n, k), full) is Some {
        Nvfp4Plan::Full(first_fit(full_candidates(m, n, k), full)->0)
    } else if spec_fits_n8(n, m) && (m <= 64 && n <= 8192 || !spec_fits_2dr(n, m)) {
        Nvfp4Plan::N8
    } else if spec_fits_2dr(n, m) {
        Nvfp4Plan::Reg
    } else if spec_fits_2d(n, m) && n % 64 != 0 {
        Nvfp4Plan::Coop
    } else {
        Nvfp4Plan::Broadcast
    }
}

/// Picks the kernel for `m` rows against an NVFP4 weight of `n` by `k`; `full` is about that
/// shape.
pub fn pick_nvfp4(m: u32, n: u32, k: u32, full: &FullChoices) -> (r: Nvfp4Plan)
    ensures
        r == nvfp4_choice(m, n, k, *full),
{
    if m == 1 {
        return Nvfp4Plan::Gemv;
    }
    if m >= 32 && k % 128 == 0 {
        match pick_nvfp4_full(m, n, k, full) {
            Some(cfg) => {
                return Nvfp4Plan::Full(cfg);
            },
            None => {},
        }
    }
    if m <= 64 && n <= 8192 && fits_n8(n, m) {
        Nvfp4Plan::N8
    } else if fits_2dr(n, m) {
        Nvfp4Plan::Reg
    } else if fits_n8(n, m) {
        Nvfp4Plan::N8
    } else if n % 64 == 0 {
        Nvfp4Plan::Broadcast
    } else if fits_2d(n, m) {
        Nvfp4Plan::Coop
    } else {
        Nvfp4Plan::Broadcast
    }
}

/// The kernel that is picked takes the shape: a build of the large kernel fits it, and each of
/// the blocked kernels cuts it without remainder.
pub proof fn choice_takes_shape(m: u32, n: u32, k: u32, full: FullChoices)
    ensures
        match nvfp4_choice(m, n, k, full) {
            Nvfp4Plan::Gemv => m == 1,
            Nvfp4Plan::Full(c) => {
                &&& full.spec_fits(c.tile)
                &&& full_candidates(m, n, k).contains(c.tile)
                &&& m >= 32
                &&& k % 128 == 0
            },
            Nvfp4Plan::Reg => spec_fits_2dr(n, m),
            Nvfp4Plan::N8 => spec_fits_n8(n, m),
            Nvfp4Plan::Coop => spec_fits_2d(n, m),
            Nvfp4Plan::Broadcast => m != 1,
        },
{
    first_fit_fits(full_candidates(m, n, k), full);
}

/// The rows that the kernel is run on: all of `m` where a build that is not persistent takes
/// them as they are, else `m` rounded up to a multiple that grows with `m`.
pub open spec fn run_rows(m: u32, n: u32, k: u32, full: FullChoices) -> int {
    if full_direct(m, n, k, full) || m <= 1 {
        m as int
    } else if m >= 1280 {
        round_up(m as int, 256)
    } else if m >= 128 {
        round_up(m as int, 128)
    } else {
        round_up(m as int, 16)
    }
}

/// A build of the large kernel that guards its last tile takes the batch as it is.
pub open spec fn full_direct(m: u32, n: u32, k: u32, full: FullChoices) -> bool {
    &&& m >= 32
    &&& k % 128 == 0
    &&& match first_fit(full_candidates(m, n, k), full) {
        Some(c) => !c.persistent,
        None => false,
    }
}

/// The rows that the kernel for `m` rows is run on; `full` is about `m` rows.
pub fn nvfp4_run_rows(m: u32, n: u32, k: u32, full: &FullChoices) -> (r: u32)
    requires
        m + 255 <= u32::MAX,
    ensures
        r == run_rows(m, n, k, *full),
{
    proof {
        lemma_ceil_div(m as int, 256);
        lemma_ceil_div(m as int, 128);
        lemma_ceil_div(m as int, 16);
    }
    let direct = if m >= 32 && k % 128 == 0 {
        match pick_nvfp4_full(m, n, k, full) {
            Some(c) => !c.persistent,
            None => false,
        }
    } else {
        false
    };
    if direct || m <= 1 {
        m
    } else if m >= 1280 {
        round_up_u32(m, 256)
    } else if m >= 128 {
        round_up_u32(m, 128)
    } else {
        round_up_u32(m, 16)
    }
}

/// The kernel is run on no fewer rows than asked for and on at most 255 more, so the scales of
/// the rows asked for fit a buffer for the rows it is run on. A batch below 1280 stays within the
/// tile of 128 rows that its scales were sized for, so that they need no padding.
pub proof fn run_rows_cover(m: u32, n: u32, k: u32, full: FullChoices)
    ensures
        m <= run_rows(m, n, k, full) <= m + 255,
        scale_buffer_size(m as int, k as int) <= scale_buffer_size(
            run_rows(m, n, k, full),
            k as int,
        ),
        m < 1280 ==> run_rows(m, n, k, full) <= round_up(m as int, 128),
        m < 1280 ==> scale_buffer_size(run_rows(m, n, k, full), k as int) == scale_buffer_size(
            m as int,
            k as int,
        ),
{
    lemma_ceil_div(m as int, 256);
    lemma_ceil_div(m as int, 128);
    lemma_ceil_div(m as int, 16);
    lemma_ceil_div(k as int, 64);
    lemma_ceil_div_monotone(m as int, run_rows(m, n, k, full), 128);
    let a = round_up(m as int, 128);
    let b = round_up(run_rows(m, n, k, full), 128);
    let s = ceil_div(k as int, 64) * 4;
    assert(s * a <= s * b) by (nonlinear_arith)
        requires
            0 <= s,
            a <= b,
    ;
    if m < 1280 {
        if 1 < m < 128 {
            lemma_ceil_div_monotone(1, m as int, 128);
        }
        scale_buffer_covers_tile(m as int, run_rows(m, n, k, full), k as int);
    }
}

/// More than one row is never left to the kernel that walks the weight once for each row, as
/// long as the weight's rows are a multiple of 32: the rows that are run either go to a build of
/// the large kernel as they are, or are rounded up to what a blocked kernel cuts.
pub proof fn padded_never_broadcast(
    m: u32,
    n: u32,
    k: u32,
    full: FullChoices,
    full_run: FullChoices,
)
    requires
        1 < m,
        m + 255 <= u32::MAX,
        n % 32 == 0,
        full_direct(m, n, k, full) ==> full_run == full,
    ensures
        nvfp4_choice(run_rows(m, n, k, full) as u32, n, k, full_run) != Nvfp4Plan::Broadcast,
{
    run_rows_cover(m, n, k, full);
    if !full_direct(m, n, k, full) {
        lemma_ceil_div(m as int, 256);
        lemma_ceil_div(m as int, 128);
        lemma_ceil_div(m as int, 16);
        assert(run_rows(m, n, k, full) % 16 == 0);
    }
}

/// The lengths in bytes of an activation that is quantised already.
#[derive(Clone, Copy, Debug, PartialEq, Eq, Structural)]
pub struct Prequant {
    pub packed_len: usize,
    pub scales_len: usize,
}

/// A buffer of `bytes` bytes that starts with the first `copy_bytes` of what was given and goes on
/// with zeros.
#[derive(Clone, Copy, Debug, PartialEq, Eq, Structural)]
pub struct PaddedCopy {
    pub bytes: usize,
    pub copy_bytes: usize,
}

/// Where the quantised activation comes from.
#[derive(Clone, Copy, Debug, PartialEq, Eq, Structural)]
pub enum Nvfp4Activation {
    /// It is quantised into fresh buffers of this many bytes; the packed bytes from `zero_from` on
    /// and the scales from `scale_zero_from` on, which quantising leaves alone, are zeroed.
    Fresh {
        packed_bytes: usize,
        scale_bytes: usize,
        zero_from: Option<usize>,
        scale_zero_from: Option<usize>,
    },
    /// It was given. What the kernel would read beyond is added in a copy; the rest is used as it
    /// is.
    Given { packed: Option<PaddedCopy>, scales: Option<PaddedCopy> },
}

/// The work of one product with an NVFP4 weight.
#[derive(Clone, Copy, Debug, PartialEq, Eq, Structural)]
pub struct Nvfp4Work {
    pub m_run: u32,
    pub activation: Nvfp4Activation,
    /// The kernel writes to a buffer of this many bytes in place of the output.
    pub out_pad_bytes: Option<usize>,
    /// Bytes of the output proper.
    pub out_bytes: usize,
    /// The weight has to be brought to the layout that the kernels read.
    pub build_shuffled: bool,
}

/// A product with an NVFP4 weight: the kernel, and what is to be done unless there is nothing.
#[derive(Clone, Copy, Debug, PartialEq, Eq)]
pub struct Nvfp4Linear {
    pub plan: Nvfp4Plan,
    pub work: Option<Nvfp4Work>,
}

pub open spec fn nvfp4_activation(
    m: u32,
    m_run: int,
    k: u32,
    prequant: Option<Prequant>,
) -> Nvfp4Activation {
    let packed = (m_run * k) / 2;
    let scales = scale_buffer_size(m_run, k as int);
    let own_scales = scale_buffer_size(m as int, k as int);
    match prequant {
        None => Nvfp4Activation::Fresh {
            packed_bytes: packed as usize,
            scale_bytes: scales as usize,
            zero_from: if m_run != m { Some(((m * k) / 2) as usize) } else { None },
            scale_zero_from: if own_scales < scales { Some(own_scales as usize) } else { None },
        },
        Some(given) => Nvfp4Activation::Given {
            packed: if m_run != m {
                Some(
                    PaddedCopy {
                        bytes: packed as usize,
                        copy_bytes: if given.packed_len <= packed {
                            given.packed_len
                        } else {
                            packed as usize
                        },
                    },
                )
            } else {
                None
            },
            scales: if given.scales_len < scales {
                Some(PaddedCopy { bytes: scales as usize, copy_bytes: given.scales_len })
            } else {
                None
            },
        },
    }
}

/// The bytes of scales that the product reads from.
pub open spec fn scales_read(activation: Nvfp4Activation, prequant: Option<Prequant>) -> int {
    match activation {
        Nvfp4Activation::Fresh { scale_bytes, .. } => scale_bytes as int,
        Nvfp4Activation::Given { scales: Some(copy), .. } => copy.bytes as int,
        Nvfp4Activation::Given { scales: None, .. } => match prequant {
            Some(given) => given.scales_len as int,
            None => 0,
        },
    }
}

/// A product of `m` rows with the weight `w`. `prequant` tells of the activation where it is
/// quantised already; `full` is about `m` rows, `full_run` about `run_rows`.
pub open spec fn nvfp4_linear(
    w: QuantWeight,
    m: u32,
    prequant: Option<Prequant>,
    full: FullChoices,
    full_run: FullChoices,
) -> Result<Nvfp4Linear, KernelError> {
    let n = w.n as u32;
    let k = w.k as u32;
    let m_run = run_rows(m, n, k, full);
    if w.dtype != DType::NVFP4 {
        Err(KernelError::Unsupported("nvfp4_linear_f16: вес должен быть NVFP4"))
    } else if k % 64 != 0 {
        Err(KernelError::Cuda1("nvfp4_linear_f16: K={} должно быть кратно 64", k as u64))
    } else if m == 0 {
        Ok(Nvfp4Linear { plan: Nvfp4Plan::Gemv, work: None })
    } else if n == 0 {
        Ok(Nvfp4Linear { plan: nvfp4_choice(m, n, k, full), work: None })
    } else if !w.scales_cuda {
        Err(KernelError::Unsupported("nvfp4_linear: scales W non-cuda"))
    } else if !w.shuffled && w.packed == Packed::Released {
        Err(KernelError::Cuda("nvfp4_linear: raw W освобождён, shuffled не построить"))
    } else if !w.shuffled && w.packed == Packed::Host {
        Err(KernelError::Unsupported("nvfp4_linear: packed W non-cuda"))
    } else {
        Ok(
            Nvfp4Linear {
                plan: nvfp4_choice(m_run as u32, n, k, full_run),
                work: Some(
                    Nvfp4Work {
                        m_run: m_run as u32,
                        activation: nvfp4_activation(m, m_run, k, prequant),
                        out_pad_bytes: if m_run != m { Some((m_run * n * 2) as usize) } else { None },
                        out_bytes: (m * n * 2) as usize,
                        build_shuffled: !w.shuffled,
                    },
                ),
            },
        )
    }
}

/// Plans a product of `m` rows with the weight `w`. `prequant` tells of the activation where it is
/// quantised already; `full` is about `m` rows, `full_run` about the rows
/// that `nvfp4_run_rows` gives.
pub fn nvfp4_linear_f16(
    w: &QuantWeight,
    m: u32,
    prequant: Option<Prequant>,
    full: &FullChoices,
    full_run: &FullChoices,
) -> (r: Result<Nvfp4Linear, KernelError>)
    requires
        w.dtype == DType::NVFP4 && (w.k as u32) % 64 == 0 ==> {
            &&& m + 255 <= u32::MAX
            &&& (m + 255) * (w.k as u32) <= usize::MAX
            &&& (m + 255) * (w.n as u32) * 2 <= usize::MAX
            &&& scale_buffer_size(m + 255, (w.k as u32) as int) <= usize::MAX
        },
    ensures
        r == nvfp4_linear(*w, m, prequant, *full, *full_run),
        r matches Ok(l) ==> (l.work matches Some(work) ==> scale_buffer_size(
            work.m_run as int,
            (w.k as u32) as int,
        ) <= scales_read(work.activation, prequant)),
{
    let n: u32 = w.n as u32;
    let k: u32 = w.k as u32;
    if w.dtype != DType::NVFP4 {
        return Err(KernelError::Unsupported("nvfp4_linear_f16: вес должен быть NVFP4"));
    }
    if k % 64 != 0 {
        return Err(KernelError::Cuda1("nvfp4_linear_f16: K={} должно быть кратно 64", k as u64));
    }
    if m == 0 {
        return Ok(Nvfp4Linear { plan: pick_nvfp4(1, n, k, full), work: None });
    }
    if n == 0 {
        return Ok(Nvfp4Linear { plan: pick_nvfp4(m, n, k, full), work: None });
    }
    let m_run: u32 = nvfp4_run_rows(m, n, k, full);
    proof {
        lemma_linear_bounds(m as int, m_run as int, n as int, k as int);
        run_rows_cover(m, n, k, *full);
    }
    if !w.scales_cuda {
        return Err(KernelError::Unsupported("nvfp4_linear: scales W non-cuda"));
    }
    if !w.shuffled {
        match w.packed {
            Packed::Released => {
                return Err(
                    KernelError::Cuda("nvfp4_linear: raw W освобождён, shuffled не построить"),
                );
            },
            Packed::Host => {
                return Err(KernelError::Unsupported("nvfp4_linear: packed W non-cuda"));
            },
            Packed::Device => {},
        }
    }
    let packed_bytes: usize = (m_run as usize) * (k as usize) / 2;
    let padded = m_run != m;
    let scale_bytes: usize = nvfp4_scale_buffer_size(m_run as usize, k as usize);
    let activation = match prequant {
        None => {
            let own_scales: usize = nvfp4_scale_buffer_size(m as usize, k as usize);
            Nvfp4Activation::Fresh {
                packed_bytes,
                scale_bytes,
                zero_from: if padded {
                    Some((m as usize) * (k as usize) / 2)
                } else {
                    None
                },
                scale_zero_from: if own_scales < scale_bytes {
                    Some(own_scales)
                } else {
                    None
                },
            }
        },
        Some(given) => Nvfp4Activation::Given {
            packed: if padded {
                Some(
                    PaddedCopy {
                        bytes: packed_bytes,
                        copy_bytes: if given.packed_len <= packed_bytes {
                            given.packed_len
                        } else {
                            packed_bytes
                        },
                    },
                )
            } else {
                None
            },
            scales: if given.scales_len < scale_bytes {
                Some(PaddedCopy { bytes: scale_bytes, copy_bytes: given.scales_len })
            } else {
                None
            },
        },
    };
    let out_pad_bytes = if padded {
        Some((m_run as usize) * (n as usize) * 2)
    } else {
        None
    };
    Ok(
        Nvfp4Linear {
            plan: pick_nvfp4(m_run, n, k, full_run),
            work: Some(
                Nvfp4Work {
                    m_run,
                    activation,
                    out_pad_bytes,
                    out_bytes: (m as usize) * (n as usize) * 2,
                    build_shuffled: !w.shuffled,
                },
            ),
        },
    )
}

/// No product of the buffer sizes goes beyond that for 255 more rows.
proof fn lemma_linear_bounds(m: int, m_run: int, n: int, k: int)
    requires
        0 <= m <= m_run <= m + 255,
        0 <= n,
        0 <= k,
        k % 64 == 0,
        m >= 1,
    ensures
        0 <= m * k <= m_run * k <= (m + 255) * k,
        0 <= m * n <= m_run * n,
        0 <= m_run * n * 2 <= (m + 255) * n * 2,
        0 <= m * n * 2 <= (m + 255) * n * 2,
        scale_buffer_size(m_run, k) <= scale_buffer_size(m + 255, k),
        k > 0 ==> round_up(m_run, 128) <= scale_buffer_size(m_run, k),
        ceil_div(k, 64) * 4 <= k,
{
    assert(0 <= m * k <= m_run * k <= (m + 255) * k) by (nonlinear_arith)
        requires
            0 <= m <= m_run <= m + 255,
            0 <= k,
    ;
    assert(0 <= m * n <= m_run * n <= (m + 255) * n) by (nonlinear_arith)
        requires
            0 <= m <= m_run <= m + 255,
            0 <= n,
    ;
    lemma_ceil_div(k, 64);
    lemma_ceil_div(m_run, 128);
    lemma_ceil_div_monotone(m_run, m + 255, 128);
    let s = ceil_div(k, 64) * 4;
    let a = round_up(m_run, 128);
    let b = round_up(m + 255, 128);
    assert(s * a <= s * b) by (nonlinear_arith)
        requires
            0 <= s,
            0 <= a <= b,
    ;
    if k > 0 {
        assert(a <= s * a) by (nonlinear_arith)
            requires
                1 <= s,
                0 <= a,
        ;
    }
}

/// How a product of `m` rows with an MXFP8 weight is run.
#[derive(Clone, Copy, Debug, PartialEq, Eq, Structural)]
pub enum Mxfp8Gemm {
    /// The kernel that clips the last tile, straight into the output of `out_elems` elements.
    Rotating { out_elems: usize },
    /// The plain kernel, straight into the output.
    Direct { out_elems: usize },
    /// The plain kernel into a scratch of `scratch_elems` elements, of which the first
    /// `out_elems` are copied to the output.
    Scratch { scratch_elems: usize, out_elems: usize },
}

/// A product of `m` rows with an MXFP8 weight whose rows and columns are multiples of 128.
#[derive(Clone, Copy, Debug, PartialEq, Eq)]
pub struct Mxfp8Linear {
    pub m_pad: u32,
    pub n: u32,
    pub k: u32,
    /// Bytes of the quantised activation.
    pub packed_bytes: usize,
    /// Bytes of its scales.
    pub scale_bytes: usize,
    /// The bytes from here on, of values and of scales, are zeroed.
    pub zero_tail: Option<(usize, usize)>,
    pub gemm: Mxfp8Gemm,
}

/// The kernel that clips its last tile takes the depth `k`.
pub open spec fn spec_use_rot(k: u32) -> bool {
    k % 512 == 0 && k / 128 >= 2
}

pub open spec fn mxfp8_gemm(m: u32, n: u32, k: u32) -> Mxfp8Gemm {
    let m_pad = round_up(m as int, 128);
    if spec_use_rot(k) {
        Mxfp8Gemm::Rotating { out_elems: (m * n) as usize }
    } else if m == m_pad {
        Mxfp8Gemm::Direct { out_elems: (m * n) as usize }
    } else {
        Mxfp8Gemm::Scratch { scratch_elems: (m_pad * n) as usize, out_elems: (m * n) as usize }
    }
}

/// A product of `m` rows with the MXFP8 weight `w`; `None` where the weight's shape is not one
/// of whole tiles.
pub open spec fn mxfp8_tiled(w: QuantWeight, m: u32) -> Result<Option<Mxfp8Linear>, KernelError> {
    let n = w.n as u32;
    let k = w.k as u32;
    let m_pad = round_up(m as int, 128);
    let rows = if spec_use_rot(k) { m as int } else { m_pad };
    if n % 128 != 0 || k % 128 != 0 {
        Ok(None)
    } else if w.packed == Packed::Released {
        Err(KernelError::Cuda("mxfp8: packed W освобождён"))
    } else if w.packed == Packed::Host {
        Err(KernelError::Unsupported("mxfp8: packed non-cuda"))
    } else if !w.scales_cuda {
        Err(KernelError::Unsupported("mxfp8: scales non-cuda"))
    } else {
        Ok(
            Some(
                Mxfp8Linear {
                    m_pad: m_pad as u32,
                    n,
                    k,
                    packed_bytes: (rows * k) as usize,
                    scale_bytes: ((rows * k) / 32) as usize,
                    zero_tail: if rows != m {
                        Some(((m * k) as usize, ((m * k) / 32) as usize))
                    } else {
                        None
                    },
                    gemm: mxfp8_gemm(m, n, k),
                },
            ),
        )
    }
}

fn run_mxfp8_gemm(m: u32, m_pad: u32, n: u32, k: u32) -> (r: Mxfp8Gemm)
    requires
        m_pad == round_up(m as int, 128),
        m <= m_pad,
        m_pad * n <= usize::MAX,
    ensures
        r == mxfp8_gemm(m, n, k),
{
    proof {
        assert(0 <= m * n <= m_pad * n) by (nonlinear_arith)
            requires
                m <= m_pad,
        ;
    }
    let out_elems: usize = (m as usize) * (n as usize);
    if k % 512 == 0 && k / 128 >= 2 {
        Mxfp8Gemm::Rotating { out_elems }
    } else if m == m_pad {
        Mxfp8Gemm::Direct { out_elems }
    } else {
        Mxfp8Gemm::Scratch { scratch_elems: (m_pad as usize) * (n as usize), out_elems }
    }
}

/// Plans a product of `m` rows with the MXFP8 weight `w`, both operands in MXFP8. `None` where
/// the weight's rows or columns are no multiple of 128: the caller takes another path.
pub fn mxfp8_linear_tiled(w: &QuantWeight, m: u32) -> (r: Result<Option<Mxfp8Linear>, KernelError>)
    requires
        m + 127 <= u32::MAX,
        mxfp8_tiled(*w, m) matches Ok(Some(_)) ==> {
            &&& (m + 127) * (w.n as u32) <= usize::MAX
            &&& (m + 127) * (w.k as u32) <= usize::MAX
        },
    ensures
        r == mxfp8_tiled(*w, m),
{
    let n: u32 = w.n as u32;
    let k: u32 = w.k as u32;
    proof {
        lemma_ceil_div(m as int, 128);
    }
    let m_pad: u32 = round_up_u32(m, 128);
    if n % 128 != 0 || k % 128 != 0 {
        return Ok(None);
    }
    match w.packed {
        Packed::Released => {
            return Err(KernelError::Cuda("mxfp8: packed W освобождён"));
        },
        Packed::Host => {
            return Err(KernelError::Unsupported("mxfp8: packed non-cuda"));
        },
        Packed::Device => {},
    }
    if !w.scales_cuda {
        return Err(KernelError::Unsupported("mxfp8: scales non-cuda"));
    }
    proof {
        assert(0 <= m * k <= m_pad * k <= (m + 127) * k) by (nonlinear_arith)
            requires
                m <= m_pad <= m + 127,
        ;
        assert(m_pad * n <= (m + 127) * n) by (nonlinear_arith)
            requires
                m_pad <= m + 127,
        ;
    }
    let use_rot = k % 512 == 0 && k / 128 >= 2;
    let rows: u32 = if use_rot {
        m
    } else {
        m_pad
    };
    let own_bytes: usize = (m as usize) * (k as usize);
    let packed_bytes: usize = (rows as usize) * (k as usize);
    Ok(
        Some(
            Mxfp8Linear {
                m_pad,
                n,
                k,
                packed_bytes,
                scale_bytes: packed_bytes / 32,
                zero_tail: if !use_rot && m != m_pad {
                    Some((own_bytes, own_bytes / 32))
                } else {
                    None
                },
                gemm: run_mxfp8_gemm(m, m_pad, n, k),
            },
        ),
    )
}

/// Zeroing the tail leaves no byte of the activation that is neither quantised nor zero, and the
/// scratch holds every row of the output.
pub proof fn mxfp8_rows_covered(w: QuantWeight, m: u32)
    requires
        m + 127 <= u32::MAX,
        (m + 127) * (w.n as u32) <= usize::MAX,
        (m + 127) * (w.k as u32) <= usize::MAX,
    ensures
        mxfp8_tiled(w, m) matches Ok(Some(p)) ==> {
            &&& m * (w.k as u32) <= p.packed_bytes
            &&& p.zero_tail is None ==> p.packed_bytes == m * (w.k as u32)
            &&& p.zero_tail matches Some((values, _)) ==> values == m * (w.k as u32)
            &&& p.gemm matches Mxfp8Gemm::Scratch { scratch_elems, out_elems } ==> out_elems
                <= scratch_elems
            &&& p.gemm !is Rotating ==> p.m_pad % 128 == 0 && p.packed_bytes == p.m_pad * (
            w.k as u32)
        },
{
    let n = w.n as u32;
    let k = w.k as u32;
    let m_pad = round_up(m as int, 128);
    lemma_ceil_div(m as int, 128);
    assert(0 <= m * k <= m_pad * k <= (m + 127) * k) by (nonlinear_arith)
        requires
            m <= m_pad <= m + 127,
    ;
    assert(0 <= m * n <= m_pad * n <= (m + 127) * n) by (nonlinear_arith)
        requires
            m <= m_pad <= m + 127,
    ;
}

/// A product of `m` quantised rows with an MXFP8 weight.
#[derive(Clone, Copy, Debug, PartialEq, Eq, Structural)]
pub struct Mxfp8Prequant {
    pub m: u32,
    pub n: u32,
    pub k: u32,
    pub out_elems: usize,
}

/// The outcome of a request for a product of `m` quantised rows with an MXFP8 weight.
pub open spec fn mxfp8_prequant(w: QuantWeight, m: u32) -> Result<Mxfp8Prequant, KernelError> {
    let n = w.n as u32;
    let k = w.k as u32;
    if !(n % 128 == 0 && k % 128 == 0 && spec_use_rot(k)) {
        Err(KernelError::Unsupported("mxfp8 prequant: форма вне rot-пути"))
    } else if w.packed == Packed::Released {
        Err(KernelError::Cuda("mxfp8 prequant: packed W освобождён"))
    } else if w.packed == Packed::Host {
        Err(KernelError::Unsupported("mxfp8 prequant: packed non-cuda"))
    } else if !w.scales_cuda {
        Err(KernelError::Unsupported("mxfp8 prequant: scales non-cuda"))
    } else {
        Ok(Mxfp8Prequant { m, n, k, out_elems: (m * n) as usize })
    }
}

/// Plans a product of `m` rows that are quantised already with the MXFP8 weight `w`; only the
/// kernel that clips its last tile is used.
pub fn mxfp8_linear_prequant(w: &QuantWeight, m: u32) -> (r: Result<Mxfp8Prequant, KernelError>)
    requires
        mxfp8_prequant(*w, m) is Ok ==> m * (w.n as u32) <= usize::MAX,
    ensures
        r == mxfp8_prequant(*w, m),
{
    let n: u32 = w.n as u32;
    let k: u32 = w.k as u32;
    if !(n % 128 == 0 && k % 128 == 0 && k % 512 == 0 && k / 128 >= 2) {
        return Err(KernelError::Unsupported("mxfp8 prequant: форма вне rot-пути"));
    }
    match w.packed {
        Packed::Released => {
            return Err(KernelError::Cuda("mxfp8 prequant: packed W освобождён"));
        },
        Packed::Host => {
            return Err(KernelError::Unsupported("mxfp8 prequant: packed non-cuda"));
        },
        Packed::Device => {},
    }
    if !w.scales_cuda {
        return Err(KernelError::Unsupported("mxfp8 prequant: scales non-cuda"));
    }
    Ok(Mxfp8Prequant { m, n, k, out_elems: (m as usize) * (n as usize) })
}

/// Bytes of the packed values and of the scales of an NVFP4 activation of `m` rows.
pub fn nvfp4_act_buffer_sizes(m: usize, k: usize) -> (r: (usize, usize))
    requires
        m * k <= usize::MAX,
        ceil_div(k as int, 64) * 4 <= usize::MAX,
        ceil_div(m as int, 128) * 128 <= usize::MAX,
        scale_buffer_size(m as int, k as int) <= usize::MAX,
    ensures
        r.0 == (m * k) / 2,
        r.1 == scale_buffer_size(m as int, k as int),
{
    (m * k / 2, nvfp4_scale_buffer_size(m, k))
}

/// Plans the quantisation of an activation of `m` rows of `k` half floats at the device address
/// `x_ptr`, apart from any product.
pub fn nvfp4_quantize_act(switches: &QuantSwitches, x_ptr: u64, m: u32, k: u32) -> (r: Result<
    Nvfp4QuantPlan,
    KernelError,
>)
    requires
        takes_fast_quant(*switches, x_ptr, k) ==> round_up(m as int, 128) <= u32::MAX,
    ensures
        is_nvfp4_quant(r, *switches, x_ptr, m, k),
{
    quantize_f16_to_nvfp4_view(switches, x_ptr, m, k)
}

/// The activation is the same whichever way it came: where the rows need no padding, a fresh one
/// gets buffers of the sizes that `nvfp4_act_buffer_sizes` gives; where they do, values and scales
/// have the same length either way, as many bytes of rows, and zeros behind them.
pub open spec fn same_activation(
    fresh: Nvfp4Activation,
    given: Nvfp4Activation,
    m: u32,
    k: u32,
) -> bool {
    match (fresh, given) {
        (
            Nvfp4Activation::Fresh { packed_bytes, scale_bytes, zero_from, scale_zero_from },
            Nvfp4Activation::Given { packed, scales },
        ) => {
            &&& match packed {
                None => zero_from is None && packed_bytes == (m * k) / 2,
                Some(copy) => {
                    &&& copy.bytes == packed_bytes
                    &&& copy.copy_bytes == (m * k) / 2
                    &&& zero_from == Some(copy.copy_bytes)
                },
            }
            &&& match scales {
                None => scale_zero_from is None && scale_bytes == scale_buffer_size(
                    m as int,
                    k as int,
                ),
                Some(copy) => {
                    &&& copy.bytes == scale_bytes
                    &&& copy.copy_bytes == scale_buffer_size(m as int, k as int)
                    &&& scale_zero_from == Some(copy.copy_bytes)
                },
            }
        },
        _ => false,
    }
}

/// An activation that is quantised already is multiplied as a fresh one would be: the same shapes
/// are accepted with the same errors, and the kernel, the rows, the bytes of values and scales, and
/// the output are the same.
pub proof fn prequantised_product_is_the_same(
    w: QuantWeight,
    m: u32,
    given: Prequant,
    full: FullChoices,
    full_run: FullChoices,
)
    requires
        given.packed_len == (m * (w.k as u32)) / 2,
        given.scales_len == scale_buffer_size(m as int, (w.k as u32) as int),
        (m + 255) * (w.k as u32) <= usize::MAX,
        scale_buffer_size(m + 255, (w.k as u32) as int) <= usize::MAX,
    ensures
        ({
            let fresh = nvfp4_linear(w, m, None, full, full_run);
            let reused = nvfp4_linear(w, m, Some(given), full, full_run);
            match (fresh, reused) {
                (Err(a), Err(b)) => a == b,
                (Ok(a), Ok(b)) => {
                    &&& a.plan == b.plan
                    &&& match (a.work, b.work) {
                        (None, None) => true,
                        (Some(x), Some(y)) => {
                            &&& y == (Nvfp4Work { activation: y.activation, ..x })
                            &&& same_activation(x.activation, y.activation, m, w.k as u32)
                        },
                        _ => false,
                    }
                },
                _ => false,
            }
        }),
{
    let n = w.n as u32;
    let k = w.k as u32;
    if m >= 1 && k % 64 == 0 {
        run_rows_cover(m, n, k, full);
        lemma_linear_bounds(m as int, run_rows(m, n, k, full), n as int, k as int);
    }
}

/// No byte beyond the scales is read: for every product that is planned, whatever was given, the
/// rows that it runs on need no more scale bytes than it reads from.
pub proof fn scales_cover_rows(
    w: QuantWeight,
    m: u32,
    prequant: Option<Prequant>,
    full: FullChoices,
    full_run: FullChoices,
)
    requires
        m + 255 <= u32::MAX,
        scale_buffer_size(m + 255, (w.k as u32) as int) <= usize::MAX,
    ensures
        nvfp4_linear(w, m, prequant, full, full_run) matches Ok(l) ==> (l.work matches Some(work)
            ==> scale_buffer_size(work.m_run as int, (w.k as u32) as int) <= scales_read(
            work.activation,
            prequant,
        )),
{
    let n = w.n as u32;
    let k = w.k as u32;
    if m >= 1 && k % 64 == 0 {
        run_rows_cover(m, n, k, full);
        lemma_linear_bounds(m as int, run_rows(m, n, k, full), n as int, k as int);
    }
}

} // verus!
