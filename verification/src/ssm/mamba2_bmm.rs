//! Batched products of half floats with a choice of tile.

use vstd::prelude::*;

use crate::arith::{ceil_div, div_ceil_u32, lemma_ceil_div, lemma_mul_le_factor};
use crate::error::KernelError;
use crate::launch::{Call, Launch};

verus! {

/// Warps of a block along the rows and along the columns of its tile.
#[derive(Clone, Copy, Debug, PartialEq, Eq, Structural)]
pub struct BmmConfig {
    pub warps_m: u32,
    pub warps_n: u32,
}

impl BmmConfig {
    /// At most sixteen warps along either side.
    pub open spec fn wf(&self) -> bool {
        1 <= self.warps_m <= 16 && 1 <= self.warps_n <= 16
    }

    pub fn tile_m(self) -> (r: u32)
        requires
            self.wf(),
        ensures
            r == self.warps_m * 16,
    {
        self.warps_m * 16
    }

    pub fn tile_n(self) -> (r: u32)
        requires
            self.wf(),
        ensures
            r == self.warps_n * 8,
    {
        self.warps_n * 8
    }

    pub fn threads(self) -> (r: u32)
        requires
            self.wf(),
        ensures
            r == self.warps_m * self.warps_n * 32,
    {
        proof {
            crate::arith::lemma_mul_bound(self.warps_m as int, 16, self.warps_n as int, 16);
        }
        self.warps_m * self.warps_n * 32
    }

    /// One slice of sixteen columns of both operands, two bytes each.
    pub fn smem_bytes(self) -> (r: u32)
        requires
            self.wf(),
        ensures
            r == (self.warps_m * 16 + self.warps_n * 8) * 16 * 2,
    {
        (self.warps_m * 16 + self.warps_n * 8) * 16 * 2
    }
}

/// The tile for a product of `m` by `n`.
pub open spec fn spec_config(m: u32, n: u32) -> BmmConfig {
    if m <= 16 {
        BmmConfig { warps_m: 1, warps_n: 4 }
    } else if m == 32 {
        BmmConfig { warps_m: 2, warps_n: 4 }
    } else if n <= 16 {
        BmmConfig { warps_m: 4, warps_n: 2 }
    } else if m >= 64 && n >= 32 {
        BmmConfig { warps_m: 4, warps_n: 4 }
    } else {
        BmmConfig { warps_m: 2, warps_n: 2 }
    }
}

pub fn pick_config(m: u32, n: u32) -> (r: BmmConfig)
    ensures
        r == spec_config(m, n),
        r.wf(),
{
    if m <= 16 {
        BmmConfig { warps_m: 1, warps_n: 4 }
    } else if m == 32 {
        BmmConfig { warps_m: 2, warps_n: 4 }
    } else if n <= 16 {
        BmmConfig { warps_m: 4, warps_n: 2 }
    } else if m >= 64 && n >= 32 {
        BmmConfig { warps_m: 4, warps_n: 4 }
    } else {
        BmmConfig { warps_m: 2, warps_n: 2 }
    }
}

/// The entry that was built for a tile.
pub open spec fn spec_entry(c: BmmConfig) -> &'static str {
    if c.warps_m == 1 {
        "mamba2_bmm_bf16_f32acc_1x4"
    } else if c.warps_m == 2 && c.warps_n == 2 {
        "mamba2_bmm_bf16_f32acc_2x2"
    } else if c.warps_m == 2 {
        "mamba2_bmm_bf16_f32acc_2x4"
    } else if c.warps_n == 2 {
        "mamba2_bmm_bf16_f32acc_4x2"
    } else {
        "mamba2_bmm_bf16_f32acc_4x4"
    }
}

/// The launch of a product of `m` by `n`.
pub open spec fn bmm_launch(m: u32, n: u32, batch: u32) -> Launch {
    let c = spec_config(m, n);
    Launch {
        kernel: spec_entry(c),
        grid: (
            ceil_div(m as int, c.warps_m * 16) as u32,
            ceil_div(n as int, c.warps_n * 8) as u32,
            batch,
        ),
        block: ((c.warps_m * c.warps_n * 32) as u32, 1, 1),
        shared_mem_bytes: ((c.warps_m * 16 + c.warps_n * 8) * 16 * 2) as u32,
    }
}

/// Blocks of `wm` by `wn` warps cover `batch` products of `m` by `n` with tiles of sixteen rows and eight
/// columns per warp, and no tile lies outside; the block's slices of both operands have their room.
pub open spec fn tiled_by(l: Launch, m: int, n: int, batch: int, wm: int, wn: int) -> bool {
    &&& l.block == ((wm * wn * 32) as u32, 1u32, 1u32)
    &&& m <= l.grid.0 * (wm * 16) < m + wm * 16
    &&& n <= l.grid.1 * (wn * 8) < n + wn * 8
    &&& l.grid.2 == batch
    &&& l.shared_mem_bytes == (wm * 16 + wn * 8) * 32
}

/// Whatever entry is launched, its own tiles are those that the grid was counted in.
pub proof fn product_tiles_cover(m: u32, n: u32, batch: u32)
    requires
        m > 0,
        n > 0,
    ensures
        ({
            let l = bmm_launch(m, n, batch);
            let (rows, cols, count) = (m as int, n as int, batch as int);
            ||| l.kernel == "mamba2_bmm_bf16_f32acc_1x4" && tiled_by(l, rows, cols, count, 1, 4)
            ||| l.kernel == "mamba2_bmm_bf16_f32acc_2x2" && tiled_by(l, rows, cols, count, 2, 2)
            ||| l.kernel == "mamba2_bmm_bf16_f32acc_2x4" && tiled_by(l, rows, cols, count, 2, 4)
            ||| l.kernel == "mamba2_bmm_bf16_f32acc_4x2" && tiled_by(l, rows, cols, count, 4, 2)
            ||| l.kernel == "mamba2_bmm_bf16_f32acc_4x4" && tiled_by(l, rows, cols, count, 4, 4)
        }),
{
    lemma_ceil_div(m as int, 16);
    lemma_ceil_div(m as int, 32);
    lemma_ceil_div(m as int, 64);
    lemma_ceil_div(n as int, 16);
    lemma_ceil_div(n as int, 32);
}

fn launch_for(m: u32, n: u32, batch: u32) -> (r: Launch)
    ensures
        r == bmm_launch(m, n, batch),
{
    let c = pick_config(m, n);
    let kernel = if c.warps_m == 1 {
        "mamba2_bmm_bf16_f32acc_1x4"
    } else if c.warps_m == 2 && c.warps_n == 2 {
        "mamba2_bmm_bf16_f32acc_2x2"
    } else if c.warps_m == 2 {
        "mamba2_bmm_bf16_f32acc_2x4"
    } else if c.warps_n == 2 {
        "mamba2_bmm_bf16_f32acc_4x2"
    } else {
        "mamba2_bmm_bf16_f32acc_4x4"
    };
    Launch {
        kernel,
        grid: (div_ceil_u32(m, c.tile_m()), div_ceil_u32(n, c.tile_n()), batch),
        block: (c.threads(), 1, 1),
        shared_mem_bytes: c.smem_bytes(),
    }
}

/// The tiles of a launch cover the product, and a block stays within 1024 threads.
pub proof fn bmm_launch_covers(m: u32, n: u32, batch: u32)
    ensures
        ({
            let c = spec_config(m, n);
            let l = bmm_launch(m, n, batch);
            &&& l.grid.0 * (c.warps_m * 16) >= m
            &&& l.grid.1 * (c.warps_n * 8) >= n
            &&& l.block.0 <= 1024
        }),
{
    let c = spec_config(m, n);
    lemma_ceil_div(m as int, c.warps_m * 16);
    lemma_ceil_div(n as int, c.warps_n * 8);
    assert(c.warps_m * c.warps_n <= 16) by (nonlinear_arith)
        requires
            1 <= c.warps_m <= 4,
            1 <= c.warps_n <= 4,
    ;
    assert(0 <= c.warps_m * c.warps_n) by (nonlinear_arith);
}

/// The batched product kernels.
pub struct Mamba2BmmKernels;

impl Mamba2BmmKernels {
    /// Plans `batch` products of `m` by `k` with the transpose of `n` by `k`, on buffers of
    /// `a_len`, `b_len` and `c_len` elements. Nothing is launched where nothing is to be done.
    pub fn bmm(
        &self,
        a_len: usize,
        b_len: usize,
        c_len: usize,
        m: u32,
        n: u32,
        k: u32,
        batch: u32,
    ) -> (r: Result<Option<Call<(u32, u32, u32, u32)>>, KernelError>)
        requires
            m % 16 == 0 && n % 8 == 0 && k % 16 == 0 ==> {
                &&& batch * m * k <= usize::MAX
                &&& batch * n * k <= usize::MAX
                &&& batch * m * n <= usize::MAX
            },
        ensures
            r == (if m == 0 || n == 0 || k == 0 || batch == 0 {
                Ok(None)
            } else if m % 16 != 0 {
                Err(KernelError::Cuda1("mamba2_bmm: M={} должно быть кратно 16", m as u64))
            } else if n % 8 != 0 {
                Err(KernelError::Cuda1("mamba2_bmm: N={} должно быть кратно 8", n as u64))
            } else if k % 16 != 0 {
                Err(KernelError::Cuda1("mamba2_bmm: K={} должно быть кратно 16", k as u64))
            } else if a_len < batch * m * k {
                Err(
                    KernelError::Cuda2(
                        "mamba2_bmm: a slice {} < required {}",
                        a_len as u64,
                        (batch * m * k) as u64,
                    ),
                )
            } else if b_len < batch * n * k {
                Err(
                    KernelError::Cuda2(
                        "mamba2_bmm: b slice {} < required {}",
                        b_len as u64,
                        (batch * n * k) as u64,
                    ),
                )
            } else if c_len < batch * m * n {
                Err(
                    KernelError::Cuda2(
                        "mamba2_bmm: c slice {} < required {}",
                        c_len as u64,
                        (batch * m * n) as u64,
                    ),
                )
            } else {
                Ok(Some(Call { launch: bmm_launch(m, n, batch), args: (m, n, k, batch) }))
            }),
            r matches Ok(Some(c)) ==> c.args.0 == m && c.args.1 == n && c.args.2 == k && c.args.3 == batch,
    {
        if m == 0 || n == 0 || k == 0 || batch == 0 {
            return Ok(None);
        }
        if m % 16 != 0 {
            return Err(KernelError::Cuda1("mamba2_bmm: M={} должно быть кратно 16", m as u64));
        }
        if n % 8 != 0 {
            return Err(KernelError::Cuda1("mamba2_bmm: N={} должно быть кратно 8", n as u64));
        }
        if k % 16 != 0 {
            return Err(KernelError::Cuda1("mamba2_bmm: K={} должно быть кратно 16", k as u64));
        }
        proof {
            lemma_mul_le_factor(batch as int, m as int, k as int);
            lemma_mul_le_factor(batch as int, n as int, k as int);
        }
        let needed_a: usize = (batch as usize) * (m as usize) * (k as usize);
        let needed_b: usize = (batch as usize) * (n as usize) * (k as usize);
        let needed_c: usize = (batch as usize) * (m as usize) * (n as usize);
        if a_len < needed_a {
            return Err(
                KernelError::Cuda2(
                    "mamba2_bmm: a slice {} < required {}",
                    a_len as u64,
                    needed_a as u64,
                ),
            );
        }
        if b_len < needed_b {
            return Err(
                KernelError::Cuda2(
                    "mamba2_bmm: b slice {} < required {}",
                    b_len as u64,
                    needed_b as u64,
                ),
            );
        }
        if c_len < needed_c {
            return Err(
                KernelError::Cuda2(
                    "mamba2_bmm: c slice {} < required {}",
                    c_len as u64,
                    needed_c as u64,
                ),
            );
        }
        Ok(Some(Call { launch: launch_for(m, n, batch), args: (m, n, k, batch) }))
    }

    /// As `bmm`, on parts of buffers that the caller has sized.
    pub fn bmm_view(&self, m: u32, n: u32, k: u32, batch: u32) -> (r: Result<
        Option<Call<(u32, u32, u32, u32)>>,
        KernelError,
    >)
        ensures
            r == (if m == 0 || n == 0 || k == 0 || batch == 0 {
                Ok(None)
            } else if m % 16 != 0 || n % 8 != 0 || k % 16 != 0 {
                Err(
                    KernelError::Cuda3(
                        "mamba2_bmm_view: M={}/N={}/K={} должны быть кратны 16/8/16",
                        m as u64,
                        n as u64,
                        k as u64,
                    ),
                )
            } else {
                Ok(Some(Call { launch: bmm_launch(m, n, batch), args: (m, n, k, batch) }))
            }),
            r matches Ok(Some(c)) ==> c.args.0 == m && c.args.1 == n && c.args.2 == k && c.args.3 == batch,
    {
        if m == 0 || n == 0 || k == 0 || batch == 0 {
            return Ok(None);
        }
        if m % 16 != 0 || n % 8 != 0 || k % 16 != 0 {
            return Err(
                KernelError::Cuda3(
                    "mamba2_bmm_view: M={}/N={}/K={} должны быть кратны 16/8/16",
                    m as u64,
                    n as u64,
                    k as u64,
                ),
            );
        }
        Ok(Some(Call { launch: launch_for(m, n, batch), args: (m, n, k, batch) }))
    }
}

} // verus!
