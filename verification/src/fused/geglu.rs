//! Gate and up projections for one token with the activation between, on four-bit weights.

use vstd::prelude::*;

use crate::arith::{ceil_div, div_ceil_u32, lemma_ceil_div};
use crate::error::KernelError;
use crate::launch::Launch;

verus! {

/// A launch of both projections.
#[derive(Clone, Copy, Debug, PartialEq, Eq)]
pub struct GegluShuf {
    pub launch: Launch,
    pub n: u32,
    pub k: u32,
    /// Row length of the scales.
    pub sf_inner_dim: i32,
}

/// The outcome of a request for width `n` and depth `k`.
pub open spec fn geglu_plan(n: u32, k: u32) -> Result<GegluShuf, KernelError> {
    if k % 64 != 0 {
        Err(KernelError::Cuda1("nvfp4_geglu_shuf_f16: K={} must be multiple of 64", k as u64))
    } else if n == 0 || n % 16 != 0 {
        Err(
            KernelError::Cuda1(
                "nvfp4_geglu_shuf_f16: N={} must be positive and multiple of 16",
                n as u64,
            ),
        )
    } else if n % 64 != 0 {
        Err(
            KernelError::Cuda1(
                "nvfp4_geglu_shuf_f16: N={} must be multiple of 64 (W4) or 128 (W8)",
                n as u64,
            ),
        )
    } else {
        let wide = n % 128 == 0;
        Ok(
            GegluShuf {
                launch: Launch {
                    kernel: if wide {
                        "nvfp4_geglu_shuf_f16_w8"
                    } else {
                        "nvfp4_geglu_shuf_f16_w4"
                    },
                    grid: (if wide { (n / 128) as u32 } else { (n / 64) as u32 }, 1, 1),
                    block: (if wide { 256 } else { 128 }, 1, 1),
                    shared_mem_bytes: (k / 2) as u32,
                },
                n,
                k,
                sf_inner_dim: (ceil_div(k as int, 64) * 4) as i32,
            },
        )
    }
}

/// Plans both projections in one launch: a block per tile of 128 rows, or of 64.
pub fn nvfp4_geglu_shuf_f16(n: u32, k: u32) -> (r: Result<GegluShuf, KernelError>)
    ensures
        r == geglu_plan(n, k),
{
    if k % 64 != 0 {
        return Err(
            KernelError::Cuda1("nvfp4_geglu_shuf_f16: K={} must be multiple of 64", k as u64),
        );
    }
    if n == 0 || n % 16 != 0 {
        return Err(
            KernelError::Cuda1(
                "nvfp4_geglu_shuf_f16: N={} must be positive and multiple of 16",
                n as u64,
            ),
        );
    }
    let (kernel, threads, tile): (&'static str, u32, u32) = if n % 128 == 0 {
        ("nvfp4_geglu_shuf_f16_w8", 256, 128)
    } else if n % 64 == 0 {
        ("nvfp4_geglu_shuf_f16_w4", 128, 64)
    } else {
        return Err(
            KernelError::Cuda1(
                "nvfp4_geglu_shuf_f16: N={} must be multiple of 64 (W4) or 128 (W8)",
                n as u64,
            ),
        );
    };
    proof {
        lemma_ceil_div(k as int, 64);
    }
    Ok(
        GegluShuf {
            launch: Launch {
                kernel,
                grid: (n / tile, 1, 1),
                block: (threads, 1, 1),
                shared_mem_bytes: k / 2,
            },
            n,
            k,
            sf_inner_dim: (div_ceil_u32(k, 64) * 4) as i32,
        },
    )
}

/// The tiles of an accepted launch are exactly the rows; half a block's threads are its rows.
pub proof fn geglu_tiles_cover(n: u32, k: u32)
    ensures
        geglu_plan(n, k) matches Ok(p) ==> p.launch.grid.0 * p.launch.block.0 == 2 * n,
{
}

} // verus!
