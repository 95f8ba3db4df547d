//! The three projections of attention for one token, on weights in the four-bit format.

use vstd::prelude::*;

use crate::arith::{ceil_div, div_ceil_u32, lemma_ceil_div, max2, max_u32};
use crate::error::KernelError;
use crate::launch::Launch;

verus! {

/// A launch of the three projections.
#[derive(Clone, Copy, Debug, PartialEq, Eq)]
pub struct QkvProj {
    pub launch: Launch,
    pub n_q: u32,
    pub n_k: u32,
    pub n_v: u32,
    pub k: u32,
    /// Row length of the scales.
    pub sf_inner_dim: i32,
}

/// A width that the kernels take.
pub open spec fn width_ok(n: u32) -> bool {
    n != 0 && n % 16 == 0
}

/// Rows of a block's tile: 128 where all widths allow it, else 64.
pub open spec fn qkv_tile(n_q: u32, n_k: u32, n_v: u32) -> int {
    if n_q % 128 == 0 && n_k % 128 == 0 && n_v % 128 == 0 { 128 } else { 64 }
}

/// The outcome of a request for widths `n_q`, `n_k` and `n_v` and depth `k`.
pub open spec fn qkv_plan(n_q: u32, n_k: u32, n_v: u32, k: u32) -> Result<QkvProj, KernelError> {
    let wide = qkv_tile(n_q, n_k, n_v) == 128;
    if k % 64 != 0 {
        Err(KernelError::Cuda1("nvfp4_qkv_proj_shuf_f16: K={} must be multiple of 64", k as u64))
    } else if !width_ok(n_q) {
        Err(
            KernelError::Cuda1(
                "nvfp4_qkv_proj_shuf_f16: N_q={} must be positive and multiple of 16",
                n_q as u64,
            ),
        )
    } else if !width_ok(n_k) {
        Err(
            KernelError::Cuda1(
                "nvfp4_qkv_proj_shuf_f16: N_k={} must be positive and multiple of 16",
                n_k as u64,
            ),
        )
    } else if !width_ok(n_v) {
        Err(
            KernelError::Cuda1(
                "nvfp4_qkv_proj_shuf_f16: N_v={} must be positive and multiple of 16",
                n_v as u64,
            ),
        )
    } else if !wide && !(n_q % 64 == 0 && n_k % 64 == 0 && n_v % 64 == 0) {
        Err(
            KernelError::Cuda3(
                "nvfp4_qkv_proj_shuf_f16: each N must be multiple of 64 (W4) or 128 (W8); got N_q={} N_k={} N_v={}",
                n_q as u64,
                n_k as u64,
                n_v as u64,
            ),
        )
    } else {
        Ok(
            QkvProj {
                launch: Launch {
                    kernel: if wide {
                        "nvfp4_qkv_proj_shuf_f16_w8"
                    } else {
                        "nvfp4_qkv_proj_shuf_f16_w4"
                    },
                    grid: (
                        ceil_div(
                            max2(max2(n_q as int, n_k as int), n_v as int),
                            qkv_tile(n_q, n_k, n_v),
                        ) as u32,
                        1,
                        1,
                    ),
                    block: (if wide { 256 } else { 128 }, 1, 1),
                    shared_mem_bytes: (k / 2) as u32,
                },
                n_q,
                n_k,
                n_v,
                k,
                sf_inner_dim: (ceil_div(k as int, 64) * 4) as i32,
            },
        )
    }
}

/// Plans the three projections in one launch: a block per tile of the widest.
pub fn nvfp4_qkv_proj_shuf_f16(n_q: u32, n_k: u32, n_v: u32, k: u32) -> (r: Result<
    QkvProj,
    KernelError,
>)
    ensures
        r == qkv_plan(n_q, n_k, n_v, k),
{
    if k % 64 != 0 {
        return Err(
            KernelError::Cuda1("nvfp4_qkv_proj_shuf_f16: K={} must be multiple of 64", k as u64),
        );
    }
    if n_q == 0 || n_q % 16 != 0 {
        return Err(
            KernelError::Cuda1(
                "nvfp4_qkv_proj_shuf_f16: N_q={} must be positive and multiple of 16",
                n_q as u64,
            ),
        );
    }
    if n_k == 0 || n_k % 16 != 0 {
        return Err(
            KernelError::Cuda1(
                "nvfp4_qkv_proj_shuf_f16: N_k={} must be positive and multiple of 16",
                n_k as u64,
            ),
        );
    }
    if n_v == 0 || n_v % 16 != 0 {
        return Err(
            KernelError::Cuda1(
                "nvfp4_qkv_proj_shuf_f16: N_v={} must be positive and multiple of 16",
                n_v as u64,
            ),
        );
    }
    let wide = n_q % 128 == 0 && n_k % 128 == 0 && n_v % 128 == 0;
    if !wide && (n_q % 64 != 0 || n_k % 64 != 0 || n_v % 64 != 0) {
        return Err(
            KernelError::Cuda3(
                "nvfp4_qkv_proj_shuf_f16: each N must be multiple of 64 (W4) or 128 (W8); got N_q={} N_k={} N_v={}",
                n_q as u64,
                n_k as u64,
                n_v as u64,
            ),
        );
    }
    let (kernel, threads, tile): (&'static str, u32, u32) = if wide {
        ("nvfp4_qkv_proj_shuf_f16_w8", 256, 128)
    } else {
        ("nvfp4_qkv_proj_shuf_f16_w4", 128, 64)
    };
    proof {
        lemma_ceil_div(k as int, 64);
    }
    Ok(
        QkvProj {
            launch: Launch {
                kernel,
                grid: (div_ceil_u32(max_u32(max_u32(n_q, n_k), n_v), tile), 1, 1),
                block: (threads, 1, 1),
                shared_mem_bytes: k / 2,
            },
            n_q,
            n_k,
            n_v,
            k,
            sf_inner_dim: (div_ceil_u32(k, 64) * 4) as i32,
        },
    )
}

/// Every accepted width is a whole number of tiles, and the grid has a block for every tile of
/// each of the three.
pub proof fn qkv_tiles_cover(n_q: u32, n_k: u32, n_v: u32, k: u32)
    ensures
        qkv_plan(n_q, n_k, n_v, k) matches Ok(p) ==> {
            let tile = qkv_tile(n_q, n_k, n_v);
            &&& n_q as int % tile == 0 && n_k as int % tile == 0 && n_v as int % tile == 0
            &&& p.launch.grid.0 * tile == max2(max2(n_q as int, n_k as int), n_v as int)
        },
{
    let tile = qkv_tile(n_q, n_k, n_v);
    let widest = max2(max2(n_q as int, n_k as int), n_v as int);
    lemma_ceil_div(widest, tile);
}

} // verus!
