//! The largest logits of each row.

use vstd::prelude::*;

use crate::arith::{ceil_div, div_ceil_u32, lemma_ceil_div, lemma_ceil_div_monotone, max2, max_u32};
use crate::dtype::{float_entry, is_float3, spec_float_entry, DType};
use crate::error::KernelError;
use crate::launch::Launch;

verus! {

/// Threads of a block.
pub const BLOCK: u32 = 256;

/// Shared memory that a block may ask for: 99 KiB.
pub const SMEM_OPT_IN_BYTES: u32 = 101_376;

/// Entries of the longest row: one bit each in the shared memory of a block.
pub const MAX_VOCAB: u32 = 811_008;

/// A search for the largest entries of rows.
#[derive(Clone, Copy, Debug, PartialEq, Eq)]
pub struct TopkLaunch {
    pub launch: Launch,
    pub batch: i32,
    pub vocab: i32,
    pub k: i32,
}

/// Shared memory of a block: a bit per entry, and a value and an index per thread.
pub open spec fn topk_smem(vocab: int) -> int {
    ceil_div(vocab, 32) * 4 + BLOCK * 4 + BLOCK * 4
}

/// The outcome of a request for the greatest values of rows.
pub open spec fn topk_plan(
    batch: u32,
    vocab: u32,
    k: u32,
    dtype: DType,
) -> Result<TopkLaunch, KernelError> {
    if vocab > MAX_VOCAB {
        Err(
            KernelError::Cuda2(
                "topk: V={} > MAX_VOCAB={} (smem mask cap)",
                vocab as u64,
                811_008,
            ),
        )
    } else if k == 0 || k > vocab {
        Err(KernelError::Cuda2("topk: K={} must be 0 < K <= V={}", k as u64, vocab as u64))
    } else if !is_float3(dtype) {
        Err(KernelError::Unsupported("topk: dtype must be F32/F16/BF16"))
    } else {
        Ok(
            TopkLaunch {
                launch: Launch {
                    kernel: spec_float_entry(dtype, "topk_f32", "topk_f16", "topk_bf16")->0,
                    grid: (max2(batch as int, 1) as u32, 1, 1),
                    block: (BLOCK, 1, 1),
                    shared_mem_bytes: topk_smem(vocab as int) as u32,
                },
                batch: batch as i32,
                vocab: vocab as i32,
                k: k as i32,
            },
        )
    }
}

/// Plans the search for the `k` largest of `vocab` entries in each of `batch` rows.
pub fn run(batch: u32, vocab: u32, k: u32, dtype: DType) -> (r: Result<TopkLaunch, KernelError>)
    ensures
        r == topk_plan(batch, vocab, k, dtype),
{
    if vocab > MAX_VOCAB {
        return Err(
            KernelError::Cuda2("topk: V={} > MAX_VOCAB={} (smem mask cap)", vocab as u64, 811_008),
        );
    }
    if k == 0 || k > vocab {
        return Err(
            KernelError::Cuda2("topk: K={} must be 0 < K <= V={}", k as u64, vocab as u64),
        );
    }
    proof {
        lemma_ceil_div(vocab as int, 32);
    }
    match float_entry(dtype, "topk_f32", "topk_f16", "topk_bf16") {
        None => Err(KernelError::Unsupported("topk: dtype must be F32/F16/BF16")),
        Some(kernel) => Ok(
            TopkLaunch {
                launch: Launch {
                    kernel,
                    grid: (max_u32(batch, 1), 1, 1),
                    block: (BLOCK, 1, 1),
                    shared_mem_bytes: div_ceil_u32(vocab, 32) * 4 + BLOCK * 4 + BLOCK * 4,
                },
                batch: batch as i32,
                vocab: vocab as i32,
                k: k as i32,
            },
        ),
    }
}

/// As `run`, for single floats.
pub fn run_f32(batch: u32, vocab: u32, k: u32) -> (r: Result<TopkLaunch, KernelError>)
    ensures
        r == topk_plan(batch, vocab, k, DType::F32),
{
    run(batch, vocab, k, DType::F32)
}

/// As `run`, for half floats.
pub fn run_f16(batch: u32, vocab: u32, k: u32) -> (r: Result<TopkLaunch, KernelError>)
    ensures
        r == topk_plan(batch, vocab, k, DType::F16),
{
    run(batch, vocab, k, DType::F16)
}

/// As `run`, for brain floats.
pub fn run_bf16(batch: u32, vocab: u32, k: u32) -> (r: Result<TopkLaunch, KernelError>)
    ensures
        r == topk_plan(batch, vocab, k, DType::BF16),
{
    run(batch, vocab, k, DType::BF16)
}

/// Entries of the longest row whose bits leave room for the values and indices of the threads.
pub const ROOMY_VOCAB: u32 = 794_624;

/// The bits of every row that is accepted fit the shared memory that a block may ask for, and the
/// launch asks for 2048 bytes more. Both together fit it just for rows of at most `ROOMY_VOCAB`
/// entries; for longer rows it is the driver that decides.
pub proof fn mask_fits(vocab: u32)
    requires
        vocab <= MAX_VOCAB,
    ensures
        ceil_div(vocab as int, 32) * 4 <= SMEM_OPT_IN_BYTES,
        topk_smem(vocab as int) == ceil_div(vocab as int, 32) * 4 + 2048,
        topk_smem(vocab as int) <= SMEM_OPT_IN_BYTES <==> vocab <= ROOMY_VOCAB,
{
    lemma_ceil_div(vocab as int, 32);
    lemma_ceil_div_monotone(vocab as int, MAX_VOCAB as int, 32);
}

} // verus!
