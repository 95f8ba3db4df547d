//! Cross entropy of rows of logits.

use vstd::prelude::*;

use crate::arith::{max2, max_u32};
use crate::dtype::{float_entry, is_float3, spec_float_entry, DType};
use crate::error::KernelError;
use crate::launch::{launch1, spec_launch1, Call};

verus! {

/// The outcome of a request for the losses of rows. The kernel gets the rows, their entries and the
/// target that has no loss.
pub open spec fn cross_entropy_plan(batch: u32, vocab: u32, ignore_index: i32, dtype: DType) -> Result<
    Call<(u32, u32, i32)>,
    KernelError,
> {
    if !is_float3(dtype) {
        Err(KernelError::CudaDType("cross_entropy: unsupported dtype {}", dtype))
    } else {
        Ok(
            Call {
                launch: spec_launch1(
                    spec_float_entry(
                        dtype,
                        "cross_entropy_f32",
                        "cross_entropy_f16",
                        "cross_entropy_bf16",
                    )->0,
                    max2(batch as int, 1),
                    256,
                ),
                args: (batch, vocab, ignore_index),
            },
        )
    }
}

/// Plans the losses of `batch` rows of `vocab` entries, none where the target is `ignore_index`: a
/// block per row, always at least one.
pub fn run(batch: u32, vocab: u32, ignore_index: i32, dtype: DType) -> (r: Result<
    Call<(u32, u32, i32)>,
    KernelError,
>)
    ensures
        r == cross_entropy_plan(batch, vocab, ignore_index, dtype),
{
    match float_entry(dtype, "cross_entropy_f32", "cross_entropy_f16", "cross_entropy_bf16") {
        None => Err(KernelError::CudaDType("cross_entropy: unsupported dtype {}", dtype)),
        Some(kernel) => Ok(
            Call {
                launch: launch1(kernel, max_u32(batch, 1), 256),
                args: (batch, vocab, ignore_index),
            },
        ),
    }
}

/// As `run`, for single floats.
pub fn run_f32(batch: u32, vocab: u32, ignore_index: i32) -> (r: Result<
    Call<(u32, u32, i32)>,
    KernelError,
>)
    ensures
        r == cross_entropy_plan(batch, vocab, ignore_index, DType::F32),
{
    run(batch, vocab, ignore_index, DType::F32)
}

/// As `run`, for half floats.
pub fn run_f16(batch: u32, vocab: u32, ignore_index: i32) -> (r: Result<
    Call<(u32, u32, i32)>,
    KernelError,
>)
    ensures
        r == cross_entropy_plan(batch, vocab, ignore_index, DType::F16),
{
    run(batch, vocab, ignore_index, DType::F16)
}

/// As `run`, for brain floats.
pub fn run_bf16(batch: u32, vocab: u32, ignore_index: i32) -> (r: Result<
    Call<(u32, u32, i32)>,
    KernelError,
>)
    ensures
        r == cross_entropy_plan(batch, vocab, ignore_index, DType::BF16),
{
    run(batch, vocab, ignore_index, DType::BF16)
}

} // verus!
