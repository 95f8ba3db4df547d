//! Allocation, with what is done when the device is out of memory.

use vstd::prelude::*;

use crate::cuda_backend::{CudaBackend, Device};
use crate::error::KernelError;

verus! {

/// Attempts after the first.
pub const RETRIES: u32 = 5;

/// What is done right before an attempt to allocate on the device `ordinal`: streams are
/// synchronised and pools trimmed `drains` times, the last time after a pause.
#[derive(Clone, Copy, Debug, PartialEq, Eq, Structural)]
pub struct AllocStep {
    pub ordinal: usize,
    pub drains: u32,
    pub pause_ms: u64,
}

/// What is done before the attempt that follows `failures` failed ones, if there is one.
pub open spec fn alloc_step(
    n_bytes: usize,
    device: Device,
    failures: u32,
    refusal: &'static str,
    exhausted: &'static str,
) -> Result<AllocStep, KernelError> {
    match device {
        Device::Cpu => Err(KernelError::Unsupported(refusal)),
        Device::Cuda(ordinal) => if failures > 5 {
            Err(KernelError::Cuda1(exhausted, n_bytes as u64))
        } else {
            Ok(
                AllocStep {
                    ordinal,
                    drains: if failures == 0 {
                        0
                    } else if failures == 1 {
                        2
                    } else {
                        1
                    },
                    pause_ms: if failures == 0 { 0 } else { (50 * (failures - 1)) as u64 },
                },
            )
        },
    }
}

fn next_step(
    n_bytes: usize,
    device: Device,
    failures: u32,
    refusal: &'static str,
    exhausted: &'static str,
) -> (r: Result<AllocStep, KernelError>)
    ensures
        r == alloc_step(n_bytes, device, failures, refusal, exhausted),
{
    match device {
        Device::Cpu => Err(KernelError::Unsupported(refusal)),
        Device::Cuda(ordinal) => {
            if failures > RETRIES {
                return Err(KernelError::Cuda1(exhausted, n_bytes as u64));
            }
            let drains: u32 = if failures == 0 {
                0
            } else if failures == 1 {
                2
            } else {
                1
            };
            let pause_ms: u64 = if failures == 0 {
                0
            } else {
                50 * (failures as u64 - 1)
            };
            Ok(AllocStep { ordinal, drains, pause_ms })
        },
    }
}

/// The milliseconds of pauses before the attempt that follows `failures` failed ones.
pub open spec fn pauses(failures: nat) -> int
    decreases failures,
{
    if failures == 0 {
        0
    } else {
        pauses((failures - 1) as nat) + 50 * (failures - 1)
    }
}

/// An allocation ends: there are six attempts at most, each pause is longer than the one before
/// by fifty milliseconds, and all pauses together are half a second.
pub proof fn allocation_ends(
    n_bytes: usize,
    ordinal: usize,
    failures: u32,
    refusal: &'static str,
    exhausted: &'static str,
)
    ensures
        alloc_step(n_bytes, Device::Cuda(ordinal), failures, refusal, exhausted) is Ok <==> failures
            < 6,
        alloc_step(n_bytes, Device::Cuda(ordinal), failures, refusal, exhausted) matches Ok(s)
            ==> failures > 0 ==> s.pause_ms == pauses(failures as nat) - pauses(
            (failures - 1) as nat,
        ),
        pauses(5) == 500,
{
    reveal_with_fuel(pauses, 6);
}

impl CudaBackend {
    /// What is done before the attempt to allocate zeroed memory that follows `failures` failed
    /// ones.
    pub fn alloc_zeros(&self, n_bytes: usize, device: Device, failures: u32) -> (r: Result<
        AllocStep,
        KernelError,
    >)
        ensures
            r == alloc_step(
                n_bytes,
                device,
                failures,
                "CudaBackend::alloc_zeros on non-Cuda",
                "alloc_zeros({}) after trim+retries: OOM",
            ),
    {
        next_step(
            n_bytes,
            device,
            failures,
            "CudaBackend::alloc_zeros on non-Cuda",
            "alloc_zeros({}) after trim+retries: OOM",
        )
    }

    /// What is done before the attempt to allocate memory as it is that follows `failures`
    /// failed ones.
    pub fn alloc_uninit(&self, n_bytes: usize, device: Device, failures: u32) -> (r: Result<
        AllocStep,
        KernelError,
    >)
        ensures
            r == alloc_step(
                n_bytes,
                device,
                failures,
                "CudaBackend::alloc_uninit on non-Cuda",
                "alloc_uninit({}) after trim+retries: OOM",
            ),
    {
        next_step(
            n_bytes,
            device,
            failures,
            "CudaBackend::alloc_uninit on non-Cuda",
            "alloc_uninit({}) after trim+retries: OOM",
        )
    }
}

} // verus!
