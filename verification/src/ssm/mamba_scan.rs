//! The selective scan, one warp per channel.

use vstd::prelude::*;

use crate::dtype::{float_entry, is_float3, spec_float_entry, DType};
use crate::error::KernelError;
use crate::launch::{launch1, spec_launch1, Launch};

verus! {

/// A selective scan.
#[derive(Clone, Copy, Debug, PartialEq, Eq)]
pub struct MambaScan {
    pub launch: Launch,
    pub has_d: i32,
    pub b: i32,
    pub l: i32,
    pub d: i32,
    pub n: i32,
}

/// The outcome of a request for the selective scan.
pub open spec fn mamba_scan_plan(
    has_d_skip: bool,
    b: u32,
    l: u32,
    d: u32,
    n_state: u32,
    dtype: DType,
) -> Result<MambaScan, KernelError> {
    if n_state > 32 {
        Err(
            KernelError::Cuda1(
                "mamba_scan: n_state={} > 32 (warp reduction limit)",
                n_state as u64,
            ),
        )
    } else if !is_float3(dtype) {
        Err(KernelError::CudaDType("mamba_scan: unsupported dtype {}", dtype))
    } else {
        Ok(
            MambaScan {
                launch: spec_launch1(
                    spec_float_entry(
                        dtype,
                        "mamba_scan_f32",
                        "mamba_scan_f16",
                        "mamba_scan_bf16",
                    )->0,
                    b * d,
                    32,
                ),
                has_d: if has_d_skip { 1 } else { 0 },
                b: b as i32,
                l: l as i32,
                d: d as i32,
                n: n_state as i32,
            },
        )
    }
}

/// Plans the selective scan of `b` sequences of length `l` and `d` channels with `n_state`
/// states each, which one warp has to hold.
pub fn scan(has_d_skip: bool, b: u32, l: u32, d: u32, n_state: u32, dtype: DType) -> (r: Result<
    MambaScan,
    KernelError,
>)
    requires
        mamba_scan_plan(has_d_skip, b, l, d, n_state, dtype) is Ok ==> b * d <= u32::MAX,
    ensures
        r == mamba_scan_plan(has_d_skip, b, l, d, n_state, dtype),
{
    if n_state > 32 {
        return Err(
            KernelError::Cuda1("mamba_scan: n_state={} > 32 (warp reduction limit)", n_state as u64),
        );
    }
    match float_entry(dtype, "mamba_scan_f32", "mamba_scan_f16", "mamba_scan_bf16") {
        None => Err(KernelError::CudaDType("mamba_scan: unsupported dtype {}", dtype)),
        Some(kernel) => Ok(
            MambaScan {
                launch: launch1(kernel, b * d, 32),
                has_d: if has_d_skip {
                    1
                } else {
                    0
                },
                b: b as i32,
                l: l as i32,
                d: d as i32,
                n: n_state as i32,
            },
        ),
    }
}

/// As `scan`, for single floats.
pub fn scan_f32(
    has_d_skip: bool,
    b: u32,
    l: u32,
    d: u32,
    n_state: u32,
) -> (r: Result<MambaScan, KernelError>)
    requires
        mamba_scan_plan(has_d_skip, b, l, d, n_state, DType::F32) is Ok ==> b * d <= u32::MAX,
    ensures
        r == mamba_scan_plan(has_d_skip, b, l, d, n_state, DType::F32),
{
    scan(has_d_skip, b, l, d, n_state, DType::F32)
}

/// As `scan`, for half floats.
pub fn scan_f16(
    has_d_skip: bool,
    b: u32,
    l: u32,
    d: u32,
    n_state: u32,
) -> (r: Result<MambaScan, KernelError>)
    requires
        mamba_scan_plan(has_d_skip, b, l, d, n_state, DType::F16) is Ok ==> b * d <= u32::MAX,
    ensures
        r == mamba_scan_plan(has_d_skip, b, l, d, n_state, DType::F16),
{
    scan(has_d_skip, b, l, d, n_state, DType::F16)
}

/// As `scan`, for brain floats.
pub fn scan_bf16(
    has_d_skip: bool,
    b: u32,
    l: u32,
    d: u32,
    n_state: u32,
) -> (r: Result<MambaScan, KernelError>)
    requires
        mamba_scan_plan(has_d_skip, b, l, d, n_state, DType::BF16) is Ok ==> b * d <= u32::MAX,
    ensures
        r == mamba_scan_plan(has_d_skip, b, l, d, n_state, DType::BF16),
{
    scan(has_d_skip, b, l, d, n_state, DType::BF16)
}

} // verus!
