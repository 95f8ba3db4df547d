//! The state-space dual, position by position.

use vstd::arithmetic::power2::pow2;
use vstd::prelude::*;

use crate::dtype::{float_entry, is_float3, spec_float_entry, DType};
use crate::error::KernelError;
use crate::launch::Launch;

verus! {

/// The recurrent kernels.
pub struct Mamba2SsdKernels;

/// One run of the recurrent kernel.
#[derive(Clone, Copy, Debug, PartialEq, Eq)]
pub struct SsdLaunch {
    pub launch: Launch,
    pub has_d: i32,
    pub b: i32,
    pub l: i32,
    pub h: i32,
    pub p: i32,
    pub n: i32,
}

/// `n` is a power of two.
pub open spec fn is_power_of_two(n: u32) -> bool {
    exists|e: nat| n == #[trigger] pow2(e)
}

/// A power of two up to 1024, written out.
pub open spec fn is_small_power(n: u32) -> bool {
    n == 1 || n == 2 || n == 4 || n == 8 || n == 16 || n == 32 || n == 64 || n == 128 || n == 256
        || n == 512 || n == 1024
}

/// Up to 1024 the list is that of the powers of two.
pub proof fn small_powers(n: u32)
    requires
        n <= 1024,
    ensures
        is_small_power(n) <==> is_power_of_two(n),
{
    vstd::arithmetic::power2::lemma2_to64();
    if is_small_power(n) {
        let e: nat = if n == 1 { 0 } else if n == 2 { 1 } else if n == 4 { 2 } else if n == 8 {
            3
        } else if n == 16 {
            4
        } else if n == 32 {
            5
        } else if n == 64 {
            6
        } else if n == 128 {
            7
        } else if n == 256 {
            8
        } else if n == 512 {
            9
        } else {
            10
        };
        assert(n == pow2(e));
    }
    if is_power_of_two(n) {
        let e = choose|e: nat| n == #[trigger] pow2(e);
        if e > 10 {
            vstd::arithmetic::power2::lemma_pow2_strictly_increases(10, e);
        }
        assert(e <= 10);
    }
}

/// The outcome of a request for the recurrent form.
pub open spec fn ssd_plan(
    has_d_skip: bool,
    b: u32,
    l: u32,
    h: u32,
    p: u32,
    n_state: u32,
    dtype: DType,
) -> Result<SsdLaunch, KernelError> {
    if !is_small_power(n_state) {
        Err(
            KernelError::Cuda1(
                "mamba2_ssd: n_state={} должно быть степенью двойки ≤ 1024",
                n_state as u64,
            ),
        )
    } else if !is_float3(dtype) {
        Err(KernelError::CudaDType("mamba2_ssd: unsupported dtype {}", dtype))
    } else {
        Ok(
            SsdLaunch {
                launch: Launch {
                    kernel: spec_float_entry(
                        dtype,
                        "mamba2_ssd_f32",
                        "mamba2_ssd_f16",
                        "mamba2_ssd_bf16",
                    )->0,
                    grid: ((b * h * p) as u32, 1, 1),
                    block: (n_state, 1, 1),
                    shared_mem_bytes: (n_state * 4) as u32,
                },
                has_d: if has_d_skip { 1 } else { 0 },
                b: b as i32,
                l: l as i32,
                h: h as i32,
                p: p as i32,
                n: n_state as i32,
            },
        )
    }
}

impl Mamba2SsdKernels {
    /// Plans the recurrent form for `b` sequences of length `l` with `h` heads of width `p`; the
    /// states per channel have to be a power of two that one block can hold.
    pub fn ssd(
        &self,
        has_d_skip: bool,
        b: u32,
        l: u32,
        h: u32,
        p: u32,
        n_state: u32,
        dtype: DType,
    ) -> (r: Result<SsdLaunch, KernelError>)
        requires
            ssd_plan(has_d_skip, b, l, h, p, n_state, dtype) is Ok ==> {
                &&& b * h <= u32::MAX
                &&& b * h * p <= u32::MAX
            },
        ensures
            r == ssd_plan(has_d_skip, b, l, h, p, n_state, dtype),
    {
        proof {
            lemma_power_test(n_state);
        }
        if n_state == 0 || (n_state & (n_state - 1)) != 0 || n_state > 1024 {
            return Err(
                KernelError::Cuda1(
                    "mamba2_ssd: n_state={} должно быть степенью двойки ≤ 1024",
                    n_state as u64,
                ),
            );
        }
        let kernel = match float_entry(dtype, "mamba2_ssd_f32", "mamba2_ssd_f16", "mamba2_ssd_bf16") {
            None => {
                return Err(KernelError::CudaDType("mamba2_ssd: unsupported dtype {}", dtype));
            },
            Some(k) => k,
        };
        proof {
            crate::arith::lemma_mul_le_factor(b as int, h as int, p as int);
        }
        let grid: u32 = b * h * p;
        Ok(
            SsdLaunch {
                launch: Launch {
                    kernel,
                    grid: (grid, 1, 1),
                    block: (n_state, 1, 1),
                    shared_mem_bytes: n_state * 4,
                },
                has_d: if has_d_skip {
                    1
                } else {
                    0
                },
                b: b as i32,
                l: l as i32,
                h: h as i32,
                p: p as i32,
                n: n_state as i32,
            },
        )
    }

    /// As `ssd`, for single floats.
    pub fn ssd_f32(
        &self,
        has_d_skip: bool,
        b: u32,
        l: u32,
        h: u32,
        p: u32,
        n_state: u32,
    ) -> (r: Result<SsdLaunch, KernelError>)
        requires
            ssd_plan(has_d_skip, b, l, h, p, n_state, DType::F32) is Ok ==> {
                &&& b * h <= u32::MAX
                &&& b * h * p <= u32::MAX
            },
        ensures
            r == ssd_plan(has_d_skip, b, l, h, p, n_state, DType::F32),
    {
        self.ssd(has_d_skip, b, l, h, p, n_state, DType::F32)
    }

    /// As `ssd`, for half floats.
    pub fn ssd_f16(
        &self,
        has_d_skip: bool,
        b: u32,
        l: u32,
        h: u32,
        p: u32,
        n_state: u32,
    ) -> (r: Result<SsdLaunch, KernelError>)
        requires
            ssd_plan(has_d_skip, b, l, h, p, n_state, DType::F16) is Ok ==> {
                &&& b * h <= u32::MAX
                &&& b * h * p <= u32::MAX
            },
        ensures
            r == ssd_plan(has_d_skip, b, l, h, p, n_state, DType::F16),
    {
        self.ssd(has_d_skip, b, l, h, p, n_state, DType::F16)
    }

    /// As `ssd`, for brain floats.
    pub fn ssd_bf16(
        &self,
        has_d_skip: bool,
        b: u32,
        l: u32,
        h: u32,
        p: u32,
        n_state: u32,
    ) -> (r: Result<SsdLaunch, KernelError>)
        requires
            ssd_plan(has_d_skip, b, l, h, p, n_state, DType::BF16) is Ok ==> {
                &&& b * h <= u32::MAX
                &&& b * h * p <= u32::MAX
            },
        ensures
            r == ssd_plan(has_d_skip, b, l, h, p, n_state, DType::BF16),
    {
        self.ssd(has_d_skip, b, l, h, p, n_state, DType::BF16)
    }
}

/// Clearing the lowest bit leaves nothing exactly of the powers of two.
proof fn lemma_power_test(n: u32)
    ensures
        is_small_power(n) <==> (n != 0 && (n & ((n - 1) as u32)) == 0 && n <= 1024),
{
    if n != 0 && n <= 1024 {
        assert((n & ((n - 1) as u32)) == 0 <==> (n == 1 || n == 2 || n == 4 || n == 8 || n == 16 || n
            == 32 || n == 64 || n == 128 || n == 256 || n == 512 || n == 1024)) by (bit_vector)
            requires
                0 < n <= 1024,
        ;
    }
}

} // verus!
