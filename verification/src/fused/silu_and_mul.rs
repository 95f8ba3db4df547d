//! A gate's activation times a value.

use vstd::prelude::*;

use crate::arith::{ceil_div, div_ceil_u32, lemma_ceil_div};
use crate::launch::{launch1, spec_launch1, Call, Launch};

verus! {

/// A thread per element.
pub open spec fn cfg_for(kernel: &'static str, total: u32) -> Launch {
    spec_launch1(kernel, ceil_div(total as int, 256), 256)
}

/// There is a thread for every element, and no block without one.
pub proof fn cfg_covers(kernel: &'static str, total: u32)
    ensures
        cfg_for(kernel, total).grid.0 * 256 >= total,
        total > 0 ==> (cfg_for(kernel, total).grid.0 - 1) * 256 < total,
{
    lemma_ceil_div(total as int, 256);
}

/// Plans `total` elements of single floats.
pub fn silu_and_mul_f32(total: u32) -> (r: Call<u32>)
    ensures
        r == (Call { launch: cfg_for("silu_and_mul_f32", total), args: total }),
{
    Call { launch: launch1("silu_and_mul_f32", div_ceil_u32(total, 256), 256), args: total }
}

/// Plans `total` elements of half floats.
pub fn silu_and_mul_f16(total: u32) -> (r: Call<u32>)
    ensures
        r == (Call { launch: cfg_for("silu_and_mul_f16", total), args: total }),
{
    Call { launch: launch1("silu_and_mul_f16", div_ceil_u32(total, 256), 256), args: total }
}

/// Plans `total` elements of brain floats.
pub fn silu_and_mul_bf16(total: u32) -> (r: Call<u32>)
    ensures
        r == (Call { launch: cfg_for("silu_and_mul_bf16", total), args: total }),
{
    Call { launch: launch1("silu_and_mul_bf16", div_ceil_u32(total, 256), 256), args: total }
}

} // verus!
