//! One step of the delta rule.

use vstd::prelude::*;

use crate::launch::{Call, Launch};

verus! {

/// The step kernel of the delta rule.
pub struct DeltaRuleKernels;

impl DeltaRuleKernels {
    /// One step for `b` by `h` states of `hk` keys by `hv` values, one block per state and
    /// one thread per key.
    pub fn delta_rule_step(&self, b: u32, h: u32, hk: u32, hv: u32) -> (r: Call<
        (u32, u32, u32, u32),
    >)
        requires
            (hk + 2) * 4 <= u32::MAX,
        ensures
            r == (Call {
                launch: Launch {
                    kernel: "delta_rule_step_f32",
                    grid: (b, h, 1),
                    block: (hk, 1, 1),
                    shared_mem_bytes: ((hk + 2) * 4) as u32,
                },
                args: (b, h, hk, hv),
            }),
            r.launch.grid.0 * r.launch.grid.1 * r.launch.grid.2 == b * h,
            r.launch.block.0 == hk && r.launch.block.1 == 1 && r.launch.block.2 == 1,
            r.launch.shared_mem_bytes == 4 * (hk + 2),
            r.args.0 == b && r.args.1 == h && r.args.2 == hk && r.args.3 == hv,
    {
        Call {
            launch: Launch {
                kernel: "delta_rule_step_f32",
                grid: (b, h, 1),
                block: (hk, 1, 1),
                shared_mem_bytes: (hk + 2) * 4,
            },
            args: (b, h, hk, hv),
        }
    }
}

} // verus!
