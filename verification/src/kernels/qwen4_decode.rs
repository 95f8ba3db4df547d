//! Small fused stages of a decoder with several residual streams: grouped norms, mixing and
//! injection of streams, scaled activations, weighted sums of expert rows. All elements are half
//! floats but for the weights of the rows, which are single floats.

use vstd::prelude::*;

use crate::arith::{ceil_div, div_ceil_u64, fits3, lemma_ceil_div, lemma_mul_le_factor, max2, mul3_usize};
use crate::launch::{launch1, span, spec_launch1, spec_span, Launch, Span};

verus! {

/// Threads of a block.
pub const BLOCK: u32 = 256;

/// A thread per element; always at least one block.
pub open spec fn grid1(kernel: &'static str, n: int) -> Launch {
    spec_launch1(kernel, max2(ceil_div(n, 256), 1), 256)
}

fn grid1_launch(kernel: &'static str, n: u64) -> (r: Launch)
    ensures
        r == grid1(kernel, n as int),
{
    let blocks: u64 = div_ceil_u64(n, 256);
    let grid: u64 = if blocks < 1 {
        1
    } else {
        blocks
    };
    launch1(kernel, grid as u32, BLOCK)
}

/// Up to the bound of the grid there is a thread for every element.
pub proof fn grid1_covers(kernel: &'static str, n: int)
    requires
        0 <= n <= u32::MAX * 256,
    ensures
        grid1(kernel, n).grid.0 * 256 >= n,
{
    lemma_ceil_div(n, 256);
    crate::arith::lemma_ceil_div_monotone(n, u32::MAX * 256, 256);
    lemma_ceil_div(u32::MAX * 256, 256);
}

/// Threads for a group: the least power of two that covers it, within 32 and 256.
pub open spec fn group_block(group: int) -> int {
    if group <= 32 {
        32
    } else if group <= 64 {
        64
    } else if group <= 128 {
        128
    } else {
        256
    }
}

/// A norm of groups.
#[derive(Clone, Copy, Debug, PartialEq, Eq)]
pub struct GroupRms {
    pub launch: Launch,
    pub x: Span,
    pub w: Span,
    pub out: Span,
    /// The whole numbers that the kernel gets.
    pub args: (u32, u32, u32),
}

/// The norm of `groups` groups of `group` elements in each of `rows` rows.
pub open spec fn group_rms_plan(
    x_off: usize,
    w_off: usize,
    out_off: usize,
    rows: u32,
    groups: u32,
    group: u32,
) -> GroupRms {
    GroupRms {
        launch: spec_launch1(
            "group_rms_f16",
            rows * groups,
            group_block(group as int) as u32,
        ),
        x: spec_span(x_off as int, rows * groups * group, 2),
        w: spec_span(w_off as int, groups * group, 2),
        out: spec_span(out_off as int, rows * groups * group, 2),
        args: (rows, groups, group),
    }
}

/// Plans the norm of `groups` groups of `group` elements in each of `rows` rows: a block per
/// group, one weight per element of a row.
pub fn group_rms_f16(
    x_off: usize,
    w_off: usize,
    out_off: usize,
    rows: u32,
    groups: u32,
    group: u32,
) -> (r:
    GroupRms)
    requires
        rows * groups <= u32::MAX,
        group <= 0x8000_0000,
        fits3(rows as int, groups as int, group as int, usize::MAX as int),
        groups * group * 2 + w_off <= usize::MAX,
        rows * groups * group * 2 + x_off <= usize::MAX,
        rows * groups * group * 2 + out_off <= usize::MAX,
    ensures
        r == group_rms_plan(x_off, w_off, out_off, rows, groups, group),
{
    proof {
        lemma_mul_le_factor(rows as int, groups as int, group as int);
        assert(0 <= groups * group) by (nonlinear_arith);
    }
    let n: usize = mul3_usize(rows as usize, groups as usize, group as usize);
    let block: u32 = if group <= 32 {
        32
    } else if group <= 64 {
        64
    } else if group <= 128 {
        128
    } else {
        BLOCK
    };
    GroupRms {
        launch: launch1("group_rms_f16", rows * groups, block),
        x: span(x_off, n, 2),
        w: span(w_off, (groups as usize) * (group as usize), 2),
        out: span(out_off, n, 2),
        args: (rows, groups, group),
    }
}

/// A mixture of streams.
#[derive(Clone, Copy, Debug, PartialEq, Eq)]
pub struct HcMix {
    pub launch: Launch,
    pub up: Span,
    pub normed: Span,
    pub out: Span,
    /// The whole numbers that the kernel gets.
    pub args: (u32, u32, u32),
}

/// The mixture of `hc` streams of `h` elements of each of `rows` rows.
pub open spec fn hc_mix_plan(
    up_off: usize,
    normed_off: usize,
    out_off: usize,
    rows: u32,
    hc: u32,
    h: u32,
) -> HcMix {
    HcMix {
        launch: grid1("hc_mix_f16", rows * h),
        up: spec_span(up_off as int, rows * hc * h, 2),
        normed: spec_span(normed_off as int, rows * hc * h, 2),
        out: spec_span(out_off as int, rows * h, 2),
        args: (rows, hc, h),
    }
}

/// Plans the mixture of `hc` streams of `h` elements of each of `rows` rows into one.
pub fn hc_mix_f16(
    up_off: usize,
    normed_off: usize,
    out_off: usize,
    rows: u32,
    hc: u32,
    h: u32,
) -> (r:
    HcMix)
    requires
        fits3(rows as int, hc as int, h as int, usize::MAX as int),
        rows * hc * h * 2 + up_off <= usize::MAX,
        rows * hc * h * 2 + normed_off <= usize::MAX,
        rows * h * 2 + out_off <= usize::MAX,
    ensures
        r == hc_mix_plan(up_off, normed_off, out_off, rows, hc, h),
{
    proof {
        lemma_mul_le_factor(rows as int, hc as int, h as int);
        assert(0 <= rows * h) by (nonlinear_arith);
    }
    let n_in: usize = mul3_usize(rows as usize, hc as usize, h as usize);
    let n_out: usize = (rows as usize) * (h as usize);
    HcMix {
        launch: grid1_launch("hc_mix_f16", (rows as u64) * (h as u64)),
        up: span(up_off, n_in, 2),
        normed: span(normed_off, n_in, 2),
        out: span(out_off, n_out, 2),
        args: (rows, hc, h),
    }
}

/// An injection into streams.
#[derive(Clone, Copy, Debug, PartialEq, Eq)]
pub struct HcInject {
    pub launch: Launch,
    pub hyper: Span,
    pub block: Span,
    pub w: Span,
    pub out: Span,
    /// The whole numbers that the kernel gets.
    pub args: (u32, u32, u32),
}

/// The injection into `hc` streams of `h` elements of each of `rows` rows.
pub open spec fn hc_inject_plan(
    hyper_off: usize,
    block_off: usize,
    w_off: usize,
    out_off: usize,
    rows: u32,
    hc: u32,
    h: u32,
) -> HcInject {
    HcInject {
        launch: grid1("hc_inject_f16", rows * hc * h),
        hyper: spec_span(hyper_off as int, rows * hc * h, 2),
        block: spec_span(block_off as int, rows * h, 2),
        w: spec_span(w_off as int, rows * hc, 2),
        out: spec_span(out_off as int, rows * hc * h, 2),
        args: (rows, hc, h),
    }
}

/// Plans the injection of a block's result into `hc` streams of `h` elements of each of `rows`
/// rows, with one weight per stream of a row.
pub fn hc_inject_f16(
    hyper_off: usize,
    block_off: usize,
    w_off: usize,
    out_off: usize,
    rows: u32,
    hc: u32,
    h: u32,
) -> (r: HcInject)
    requires
        fits3(rows as int, hc as int, h as int, usize::MAX as int),
        rows * hc * h * 2 + hyper_off <= usize::MAX,
        rows * h * 2 + block_off <= usize::MAX,
        rows * hc * 2 + w_off <= usize::MAX,
        rows * hc * h * 2 + out_off <= usize::MAX,
    ensures
        r == hc_inject_plan(hyper_off, block_off, w_off, out_off, rows, hc, h),
{
    proof {
        lemma_mul_le_factor(rows as int, hc as int, h as int);
        assert(0 <= rows * h) by (nonlinear_arith);
    }
    let n_all: usize = mul3_usize(rows as usize, hc as usize, h as usize);
    HcInject {
        launch: grid1_launch("hc_inject_f16", n_all as u64),
        hyper: span(hyper_off, n_all, 2),
        block: span(block_off, (rows as usize) * (h as usize), 2),
        w: span(w_off, (rows as usize) * (hc as usize), 2),
        out: span(out_off, n_all, 2),
        args: (rows, hc, h),
    }
}

/// A scaled activation.
#[derive(Clone, Copy, Debug, PartialEq, Eq)]
pub struct ScaleAct {
    pub launch: Launch,
    pub x: Span,
    pub out: Span,
    /// The whole numbers that the kernel gets.
    pub args: (u32, u32),
}

/// The activation number `act` of `n` scaled elements.
pub open spec fn scale_act_plan(x_off: usize, out_off: usize, n: u32, act: u32) -> ScaleAct {
    ScaleAct {
        launch: grid1("scale_act_f16", n as int),
        x: spec_span(x_off as int, n as int, 2),
        out: spec_span(out_off as int, n as int, 2),
        args: (n, act),
    }
}

/// Plans the activation number `act` of `n` scaled elements.
pub fn scale_act_f16(x_off: usize, out_off: usize, n: u32, act: u32) -> (r: ScaleAct)
    requires
        n * 2 + x_off <= usize::MAX,
        n * 2 + out_off <= usize::MAX,
    ensures
        r == scale_act_plan(x_off, out_off, n, act),
{
    ScaleAct {
        launch: grid1_launch("scale_act_f16", n as u64),
        x: span(x_off, n as usize, 2),
        out: span(out_off, n as usize, 2),
        args: (n, act),
    }
}

/// A weighted sum of rows.
#[derive(Clone, Copy, Debug, PartialEq, Eq)]
pub struct WeightedRowsSum {
    pub launch: Launch,
    pub parts: Span,
    pub w: Span,
    pub out: Span,
    /// The whole numbers that the kernel gets.
    pub args: (u32, u32, u32),
}

/// The weighted sum of `kk` rows of `h` elements for each of `t` tokens.
pub open spec fn weighted_rows_sum_plan(
    parts_off: usize,
    w_off: usize,
    out_off: usize,
    t: u32,
    kk: u32,
    h: u32,
) -> WeightedRowsSum {
    WeightedRowsSum {
        launch: grid1("weighted_rows_sum_f16", t * h),
        parts: spec_span(parts_off as int, t * kk * h, 2),
        w: spec_span(w_off as int, t * kk, 4),
        out: spec_span(out_off as int, t * h, 2),
        args: (t, kk, h),
    }
}

/// Plans the weighted sum of `kk` rows of `h` elements for each of `t` tokens.
pub fn weighted_rows_sum_f16(
    parts_off: usize,
    w_off: usize,
    out_off: usize,
    t: u32,
    kk: u32,
    h: u32,
) -> (r: WeightedRowsSum)
    requires
        fits3(t as int, kk as int, h as int, usize::MAX as int),
        t * kk * h * 2 + parts_off <= usize::MAX,
        t * kk * 4 + w_off <= usize::MAX,
        t * h * 2 + out_off <= usize::MAX,
    ensures
        r == weighted_rows_sum_plan(parts_off, w_off, out_off, t, kk, h),
{
    proof {
        lemma_mul_le_factor(t as int, kk as int, h as int);
        assert(0 <= t * h) by (nonlinear_arith);
    }
    WeightedRowsSum {
        launch: grid1_launch("weighted_rows_sum_f16", (t as u64) * (h as u64)),
        parts: span(parts_off, mul3_usize(t as usize, kk as usize, h as usize), 2),
        w: span(w_off, (t as usize) * (kk as usize), 4),
        out: span(out_off, (t as usize) * (h as usize), 2),
        args: (t, kk, h),
    }
}

} // verus!
