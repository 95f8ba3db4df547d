//! The small stages of one decoding step, each in one launch.

use vstd::prelude::*;

use crate::arith::{
    ceil_div, clamp3, clamp_u32, div_ceil_u32, lemma_ceil_div, lemma_mul_le_factor, mul3_u32,
    round_up, round_up_u32,
};
use crate::error::KernelError;
use crate::launch::{launch1, spec_launch1, Launch};

verus! {

/// The longest row: four elements for each of 1024 threads.
pub const ROW_MAX_H: u32 = 4096;

/// Threads for one row of `h` elements, four elements each.
pub open spec fn row_block(h: int) -> int {
    clamp3(round_up(ceil_div(h, 4), 32), 128, 1024)
}

fn row_threads(h: u32) -> (r: u32)
    ensures
        r == row_block(h as int),
{
    proof {
        lemma_ceil_div(h as int, 4);
        lemma_ceil_div(ceil_div(h as int, 4), 32);
    }
    clamp_u32(round_up_u32(div_ceil_u32(h, 4), 32), 128, 1024)
}

/// The threads of a row that is not too long hold it in four registers each.
pub proof fn row_fits_registers(h: u32)
    requires
        h <= ROW_MAX_H,
    ensures
        row_block(h as int) * 4 >= h,
        row_block(h as int) % 32 == 0,
{
    lemma_ceil_div(h as int, 4);
    lemma_ceil_div(ceil_div(h as int, 4), 32);
}

/// Where a norm in the four-bit format goes: addresses of the weight, the packed values and the
/// scales; zero where there is none.
#[derive(Clone, Copy, Debug, PartialEq, Eq, Structural)]
pub struct Nvfp4Out {
    pub w: u64,
    pub packed: u64,
    pub scales: u64,
}

impl Default for Nvfp4Out {
    fn default() -> (r: Self)
        ensures
            r == (Nvfp4Out { w: 0, packed: 0, scales: 0 }),
    {
        Nvfp4Out { w: 0, packed: 0, scales: 0 }
    }
}

/// The choice of experts that a launch makes on the side; none for no experts.
#[derive(Clone, Copy, Debug, PartialEq, Eq, Structural)]
pub struct TopkArgs {
    pub logits: u64,
    pub pes: u64,
    pub idx: u64,
    pub w: u64,
    pub acc_zero: u64,
    pub e: u32,
    pub k: u32,
    pub h: u32,
}

impl Default for TopkArgs {
    fn default() -> (r: Self)
        ensures
            r == (TopkArgs { logits: 0, pes: 0, idx: 0, w: 0, acc_zero: 0, e: 0, k: 0, h: 0 }),
    {
        TopkArgs { logits: 0, pes: 0, idx: 0, w: 0, acc_zero: 0, e: 0, k: 0, h: 0 }
    }
}

/// The stage behind attention.
#[derive(Clone, Copy, Debug, PartialEq, Eq)]
pub struct AttnTail {
    pub launch: Launch,
    pub h: i32,
    pub sf_inner: i32,
}

/// A launch of one block over one row.
pub open spec fn row_launch(kernel: &'static str, h: u32) -> Launch {
    Launch {
        kernel,
        grid: (1, 1, 1),
        block: (row_block(h as int) as u32, 1, 1),
        shared_mem_bytes: (h * 4) as u32,
    }
}

/// Plans the stage behind attention for a row of `h` elements.
pub fn attn_tail(h: u32) -> (r: Result<AttnTail, KernelError>)
    ensures
        r == (if h % 16 != 0 {
            Err(KernelError::Cuda1("attn_tail: H={} кратно 16", h as u64))
        } else if h > 4096 {
            Err(KernelError::Cuda1("attn_tail: H={} > 4096", h as u64))
        } else {
            Ok(
                AttnTail {
                    launch: row_launch("dec_attn_tail_bf16", h),
                    h: h as i32,
                    sf_inner: (ceil_div(h as int, 64) * 4) as i32,
                },
            )
        }),
{
    if h % 16 != 0 {
        return Err(KernelError::Cuda1("attn_tail: H={} кратно 16", h as u64));
    }
    if h > ROW_MAX_H {
        return Err(KernelError::Cuda1("attn_tail: H={} > 4096", h as u64));
    }
    proof {
        lemma_ceil_div(h as int, 64);
    }
    Ok(
        AttnTail {
            launch: Launch {
                kernel: "dec_attn_tail_bf16",
                grid: (1, 1, 1),
                block: (row_threads(h), 1, 1),
                shared_mem_bytes: h * 4,
            },
            h: h as i32,
            sf_inner: (div_ceil_u32(h, 64) * 4) as i32,
        },
    )
}

/// The stage behind the feed-forward part.
#[derive(Clone, Copy, Debug, PartialEq, Eq)]
pub struct FfnTail {
    pub launch: Launch,
    pub h: i32,
}

/// Plans the stage behind the feed-forward part for a row of `h` elements.
pub fn ffn_tail(h: u32) -> (r: Result<FfnTail, KernelError>)
    ensures
        r == (if h % 32 != 0 {
            Err(KernelError::Cuda1("ffn_tail: H={} кратно 32", h as u64))
        } else if h > 4096 {
            Err(KernelError::Cuda1("ffn_tail: H={} > 4096", h as u64))
        } else {
            Ok(FfnTail { launch: row_launch("dec_ffn_tail_bf16", h), h: h as i32 })
        }),
{
    if h % 32 != 0 {
        return Err(KernelError::Cuda1("ffn_tail: H={} кратно 32", h as u64));
    }
    if h > ROW_MAX_H {
        return Err(KernelError::Cuda1("ffn_tail: H={} > 4096", h as u64));
    }
    Ok(
        FfnTail {
            launch: Launch {
                kernel: "dec_ffn_tail_bf16",
                grid: (1, 1, 1),
                block: (row_threads(h), 1, 1),
                shared_mem_bytes: h * 4,
            },
            h: h as i32,
        },
    )
}

/// A gated activation with quantisation.
#[derive(Clone, Copy, Debug, PartialEq, Eq)]
pub struct GegluQuant {
    pub launch: Launch,
    pub stride: i64,
    pub rows: i32,
    pub inter: i32,
    pub sf_inner: i32,
    pub e: i32,
    pub k: i32,
    pub h: i32,
}

/// The outcome of a request for `rows` rows of `inter` elements.
pub open spec fn geglu_quant_plan(
    bf16: bool,
    stride: u64,
    rows: u32,
    inter: u32,
    topk: TopkArgs,
) -> Result<
    Option<GegluQuant>,
    KernelError,
> {
    let groups = rows * (inter / 16) * 4;
    if inter % 16 != 0 {
        Err(KernelError::Cuda1("geglu_quant: I={} кратно 16", inter as u64))
    } else if topk.e > 1024 || topk.k > 32 {
        Err(
            KernelError::Cuda2(
                "geglu_quant: top-k e={} ≤ 1024, k={} ≤ 32",
                topk.e as u64,
                topk.k as u64,
            ),
        )
    } else if groups == 0 {
        Ok(None)
    } else {
        Ok(
            Some(
                GegluQuant {
                    launch: spec_launch1(
                        if bf16 {
                            "dec_geglu_quant_nvfp4_bf16"
                        } else {
                            "dec_geglu_quant_nvfp4_f16"
                        },
                        ceil_div(groups, 128) + (if topk.e > 0 { 1int } else { 0int }),
                        128,
                    ),
                    stride: stride as i64,
                    rows: rows as i32,
                    inter: inter as i32,
                    sf_inner: (ceil_div(inter as int, 64) * 4) as i32,
                    e: topk.e as i32,
                    k: topk.k as i32,
                    h: topk.h as i32,
                },
            ),
        )
    }
}

/// Plans a gated activation with quantisation: four threads for every sixteen elements, and one
/// more block where experts are chosen on the side.
pub fn geglu_quant_nvfp4(
    bf16: bool,
    stride: u64,
    rows: u32,
    inter: u32,
    topk: TopkArgs,
) -> (r: Result<
    Option<GegluQuant>,
    KernelError,
>)
    requires
        geglu_quant_plan(bf16, stride, rows, inter, topk) is Ok ==> rows * (inter / 16) * 4 <= u32::MAX,
    ensures
        r == geglu_quant_plan(bf16, stride, rows, inter, topk),
{
    if inter % 16 != 0 {
        return Err(KernelError::Cuda1("geglu_quant: I={} кратно 16", inter as u64));
    }
    if topk.e > 1024 || topk.k > 32 {
        return Err(
            KernelError::Cuda2(
                "geglu_quant: top-k e={} ≤ 1024, k={} ≤ 32",
                topk.e as u64,
                topk.k as u64,
            ),
        );
    }
    proof {
        lemma_mul_le_factor(rows as int, (inter / 16) as int, 4);
    }
    let groups: u32 = mul3_u32(rows, inter / 16, 4);
    if groups == 0 {
        return Ok(None);
    }
    proof {
        lemma_ceil_div(groups as int, 128);
        lemma_ceil_div(inter as int, 64);
    }
    let extra: u32 = if topk.e > 0 {
        1
    } else {
        0
    };
    let kernel: &'static str = if bf16 {
        "dec_geglu_quant_nvfp4_bf16"
    } else {
        "dec_geglu_quant_nvfp4_f16"
    };
    Ok(
        Some(
            GegluQuant {
                launch: launch1(kernel, div_ceil_u32(groups, 128) + extra, 128),
                stride: stride as i64,
                rows: rows as i32,
                inter: inter as i32,
                sf_inner: (div_ceil_u32(inter, 64) * 4) as i32,
                e: topk.e as i32,
                k: topk.k as i32,
                h: topk.h as i32,
            },
        ),
    )
}

/// Every sixteen elements have their four threads, and the choice of experts a block of its own
/// behind them.
pub proof fn geglu_quant_covers(bf16: bool, stride: u64, rows: u32, inter: u32, topk: TopkArgs)
    requires
        rows * (inter / 16) * 4 <= u32::MAX,
    ensures
        geglu_quant_plan(bf16, stride, rows, inter, topk) matches Ok(Some(p)) ==> {
            let activation_blocks = p.launch.grid.0 - (if topk.e > 0 { 1int } else { 0int });
            activation_blocks * 128 >= rows * (inter / 16) * 4
        },
{
    lemma_mul_le_factor(rows as int, (inter / 16) as int, 4);
    lemma_ceil_div(rows * (inter / 16) * 4, 128);
}

/// The stage before attention.
#[derive(Clone, Copy, Debug, PartialEq, Eq)]
pub struct AttnPrep {
    pub launch: Launch,
    pub v_norm: i32,
    pub rotary_dim: i32,
    pub max_seq: i32,
    pub nh: i32,
    pub nkv: i32,
    pub hd: i32,
}

/// Plans the norms of heads, their rotation and the write to the cache: a block per query head,
/// key head and value head, a thread per element.
pub fn attn_prep(
    v_norm: bool,
    rotary_dim: u32,
    max_seq: u32,
    nh: u32,
    nkv: u32,
    hd: u32,
) -> (r: Result<
    AttnPrep,
    KernelError,
>)
    requires
        0 < hd <= 1024 && hd % 32 == 0 ==> nh + 2 * nkv <= u32::MAX,
    ensures
        r == (if hd == 0 || hd > 1024 || hd % 32 != 0 {
            Err(KernelError::Cuda1("attn_prep: hd={} (кратно 32, ≤1024)", hd as u64))
        } else {
            Ok(
                AttnPrep {
                    launch: Launch {
                        kernel: "dec_attn_prep_bf16",
                        grid: ((nh + 2 * nkv) as u32, 1, 1),
                        block: (hd, 1, 1),
                        shared_mem_bytes: (hd * 4) as u32,
                    },
                    v_norm: if v_norm { 1 } else { 0 },
                    rotary_dim: rotary_dim as i32,
                    max_seq: max_seq as i32,
                    nh: nh as i32,
                    nkv: nkv as i32,
                    hd: hd as i32,
                },
            )
        }),
{
    if hd == 0 || hd > 1024 || hd % 32 != 0 {
        return Err(KernelError::Cuda1("attn_prep: hd={} (кратно 32, ≤1024)", hd as u64));
    }
    Ok(
        AttnPrep {
            launch: Launch {
                kernel: "dec_attn_prep_bf16",
                grid: (nh + 2 * nkv, 1, 1),
                block: (hd, 1, 1),
                shared_mem_bytes: hd * 4,
            },
            v_norm: if v_norm {
                1
            } else {
                0
            },
            rotary_dim: rotary_dim as i32,
            max_seq: max_seq as i32,
            nh: nh as i32,
            nkv: nkv as i32,
            hd: hd as i32,
        },
    )
}

} // verus!
