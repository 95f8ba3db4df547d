//! Appending keys and values to caches in MXFP8.

use vstd::prelude::*;

use crate::arith::{fits3, fits4, mul3_u32, mul4_usize};
use crate::dtype::{is_half, DType};
use crate::error::KernelError;
use crate::launch::{launch1, span, spec_launch1, spec_span, Launch, Span};

verus! {

/// Threads of a block.
pub const BLOCK: u32 = 128;

/// An append with quantisation.
#[derive(Clone, Copy, Debug, PartialEq, Eq)]
pub struct QuantAppend {
    pub launch: Launch,
    /// Batch, heads, new positions, width and positions of the cache, which the kernel gets before
    /// the position.
    pub args: (u32, u32, u32, u32, u32),
    /// The position, unless it is read from device memory.
    pub seq_pos: Option<u32>,
    pub src: Span,
    pub dst: Span,
    pub scales: Span,
}

/// The counts of an append fit their machine types.
pub open spec fn quant_append_fits(
    src_off: int,
    dst_off: int,
    scale_off: int,
    b: u32,
    nkv: u32,
    t_new: u32,
    hd: u32,
    max_seq: u32,
) -> bool {
    &&& fits3(b as int, nkv as int, t_new as int, u32::MAX as int)
    &&& fits4(b as int, nkv as int, t_new as int, hd as int, usize::MAX as int)
    &&& fits4(b as int, nkv as int, max_seq as int, hd as int, usize::MAX as int)
    &&& src_off + b * nkv * t_new * hd * 2 <= usize::MAX
    &&& dst_off + b * nkv * max_seq * hd <= usize::MAX
    &&& scale_off + b * nkv * max_seq * (hd / 32) <= usize::MAX
}

/// An append of `t_new` positions, a block per position and head, with a scale byte for each 32
/// elements, from `seq_pos` on or from a position on that is read from device memory.
pub open spec fn quant_append_plan(
    src_off: int,
    dst_off: int,
    scale_off: int,
    b: u32,
    nkv: u32,
    t_new: u32,
    hd: u32,
    max_seq: u32,
    src_dtype: DType,
    seq_pos: Option<u32>,
) -> Result<Option<QuantAppend>, KernelError> {
    let dev = seq_pos is None;
    if b == 0 || nkv == 0 || t_new == 0 || hd == 0 {
        Ok(None)
    } else if hd % 32 != 0 {
        Err(
            KernelError::Cuda1(
                if dev { "mxfp8 kv dev: hd={} must be %32" } else { "mxfp8 kv: hd={} must be %32" },
                hd as u64,
            ),
        )
    } else if !is_half(src_dtype) {
        Err(
            KernelError::Unsupported(
                if dev {
                    "mxfp8 kv dev: src dtype (BF16/F16)"
                } else {
                    "mxfp8 kv: src dtype (BF16/F16)"
                },
            ),
        )
    } else {
        Ok(
            Some(
                QuantAppend {
                    launch: spec_launch1(
                        if src_dtype == DType::BF16 {
                            if dev {
                                "kv_quant_append_mxfp8_bf16_dev"
                            } else {
                                "kv_quant_append_mxfp8_bf16"
                            }
                        } else {
                            if dev {
                                "kv_quant_append_mxfp8_f16_dev"
                            } else {
                                "kv_quant_append_mxfp8_f16"
                            }
                        },
                        b * nkv * t_new,
                        BLOCK,
                    ),
                    args: (b, nkv, t_new, hd, max_seq),
                    seq_pos,
                    src: spec_span(src_off, b * nkv * t_new * hd, 2),
                    dst: spec_span(dst_off, b * nkv * max_seq * hd, 1),
                    scales: spec_span(scale_off, b * nkv * max_seq * (hd / 32), 1),
                },
            ),
        )
    }
}

fn quant_append(
    src_off: usize,
    dst_off: usize,
    scale_off: usize,
    b: u32,
    nkv: u32,
    t_new: u32,
    hd: u32,
    max_seq: u32,
    src_dtype: DType,
    seq_pos: Option<u32>,
) -> (r: Result<Option<QuantAppend>, KernelError>)
    requires
        quant_append_plan(
            src_off as int,
            dst_off as int,
            scale_off as int,
            b,
            nkv,
            t_new,
            hd,
            max_seq,
            src_dtype,
            seq_pos,
        ) matches Ok(Some(_)) ==> quant_append_fits(
            src_off as int,
            dst_off as int,
            scale_off as int,
            b,
            nkv,
            t_new,
            hd,
            max_seq,
        ),
    ensures
        r == quant_append_plan(
            src_off as int,
            dst_off as int,
            scale_off as int,
            b,
            nkv,
            t_new,
            hd,
            max_seq,
            src_dtype,
            seq_pos,
        ),
{
    let dev = seq_pos.is_none();
    if b == 0 || nkv == 0 || t_new == 0 || hd == 0 {
        return Ok(None);
    }
    if hd % 32 != 0 {
        return Err(
            KernelError::Cuda1(
                if dev {
                    "mxfp8 kv dev: hd={} must be %32"
                } else {
                    "mxfp8 kv: hd={} must be %32"
                },
                hd as u64,
            ),
        );
    }
    let kernel = match src_dtype {
        DType::BF16 => if dev {
            "kv_quant_append_mxfp8_bf16_dev"
        } else {
            "kv_quant_append_mxfp8_bf16"
        },
        DType::F16 => if dev {
            "kv_quant_append_mxfp8_f16_dev"
        } else {
            "kv_quant_append_mxfp8_f16"
        },
        _ => {
            return Err(
                KernelError::Unsupported(
                    if dev {
                        "mxfp8 kv dev: src dtype (BF16/F16)"
                    } else {
                        "mxfp8 kv: src dtype (BF16/F16)"
                    },
                ),
            );
        },
    };
    let nb: usize = (hd / 32) as usize;
    let src_n: usize = mul4_usize(b as usize, nkv as usize, t_new as usize, hd as usize);
    let dst_n: usize = mul4_usize(b as usize, nkv as usize, max_seq as usize, hd as usize);
    let scale_n: usize = mul4_usize(b as usize, nkv as usize, max_seq as usize, nb);
    Ok(
        Some(
            QuantAppend {
                launch: launch1(kernel, mul3_u32(b, nkv, t_new), BLOCK),
                args: (b, nkv, t_new, hd, max_seq),
                seq_pos,
                src: span(src_off, src_n, 2),
                dst: span(dst_off, dst_n, 1),
                scales: span(scale_off, scale_n, 1),
            },
        ),
    )
}

/// Plans an append at a position that the host knows; nothing is launched for no elements.
pub fn quant_append_mxfp8_u8(
    src_off: usize,
    dst_off: usize,
    scale_off: usize,
    b: u32,
    nkv: u32,
    t_new: u32,
    hd: u32,
    max_seq: u32,
    seq_pos: u32,
    src_dtype: DType,
) -> (r: Result<Option<QuantAppend>, KernelError>)
    requires
        quant_append_plan(
            src_off as int,
            dst_off as int,
            scale_off as int,
            b,
            nkv,
            t_new,
            hd,
            max_seq,
            src_dtype,
            Some(seq_pos),
        ) matches Ok(Some(_)) ==> quant_append_fits(
            src_off as int,
            dst_off as int,
            scale_off as int,
            b,
            nkv,
            t_new,
            hd,
            max_seq,
        ),
    ensures
        r == quant_append_plan(
            src_off as int,
            dst_off as int,
            scale_off as int,
            b,
            nkv,
            t_new,
            hd,
            max_seq,
            src_dtype,
            Some(seq_pos),
        ),
{
    quant_append(src_off, dst_off, scale_off, b, nkv, t_new, hd, max_seq, src_dtype, Some(seq_pos))
}

/// Plans an append at a position that is read from device memory.
pub fn quant_append_mxfp8_u8_dev(
    src_off: usize,
    dst_off: usize,
    scale_off: usize,
    b: u32,
    nkv: u32,
    t_new: u32,
    hd: u32,
    max_seq: u32,
    src_dtype: DType,
) -> (r: Result<Option<QuantAppend>, KernelError>)
    requires
        quant_append_plan(
            src_off as int,
            dst_off as int,
            scale_off as int,
            b,
            nkv,
            t_new,
            hd,
            max_seq,
            src_dtype,
            None,
        ) matches Ok(Some(_)) ==> quant_append_fits(
            src_off as int,
            dst_off as int,
            scale_off as int,
            b,
            nkv,
            t_new,
            hd,
            max_seq,
        ),
    ensures
        r == quant_append_plan(
            src_off as int,
            dst_off as int,
            scale_off as int,
            b,
            nkv,
            t_new,
            hd,
            max_seq,
            src_dtype,
            None,
        ),
{
    quant_append(src_off, dst_off, scale_off, b, nkv, t_new, hd, max_seq, src_dtype, None)
}

/// Reading the position from device memory changes nothing but the entry, where the position comes
/// from and the texts of errors: the launch is the same at every position, so one that was recorded
/// serves them all.
pub proof fn quant_append_same_at_every_position(
    src_off: int,
    dst_off: int,
    scale_off: int,
    b: u32,
    nkv: u32,
    t_new: u32,
    hd: u32,
    max_seq: u32,
    src_dtype: DType,
    seq_pos: u32,
)
    ensures
        ({
            let host = quant_append_plan(
                src_off,
                dst_off,
                scale_off,
                b,
                nkv,
                t_new,
                hd,
                max_seq,
                src_dtype,
                Some(seq_pos),
            );
            let dev = quant_append_plan(
                src_off,
                dst_off,
                scale_off,
                b,
                nkv,
                t_new,
                hd,
                max_seq,
                src_dtype,
                None,
            );
            &&& host is Ok <==> dev is Ok
            &&& host is Ok ==> (host->Ok_0 is Some <==> dev->Ok_0 is Some)
            &&& host is Ok && host->Ok_0 is Some ==> {
                let h = host->Ok_0->0;
                let d = dev->Ok_0->0;
                &&& d.launch.grid == h.launch.grid
                &&& d.launch.block == h.launch.block
                &&& d.launch.shared_mem_bytes == h.launch.shared_mem_bytes
                &&& d.args == h.args
                &&& d.src == h.src
                &&& d.dst == h.dst
                &&& d.scales == h.scales
            }
        }),
{
}

} // verus!
