//! Quantisation of weights to super-blocks.

use vstd::prelude::*;

use crate::arith::{
    ceil_div, div_ceil_u32, fits3, lemma_ceil_div, lemma_mul_le_factor, max2, max_u32, mul3_u32,
    mul3_usize,
};
use crate::error::KernelError;
use crate::launch::{launch1, spec_launch1, Call};

verus! {

/// Elements of a sub-block, which one thread takes.
pub const SUB_BLOCK: u32 = 32;

/// Sub-blocks of a super-block.
pub const SUBS: u32 = 8;

/// Elements of a super-block.
pub const SUPER_BLOCK: usize = 256;

/// What is wrong with a request, if anything. `bits_ok` says that the format has that many bits,
/// `row_bytes` is what it makes of a row of `k` elements.
pub open spec fn sq_error(
    bits_ok: bool,
    row_bytes: usize,
    input_len: usize,
    out_len: usize,
    rows: u32,
    k: u32,
) -> Option<KernelError> {
    if !bits_ok {
        Some(KernelError::Other("sq: bits"))
    } else if k % SUB_BLOCK != 0 {
        Some(KernelError::Unsupported("sq_quant: K должно быть кратно 32"))
    } else if out_len < rows * row_bytes {
        Some(KernelError::Unsupported("sq_quant: out короче rows × row_bytes"))
    } else if input_len < rows * k * 2 {
        Some(KernelError::Unsupported("sq_quant: вход короче rows × k"))
    } else {
        None
    }
}

/// Plans the quantisation of `rows` rows of `k` elements to `bits` bits; nothing is launched for no
/// rows.
pub fn sq_quant(
    bits: u8,
    bits_ok: bool,
    row_bytes: usize,
    input_len: usize,
    out_len: usize,
    rows: u32,
    k: u32,
) -> (r: Result<Option<Call<(u32, u32, u32)>>, KernelError>)
    requires
        bits_ok && k % SUB_BLOCK == 0 ==> rows * row_bytes <= usize::MAX && rows * k * 2 <= usize::MAX,
        sq_error(bits_ok, row_bytes, input_len, out_len, rows, k) is None ==> fits3(
            rows as int,
            ceil_div(k as int, 256),
            8,
            u32::MAX as int,
        ),
    ensures
        r == (match sq_error(bits_ok, row_bytes, input_len, out_len, rows, k) {
            Some(e) => Err(e),
            None => if rows == 0 {
                Ok(None)
            } else {
                Ok(
                    Some(
                        Call {
                            launch: spec_launch1(
                                "sq_quant",
                                max2(ceil_div(rows * ceil_div(k as int, 256) * 8, 256), 1),
                                256,
                            ),
                            args: (rows, k, bits as u32),
                        },
                    ),
                )
            },
        }),
{
    if !bits_ok {
        return Err(KernelError::Other("sq: bits"));
    }
    if k % SUB_BLOCK != 0 {
        return Err(KernelError::Unsupported("sq_quant: K должно быть кратно 32"));
    }
    proof {
        lemma_mul_le_factor(rows as int, k as int, 2);
    }
    if out_len < (rows as usize) * row_bytes {
        return Err(KernelError::Unsupported("sq_quant: out короче rows × row_bytes"));
    }
    if input_len < mul3_usize(rows as usize, k as usize, 2) {
        return Err(KernelError::Unsupported("sq_quant: вход короче rows × k"));
    }
    if rows == 0 {
        return Ok(None);
    }
    let supers: u32 = div_ceil_u32(k, 256);
    let total: u32 = mul3_u32(rows, supers, 8);
    Ok(
        Some(
            Call {
                launch: launch1("sq_quant", max_u32(div_ceil_u32(total, 256), 1), 256),
                args: (rows, k, bits as u32),
            },
        ),
    )
}

/// There is a thread for every sub-block of every row.
pub proof fn sub_blocks_covered(rows: u32, k: u32)
    requires
        k % SUB_BLOCK == 0,
    ensures
        ceil_div(rows * ceil_div(k as int, 256) * 8, 256) * 256 >= rows * (k / 32),
{
    lemma_ceil_div(k as int, 256);
    let s = ceil_div(k as int, 256);
    assert(0 <= rows * s * 8) by (nonlinear_arith)
        requires
            s >= 0,
    ;
    lemma_ceil_div(rows * s * 8, 256);
    assert(rows * s * 8 >= rows * (k / 32)) by (nonlinear_arith)
        requires
            s * 8 >= k / 32,
            rows >= 0,
    ;
}

} // verus!
