//! What the operations on block-quantised weights ask of their buffers, and what they launch.

use vstd::prelude::*;

use crate::arith::lemma_ceil_div;
use crate::coverage::{is_plain, thread_each};
use crate::dtype::{DType, GgmlType};
use crate::elementwise::blockq::{
    dequant_plan,
    gemv_entry,
    joined,
    per_sub_block,
    spec_gemv_row_bytes,
    spec_row_bytes,
    spec_suffix,
};
use crate::elementwise::blockq_entries::{
    entries_by_format,
    entries_named_by_suffix,
    has_own_scales,
    spec_entries,
};
use crate::elementwise::kv_append::typed_append;
use crate::launch::Launch;

verus! {

/// A thread for every thirty-two elements of `rows` rows of `k`, and no block without a thread at work.
pub open spec fn takes_sub_blocks(l: Launch, rows: int, k: int) -> bool {
    &&& is_plain(l)
    &&& l.block.0 > 0
    &&& rows * k <= 32 * (l.grid.0 * l.block.0)
    &&& l.grid.0 > 1 ==> 32 * ((l.grid.0 - 1) * l.block.0) < rows * k
}

/// A warp for every one of `n` rows of the weight, for each of `parts` weights.
pub open spec fn warp_each(l: Launch, n: int, parts: int) -> bool {
    &&& l.grid.1 == parts && l.grid.2 == 1 && l.block.1 == 1 && l.block.2 == 1
    &&& l.shared_mem_bytes == 0
    &&& 0 < l.block.0 <= 1024 && l.block.0 % 32 == 0
    &&& n <= l.grid.0 * (l.block.0 / 32)
    &&& (l.grid.0 - 1) * (l.block.0 / 32) < n
}

pub(crate) proof fn lemma_sub_blocks(rows: u32, k: u32)
    requires
        k % 32 == 0,
        rows * (k / 32) <= u32::MAX,
    ensures
        forall|name: &'static str|
            takes_sub_blocks(
                #[trigger] per_sub_block(name, rows, k),
                rows as int,
                k as int,
            ),
{
    let s = k / 32;
    assert(rows * k == 32 * (rows * s)) by (nonlinear_arith)
        requires
            k == 32 * s,
    ;
    assert(0 <= rows * s) by (nonlinear_arith);
    lemma_ceil_div(rows * s, 256);
}

/// The way back to floats is planned exactly where rows are whole sub-blocks and whole blocks of a
/// weight's format, and both buffers hold them; the kernel is that of the format, learns the rows, their
/// elements and their bytes, and has a thread for every sub-block.
pub proof fn way_back_is_as_asked(
    dtype: DType,
    block_row_bytes: Option<usize>,
    src_len: usize,
    out_len: usize,
    rows: u32,
    k: u32,
)
    requires
        rows * (k / 32) <= u32::MAX,
        block_row_bytes matches Some(b) ==> b <= u32::MAX,
    ensures
        dequant_plan(dtype, block_row_bytes, src_len, out_len, rows, k) is Ok <==> {
            &&& k % 32 == 0
            &&& block_row_bytes matches Some(b) && rows * b <= src_len
            &&& 2 * (rows * k) <= out_len
            &&& spec_entries(dtype) is Some
        },
        dequant_plan(dtype, block_row_bytes, src_len, out_len, rows, k) matches Ok(c) ==> {
            &&& c.args.0 == rows && c.args.1 == k
            &&& block_row_bytes == Some(c.args.2 as usize)
            &&& takes_sub_blocks(c.launch, rows as int, k as int)
            &&& spec_suffix(dtype) matches Some(s) && c.launch.kernel@ =~= "deq_"@ + s@
        },
{
    entries_named_by_suffix(dtype);
    if k % 32 == 0 {
        lemma_sub_blocks(rows, k);
    }
}

/// A row has bytes exactly where it is whole sub-blocks and whole blocks of the format, and a product
/// takes the format's own count of them unless the scales lie apart, where it takes none.
pub proof fn row_bytes_are_those_of_the_format(dtype: DType, block_row_bytes: Option<usize>, k: usize)
    requires
        block_row_bytes matches Some(b) ==> b <= u32::MAX,
    ensures
        spec_row_bytes(block_row_bytes, k) is Ok <==> k % 32 == 0 && block_row_bytes is Some,
        spec_row_bytes(block_row_bytes, k) matches Ok(b) ==> block_row_bytes == Some(b),
        spec_gemv_row_bytes(dtype, block_row_bytes, k) is Ok <==> {
            &&& k % 32 == 0
            &&& dtype == DType::NVFP4 || dtype == DType::MXFP8 || block_row_bytes is Some
        },
        spec_gemv_row_bytes(dtype, block_row_bytes, k) matches Ok(b) ==> if dtype == DType::NVFP4
            || dtype == DType::MXFP8 {
            b == 0
        } else {
            block_row_bytes == Some(b as usize)
        },
{
}

/// A product has a kernel exactly for the formats of weights, the same for one weight and for one per
/// expert but for the ending of its name.
pub proof fn product_entries_are_those_of_the_format(dtype: DType)
    ensures
        gemv_entry(dtype, false) is Ok <==> spec_entries(dtype) is Some && dtype != DType::Ggml(
            GgmlType::Q8_1,
        ) && dtype != DType::Ggml(GgmlType::Q8K),
        gemv_entry(dtype, true) is Ok <==> gemv_entry(dtype, false) is Ok,
        gemv_entry(dtype, false) matches Ok(name) ==> spec_suffix(dtype) matches Some(s) && name@
            =~= "gemv_"@ + s@,
        gemv_entry(dtype, false) is Ok ==> gemv_entry(dtype, true)->Ok_0@ =~= gemv_entry(
            dtype,
            false,
        )->Ok_0@ + "_batched"@,
        has_own_scales(dtype) ==> gemv_entry(dtype, false) is Ok,
{
    entries_by_format(dtype);
    entries_named_by_suffix(dtype);
}

/// The parts of a source stand in it whole, in their order, each but the last with a line break behind.
pub proof fn parts_stand_in_order(a: Seq<char>, b: Seq<char>, c: Seq<char>)
    ensures
        joined(a, b, c).len() == a.len() + b.len() + c.len() + 2,
        joined(a, b, c).take(a.len() as int) =~= a,
        joined(a, b, c)[a.len() as int] == '\n',
        joined(a, b, c).subrange(a.len() as int + 1, a.len() as int + 1 + b.len() as int) =~= b,
        joined(a, b, c)[a.len() as int + 1 + b.len() as int] == '\n',
        joined(a, b, c).skip(a.len() as int + 2 + b.len() as int) =~= c,
{
    reveal_strlit("\n");
}

/// An append of typed rows is refused only for half floats in rows of odd length, and has a thread for
/// every value it writes, or for every two half floats.
pub proof fn typed_append_serves_every_value(
    entry: &'static str,
    refusal: &'static str,
    b: u32,
    kv: u32,
    t_new: u32,
    hd: u32,
    half: bool,
)
    requires
        0 < b * kv * t_new * hd <= u32::MAX,
    ensures
        typed_append(entry, refusal, b, kv, t_new, hd, half) is Err <==> half && hd % 2 == 1,
        typed_append(entry, refusal, b, kv, t_new, hd, half) matches Ok(l) ==> {
            let n = b * kv * t_new * hd;
            &&& l.kernel == entry
            &&& half ==> n % 2 == 0 && thread_each(l, n / 2)
            &&& !half ==> thread_each(l, n)
        },
{
    let n = b * kv * t_new * hd;
    lemma_ceil_div(n, 256);
    if hd % 2 == 0 {
        let (m, h) = (b * kv * t_new, hd as int / 2);
        assert(n == 2 * (m * h)) by (nonlinear_arith)
            requires
                n == m * hd,
                hd == 2 * h,
        ;
        lemma_ceil_div(n / 2, 256);
    }
}

/// A number for every short text: its length and then its letters.
pub open spec fn number_of(s: Seq<char>) -> int {
    s.len() + letter(s, 0) * 128 + letter(s, 1) * 16384 + letter(s, 2) * 2097152 + letter(s, 3) * 268435456
        + letter(s, 4) * 34359738368 + letter(s, 5) * 4398046511104 + letter(s, 6) * 562949953421312 + letter(
        s,
        7,
    ) * 72057594037927936 + letter(s, 8) * 9223372036854775808
}

/// A letter of a text, and nothing behind its end.
pub open spec fn letter(s: Seq<char>, i: int) -> int {
    if i < s.len() {
        s[i] as int
    } else {
        0
    }
}

spec fn format_number(dtype: DType) -> int {
    match dtype {
        DType::NVFP4 => 1023355051808663648009,
        DType::MXFP8 => 1023355051946102634121,
        DType::Sq(bits) => if bits == 1 {
            104626563
        } else if bits == 2 {
            106723715
        } else if bits == 3 {
            108820867
        } else if bits == 4 {
            110918019
        } else if bits == 5 {
            113015171
        } else if bits == 6 {
            115112323
        } else if bits == 7 {
            117209475
        } else if bits == 8 {
            119306627
        } else {
            0
        },
        DType::Ggml(t) => match t {
            GgmlType::Q4_0 => 13084997764,
            GgmlType::Q4_1 => 13353433220,
            GgmlType::Q5_0 => 13085014148,
            GgmlType::Q5_1 => 13353449604,
            GgmlType::Q8_0 => 13085063300,
            GgmlType::Q8_1 => 13353498756,
            GgmlType::Q8K => 28922755204,
            GgmlType::Q1_0 => 13084948612,
            GgmlType::Q2_0 => 13084964996,
            GgmlType::Mxfp4 => 1816987055749,
            GgmlType::Nvfp4 => 1816987023109,
            GgmlType::Iq4Nl => 478794206704774,
            GgmlType::Q2K => 28922656900,
            GgmlType::Q3K => 28922673284,
            GgmlType::Q4K => 28922689668,
            GgmlType::Q5K => 28922706052,
            GgmlType::Q6K => 28922722436,
            GgmlType::Iq4Xs => 509924129666182,
            GgmlType::Iq2Xxs => 65271159001478279,
            GgmlType::Iq2Xs => 509924125471878,
            GgmlType::Iq2S => 3976978003077,
            GgmlType::Iq3Xxs => 65271159003575431,
            GgmlType::Iq3S => 3976980100229,
            GgmlType::Iq1S => 3976975905925,
            GgmlType::Iq1M => 3770817475717,
            GgmlType::Tq1_0 => 1674873436677,
            GgmlType::Tq2_0 => 1674875533829,
            GgmlType::Other => 0,
        },
        _ => 0,
    }
}

proof fn lemma_format_number(dtype: DType)
    ensures
        spec_suffix(dtype) matches Some(s) ==> number_of(s@) == format_number(dtype),
        spec_suffix(dtype) is Some <==> format_number(dtype) != 0,
{
    match dtype {
        DType::NVFP4 => {
            reveal_strlit("nvfp4_syn");
        },
        DType::MXFP8 => {
            reveal_strlit("mxfp8_syn");
        },
        DType::Sq(bits) => {
            reveal_strlit("sq1");
            reveal_strlit("sq2");
            reveal_strlit("sq3");
            reveal_strlit("sq4");
            reveal_strlit("sq5");
            reveal_strlit("sq6");
            reveal_strlit("sq7");
            reveal_strlit("sq8");
        },
        DType::Ggml(t) => match t {
            GgmlType::Q4_0 => {
                reveal_strlit("q4_0");
            },
            GgmlType::Q4_1 => {
                reveal_strlit("q4_1");
            },
            GgmlType::Q5_0 => {
                reveal_strlit("q5_0");
            },
            GgmlType::Q5_1 => {
                reveal_strlit("q5_1");
            },
            GgmlType::Q8_0 => {
                reveal_strlit("q8_0");
            },
            GgmlType::Q8_1 => {
                reveal_strlit("q8_1");
            },
            GgmlType::Q8K => {
                reveal_strlit("q8_k");
            },
            GgmlType::Q1_0 => {
                reveal_strlit("q1_0");
            },
            GgmlType::Q2_0 => {
                reveal_strlit("q2_0");
            },
            GgmlType::Mxfp4 => {
                reveal_strlit("mxfp4");
            },
            GgmlType::Nvfp4 => {
                reveal_strlit("nvfp4");
            },
            GgmlType::Iq4Nl => {
                reveal_strlit("iq4_nl");
            },
            GgmlType::Q2K => {
                reveal_strlit("q2_k");
            },
            GgmlType::Q3K => {
                reveal_strlit("q3_k");
            },
            GgmlType::Q4K => {
                reveal_strlit("q4_k");
            },
            GgmlType::Q5K => {
                reveal_strlit("q5_k");
            },
            GgmlType::Q6K => {
                reveal_strlit("q6_k");
            },
            GgmlType::Iq4Xs => {
                reveal_strlit("iq4_xs");
            },
            GgmlType::Iq2Xxs => {
                reveal_strlit("iq2_xxs");
            },
            GgmlType::Iq2Xs => {
                reveal_strlit("iq2_xs");
            },
            GgmlType::Iq2S => {
                reveal_strlit("iq2_s");
            },
            GgmlType::Iq3Xxs => {
                reveal_strlit("iq3_xxs");
            },
            GgmlType::Iq3S => {
                reveal_strlit("iq3_s");
            },
            GgmlType::Iq1S => {
                reveal_strlit("iq1_s");
            },
            GgmlType::Iq1M => {
                reveal_strlit("iq1_m");
            },
            GgmlType::Tq1_0 => {
                reveal_strlit("tq1_0");
            },
            GgmlType::Tq2_0 => {
                reveal_strlit("tq2_0");
            },
            GgmlType::Other => {},
        },
        _ => {},
    }
}

/// No two formats share a suffix, so that no kernel serves two of them.
pub proof fn formats_are_told_apart(a: DType, b: DType)
    ensures
        spec_suffix(a) is Some && spec_suffix(a) == spec_suffix(b) ==> a == b,
{
    lemma_format_number(a);
    lemma_format_number(b);
}

/// There are kernels exactly for the two formats with scales apart, for one to eight bits, and for every
/// other format that is known by name.
pub proof fn formats_with_kernels(dtype: DType)
    ensures
        spec_entries(dtype) is Some <==> match dtype {
            DType::NVFP4 | DType::MXFP8 => true,
            DType::Sq(bits) => 1 <= bits <= 8,
            DType::Ggml(t) => t != GgmlType::Other,
            _ => false,
        },
{
}

} // verus!
