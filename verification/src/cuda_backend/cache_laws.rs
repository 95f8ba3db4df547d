//! What an append to a cache moves, and where it lands.

use vstd::prelude::*;

use crate::coverage::{bytes_of, is_plain, spans};
use crate::cuda_backend::attention::{kv_append_fits, kv_append_plan};
use crate::cuda_backend::attention_dev::kv_append_dev_plan;
use crate::cuda_backend::attention_laws::extents_fit;
use crate::cuda_backend::conv_laws::plain_float;
use crate::cuda_backend::mxfp8_cache::{kv_append_quant_dev_plan, kv_append_quant_plan};
use crate::dtype::DType;
use crate::elementwise::kv_append::{append_grid_covers, AppendU8};
use crate::elementwise::mxfp8_kv::{quant_append_fits, QuantAppend};
use crate::layout::{Layout, Operand};
use crate::sums::at4;

verus! {

/// Where an append from row `pos` on puts element `i` of new row `t` of head `hh` of sequence `bb`,
/// by the sizes that its kernel gets.
pub open spec fn lands_at(args: (u32, u32, u32, u32, u32), pos: int, bb: int, hh: int, t: int, i: int) -> int {
    at4(bb, hh, pos + t, i, args.1 as int, args.4 as int, args.3 as int)
}

/// The sizes are those of an append of the rows of `src` to `dst`.
pub open spec fn sizes_of(args: (u32, u32, u32, u32, u32), dst: Layout, src: Layout) -> bool {
    &&& src.dims@ =~= seq![args.0 as usize, args.1 as usize, args.2 as usize, args.3 as usize]
    &&& dst.dims@ =~= seq![args.0 as usize, args.1 as usize, args.4 as usize, args.3 as usize]
}

/// The elements of `[b, heads, rows, width]`.
pub open spec fn elements(lo: Layout) -> int {
    lo.dims@[0] * lo.dims@[1] * lo.dims@[2] * lo.dims@[3]
}

/// An append of the rows of `src` to `dst`: all of the one goes to the other.
pub open spec fn appends(p: AppendU8, dst: Layout, src: Layout) -> bool {
    &&& sizes_of(p.args, dst, src)
    &&& spans(p.src, src.byte_offset as int, elements(src), bytes_of(src.dtype))
    &&& spans(p.dst, dst.byte_offset as int, elements(dst), bytes_of(src.dtype))
    &&& is_plain(p.launch)
    &&& p.launch.grid.0 * p.launch.block.0 * (if src.dtype == DType::F32 {
        1int
    } else {
        2int
    }) >= elements(src)
}

/// Rows that can be appended: of one type, four axes that agree but for the rows, no gaps, and pairs
/// of half floats.
pub open spec fn appendable(dst: Operand, src: Operand) -> bool {
    let (d, s) = (dst.layout, src.layout);
    &&& dst.cuda && src.cuda
    &&& d.dtype == s.dtype && plain_float(s.dtype)
    &&& d.dims@.len() == 4 && s.dims@.len() == 4
    &&& d.contiguous && s.contiguous
    &&& s.dims@[0] == d.dims@[0] && s.dims@[1] == d.dims@[1] && s.dims@[3] == d.dims@[3]
    &&& s.dtype == DType::F32 || s.dims@[3] % 2 == 0
}

proof fn lemma_even(a: int, b: int, c: int, d: int)
    requires
        0 <= a,
        0 <= b,
        0 <= c,
        0 <= d,
    ensures
        0 <= a * b * c * d,
        d % 2 == 0 ==> (a * b * c * d) % 2 == 0,
{
    assert(0 <= a * b * c * d) by (nonlinear_arith)
        requires
            0 <= a,
            0 <= b,
            0 <= c,
            0 <= d,
    ;
    if d % 2 == 0 {
        let h = d / 2;
        let p = a * b * c;
        assert(p * d == 2 * (p * h)) by (nonlinear_arith)
            requires
                d == 2 * h,
        ;
    }
}

proof fn lemma_append_sizes(dst: Layout, src: Layout)
    requires
        dst.dims@.len() == 4,
        src.dims@.len() == 4,
        extents_fit(dst.dims@),
        extents_fit(src.dims@),
        kv_append_fits(dst, src),
        src.dims@[0] == dst.dims@[0],
        src.dims@[1] == dst.dims@[1],
        src.dims@[3] == dst.dims@[3],
    ensures
        0 <= elements(src) <= u32::MAX,
        0 <= elements(dst) <= usize::MAX,
        0 <= elements(src) * 4,
        0 <= elements(dst) * 4,
        src.dims@[3] % 2 == 0 ==> elements(src) % 2 == 0,
{
    let (s, d) = (src.dims@, dst.dims@);
    lemma_even(s[0] as int, s[1] as int, s[2] as int, s[3] as int);
    lemma_even(d[0] as int, d[1] as int, d[2] as int, d[3] as int);
}

/// An append that is accepted moves every new row, and element `i` of new row `t` of a head lands
/// where the cache has element `i` of row `seq_pos + t` of that head. It is accepted exactly where
/// the rows can be appended and end within the cache.
pub proof fn append_lands_behind_the_rows(dst: Operand, src: Operand, seq_pos: usize)
    requires
        extents_fit(dst.layout.dims@),
        extents_fit(src.layout.dims@),
        appendable(dst, src) ==> kv_append_fits(dst.layout, src.layout),
    ensures
        kv_append_plan(dst, src, seq_pos) matches Ok(p) ==> {
            let d = dst.layout.dims@;
            &&& appends(p, dst.layout, src.layout)
            &&& p.seq_pos is Some
            &&& forall|bb: int, hh: int, t: int, i: int|
                #![trigger lands_at(p.args, (p.seq_pos->0) as int, bb, hh, t, i)]
                lands_at(p.args, (p.seq_pos->0) as int, bb, hh, t, i) == at4(
                    bb,
                    hh,
                    seq_pos + t,
                    i,
                    d[1] as int,
                    d[2] as int,
                    d[3] as int,
                )
        },
        kv_append_plan(dst, src, seq_pos) is Ok <==> appendable(dst, src) && seq_pos
            + src.layout.dims@[2] <= dst.layout.dims@[2],
{
    if kv_append_plan(dst, src, seq_pos) is Ok {
        lemma_append_sizes(dst.layout, src.layout);
        append_grid_covers(elements(src.layout), src.layout.dtype);
        let n = elements(src.layout);
        crate::arith::lemma_ceil_div(if src.layout.dtype == DType::F32 { n } else { n / 2 }, 128);
    }
}

/// An append from a row on that is read from device memory is the append from that row on: it moves
/// every new row, and reads the row's number from where it lies.
pub proof fn append_of_a_count_lands_alike(dst: Operand, src: Operand, seq_pos: Operand)
    requires
        extents_fit(dst.layout.dims@),
        extents_fit(src.layout.dims@),
        seq_pos.wf(),
        appendable(dst, src) ==> kv_append_fits(dst.layout, src.layout),
    ensures
        kv_append_dev_plan(dst, src, seq_pos) matches Ok(p) ==> {
            &&& appends(p.append, dst.layout, src.layout)
            &&& p.append.seq_pos is None
            &&& spans(p.seq_pos, seq_pos.layout.byte_offset as int, 1, 4)
        },
        kv_append_dev_plan(dst, src, seq_pos) is Ok <==> appendable(dst, src) && seq_pos.cuda
            && seq_pos.layout.dtype == DType::U32,
{
    if kv_append_dev_plan(dst, src, seq_pos) is Ok {
        lemma_append_sizes(dst.layout, src.layout);
        append_grid_covers(elements(src.layout), src.layout.dtype);
        let n = elements(src.layout);
        crate::arith::lemma_ceil_div(if src.layout.dtype == DType::F32 { n } else { n / 2 }, 128);
    }
}

/// Rows that can be appended to an eight-bit cache with a scale for every 32 elements.
pub open spec fn quant_appendable(dst: Operand, scales: Operand, src: Operand) -> bool {
    let (d, c, s) = (dst.layout, scales.layout, src.layout);
    &&& dst.cuda && src.cuda && scales.cuda
    &&& d.dtype == DType::MXFP8 && c.dtype == DType::U8
    &&& s.dtype == DType::F16 || s.dtype == DType::BF16
    &&& d.dims@.len() == 4 && s.dims@.len() == 4 && c.dims@.len() == 4
    &&& d.contiguous && s.contiguous && c.contiguous
    &&& s.dims@[0] == d.dims@[0] && s.dims@[1] == d.dims@[1] && s.dims@[3] == d.dims@[3]
    &&& c.dims@[0] == d.dims@[0] && c.dims@[1] == d.dims@[1] && c.dims@[2] == d.dims@[2]
    &&& c.dims@[3] * 32 == d.dims@[3]
}

/// An append of the rows of `src` to `dst` and their scales to `scales`: a block for every row, all
/// of the rows and their scales.
pub open spec fn quant_appends(p: QuantAppend, dst: Layout, scales: Layout, src: Layout) -> bool {
    &&& sizes_of(p.args, dst, src)
    &&& spans(p.src, src.byte_offset as int, elements(src), 2)
    &&& spans(p.dst, dst.byte_offset as int, elements(dst), 1)
    &&& spans(p.scales, scales.byte_offset as int, elements(scales), 1)
    &&& is_plain(p.launch)
    &&& p.launch.grid.0 == src.dims@[0] * src.dims@[1] * src.dims@[2]
}

/// The sizes of an append to an eight-bit cache fit.
pub open spec fn quant_sizes_fit(dst: Layout, scales: Layout, src: Layout) -> bool {
    quant_append_fits(
        src.byte_offset as int,
        dst.byte_offset as int,
        scales.byte_offset as int,
        dst.dims@[0] as u32,
        dst.dims@[1] as u32,
        src.dims@[2] as u32,
        dst.dims@[3] as u32,
        dst.dims@[2] as u32,
    )
}

proof fn lemma_quant_sizes(dst: Layout, scales: Layout, src: Layout)
    requires
        dst.dims@.len() == 4,
        src.dims@.len() == 4,
        scales.dims@.len() == 4,
        extents_fit(dst.dims@),
        extents_fit(src.dims@),
        extents_fit(scales.dims@),
    ensures
        0 <= elements(src),
        0 <= elements(dst),
        0 <= elements(scales),
        0 <= src.dims@[0] * src.dims@[1] * src.dims@[2],
{
    let (s, d, c) = (src.dims@, dst.dims@, scales.dims@);
    lemma_even(s[0] as int, s[1] as int, s[2] as int, s[3] as int);
    lemma_even(d[0] as int, d[1] as int, d[2] as int, d[3] as int);
    lemma_even(c[0] as int, c[1] as int, c[2] as int, c[3] as int);
    lemma_even(s[0] as int, s[1] as int, s[2] as int, 1);
}

/// As `append_lands_behind_the_rows`, to an eight-bit cache: every new row and all of its scales.
/// Where there is nothing to append nothing is launched.
pub proof fn quantised_append_lands_behind_the_rows(
    dst: Operand,
    scales: Operand,
    src: Operand,
    seq_pos: usize,
)
    requires
        extents_fit(dst.layout.dims@),
        extents_fit(src.layout.dims@),
        extents_fit(scales.layout.dims@),
        quant_appendable(dst, scales, src) ==> quant_sizes_fit(
            dst.layout,
            scales.layout,
            src.layout,
        ),
    ensures
        kv_append_quant_plan(dst, scales, src, seq_pos) matches Ok(r) ==> {
            &&& r is None <==> elements(src.layout) == 0
            &&& r matches Some(p) ==> quant_appends(p, dst.layout, scales.layout, src.layout)
                && p.seq_pos is Some && (p.seq_pos->0) as int == seq_pos
        },
        kv_append_quant_plan(dst, scales, src, seq_pos) is Ok <==> quant_appendable(dst, scales, src)
            && seq_pos + src.layout.dims@[2] <= dst.layout.dims@[2],
{
    if quant_appendable(dst, scales, src) {
        lemma_quant_sizes(dst.layout, scales.layout, src.layout);
        lemma_none_empty(src.layout);
    }
}

/// As `quantised_append_lands_behind_the_rows`, with the row's number read from where it lies.
pub proof fn quantised_append_of_a_count_lands_alike(
    dst: Operand,
    scales: Operand,
    src: Operand,
    seq_pos: Operand,
)
    requires
        extents_fit(dst.layout.dims@),
        extents_fit(src.layout.dims@),
        extents_fit(scales.layout.dims@),
        seq_pos.wf(),
        quant_appendable(dst, scales, src) ==> quant_sizes_fit(
            dst.layout,
            scales.layout,
            src.layout,
        ),
    ensures
        kv_append_quant_dev_plan(dst, scales, src, seq_pos) matches Ok(r) ==> {
            &&& spans(r.seq_pos, seq_pos.layout.byte_offset as int, 1, 4)
            &&& r.append is None <==> elements(src.layout) == 0
            &&& r.append matches Some(p) ==> quant_appends(p, dst.layout, scales.layout, src.layout)
                && p.seq_pos is None
        },
        kv_append_quant_dev_plan(dst, scales, src, seq_pos) is Ok <==> quant_appendable(
            dst,
            scales,
            src,
        ) && seq_pos.cuda && seq_pos.layout.dtype == DType::U32,
{
    if quant_appendable(dst, scales, src) {
        lemma_quant_sizes(dst.layout, scales.layout, src.layout);
        lemma_none_empty(src.layout);
    }
}

proof fn lemma_none_empty(lo: Layout)
    requires
        lo.dims@.len() == 4,
    ensures
        elements(lo) == 0 <==> (lo.dims@[0] == 0 || lo.dims@[1] == 0 || lo.dims@[2] == 0 || lo.dims@[3]
            == 0),
{
    let (a, b, c, d) = (
        lo.dims@[0] as int,
        lo.dims@[1] as int,
        lo.dims@[2] as int,
        lo.dims@[3] as int,
    );
    assert(a * b * c * d == 0 <==> (a == 0 || b == 0 || c == 0 || d == 0)) by (nonlinear_arith)
        requires
            0 <= a,
            0 <= b,
            0 <= c,
            0 <= d,
    ;
}

} // verus!
