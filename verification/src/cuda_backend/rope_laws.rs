//! What a rotation by position turns, and by which rows of its tables.

use vstd::prelude::*;

use crate::coverage::{block_each, bytes_of, spans};
use crate::cuda_backend::attention_laws::extents_fit;
use crate::cuda_backend::conv_laws::plain_float;
use crate::cuda_backend::rope_ops::{
    backend_rope_dev, backend_rope_interleaved, backend_rope_partial, backend_rope_split,
};
use crate::cuda_backend::row_laws::{countable, lemma_counted};
use crate::dtype::{lemma_float_bytes, DType};
use crate::elementwise::rope::RopeU8;
use crate::layout::{lemma_four, lemma_last_two, lemma_rows, volume, Layout, Operand};

verus! {

/// A rotation turns every row of `x`, a block for each and a thread for each of its `d` elements,
/// from where it starts into the start of the result, by tables of `table` elements of `size` bytes
/// from where they start.
pub open spec fn turns<A>(
    p: RopeU8<A>,
    x: Layout,
    d: int,
    cos: Layout,
    sin: Layout,
    table: int,
    size: int,
) -> bool {
    &&& spans(p.x, x.byte_offset as int, x.numel as int, bytes_of(x.dtype))
    &&& spans(p.out, 0, x.numel as int, bytes_of(x.dtype))
    &&& spans(p.cos, cos.byte_offset as int, table, size)
    &&& spans(p.sin, sin.byte_offset as int, table, size)
    &&& p.launch.grid.0 * d == x.numel
    &&& block_each(p.launch, p.launch.grid.0 as int)
    &&& p.launch.block.0 == d
}

/// The tables are two, alike, of floats, on the device and without gaps.
pub open spec fn are_tables(cos: Operand, sin: Operand, dtype: DType) -> bool {
    &&& cos.cuda && sin.cuda && cos.layout.contiguous && sin.layout.contiguous
    &&& cos.layout.dtype == dtype && sin.layout.dtype == dtype
}

proof fn lemma_table(cos: Layout, a: int, b: int)
    requires
        cos.wf(),
        cos.dims@.len() == 2,
        cos.dims@[0] == a,
        cos.dims@[1] == b,
    ensures
        cos.numel == a * b,
        0 <= a * b,
        cos.byte_offset + a * b * 4 <= usize::MAX,
{
    lemma_last_two(cos.dims@);
    assert(cos.dims@.take(0) =~= Seq::empty());
    assert(volume(cos.dims@.take(0)) == 1);
    lemma_rows(cos, 1);
}

/// A rotation of halves turns every row, each by the row of the tables at its position, which has an
/// angle for every pair.
pub proof fn rotation_is_as_asked(x: Operand, cos: Operand, sin: Operand, out: Operand)
    requires
        countable(x.layout),
        cos.wf(),
        sin.wf(),
        extents_fit(x.layout.dims@),
    ensures
        backend_rope_split(x, cos, sin, out) matches Ok(r) ==> {
            let xd = x.layout.dims@;
            &&& r is None <==> x.layout.numel == 0
            &&& r matches Some(p) ==> {
                &&& xd[xd.len() - 2] == p.args.0
                &&& xd.last() == p.args.1
                &&& cos.layout.dims@ =~= seq![p.args.0 as usize, (p.args.1 / 2) as usize]
                &&& sin.layout.dims@ == cos.layout.dims@
                &&& turns(
                    p,
                    x.layout,
                    xd.last() as int,
                    cos.layout,
                    sin.layout,
                    cos.layout.numel as int,
                    4,
                )
            }
        },
        backend_rope_split(x, cos, sin, out) is Ok <==> {
            let xd = x.layout.dims@;
            let cd = cos.layout.dims@;
            &&& are_tables(cos, sin, DType::F32) && x.cuda && out.cuda && x.layout.contiguous
            &&& xd.len() >= 2 && cd.len() == 2 && sin.layout.dims@ == cd
            &&& cd[0] == xd[xd.len() - 2] && cd[1] * 2 == xd.last()
            &&& x.layout.numel == 0 || xd.last() <= 1024 && plain_float(x.layout.dtype)
        },
{
    let xd = x.layout.dims@;
    let cd = cos.layout.dims@;
    if xd.len() >= 2 {
        lemma_counted(x.layout);
        lemma_float_bytes(x.layout.numel as int, x.layout.dtype);
        if cd.len() == 2 {
            lemma_table(cos.layout, cd[0] as int, cd[1] as int);
            if sin.layout.dims@ == cd {
                lemma_table(sin.layout, cd[0] as int, cd[1] as int);
            }
        }
    }
}

/// A rotation of the first elements of every row turns every row, and has tables for every position
/// of the one axis or the other.
pub proof fn partial_rotation_is_as_asked(
    x: Operand,
    cos: Operand,
    sin: Operand,
    rot_dim: usize,
    out: Operand,
)
    requires
        countable(x.layout),
        cos.wf(),
        sin.wf(),
        extents_fit(x.layout.dims@),
    ensures
        backend_rope_partial(x, cos, sin, rot_dim, out) matches Ok(r) ==> {
            let xd = x.layout.dims@;
            &&& r is None <==> x.layout.numel == 0
            &&& 0 < rot_dim <= xd.last()
            &&& r matches Some(p) ==> {
                let (s, d, rot) = p.rope.args;
                &&& d == xd.last() && rot == rot_dim
                &&& cos.layout.dims@ =~= seq![s as usize, (rot / 2) as usize]
                &&& sin.layout.dims@ == cos.layout.dims@
                &&& s == xd[xd.len() - 2] ==> p.pos_div == 1
                &&& s != xd[xd.len() - 2] ==> xd.len() >= 3 && s == xd[xd.len() - 3] && p.pos_div
                    == xd[xd.len() - 2]
                &&& turns(
                    p.rope,
                    x.layout,
                    xd.last() as int,
                    cos.layout,
                    sin.layout,
                    cos.layout.numel as int,
                    4,
                )
            }
        },
        backend_rope_partial(x, cos, sin, rot_dim, out) is Ok <==> {
            let xd = x.layout.dims@;
            let cd = cos.layout.dims@;
            &&& are_tables(cos, sin, DType::F32) && x.cuda && out.cuda && x.layout.contiguous
            &&& xd.len() >= 2 && cd.len() == 2 && sin.layout.dims@ == cd
            &&& 0 < rot_dim <= xd.last() && cd[1] * 2 == rot_dim
            &&& cd[0] == xd[xd.len() - 2] || xd.len() >= 3 && cd[0] == xd[xd.len() - 3]
            &&& x.layout.numel == 0 || xd.last() <= 1024 && plain_float(x.layout.dtype)
        },
{
    let xd = x.layout.dims@;
    let cd = cos.layout.dims@;
    if xd.len() >= 2 {
        lemma_counted(x.layout);
        lemma_float_bytes(x.layout.numel as int, x.layout.dtype);
        if cd.len() == 2 {
            lemma_table(cos.layout, cd[0] as int, cd[1] as int);
            if sin.layout.dims@ == cd {
                lemma_table(sin.layout, cd[0] as int, cd[1] as int);
            }
        }
    }
}

/// A rotation of neighbours in `[B, S, H, D]` turns every row, by tables with an angle for every
/// element of every position.
pub proof fn neighbour_rotation_is_as_asked(
    x: Operand,
    cos: Operand,
    sin: Operand,
    h: usize,
    out: Operand,
)
    requires
        countable(x.layout),
        cos.wf(),
        sin.wf(),
        extents_fit(x.layout.dims@),
    ensures
        backend_rope_interleaved(x, cos, sin, h, out) matches Ok(r) ==> {
            let xd = x.layout.dims@;
            &&& r is None <==> x.layout.numel == 0
            &&& xd[2] == h
            &&& r matches Some(p) ==> {
                &&& (p.args.0 as usize, p.args.1 as usize, p.args.2 as usize) == (xd[2], xd[1], xd[3])
                &&& cos.layout.numel == xd[1] * xd[3] && sin.layout.numel == xd[1] * xd[3]
                &&& turns(
                    p,
                    x.layout,
                    xd[3] as int,
                    cos.layout,
                    sin.layout,
                    cos.layout.numel as int,
                    4,
                )
            }
        },
        backend_rope_interleaved(x, cos, sin, h, out) is Ok <==> {
            let xd = x.layout.dims@;
            &&& are_tables(cos, sin, DType::F32) && x.cuda && out.cuda && x.layout.contiguous
            &&& xd.len() == 4 && xd[2] == h
            &&& cos.layout.numel == xd[1] * xd[3] && sin.layout.numel == xd[1] * xd[3]
            &&& x.layout.numel == 0 || xd[3] % 2 == 0 && xd[3] <= 1024 && plain_float(
                x.layout.dtype,
            )
        },
{
    let xd = x.layout.dims@;
    if xd.len() == 4 {
        lemma_counted(x.layout);
        lemma_float_bytes(x.layout.numel as int, x.layout.dtype);
        lemma_rows(cos.layout, 1);
        lemma_rows(sin.layout, 1);
    }
}

/// A rotation from a position on that is read from device memory turns every row, by the whole of
/// the tables, and reads the position from where it lies.
pub proof fn rotation_of_a_count_is_as_asked(
    x: Operand,
    cos: Operand,
    sin: Operand,
    start_pos: Operand,
    out: Operand,
    rotary_dim: usize,
)
    requires
        countable(x.layout),
        cos.wf(),
        sin.wf(),
        start_pos.wf(),
        extents_fit(x.layout.dims@),
        rotary_dim <= u32::MAX,
    ensures
        backend_rope_dev(x, cos, sin, start_pos, out, rotary_dim) matches Ok(r) ==> {
            let xd = x.layout.dims@;
            &&& spans(r.start_pos, start_pos.layout.byte_offset as int, 1, 4)
            &&& r.rope is None <==> x.layout.numel == 0
            &&& r.rope matches Some(p) ==> {
                &&& xd =~= seq![
                    p.args.0 as usize,
                    p.args.1 as usize,
                    p.args.2 as usize,
                    p.args.3 as usize,
                ]
                &&& p.args.4 == rotary_dim
                &&& turns(
                    p,
                    x.layout,
                    xd[3] as int,
                    cos.layout,
                    sin.layout,
                    cos.layout.numel as int,
                    bytes_of(x.layout.dtype),
                )
            }
        },
        backend_rope_dev(x, cos, sin, start_pos, out, rotary_dim) is Ok <==> {
            let xd = x.layout.dims@;
            &&& are_tables(cos, sin, x.layout.dtype) && x.cuda && out.cuda && x.layout.contiguous
            &&& start_pos.cuda && start_pos.layout.dtype == DType::U32
            &&& xd.len() == 4 && sin.layout.numel == cos.layout.numel
            &&& rotary_dim <= xd[3] <= 1024 && rotary_dim % 2 == 0
            &&& x.layout.numel == 0 || plain_float(x.layout.dtype)
        },
{
    let xd = x.layout.dims@;
    if xd.len() == 4 {
        lemma_counted(x.layout);
        lemma_four(xd);
        lemma_float_bytes(x.layout.numel as int, x.layout.dtype);
        lemma_rows(cos.layout, 1);
        lemma_rows(sin.layout, 1);
        lemma_float_bytes(cos.layout.numel as int, x.layout.dtype);
        let (r, d) = (xd[0] * xd[1] * xd[2], xd[3] as int);
        assert(r * d == 0 <==> r == 0) by (nonlinear_arith)
            requires
                d > 0,
        ;
        assert(0 <= r <= r * d) by (nonlinear_arith)
            requires
                r * d >= 0,
                d > 0,
        ;
    }
}

} // verus!
