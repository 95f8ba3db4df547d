//! What operations element by element are made of, and that their plans have a thread for every
//! element and the operation that was asked for.

use vstd::prelude::*;

use crate::arith::lemma_ceil_div;
use crate::coverage::{bytes_of, is_plain};
use crate::cuda_backend::conv_laws::plain_float;
use crate::dtype::DType;
use crate::kernels::elementwise::{
    binary_error, cast_error, cfg_launch_covers, is_binary_plan, is_cast_plan, is_ternary_plan,
    is_unary_plan, spec_binary_code, spec_unary_code, ternary_error, unary_error, BinaryOp,
    BinaryPlan, BinaryShape, CastPlan, TernaryFusedKind, TernaryPlan, UnaryOp, UnaryPlan,
};
use crate::kernels::reduce::{
    is_reduce_plan, kept_dims, kernel_shape_exact, reduce_error, reduction_covers, spec_op_code,
    ReduceOp, ReducePlan,
};
use crate::launch::Launch;
use crate::layout::{flat_index, in_shape, lemma_row_major_index, strided_index, volume, Operand};

verus! {

/// The operations on one element, in the order of the kernels.
pub open spec fn unary_ops() -> Seq<UnaryOp> {
    seq![
        UnaryOp::Neg,
        UnaryOp::Abs,
        UnaryOp::Sqrt,
        UnaryOp::Sqr,
        UnaryOp::Recip,
        UnaryOp::Exp,
        UnaryOp::Log,
        UnaryOp::Sin,
        UnaryOp::Cos,
        UnaryOp::Silu,
        UnaryOp::GeluTanh,
        UnaryOp::Tanh,
        UnaryOp::Clamp,
        UnaryOp::Powf,
        UnaryOp::Affine,
        UnaryOp::Erf,
        UnaryOp::Sigmoid,
        UnaryOp::Relu,
        UnaryOp::Relu2,
        UnaryOp::LeakyRelu,
        UnaryOp::Sign,
        UnaryOp::StepGtZero,
        UnaryOp::GeluExact,
        UnaryOp::Round,
        UnaryOp::Floor,
        UnaryOp::Ceil,
    ]
}

/// The operations on two elements, in the order of the kernels.
pub open spec fn binary_ops() -> Seq<BinaryOp> {
    seq![
        BinaryOp::Add,
        BinaryOp::Sub,
        BinaryOp::Mul,
        BinaryOp::Div,
        BinaryOp::Max,
        BinaryOp::Min,
    ]
}

/// The number of an operation is its place in the order of the kernels, so that a kernel finds by
/// the number the operation that was asked for and no other.
pub proof fn numbers_are_places(a: UnaryOp, b: BinaryOp)
    ensures
        0 <= spec_unary_code(a) < unary_ops().len(),
        unary_ops()[spec_unary_code(a) as int] == a,
        0 <= spec_binary_code(b) < binary_ops().len(),
        binary_ops()[spec_binary_code(b) as int] == b,
{
}

/// The reductions, in the order of the kernels.
pub open spec fn reduce_ops() -> Seq<ReduceOp> {
    seq![ReduceOp::Sum, ReduceOp::Mean, ReduceOp::Max, ReduceOp::ArgMax]
}

/// The number of a reduction is its place in the order of the kernels.
pub proof fn reduction_numbers_are_places(op: ReduceOp)
    ensures
        0 <= spec_op_code(op) < reduce_ops().len(),
        reduce_ops()[spec_op_code(op) as int] == op,
{
}

/// There are threads for `n` elements, each taking `each` of them.
pub open spec fn served(l: Launch, n: int, each: int) -> bool {
    is_plain(l) && l.grid.0 * l.block.0 * each >= n
}

/// Elements of sixteen bytes.
pub open spec fn sixteen_bytes(dtype: DType) -> int {
    if bytes_of(dtype) == 4 {
        4
    } else {
        8
    }
}

/// The operation that a plan carries out.
pub open spec fn unary_number(p: UnaryPlan) -> int {
    match p {
        UnaryPlan::Flat { op_code, .. } => op_code as int,
        UnaryPlan::Rows { params, .. } => params.op_code as int,
        UnaryPlan::Strided { params, .. } => params.op_code as int,
    }
}

proof fn lemma_vectors(kernel: &'static str, n: int, each: int)
    requires
        0 <= n <= u32::MAX,
        each == 4 || each == 8,
    ensures
        served(
            crate::kernels::elementwise::cfg_launch(kernel, crate::arith::ceil_div(n, each)),
            n,
            each,
        ),
        served(crate::kernels::elementwise::cfg_launch(kernel, n), n, 1),
{
    let v = crate::arith::ceil_div(n, each);
    lemma_ceil_div(n, each);
    cfg_launch_covers(kernel, v);
    cfg_launch_covers(kernel, n);
    let g = crate::kernels::elementwise::cfg_launch(kernel, v).grid.0 as int;
    assert(g * 256 * each >= v * each) by (nonlinear_arith)
        requires
            g * 256 >= v,
            each > 0,
    ;
}

/// The first places hold the extents, where they fit.
pub open spec fn has_extents(places: Seq<i32>, dims: Seq<usize>) -> bool {
    forall|i: int| 0 <= i < dims.len() && i < 8 && dims[i] <= i32::MAX ==> #[trigger] places[i] == dims[i]
}

/// A plan for an operation on every element carries out the operation asked for, has threads for all
/// of them, and reads sixteen bytes at once only where they are aligned. It is for operands of one
/// shape and type on the device.
pub proof fn unary_is_as_asked(p: UnaryPlan, op: UnaryOp, src: Operand, dst: Operand)
    requires
        unary_error(src, dst) is None,
        is_unary_plan(p, op, src.layout, dst.layout),
        src.layout.numel <= u32::MAX,
    ensures
        unary_ops()[unary_number(p)] == op,
        src.cuda && dst.cuda,
        src.layout.dims@ == dst.layout.dims@,
        src.layout.dtype == dst.layout.dtype,
        plain_float(src.layout.dtype),
        match p {
            UnaryPlan::Flat { launch, numel, in_offset, .. } => {
                &&& served(launch, src.layout.numel as int, sixteen_bytes(src.layout.dtype))
                &&& numel == src.layout.numel && in_offset == src.layout.offset
                &&& src.layout.contiguous && dst.layout.offset == 0
                &&& (src.layout.offset * bytes_of(src.layout.dtype)) % 16 == 0
            },
            UnaryPlan::Rows { launch, params } => {
                &&& served(launch, src.layout.numel as int, sixteen_bytes(src.layout.dtype))
                &&& params.numel == src.layout.numel && params.in_offset == src.layout.offset
                &&& params.rank_outer + 1 == src.layout.dims@.len()
                &&& src.layout.dims@.last() <= i32::MAX ==> params.d == src.layout.dims@.last()
                &&& has_extents(params.dims@, src.layout.dims@.drop_last())
                &&& src.layout.strides@.last() == 1 && dst.layout.offset == 0
                &&& (src.layout.offset * bytes_of(src.layout.dtype)) % 16 == 0
                &&& (src.layout.dims@.last() * bytes_of(src.layout.dtype)) % 16 == 0
            },
            UnaryPlan::Strided { launch, params } => {
                &&& served(launch, src.layout.numel as int, 1)
                &&& params.numel == src.layout.numel && params.in_offset == src.layout.offset
                &&& params.rank == src.layout.dims@.len()
                &&& has_extents(params.dims@, src.layout.dims@)
            },
        },
{
    numbers_are_places(op, BinaryOp::Add);
    let n = src.layout.numel as int;
    match p {
        UnaryPlan::Flat { launch, .. } => {
            lemma_vectors(launch.kernel, n, sixteen_bytes(src.layout.dtype));
        },
        UnaryPlan::Rows { launch, .. } => {
            lemma_vectors(launch.kernel, n, sixteen_bytes(src.layout.dtype));
            let d = src.layout.dims@.last() as int;
            if src.layout.dtype == DType::F32 {
                assert((d * 4) % 16 == 0);
            } else {
                assert((d * 2) % 16 == 0);
            }
        },
        UnaryPlan::Strided { launch, .. } => {
            lemma_vectors(launch.kernel, n, 4);
        },
    }
}

/// The operation that a plan carries out.
pub open spec fn binary_number(p: BinaryPlan) -> int {
    match p {
        BinaryPlan::Fast { op_code, .. } => op_code as int,
        BinaryPlan::Strided { params, .. } => params.op_code as int,
    }
}

/// As `unary_is_as_asked`, for an operation on the elements of two operands.
pub proof fn binary_is_as_asked(p: BinaryPlan, op: BinaryOp, a: Operand, b: Operand, dst: Operand)
    requires
        binary_error(a, b, dst) is None,
        is_binary_plan(p, op, a.layout, b.layout, dst.layout),
        dst.layout.numel <= u32::MAX,
    ensures
        binary_ops()[binary_number(p)] == op,
        a.cuda && b.cuda && dst.cuda,
        a.layout.dims@ == dst.layout.dims@ && b.layout.dims@ == dst.layout.dims@,
        a.layout.dtype == dst.layout.dtype && b.layout.dtype == dst.layout.dtype,
        plain_float(dst.layout.dtype),
        match p {
            BinaryPlan::Fast { launch, shape, d, numel, a_offset, b_offset, .. } => {
                &&& served(launch, dst.layout.numel as int, sixteen_bytes(dst.layout.dtype))
                &&& numel == dst.layout.numel && a_offset == a.layout.offset && b_offset == b.layout.offset
                &&& dst.layout.dims@.len() > 0 && dst.layout.dims@.last() <= i32::MAX ==> (d matches Some(w)
                    ==> w == dst.layout.dims@.last())
                &&& a.layout.contiguous && dst.layout.offset == 0
                &&& (a.layout.offset * bytes_of(dst.layout.dtype)) % 16 == 0
                &&& (b.layout.offset * bytes_of(dst.layout.dtype)) % 16 == 0
                &&& d is None <==> shape == BinaryShape::Flat
                &&& shape == BinaryShape::Flat <==> b.layout.contiguous
            },
            BinaryPlan::Strided { launch, params } => {
                &&& served(launch, dst.layout.numel as int, 1)
                &&& params.numel == dst.layout.numel
                &&& params.a_offset == a.layout.offset && params.b_offset == b.layout.offset
                &&& params.rank == dst.layout.dims@.len()
                &&& has_extents(params.dims@, dst.layout.dims@)
            },
        },
{
    numbers_are_places(UnaryOp::Neg, op);
    let n = dst.layout.numel as int;
    match p {
        BinaryPlan::Fast { launch, .. } => {
            lemma_vectors(launch.kernel, n, sixteen_bytes(dst.layout.dtype));
        },
        BinaryPlan::Strided { launch, .. } => {
            lemma_vectors(launch.kernel, n, 4);
        },
    }
}

/// Where a plan of three operands reads for the element with number `i`: the first operand at that
/// place, the others too, or where they are rows at its place in the row.
pub open spec fn ternary_reads(p: TernaryPlan, kind: TernaryFusedKind, i: int) -> (int, int, int) {
    let row = match p.d {
        Some(d) => i % (d as int),
        None => i,
    };
    (
        p.x_offset + i,
        p.b_offset + (if kind == TernaryFusedKind::ModRowb {
            row
        } else {
            i
        }),
        p.c_offset + (if kind == TernaryFusedKind::FmaFlat {
            i
        } else {
            row
        }),
    )
}

/// An operation on three operands takes every element of the result, in vectors of sixteen bytes. It
/// reads the first operand where it has the element; the others there too, or where they are rows of
/// the result's width at the element's place in its row.
pub proof fn ternary_is_as_asked(
    p: TernaryPlan,
    kind: TernaryFusedKind,
    x: Operand,
    b: Operand,
    c: Operand,
    dst: Operand,
    index: Seq<int>,
)
    requires
        x.wf(),
        b.wf(),
        c.wf(),
        dst.wf(),
        ternary_error(kind, x, b, c, dst) is None,
        is_ternary_plan(p, kind, x.layout, b.layout, c.layout, dst.layout),
        0 < dst.layout.numel <= u32::MAX,
        dst.layout.dims@.len() > 0,
        dst.layout.dims@.last() <= i32::MAX,
        in_shape(dst.layout.dims@, index),
    ensures
        ({
            let dims = dst.layout.dims@;
            let reads = ternary_reads(p, kind, flat_index(dims, index));
            let rows_b = kind == TernaryFusedKind::ModRowb;
            let rows_c = kind != TernaryFusedKind::FmaFlat;
            &&& x.cuda && b.cuda && c.cuda && dst.cuda && plain_float(dst.layout.dtype)
            &&& served(p.launch, dst.layout.numel as int, sixteen_bytes(dst.layout.dtype))
            &&& p.numel == dst.layout.numel
            &&& (dst.layout.numel * bytes_of(dst.layout.dtype)) % 16 == 0
            &&& reads.0 == x.layout.offset + strided_index(x.layout.strides@, index)
            &&& !rows_b ==> b.layout.dims@ == dims && reads.1 == b.layout.offset + strided_index(
                b.layout.strides@,
                index,
            )
            &&& rows_b ==> b.layout.numel == dims.last() && reads.1 == b.layout.offset + index.last()
            &&& !rows_c ==> c.layout.dims@ == dims && reads.2 == c.layout.offset + strided_index(
                c.layout.strides@,
                index,
            )
            &&& rows_c ==> c.layout.numel == dims.last() && reads.2 == c.layout.offset + index.last()
        }),
{
    let dims = dst.layout.dims@;
    let n = dst.layout.numel as int;
    lemma_vectors(p.launch.kernel, n, sixteen_bytes(dst.layout.dtype));
    lemma_row_major_index(dims, x.layout.strides@, index);
    if kind != TernaryFusedKind::ModRowb {
        lemma_row_major_index(dims, b.layout.strides@, index);
    }
    if kind == TernaryFusedKind::FmaFlat {
        lemma_row_major_index(dims, c.layout.strides@, index);
    }
    let (q, d, r) = (
        flat_index(dims.drop_last(), index.drop_last()),
        dims.last() as int,
        index.last(),
    );
    assert(0 <= r < d);
    vstd::arithmetic::div_mod::lemma_fundamental_div_mod_converse(q * d + r, d, q, r);
}

/// A reduction carries out what was asked for and has a thread for every element of the result, each
/// going over all elements that fall together: together they go over every element once. The place
/// of the greatest element is a `U32`; all else is of the type of the operand.
pub proof fn reduction_is_as_asked(
    p: ReducePlan,
    op: ReduceOp,
    src: Operand,
    dst: Operand,
    axes: Seq<usize>,
)
    requires
        reduce_error(op, src, dst, axes) is None,
        is_reduce_plan(p, op, src, axes),
        src.layout.dims@.len() <= usize::MAX,
        forall|i: int| 0 <= i < src.layout.dims@.len() ==> #[trigger] src.layout.dims@[i] <= i32::MAX,
        forall|j: int| 0 <= j < axes.len() ==> #[trigger] axes[j] < src.layout.dims@.len(),
        axes.no_duplicates(),
        volume(kept_dims(src.layout.dims@, axes)) <= u32::MAX,
    ensures
        reduce_ops()[p.params.op_code as int] == op,
        src.cuda && dst.cuda && plain_float(src.layout.dtype),
        dst.layout.dtype == (if op == ReduceOp::ArgMax {
            DType::U32
        } else {
            src.layout.dtype
        }),
        p.params.out_numel == volume(kept_dims(src.layout.dims@, axes)),
        p.params.inner_size * p.params.out_numel == volume(src.layout.dims@),
        p.params.n_reduce == axes.len(),
        p.params.rank == src.layout.dims@.len(),
        p.params.in_offset == src.layout.offset,
        served(p.launch, p.params.out_numel as int, 1),
        has_extents(p.params.dims_out@, kept_dims(src.layout.dims@, axes)),
        forall|i: int|
            0 <= i < src.layout.dims@.len() ==> #[trigger] kept_dims(src.layout.dims@, axes)[i] == (
            if axes.contains(i as usize) {
                1
            } else {
                src.layout.dims@[i]
            }),
        forall|j: int|
            #![trigger p.params.red_axes@[j]]
            0 <= j < axes.len() ==> p.params.red_axes@[j] == axes[j] && p.params.dims_red@[j]
                == src.layout.dims@[axes[j] as int],
        forall|i: int|
            0 <= i < src.layout.strides@.len() && i < 8 && i32::MIN <= src.layout.strides@[i] <= i32::MAX
                ==> #[trigger] p.params.strides_in@[i] == src.layout.strides@[i],
{
    reduction_numbers_are_places(op);
    reduction_covers(src.layout.dims@, axes);
    kernel_shape_exact(src.layout.dims@, axes);
    let n = volume(kept_dims(src.layout.dims@, axes));
    crate::layout::lemma_volume_bounds(kept_dims(src.layout.dims@, axes));
    lemma_vectors(p.launch.kernel, n, 4);
}

/// A conversion takes every element, from operands of one shape on the device; eight at once only
/// where they lie one behind the other and are aligned.
pub proof fn cast_is_as_asked(p: CastPlan, src: Operand, dst: Operand)
    requires
        cast_error(src, dst) is None,
        is_cast_plan(p, src.layout, dst.layout),
        src.layout.numel <= u32::MAX,
    ensures
        src.cuda && dst.cuda,
        src.layout.dims@ == dst.layout.dims@,
        src.layout.dtype != dst.layout.dtype,
        match p {
            CastPlan::Flat { launch, numel, in_offset } => {
                &&& served(launch, src.layout.numel as int, 8)
                &&& numel == src.layout.numel && in_offset == src.layout.offset
                &&& src.layout.contiguous && dst.layout.offset == 0
                &&& plain_float(src.layout.dtype) && plain_float(dst.layout.dtype)
                &&& (src.layout.offset * bytes_of(src.layout.dtype)) % 16 == 0
            },
            CastPlan::Strided { launch, params } => {
                &&& served(launch, src.layout.numel as int, 1)
                &&& params.numel == src.layout.numel && params.in_offset == src.layout.offset
                &&& params.rank == src.layout.dims@.len()
                &&& has_extents(params.dims@, src.layout.dims@)
            },
        },
{
    let n = src.layout.numel as int;
    match p {
        CastPlan::Flat { launch, .. } => {
            lemma_vectors(launch.kernel, n, 8);
        },
        CastPlan::Strided { launch, .. } => {
            lemma_vectors(launch.kernel, n, 4);
        },
    }
}

} // verus!
