//! Reductions along axes.

use vstd::prelude::*;

use crate::arith::max2;
use crate::dtype::{float_entry, is_float3, spec_float_entry, DType};
use crate::error::KernelError;
use crate::kernels::elementwise::{
    cfg_launch, holds_extents, launch_cfg, lemma_placed_prefix, placed_index, strides_fit, MAX_RANK,
};
use crate::launch::Launch;
use crate::layout::{in_shape, lemma_volume_bounds, padded_volume, strided_index, volume, Operand};

verus! {

/// What is computed along the reduced axes.
#[derive(Clone, Copy, Debug, PartialEq, Eq, Structural)]
pub enum ReduceOp {
    Sum,
    Mean,
    Max,
    ArgMax,
}

/// The number by which the kernels know a reduction.
pub open spec fn spec_op_code(op: ReduceOp) -> i32 {
    match op {
        ReduceOp::Sum => 0,
        ReduceOp::Mean => 1,
        ReduceOp::Max => 2,
        ReduceOp::ArgMax => 3,
    }
}

pub fn op_code(op: ReduceOp) -> (r: i32)
    ensures
        r == spec_op_code(op),
{
    match op {
        ReduceOp::Sum => 0,
        ReduceOp::Mean => 1,
        ReduceOp::Max => 2,
        ReduceOp::ArgMax => 3,
    }
}

/// The integer parameters of a reduction.
#[derive(Clone, Copy, Debug, PartialEq, Eq)]
pub struct ReduceParams {
    pub op_code: i32,
    pub rank: i32,
    pub n_reduce: i32,
    pub out_numel: i64,
    pub inner_size: i64,
    pub in_offset: i64,
    pub dims_out: [i32; 8],
    pub dims_red: [i32; 8],
    pub red_axes: [i32; 8],
    pub strides_in: [i32; 8],
}

/// A reduction: a thread per element of the result.
#[derive(Clone, Copy, Debug, PartialEq, Eq)]
pub struct ReducePlan {
    pub launch: Launch,
    pub params: ReduceParams,
}

/// The product of a shape's extents as the kernels hold them.
pub open spec fn product32(s: Seq<i32>) -> int
    decreases s.len(),
{
    if s.len() == 0 {
        1
    } else {
        product32(s.drop_last()) * s.last()
    }
}

/// The number of elements that go into one element of the result.
pub open spec fn inner_product(dims: Seq<usize>, axes: Seq<usize>) -> int
    decreases axes.len(),
{
    if axes.len() == 0 {
        1
    } else {
        inner_product(dims, axes.drop_last()) * dims[axes.last() as int]
    }
}

/// The products that `inner_product` is computed through fit.
pub open spec fn inner_fits(dims: Seq<usize>, axes: Seq<usize>) -> bool {
    forall|j: int|
        0 <= j <= axes.len() ==> #[trigger] inner_product(dims, axes.take(j)) <= i64::MAX
}

/// The shape of the result, the reduced axes kept with extent one.
pub open spec fn kept_dims(dims: Seq<usize>, axes: Seq<usize>) -> Seq<usize> {
    Seq::new(
        dims.len(),
        |i: int|
            if axes.contains(i as usize) {
                1
            } else {
                dims[i]
            },
    )
}

/// The shape of the result as the kernels hold it.
pub open spec fn dims_out(dims: Seq<usize>, axes: Seq<usize>) -> Seq<i32> {
    Seq::new(
        dims.len(),
        |i: int|
            if axes.contains(i as usize) {
                1
            } else {
                dims[i] as i32
            },
    )
}

/// The extents of the reduced axes, in the order given.
pub open spec fn dims_red(dims: Seq<usize>, axes: Seq<usize>) -> Seq<i32> {
    Seq::new(axes.len(), |i: int| dims[axes[i] as int] as i32)
}

/// The reduced axes, in the order given.
pub open spec fn red_axes(axes: Seq<usize>) -> Seq<i32> {
    Seq::new(axes.len(), |i: int| axes[i] as i32)
}

/// Strides as the kernels hold them.
pub open spec fn narrow(strides: Seq<isize>) -> Seq<i32> {
    Seq::new(strides.len(), |i: int| strides[i] as i32)
}

/// Eight places, of which the first hold `s` and the others zero.
pub open spec fn places(s: Seq<i32>) -> Seq<i32> {
    Seq::new(
        8,
        |i: int|
            if i < s.len() {
                s[i]
            } else {
                0i32
            },
    )
}

/// What is wrong with a request, if anything.
pub open spec fn reduce_error(op: ReduceOp, src: Operand, dst: Operand, axes: Seq<usize>) -> Option<
    KernelError,
> {
    if !src.cuda {
        Some(KernelError::Unsupported("cuda reduce: src non-cuda"))
    } else if !dst.cuda {
        Some(KernelError::Unsupported("cuda reduce: dst non-cuda"))
    } else if src.layout.dims@.len() > 8 || axes.len() > 8 {
        Some(KernelError::Unsupported("rank > MAX_RANK"))
    } else if op == ReduceOp::ArgMax && dst.layout.dtype != DType::U32 {
        Some(KernelError::DTypeMismatch(DType::U32, dst.layout.dtype))
    } else if op != ReduceOp::ArgMax && dst.layout.dtype != src.layout.dtype {
        Some(KernelError::DTypeMismatch(src.layout.dtype, dst.layout.dtype))
    } else if !is_float3(src.layout.dtype) {
        Some(
            KernelError::Unsupported(
                if op == ReduceOp::ArgMax {
                    "cuda argmax: dtype"
                } else {
                    "cuda reduce: dtype"
                },
            ),
        )
    } else {
        None
    }
}

/// The entry of a reduction.
pub open spec fn reduce_entry(op: ReduceOp, dtype: DType) -> Option<&'static str> {
    if op == ReduceOp::ArgMax {
        spec_float_entry(dtype, "argmax_f32", "argmax_f16", "argmax_bf16")
    } else {
        spec_float_entry(dtype, "reduce_f32", "reduce_f16", "reduce_bf16")
    }
}

/// `p` is how the reduction is run.
pub open spec fn is_reduce_plan(
    p: ReducePlan,
    op: ReduceOp,
    src: Operand,
    axes: Seq<usize>,
) -> bool {
    let dims = src.layout.dims@;
    let out = product32(dims_out(dims, axes));
    &&& p.launch == cfg_launch(reduce_entry(op, src.layout.dtype)->0, out)
    &&& p.params.op_code == spec_op_code(op)
    &&& p.params.rank == dims.len()
    &&& p.params.n_reduce == axes.len()
    &&& p.params.out_numel == out
    &&& p.params.inner_size == inner_product(dims, axes)
    &&& p.params.in_offset == src.layout.offset
    &&& p.params.dims_out@ == places(dims_out(dims, axes))
    &&& p.params.dims_red@ == places(dims_red(dims, axes))
    &&& p.params.red_axes@ == places(red_axes(axes))
    &&& p.params.strides_in@ == places(narrow(src.layout.strides@))
}

fn pad_i32(src: &Vec<i32>) -> (r: Result<[i32; 8], KernelError>)
    ensures
        match r {
            Ok(a) => src@.len() <= 8 && a@ == places(src@),
            Err(e) => src@.len() > 8 && e == KernelError::Unsupported("rank > MAX_RANK"),
        },
{
    if src.len() > MAX_RANK {
        return Err(KernelError::Unsupported("rank > MAX_RANK"));
    }
    let mut out: [i32; 8] = [0, 0, 0, 0, 0, 0, 0, 0];
    let n: usize = src.len();
    let mut i: usize = 0;
    while i < n
        invariant
            i <= n <= 8,
            n == src@.len(),
            forall|j: int| 0 <= j < 8 ==> #[trigger] out@[j] == (if j < i { src@[j] } else { 0i32 }),
        decreases n - i,
    {
        out[i] = src[i];
        i = i + 1;
    }
    proof {
        assert(out@ =~= places(src@));
    }
    Ok(out)
}

/// The axes that are reduced, marked.
fn mark_axes(rank: usize, axes: &Vec<usize>) -> (r: Vec<bool>)
    requires
        forall|j: int| 0 <= j < axes@.len() ==> #[trigger] axes@[j] < rank,
    ensures
        r@.len() == rank,
        forall|i: int| 0 <= i < rank ==> #[trigger] r@[i] == axes@.contains(i as usize),
{
    let mut marks: Vec<bool> = Vec::new();
    let mut i: usize = 0;
    while i < rank
        invariant
            i <= rank,
            marks@.len() == i,
            forall|k: int| 0 <= k < i ==> !#[trigger] marks@[k],
        decreases rank - i,
    {
        marks.push(false);
        i = i + 1;
    }
    let n: usize = axes.len();
    let mut j: usize = 0;
    while j < n
        invariant
            j <= n,
            n == axes@.len(),
            marks@.len() == rank,
            forall|k: int| 0 <= k < axes@.len() ==> #[trigger] axes@[k] < rank,
            forall|i: int|
                0 <= i < rank ==> #[trigger] marks@[i] == axes@.take(j as int).contains(i as usize),
        decreases n - j,
    {
        let a: usize = axes[j];
        let ghost before = marks@;
        marks.set(a, true);
        proof {
            let t = axes@.take(j as int);
            let u = axes@.take(j + 1);
            assert(u =~= t.push(a));
            assert forall|i: int| 0 <= i < rank implies #[trigger] marks@[i] == u.contains(
                i as usize,
            ) by {
                if i == a {
                    assert(u[j as int] == a);
                } else {
                    assert(before[i] == t.contains(i as usize));
                    if t.contains(i as usize) {
                        let k = choose|k: int| 0 <= k < t.len() && t[k] == i as usize;
                        assert(u[k] == i as usize);
                    }
                    if u.contains(i as usize) {
                        let k = choose|k: int| 0 <= k < u.len() && u[k] == i as usize;
                        assert(t[k] == i as usize);
                    }
                }
            }
        }
        j = j + 1;
    }
    proof {
        assert(axes@.take(n as int) =~= axes@);
    }
    marks
}

proof fn lemma_product_bound(s: Seq<i32>, dims: Seq<usize>)
    requires
        s.len() == dims.len(),
        forall|i: int|
            0 <= i < s.len() ==> -max2(dims[i] as int, 1) <= #[trigger] s[i] <= max2(
                dims[i] as int,
                1,
            ),
    ensures
        -padded_volume(dims) <= product32(s) <= padded_volume(dims),
    decreases s.len(),
{
    if s.len() > 0 {
        let n = s.len() - 1;
        assert forall|i: int| 0 <= i < n implies -max2(dims.drop_last()[i] as int, 1)
            <= #[trigger] s.drop_last()[i] <= max2(dims.drop_last()[i] as int, 1) by {
            assert(s.drop_last()[i] == s[i]);
        }
        lemma_product_bound(s.drop_last(), dims.drop_last());
        lemma_volume_bounds(dims.drop_last());
        let p = padded_volume(dims.drop_last());
        let q = product32(s.drop_last());
        let m = max2(dims.last() as int, 1);
        let x = s.last() as int;
        assert(-m <= s[n] <= m);
        assert(-(p * m) <= q * x <= p * m) by (nonlinear_arith)
            requires
                1 <= p,
                1 <= m,
                -p <= q <= p,
                -m <= x <= m,
        ;
    }
}

proof fn lemma_padded_prefix(dims: Seq<usize>, k: int)
    requires
        0 <= k <= dims.len(),
    ensures
        1 <= padded_volume(dims.take(k)) <= padded_volume(dims),
    decreases dims.len() - k,
{
    lemma_volume_bounds(dims.take(k));
    if k < dims.len() {
        lemma_padded_prefix(dims, k + 1);
        let t = dims.take(k + 1);
        assert(t.drop_last() =~= dims.take(k));
        let p = padded_volume(dims.take(k));
        let m = max2(t.last() as int, 1);
        assert(p * m >= p) by (nonlinear_arith)
            requires
                p >= 1,
                m >= 1,
        ;
    } else {
        assert(dims.take(k) =~= dims);
    }
}

/// The product of the extents of the result.
fn product_of(s: &Vec<i32>, Ghost(dims): Ghost<Seq<usize>>) -> (r: i64)
    requires
        s@.len() == dims.len(),
        padded_volume(dims) <= i64::MAX,
        forall|i: int|
            0 <= i < s@.len() ==> -max2(dims[i] as int, 1) <= #[trigger] s@[i] <= max2(
                dims[i] as int,
                1,
            ),
    ensures
        r == product32(s@),
{
    let n: usize = s.len();
    let mut p: i64 = 1;
    let mut i: usize = 0;
    while i < n
        invariant
            i <= n,
            n == s@.len(),
            n == dims.len(),
            padded_volume(dims) <= i64::MAX,
            p == product32(s@.take(i as int)),
            forall|i: int|
                0 <= i < s@.len() ==> -max2(dims[i] as int, 1) <= #[trigger] s@[i] <= max2(
                    dims[i] as int,
                    1,
                ),
        decreases n - i,
    {
        proof {
            let t = s@.take(i + 1);
            let d = dims.take(i + 1);
            assert(t.drop_last() =~= s@.take(i as int));
            assert forall|k: int| 0 <= k < t.len() implies -max2(d[k] as int, 1) <= #[trigger] t[k]
                <= max2(d[k] as int, 1) by {
                assert(t[k] == s@[k]);
            }
            lemma_product_bound(t, d);
            lemma_padded_prefix(dims, i + 1);
            assert(product32(t) == p * s@[i as int]);
        }
        p = p * (s[i] as i64);
        i = i + 1;
    }
    proof {
        assert(s@.take(n as int) =~= s@);
    }
    p
}

/// Plans a reduction along the axes given.
pub fn run_reduce(op: ReduceOp, src: &Operand, dst: &Operand, dims_reduced: &Vec<usize>) -> (r:
    Result<ReducePlan, KernelError>)
    requires
        src.wf(),
        dst.wf(),
        src.cuda && dst.cuda ==> {
            &&& forall|j: int|
                0 <= j < dims_reduced@.len() ==> #[trigger] dims_reduced@[j] < src.layout.dims@.len()
            &&& inner_fits(src.layout.dims@, dims_reduced@)
        },
    ensures
        match r {
            Ok(p) => reduce_error(op, *src, *dst, dims_reduced@) is None && is_reduce_plan(
                p,
                op,
                *src,
                dims_reduced@,
            ),
            Err(e) => reduce_error(op, *src, *dst, dims_reduced@) == Some(e),
        },
{
    if !src.cuda {
        return Err(KernelError::Unsupported("cuda reduce: src non-cuda"));
    }
    if !dst.cuda {
        return Err(KernelError::Unsupported("cuda reduce: dst non-cuda"));
    }
    let dims = &src.layout.dims;
    let rank: usize = dims.len();
    let marks = mark_axes(rank, dims_reduced);
    let ghost axes = dims_reduced@;
    let mut out: Vec<i32> = Vec::new();
    let mut strides: Vec<i32> = Vec::new();
    let mut i: usize = 0;
    while i < rank
        invariant
            i <= rank,
            rank == dims@.len(),
            dims@ == src.layout.dims@,
            src.wf(),
            marks@.len() == rank,
            axes == dims_reduced@,
            forall|i: int| 0 <= i < rank ==> #[trigger] marks@[i] == axes.contains(i as usize),
            out@.len() == i,
            strides@.len() == i,
            forall|k: int| 0 <= k < i ==> #[trigger] out@[k] == dims_out(dims@, axes)[k],
            forall|k: int| 0 <= k < i ==> #[trigger] strides@[k] == narrow(src.layout.strides@)[k],
        decreases rank - i,
    {
        proof {
            assert(marks@[i as int] == axes.contains(i));
        }
        if marks[i] {
            out.push(1);
        } else {
            out.push(dims[i] as i32);
        }
        strides.push(src.layout.strides[i] as i32);
        i = i + 1;
    }
    let n: usize = dims_reduced.len();
    let mut red: Vec<i32> = Vec::new();
    let mut ax: Vec<i32> = Vec::new();
    let mut inner_size: i64 = 1;
    let mut j: usize = 0;
    while j < n
        invariant
            j <= n,
            n == axes.len(),
            axes == dims_reduced@,
            dims@ == src.layout.dims@,
            src.wf(),
            forall|j: int| 0 <= j < axes.len() ==> #[trigger] axes[j] < dims@.len(),
            inner_fits(dims@, axes),
            inner_size == inner_product(dims@, axes.take(j as int)),
            red@.len() == j,
            ax@.len() == j,
            inner_size >= 0,
            forall|k: int| 0 <= k < j ==> #[trigger] red@[k] == dims_red(dims@, axes)[k],
            forall|k: int| 0 <= k < j ==> #[trigger] ax@[k] == red_axes(axes)[k],
        decreases n - j,
    {
        let d: usize = dims_reduced[j];
        proof {
            assert(d < dims@.len());
            let t = axes.take(j + 1);
            assert(t.drop_last() =~= axes.take(j as int));
            assert(inner_product(dims@, t) == inner_size * dims@[d as int]);
            assert(inner_product(dims@, t) <= i64::MAX);
            lemma_volume_bounds(dims@);
            assert(0 <= inner_size * dims@[d as int]) by (nonlinear_arith)
                requires
                    inner_size >= 0,
            ;
        }
        ax.push(d as i32);
        red.push(dims[d] as i32);
        inner_size = inner_size * (dims[d] as i64);
        j = j + 1;
    }
    proof {
        assert(axes.take(n as int) =~= axes);
        assert(out@ =~= dims_out(dims@, axes));
        assert(strides@ =~= narrow(src.layout.strides@));
        assert(red@ =~= dims_red(dims@, axes));
        assert(ax@ =~= red_axes(axes));
        lemma_volume_bounds(dims@);
    }
    let out_numel: i64 = product_of(&out, Ghost(dims@));
    let dims_out = match pad_i32(&out) {
        Ok(a) => a,
        Err(e) => {
            return Err(e);
        },
    };
    let dims_red = match pad_i32(&red) {
        Ok(a) => a,
        Err(e) => {
            return Err(e);
        },
    };
    let red_axes = match pad_i32(&ax) {
        Ok(a) => a,
        Err(e) => {
            return Err(e);
        },
    };
    let strides_in = match pad_i32(&strides) {
        Ok(a) => a,
        Err(e) => {
            return Err(e);
        },
    };
    let dtype = src.layout.dtype;
    let entry = match op {
        ReduceOp::ArgMax => {
            if dst.layout.dtype != DType::U32 {
                return Err(KernelError::DTypeMismatch(DType::U32, dst.layout.dtype));
            }
            match float_entry(dtype, "argmax_f32", "argmax_f16", "argmax_bf16") {
                None => {
                    return Err(KernelError::Unsupported("cuda argmax: dtype"));
                },
                Some(k) => k,
            }
        },
        _ => {
            if dst.layout.dtype != dtype {
                return Err(KernelError::DTypeMismatch(dtype, dst.layout.dtype));
            }
            match float_entry(dtype, "reduce_f32", "reduce_f16", "reduce_bf16") {
                None => {
                    return Err(KernelError::Unsupported("cuda reduce: dtype"));
                },
                Some(k) => k,
            }
        },
    };
    Ok(
        ReducePlan {
            launch: launch_cfg(entry, out_numel),
            params: ReduceParams {
                op_code: op_code(op),
                rank: rank as i32,
                n_reduce: n as i32,
                out_numel,
                inner_size,
                in_offset: src.layout.offset as i64,
                dims_out,
                dims_red,
                red_axes,
                strides_in,
            },
        },
    )
}

proof fn lemma_volume_update(dims: Seq<usize>, a: int)
    requires
        0 <= a < dims.len(),
    ensures
        volume(dims) == dims[a] * volume(dims.update(a, 1)),
        padded_volume(dims) == max2(dims[a] as int, 1) * padded_volume(dims.update(a, 1)),
    decreases dims.len(),
{
    let n = dims.len() - 1;
    let u = dims.update(a, 1);
    let l = dims.last() as int;
    if a == n {
        assert(u.drop_last() =~= dims.drop_last());
        let v = volume(dims.drop_last());
        let p = padded_volume(dims.drop_last());
        assert(v * l == l * (v * 1) && p * max2(l, 1) == max2(l, 1) * (p * 1)) by (nonlinear_arith);
    } else {
        lemma_volume_update(dims.drop_last(), a);
        assert(u.drop_last() =~= dims.drop_last().update(a, 1));
        let v = volume(u.drop_last());
        let p = padded_volume(u.drop_last());
        let x = dims[a] as int;
        let y = max2(x, 1);
        let m = max2(l, 1);
        assert((x * v) * l == x * (v * l)) by (nonlinear_arith);
        assert((y * p) * m == y * (p * m)) by (nonlinear_arith);
    }
}

proof fn lemma_kept_drop(dims: Seq<usize>, axes: Seq<usize>)
    requires
        axes.len() > 0,
        axes.last() < dims.len(),
        dims.len() <= usize::MAX,
    ensures
        kept_dims(dims, axes) == kept_dims(dims, axes.drop_last()).update(axes.last() as int, 1),
{
    let a = axes.last();
    let rest = axes.drop_last();
    let l = kept_dims(dims, axes);
    let r = kept_dims(dims, rest).update(a as int, 1);
    assert forall|i: int| 0 <= i < dims.len() implies #[trigger] l[i] == r[i] by {
        if i == a {
            assert(axes[axes.len() - 1] == i as usize);
        } else {
            if rest.contains(i as usize) {
                let k = choose|k: int| 0 <= k < rest.len() && rest[k] == i as usize;
                assert(axes[k] == i as usize);
            }
            if axes.contains(i as usize) {
                let k = choose|k: int| 0 <= k < axes.len() && axes[k] == i as usize;
                assert(rest[k] == i as usize);
            }
        }
    }
    assert(l =~= r);
}

/// Along axes that are all different, every element of the input goes into exactly one element of
/// the result: the elements of the result times those that go into each are those of the input,
/// and the count of the latter fits.
pub proof fn reduction_covers(dims: Seq<usize>, axes: Seq<usize>)
    requires
        dims.len() <= usize::MAX,
        forall|j: int| 0 <= j < axes.len() ==> #[trigger] axes[j] < dims.len(),
        axes.no_duplicates(),
    ensures
        inner_product(dims, axes) * volume(kept_dims(dims, axes)) == volume(dims),
        0 <= inner_product(dims, axes) <= padded_volume(dims),
    decreases axes.len(),
{
    reduction_step(dims, axes);
    let p = padded_volume(kept_dims(dims, axes));
    lemma_volume_bounds(kept_dims(dims, axes));
    let q = inner_padded(dims, axes);
    assert(q <= q * p) by (nonlinear_arith)
        requires
            q >= 0,
            p >= 1,
    ;
}

/// As `inner_product`, empty axes counted as one.
spec fn inner_padded(dims: Seq<usize>, axes: Seq<usize>) -> int
    decreases axes.len(),
{
    if axes.len() == 0 {
        1
    } else {
        inner_padded(dims, axes.drop_last()) * max2(dims[axes.last() as int] as int, 1)
    }
}

proof fn reduction_step(dims: Seq<usize>, axes: Seq<usize>)
    requires
        dims.len() <= usize::MAX,
        forall|j: int| 0 <= j < axes.len() ==> #[trigger] axes[j] < dims.len(),
        axes.no_duplicates(),
    ensures
        inner_product(dims, axes) * volume(kept_dims(dims, axes)) == volume(dims),
        inner_padded(dims, axes) * padded_volume(kept_dims(dims, axes)) == padded_volume(dims),
        0 <= inner_product(dims, axes) <= inner_padded(dims, axes),
    decreases axes.len(),
{
    if axes.len() == 0 {
        assert(kept_dims(dims, axes) =~= dims);
    } else {
        let rest = axes.drop_last();
        let n = axes.len() - 1;
        let a = axes[n] as int;
        assert forall|j: int| 0 <= j < rest.len() implies #[trigger] rest[j] < dims.len() by {
            assert(rest[j] == axes[j]);
        }
        reduction_step(dims, rest);
        lemma_kept_drop(dims, axes);
        let kept = kept_dims(dims, rest);
        assert(!rest.contains(a as usize)) by {
            if rest.contains(a as usize) {
                let k = choose|k: int| 0 <= k < rest.len() && rest[k] == a as usize;
                assert(axes[k] == axes[n]);
            }
        }
        assert(kept[a] == dims[a]);
        lemma_volume_update(kept, a);
        let i = inner_product(dims, rest);
        let ip = inner_padded(dims, rest);
        let d = dims[a] as int;
        let m = max2(d, 1);
        let v = volume(kept.update(a, 1));
        let p = padded_volume(kept.update(a, 1));
        assert((i * d) * v == i * (d * v)) by (nonlinear_arith);
        assert((ip * m) * p == ip * (m * p)) by (nonlinear_arith);
        assert(0 <= i * d <= ip * m) by (nonlinear_arith)
            requires
                0 <= i <= ip,
                0 <= d <= m,
        ;
    }
}

/// For axes that are all different the planner's demand on products is met.
pub proof fn distinct_axes_fit(dims: Seq<usize>, axes: Seq<usize>)
    requires
        dims.len() <= usize::MAX,
        padded_volume(dims) <= i64::MAX,
        forall|j: int| 0 <= j < axes.len() ==> #[trigger] axes[j] < dims.len(),
        axes.no_duplicates(),
    ensures
        inner_fits(dims, axes),
{
    assert forall|j: int| 0 <= j <= axes.len() implies #[trigger] inner_product(dims, axes.take(j))
        <= i64::MAX by {
        let t = axes.take(j);
        assert forall|k: int| 0 <= k < t.len() implies #[trigger] t[k] < dims.len() by {
            assert(t[k] == axes[k]);
        }
        reduction_covers(dims, t);
    }
}

/// The shape that the kernels hold is that of the result, unless an extent is beyond their
/// integers.
pub proof fn kernel_shape_exact(dims: Seq<usize>, axes: Seq<usize>)
    requires
        forall|i: int| 0 <= i < dims.len() ==> #[trigger] dims[i] <= i32::MAX,
    ensures
        product32(dims_out(dims, axes)) == volume(kept_dims(dims, axes)),
{
    let a = dims_out(dims, axes);
    let b = kept_dims(dims, axes);
    assert forall|i: int| 0 <= i < a.len() implies #[trigger] a[i] == b[i] by {
        assert(dims[i] <= i32::MAX);
    }
    lemma_same_product(a, b);
}

proof fn lemma_same_product(a: Seq<i32>, b: Seq<usize>)
    requires
        a.len() == b.len(),
        forall|i: int| 0 <= i < a.len() ==> #[trigger] a[i] == b[i],
    ensures
        product32(a) == volume(b),
    decreases a.len(),
{
    if a.len() > 0 {
        assert forall|i: int| 0 <= i < a.len() - 1 implies #[trigger] a.drop_last()[i]
            == b.drop_last()[i] by {
            assert(a[i] == b[i]);
        }
        lemma_same_product(a.drop_last(), b.drop_last());
        assert(a[a.len() - 1] == b[b.len() - 1]);
    }
}

/// The element of the result that the element `index` of the input goes into.
pub open spec fn kept_index(index: Seq<int>, axes: Seq<usize>) -> Seq<int> {
    Seq::new(
        index.len(),
        |i: int|
            if axes.contains(i as usize) {
                0
            } else {
                index[i]
            },
    )
}

/// The place of the element `index` of the input among those that go into one element of the
/// result.
pub open spec fn red_index(index: Seq<int>, axes: Seq<usize>) -> Seq<int> {
    Seq::new(axes.len(), |k: int| index[axes[k] as int])
}

/// The distance that the first `n` reduced axes put between the first element that goes into an
/// element of the result and the one at `red`.
pub open spec fn red_place(params: ReduceParams, n: int, red: Seq<int>) -> int
    decreases n,
{
    if n <= 0 {
        0
    } else {
        red_place(params, n - 1, red) + red[n - 1] * params.strides_in@[params.red_axes@[n - 1] as int]
    }
}

/// The element of the input that the plan reads for the element `out` of the result at the place
/// `red` of what goes into it.
pub open spec fn reduce_reads(p: ReducePlan, out: Seq<int>, red: Seq<int>) -> int {
    p.params.in_offset + placed_index(p.params.strides_in@, p.params.rank as int, out) + red_place(
        p.params,
        p.params.n_reduce as int,
        red,
    )
}

proof fn lemma_placed_update(strides: Seq<i32>, rank: int, index: Seq<int>, a: int)
    requires
        0 <= rank <= index.len(),
        0 <= a < index.len(),
    ensures
        placed_index(strides, rank, index) == placed_index(strides, rank, index.update(a, 0)) + (if a
            < rank {
            index[a] * strides[a]
        } else {
            0
        }),
    decreases rank,
{
    if rank > 0 {
        lemma_placed_update(strides, rank - 1, index, a);
        assert(0 * strides[rank - 1] == 0);
    }
}

proof fn lemma_split_index(params: ReduceParams, rank: int, index: Seq<int>, axes: Seq<usize>, n: int)
    requires
        0 <= n <= axes.len() <= 8,
        0 <= rank == index.len() <= 8,
        axes.no_duplicates(),
        forall|j: int| 0 <= j < axes.len() ==> #[trigger] axes[j] < rank,
        params.red_axes@ == places(red_axes(axes)),
    ensures
        placed_index(params.strides_in@, rank, index) == placed_index(
            params.strides_in@,
            rank,
            kept_index(index, axes.take(n)),
        ) + red_place(params, n, red_index(index, axes)),
    decreases n,
{
    if n == 0 {
        assert(kept_index(index, axes.take(0)) =~= index);
    } else {
        lemma_split_index(params, rank, index, axes, n - 1);
        let a = axes[n - 1] as int;
        let before = axes.take(n - 1);
        let after = axes.take(n);
        let kept = kept_index(index, before);
        assert(!before.contains(a as usize)) by {
            if before.contains(a as usize) {
                let k = choose|k: int| 0 <= k < before.len() && before[k] == a as usize;
                assert(axes[k] == axes[n - 1]);
            }
        }
        assert(kept[a] == index[a]);
        assert(kept_index(index, after) =~= kept.update(a, 0)) by {
            assert forall|i: int| 0 <= i < rank implies #[trigger] kept_index(index, after)[i]
                == kept.update(a, 0)[i] by {
                if i == a {
                    assert(after[n - 1] == i as usize);
                } else {
                    if before.contains(i as usize) {
                        let k = choose|k: int| 0 <= k < before.len() && before[k] == i as usize;
                        assert(after[k] == i as usize);
                    }
                    if after.contains(i as usize) {
                        let k = choose|k: int| 0 <= k < after.len() && after[k] == i as usize;
                        assert(before[k] == i as usize);
                    }
                }
            }
        }
        lemma_placed_update(params.strides_in@, rank, kept, a);
        assert(params.red_axes@[n - 1] == a);
    }
}

/// Along axes that are all different, a reduction reads every element of the input where the
/// strides have it: for the one element of the result that it goes into, at its place among those
/// that do. This takes strides, and for the shapes extents, that fit an `i32`, which nothing tests.
pub proof fn reduction_reads_the_input(
    p: ReducePlan,
    op: ReduceOp,
    src: Operand,
    dst: Operand,
    axes: Seq<usize>,
    index: Seq<int>,
)
    requires
        src.wf(),
        reduce_error(op, src, dst, axes) is None,
        is_reduce_plan(p, op, src, axes),
        forall|j: int| 0 <= j < axes.len() ==> #[trigger] axes[j] < src.layout.dims@.len(),
        axes.no_duplicates(),
        in_shape(src.layout.dims@, index),
        strides_fit(src.layout.dims@, src.layout.strides@),
    ensures
        in_shape(kept_dims(src.layout.dims@, axes), kept_index(index, axes)),
        forall|k: int|
            0 <= k < axes.len() ==> 0 <= #[trigger] red_index(index, axes)[k]
                < src.layout.dims@[axes[k] as int],
        reduce_reads(p, kept_index(index, axes), red_index(index, axes)) == src.layout.offset
            + strided_index(src.layout.strides@, index),
        (forall|j: int| 0 <= j < src.layout.dims@.len() ==> #[trigger] src.layout.dims@[j] <= i32::MAX)
            ==> {
            &&& holds_extents(p.params.dims_out@, kept_dims(src.layout.dims@, axes))
            &&& forall|k: int|
                0 <= k < axes.len() ==> #[trigger] p.params.dims_red@[k] == src.layout.dims@[axes[k] as int]
        },
{
    let dims = src.layout.dims@;
    let strides = src.layout.strides@;
    let rank = dims.len() as int;
    lemma_split_index(p.params, rank, index, axes, axes.len() as int);
    assert(axes.take(axes.len() as int) =~= axes);
    assert forall|j: int| 0 <= j < rank implies #[trigger] p.params.strides_in@[j] == strides[j]
        || index[j] == 0 by {
        assert(0 <= index[j] < dims[j]);
        assert(dims[j] > 1 ==> narrow(strides)[j] == strides[j]);
    }
    lemma_placed_prefix(p.params.strides_in@, strides, index, rank);
    assert(strides.take(rank) =~= strides);
    assert(index.take(rank) =~= index);
    assert forall|k: int| 0 <= k < axes.len() implies 0 <= #[trigger] red_index(index, axes)[k]
        < dims[axes[k] as int] by {
        assert(axes[k] < rank);
        assert(0 <= index[axes[k] as int] < dims[axes[k] as int]);
    }
    assert forall|j: int| 0 <= j < rank implies 0 <= #[trigger] kept_index(index, axes)[j]
        < kept_dims(dims, axes)[j] by {
        assert(0 <= index[j] < dims[j]);
    }
    if forall|j: int| 0 <= j < rank ==> #[trigger] dims[j] <= i32::MAX {
        assert forall|j: int| 0 <= j < rank implies #[trigger] p.params.dims_out@[j] == kept_dims(
            dims,
            axes,
        )[j] by {
            assert(dims[j] <= i32::MAX);
            assert(dims_out(dims, axes)[j] == kept_dims(dims, axes)[j]);
        }
        assert forall|k: int| 0 <= k < axes.len() implies #[trigger] p.params.dims_red@[k]
            == dims[axes[k] as int] by {
            assert(axes[k] < rank);
            assert(dims[axes[k] as int] <= i32::MAX);
            assert(dims_red(dims, axes)[k] == dims[axes[k] as int]);
        }
    }
}

} // verus!
