//! Shapes of operands and where their elements lie.

use vstd::prelude::*;

use crate::arith::max2;
use crate::dtype::DType;

verus! {

/// The product of a shape's extents.
pub open spec fn volume(dims: Seq<usize>) -> int
    decreases dims.len(),
{
    if dims.len() == 0 {
        1
    } else {
        volume(dims.drop_last()) * dims.last()
    }
}

/// The product of a shape's extents, empty axes counted as one.
pub open spec fn padded_volume(dims: Seq<usize>) -> int
    decreases dims.len(),
{
    if dims.len() == 0 {
        1
    } else {
        padded_volume(dims.drop_last()) * max2(dims.last() as int, 1)
    }
}

/// The place of the element `index` in a dense row-major tensor of shape `dims`.
pub open spec fn flat_index(dims: Seq<usize>, index: Seq<int>) -> int
    decreases dims.len(),
{
    if dims.len() == 0 {
        0
    } else {
        flat_index(dims.drop_last(), index.drop_last()) * dims.last() + index.last()
    }
}

/// The place of the element `index` of a tensor with the given strides.
pub open spec fn strided_index(strides: Seq<isize>, index: Seq<int>) -> int
    decreases strides.len(),
{
    if strides.len() == 0 {
        0
    } else {
        strided_index(strides.drop_last(), index.drop_last()) + index.last() * strides.last()
    }
}

/// `index` names an element of a tensor of shape `dims`.
pub open spec fn in_shape(dims: Seq<usize>, index: Seq<int>) -> bool {
    &&& index.len() == dims.len()
    &&& forall|j: int| 0 <= j < dims.len() ==> 0 <= #[trigger] index[j] < dims[j]
}

/// The strides are those of a dense row-major tensor; that of an axis of extent one is free.
pub open spec fn is_row_major(dims: Seq<usize>, strides: Seq<isize>) -> bool {
    &&& strides.len() == dims.len()
    &&& forall|j: int|
        0 <= j < dims.len() && dims[j] != 1 ==> #[trigger] strides[j] == volume(dims.skip(j + 1))
}

/// `lo` is `[B, heads, T, D]` in a buffer with `room` rows for each head, dense but for the rows
/// behind the first `T` of a head.
pub open spec fn rows_of_cache(lo: Layout, room: int) -> bool {
    let d = lo.dims@;
    let s = lo.strides@;
    &&& d.len() == 4
    &&& s.len() == 4
    &&& d[2] <= room
    &&& s[3] == 1
    &&& s[2] == d[3]
    &&& s[1] == room * d[3]
    &&& s[0] == d[1] * s[1]
}

/// What the planners read of a tensor's layout.
#[derive(Debug, PartialEq, Eq)]
pub struct Layout {
    pub dtype: DType,
    pub dims: Vec<usize>,
    /// Elements between neighbours along each axis.
    pub strides: Vec<isize>,
    /// Elements before the first one.
    pub offset: usize,
    /// Bytes before the first element.
    pub byte_offset: usize,
    /// Product of `dims`.
    pub numel: usize,
    /// The tensor is reported as contiguous.
    pub contiguous: bool,
    /// The strides alone are reported as those of a contiguous tensor.
    pub dense: bool,
}

impl Layout {
    /// The fields agree with each other, and the bytes that are addressed fit the address space.
    pub open spec fn wf(&self) -> bool {
        &&& self.strides@.len() == self.dims@.len()
        &&& self.numel == volume(self.dims@)
        &&& (self.offset + padded_volume(self.dims@)) * 8 <= isize::MAX
        &&& self.byte_offset <= isize::MAX
        &&& forall|j: int|
            0 <= j < self.strides@.len() ==> -isize::MAX <= #[trigger] self.strides@[j] * 8
                <= isize::MAX
        &&& self.contiguous && self.numel > 0 ==> is_row_major(self.dims@, self.strides@)
    }
}

/// A tensor as a planner sees it: where its storage is and how it is laid out.
#[derive(Debug, PartialEq, Eq)]
pub struct Operand {
    /// The storage is device memory.
    pub cuda: bool,
    pub layout: Layout,
}

impl Operand {
    pub open spec fn wf(&self) -> bool {
        self.layout.wf()
    }
}

/// A shape's elements are no more than those with empty axes counted as one, and so is each of
/// its extents.
pub proof fn lemma_volume_bounds(dims: Seq<usize>)
    ensures
        1 <= padded_volume(dims),
        0 <= volume(dims) <= padded_volume(dims),
        forall|i: int| 0 <= i < dims.len() ==> #[trigger] dims[i] <= padded_volume(dims),
        (forall|i: int| 0 <= i < dims.len() ==> #[trigger] dims[i] > 0) ==> volume(dims)
            == padded_volume(dims),
    decreases dims.len(),
{
    if dims.len() > 0 {
        let rest = dims.drop_last();
        let p = padded_volume(rest);
        let v = volume(rest);
        let l = dims.last() as int;
        let m = max2(l, 1);
        lemma_volume_bounds(rest);
        assert(p * m >= p && p * m >= m && 0 <= v * l <= p * m) by (nonlinear_arith)
            requires
                p >= 1,
                m >= 1,
                0 <= v <= p,
                0 <= l <= m,
        ;
        assert forall|i: int| 0 <= i < dims.len() implies #[trigger] dims[i] <= padded_volume(
            dims,
        ) by {
            if i < rest.len() {
                assert(dims[i] == rest[i]);
            }
        }
        if forall|i: int| 0 <= i < dims.len() ==> #[trigger] dims[i] > 0 {
            assert forall|i: int| 0 <= i < rest.len() implies #[trigger] rest[i] > 0 by {
                assert(dims[i] == rest[i]);
            }
            assert(dims[dims.len() - 1] > 0);
        }
    }
}

/// A run of axes has no more elements than all of them.
pub proof fn lemma_subrange_le(dims: Seq<usize>, i: int, j: int)
    requires
        0 <= i <= j <= dims.len(),
    ensures
        padded_volume(dims.subrange(i, j)) <= padded_volume(dims),
    decreases dims.len(),
{
    lemma_volume_bounds(dims);
    let s = dims.subrange(i, j);
    lemma_volume_bounds(s);
    if i == j {
        assert(s =~= Seq::empty());
    } else if j < dims.len() {
        let rest = dims.drop_last();
        assert(rest.subrange(i, j) =~= s);
        lemma_subrange_le(rest, i, j);
        lemma_volume_bounds(rest);
        let p = padded_volume(rest);
        let m = max2(dims.last() as int, 1);
        assert(p * m >= p) by (nonlinear_arith)
            requires
                p >= 1,
                m >= 1,
        ;
    } else {
        let rest = dims.drop_last();
        assert(s.drop_last() =~= rest.subrange(i, j - 1));
        lemma_subrange_le(rest, i, j - 1);
        lemma_volume_bounds(rest.subrange(i, j - 1));
        let a = padded_volume(rest.subrange(i, j - 1));
        let p = padded_volume(rest);
        let m = max2(dims.last() as int, 1);
        assert(a * m <= p * m) by (nonlinear_arith)
            requires
                a <= p,
                m >= 1,
        ;
    }
}

/// The first axis can be split off.
pub proof fn lemma_volume_first(dims: Seq<usize>)
    requires
        dims.len() > 0,
    ensures
        volume(dims) == dims[0] * volume(dims.skip(1)),
        padded_volume(dims) == max2(dims[0] as int, 1) * padded_volume(dims.skip(1)),
    decreases dims.len(),
{
    if dims.len() == 1 {
        assert(dims.skip(1) =~= Seq::empty());
        assert(dims.drop_last() =~= Seq::empty());
        assert(volume(dims.drop_last()) == 1);
        assert(padded_volume(dims.drop_last()) == 1);
    } else {
        let rest = dims.drop_last();
        lemma_volume_first(rest);
        assert(dims.skip(1).drop_last() =~= rest.skip(1));
        let a = dims[0] as int;
        let b = volume(rest.skip(1));
        let c = dims.last() as int;
        let pb = padded_volume(rest.skip(1));
        let pa = max2(a, 1);
        let pc = max2(c, 1);
        assert((a * b) * c == a * (b * c) && (pa * pb) * pc == pa * (pb * pc)) by (nonlinear_arith);
    }
}

/// Where a tensor is dense and row-major, its strides lead to the flat place of every element.
pub proof fn lemma_row_major_index(dims: Seq<usize>, strides: Seq<isize>, index: Seq<int>)
    requires
        is_row_major(dims, strides),
        in_shape(dims, index),
    ensures
        strided_index(strides, index) == flat_index(dims, index),
{
    lemma_scaled_index(dims, strides, index, 1);
}

/// As `lemma_row_major_index`, for strides that are all a multiple of those of a dense tensor.
proof fn lemma_scaled_index(dims: Seq<usize>, strides: Seq<isize>, index: Seq<int>, scale: int)
    requires
        strides.len() == dims.len(),
        in_shape(dims, index),
        forall|j: int|
            0 <= j < dims.len() && dims[j] != 1 ==> #[trigger] strides[j] == volume(
                dims.skip(j + 1),
            ) * scale,
    ensures
        strided_index(strides, index) == flat_index(dims, index) * scale,
    decreases dims.len(),
{
    if dims.len() > 0 {
        let n = dims.len() - 1;
        let dl = dims.last() as int;
        let rest = dims.drop_last();
        let il = index.last();
        assert(index[n] == il && dims[n] == dims.last());
        assert(dims.skip(n + 1) =~= Seq::empty());
        assert forall|j: int| 0 <= j < rest.len() && rest[j] != 1 implies #[trigger] strides.drop_last()[j]
            == volume(rest.skip(j + 1)) * (dl * scale) by {
            assert(strides.drop_last()[j] == strides[j]);
            assert(dims[j] == rest[j]);
            assert(dims.skip(j + 1).drop_last() =~= rest.skip(j + 1));
            let v = volume(rest.skip(j + 1));
            assert((v * dl) * scale == v * (dl * scale)) by (nonlinear_arith);
        }
        assert forall|j: int| 0 <= j < rest.len() implies 0 <= #[trigger] index.drop_last()[j]
            < rest[j] by {
            assert(index.drop_last()[j] == index[j]);
        }
        lemma_scaled_index(rest, strides.drop_last(), index.drop_last(), dl * scale);
        let f = flat_index(rest, index.drop_last());
        assert(f * (dl * scale) + il * scale == (f * dl + il) * scale) by (nonlinear_arith);
        if dims[n] == 1 {
            assert(il == 0);
            assert(0 * scale == 0 && 0 * strides.last() == 0);
        } else {
            assert(strides[n] == volume(dims.skip(n + 1)) * scale);
            assert(volume(dims.skip(n + 1)) == 1);
        }
    }
}

/// Whether two shapes are the same.
pub fn same_dims(a: &Vec<usize>, b: &Vec<usize>) -> (r: bool)
    ensures
        r == (a@ == b@),
{
    if a.len() != b.len() {
        return false;
    }
    let n: usize = a.len();
    let mut i: usize = 0;
    while i < n
        invariant
            i <= n,
            n == a@.len(),
            n == b@.len(),
            forall|j: int| 0 <= j < i ==> a@[j] == b@[j],
        decreases n - i,
    {
        if a[i] != b[i] {
            return false;
        }
        i = i + 1;
    }
    proof {
        assert(a@ =~= b@);
    }
    true
}

/// The last two extents of a shape as one.
pub proof fn lemma_last_two(dims: Seq<usize>)
    requires
        dims.len() >= 2,
    ensures
        0 <= dims[dims.len() - 2] * dims[dims.len() - 1] <= padded_volume(dims),
        volume(dims) == volume(dims.take(dims.len() - 2)) * (dims[dims.len() - 2] * dims[dims.len()
            - 1]),
{
    let n = dims.len();
    let rest = dims.drop_last();
    let outer = rest.drop_last();
    assert(outer =~= dims.take(n - 2));
    let a = dims[n - 2] as int;
    let b = dims[n - 1] as int;
    assert(rest.last() == dims[n - 2]);
    assert(dims.last() == dims[n - 1]);
    assert(volume(rest) == volume(outer) * rest.last());
    assert(padded_volume(rest) == padded_volume(outer) * max2(rest.last() as int, 1));
    lemma_volume_bounds(outer);
    let p = padded_volume(outer);
    let v = volume(outer);
    let x = max2(a, 1);
    let y = max2(b, 1);
    assert((v * a) * b == v * (a * b)) by (nonlinear_arith);
    assert(0 <= a * b <= (p * x) * y) by (nonlinear_arith)
        requires
            p >= 1,
            0 <= a <= x,
            0 <= b <= y,
            1 <= x,
            1 <= y,
    ;
}

/// The rows of a tensor whose rows have `d` elements.
pub open spec fn row_count(lo: Layout, d: usize) -> int {
    lo.numel as int / max2(d as int, 1)
}

/// The elements of whole rows are no more than those of the tensor, and so with both counts cut
/// to what the kernels take.
pub proof fn lemma_rows(lo: Layout, d: usize)
    requires
        lo.wf(),
    ensures
        0 <= row_count(lo, d) <= lo.numel,
        0 <= row_count(lo, d) * d <= lo.numel,
        0 <= ((row_count(lo, d) as usize) as u32) * (d as u32) <= lo.numel,
        lo.numel * 8 <= isize::MAX,
        isize::MAX + isize::MAX <= usize::MAX,
{
    let n = lo.numel as int;
    let m = max2(d as int, 1);
    let q = n / m;
    lemma_volume_bounds(lo.dims@);
    assert(0 <= q <= n && q * m <= n) by (nonlinear_arith)
        requires
            q == n / m,
            m >= 1,
            n >= 0,
    ;
    let a = ((q as usize) as u32) as int;
    let b = (d as u32) as int;
    assert(0 <= a <= q);
    assert(0 <= b <= d);
    assert(0 <= q * d <= q * m) by (nonlinear_arith)
        requires
            0 <= d <= m,
            0 <= q,
    ;
    assert(0 <= a * b <= q * d) by (nonlinear_arith)
        requires
            0 <= a <= q,
            0 <= b <= d,
    ;
}

/// The rows of a tensor whose rows have `d` elements.
pub fn rows_by(lo: &Layout, d: usize) -> (r: usize)
    ensures
        r == row_count(*lo, d),
{
    lo.numel / (if d < 1 {
        1
    } else {
        d
    })
}

/// The volume of a shape of four extents, and that some of their products are within the volume
/// with empty axes counted as one.
pub proof fn lemma_four(dims: Seq<usize>)
    requires
        dims.len() == 4,
    ensures
        volume(dims) == dims[0] * dims[1] * dims[2] * dims[3],
        0 <= dims[0] * dims[1] <= padded_volume(dims),
        0 <= dims[0] * dims[1] * dims[2] <= padded_volume(dims),
        0 <= dims[1] * dims[3] <= padded_volume(dims),
        0 <= dims[0] * dims[3] <= padded_volume(dims),
        0 <= dims[0] * dims[1] * dims[2] * dims[3] <= padded_volume(dims),
{
    reveal_with_fuel(volume, 5);
    reveal_with_fuel(padded_volume, 5);
    let a = dims.drop_last();
    let b = a.drop_last();
    let c = b.drop_last();
    assert(c.drop_last() =~= Seq::empty());
    assert(a.last() == dims[2] && b.last() == dims[1] && c.last() == dims[0]);
    assert(dims.last() == dims[3]);
    let (d0, d1, d2, d3) = (dims[0] as int, dims[1] as int, dims[2] as int, dims[3] as int);
    let (m0, m1, m2, m3) = (max2(d0, 1), max2(d1, 1), max2(d2, 1), max2(d3, 1));
    assert(volume(c) == d0) by {
        assert(1 * d0 == d0);
    }
    assert(padded_volume(c) == m0) by {
        assert(1 * m0 == m0);
    }
    let p = padded_volume(dims);
    assert(p == m0 * m1 * m2 * m3);
    lemma_mul_chain(d0, d1, d2, d3, m0, m1, m2, m3);
}

proof fn lemma_mul_chain(
    d0: int,
    d1: int,
    d2: int,
    d3: int,
    m0: int,
    m1: int,
    m2: int,
    m3: int,
)
    requires
        0 <= d0 <= m0,
        0 <= d1 <= m1,
        0 <= d2 <= m2,
        0 <= d3 <= m3,
        1 <= m0,
        1 <= m1,
        1 <= m2,
        1 <= m3,
    ensures
        0 <= d0 * d1 <= m0 * m1 * m2 * m3,
        0 <= d0 * d1 * d2 <= m0 * m1 * m2 * m3,
        0 <= d1 * d3 <= m0 * m1 * m2 * m3,
        0 <= d0 * d3 <= m0 * m1 * m2 * m3,
        0 <= d0 * d1 * d2 * d3 <= m0 * m1 * m2 * m3,
{
    let x = m0 * m1;
    let y = x * m2;
    assert(0 <= d0 * d1 <= x && 1 <= x) by (nonlinear_arith)
        requires
            x == m0 * m1,
            0 <= d0 <= m0,
            0 <= d1 <= m1,
            1 <= m0,
            1 <= m1,
    ;
    let e = d0 * d1;
    assert(0 <= e * d2 <= y && x <= y) by (nonlinear_arith)
        requires
            y == x * m2,
            0 <= e <= x,
            0 <= d2 <= m2,
            1 <= m2,
            1 <= x,
    ;
    let f = e * d2;
    assert(0 <= f * d3 <= y * m3 && y <= y * m3) by (nonlinear_arith)
        requires
            0 <= f <= y,
            0 <= d3 <= m3,
            1 <= m3,
    ;
    assert(m1 <= x && m0 <= x) by (nonlinear_arith)
        requires
            x == m0 * m1,
            1 <= m0,
            1 <= m1,
    ;
    assert(0 <= d1 * d3 <= y * m3 && 0 <= d0 * d3 <= y * m3) by (nonlinear_arith)
        requires
            0 <= d0 <= y,
            0 <= d1 <= y,
            0 <= d3 <= m3,
            1 <= m3,
    ;
}

/// The product of the extents from axis `from` up to axis `to`.
pub fn volume_between(dims: &Vec<usize>, from: usize, to: usize) -> (r: usize)
    requires
        from <= to <= dims@.len(),
        padded_volume(dims@) <= usize::MAX,
    ensures
        r == volume(dims@.subrange(from as int, to as int)),
{
    let mut v: usize = 1;
    let mut i: usize = from;
    proof {
        assert(dims@.subrange(from as int, from as int) =~= Seq::empty());
    }
    while i < to
        invariant
            from <= i <= to <= dims@.len(),
            padded_volume(dims@) <= usize::MAX,
            v == volume(dims@.subrange(from as int, i as int)),
        decreases to - i,
    {
        proof {
            let t = dims@.subrange(from as int, i + 1);
            assert(t.drop_last() =~= dims@.subrange(from as int, i as int));
            assert(t.last() == dims@[i as int]);
            assert(volume(t) == v * dims@[i as int]);
            lemma_volume_bounds(t);
            lemma_subrange_le(dims@, from as int, i + 1);
        }
        v = v * dims[i];
        i = i + 1;
    }
    v
}

} // verus!
