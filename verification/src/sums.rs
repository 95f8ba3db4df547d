//! Finite sums, and places in tensors by their coordinates, for what the kernels compute in exact
//! arithmetic.

use vstd::prelude::*;

verus! {

/// The sum of `f` over `0..n`.
pub open spec fn sum(n: int, f: spec_fn(int) -> int) -> int
    decreases n,
{
    if n <= 0 {
        0
    } else {
        sum(n - 1, f) + f(n - 1)
    }
}

/// The place of row `i`, column `j` in a matrix of rows of `w` elements.
pub open spec fn at2(i: int, j: int, w: int) -> int {
    i * w + j
}

/// The place of row `j`, column `k` of matrix `i`, each of `h` rows of `w` elements.
pub open spec fn at3(i: int, j: int, k: int, h: int, w: int) -> int {
    at2(at2(i, j, h), k, w)
}

/// The place of element `(i, j, k, l)` of a tensor whose last three extents are `d`, `h` and `w`.
pub open spec fn at4(i: int, j: int, k: int, l: int, d: int, h: int, w: int) -> int {
    at3(at2(i, j, d), k, l, h, w)
}

pub proof fn lemma_sum_eq(n: int, f: spec_fn(int) -> int, g: spec_fn(int) -> int)
    requires
        forall|i: int| 0 <= i < n ==> #[trigger] f(i) == g(i),
    ensures
        sum(n, f) == sum(n, g),
    decreases n,
{
    if n > 0 {
        lemma_sum_eq(n - 1, f, g);
        assert(f(n - 1) == g(n - 1));
    }
}

pub proof fn lemma_sum_scale(n: int, c: int, f: spec_fn(int) -> int)
    ensures
        sum(n, |i: int| c * f(i)) == c * sum(n, f),
    decreases n,
{
    if n > 0 {
        lemma_sum_scale(n - 1, c, f);
        let (a, b) = (sum(n - 1, f), f(n - 1));
        assert(c * a + c * b == c * (a + b)) by (nonlinear_arith);
    } else {
        assert(c * 0 == 0);
    }
}

pub proof fn lemma_sum_add(n: int, f: spec_fn(int) -> int, g: spec_fn(int) -> int)
    ensures
        sum(n, |i: int| f(i) + g(i)) == sum(n, f) + sum(n, g),
    decreases n,
{
    if n > 0 {
        lemma_sum_add(n - 1, f, g);
    }
}

pub proof fn lemma_sum_zero(n: int, f: spec_fn(int) -> int)
    requires
        forall|i: int| 0 <= i < n ==> #[trigger] f(i) == 0,
    ensures
        sum(n, f) == 0,
    decreases n,
{
    if n > 0 {
        lemma_sum_zero(n - 1, f);
        assert(f(n - 1) == 0);
    }
}

/// Terms that are zero from `k` on add nothing.
pub proof fn lemma_sum_prefix(k: int, n: int, f: spec_fn(int) -> int)
    requires
        0 <= k <= n,
        forall|i: int| k <= i < n ==> #[trigger] f(i) == 0,
    ensures
        sum(n, f) == sum(k, f),
    decreases n,
{
    if k < n {
        assert(f(n - 1) == 0);
        lemma_sum_prefix(k, n - 1, f);
    }
}

/// Sums can be taken in either order.
pub proof fn lemma_sum_swap(m: int, n: int, f: spec_fn(int, int) -> int)
    ensures
        sum(m, |i: int| sum(n, |j: int| f(i, j))) == sum(n, |j: int| sum(m, |i: int| f(i, j))),
    decreases m,
{
    let inner = |i: int| sum(n, |j: int| f(i, j));
    let outer = |j: int| sum(m, |i: int| f(i, j));
    if m <= 0 {
        lemma_sum_zero(n, outer);
    } else {
        lemma_sum_swap(m - 1, n, f);
        let before = |j: int| sum(m - 1, |i: int| f(i, j));
        let last = |j: int| f(m - 1, j);
        lemma_sum_eq(n, |j: int| f(m - 1, j), last);
        lemma_sum_add(n, before, last);
        assert forall|j: int| 0 <= j < n implies #[trigger] outer(j) == (|j: int| before(j) + last(j))(j) by {
            let col = |i: int| f(i, j);
            assert(sum(m, col) == sum(m - 1, col) + col(m - 1));
        }
        lemma_sum_eq(n, outer, |j: int| before(j) + last(j));
    }
}

/// A term that is no sum of the others can be taken out of every sum in which it is a factor.
pub proof fn lemma_sum_scaled(n: int, c: int, f: spec_fn(int) -> int, g: spec_fn(int) -> int)
    requires
        forall|i: int| 0 <= i < n ==> #[trigger] g(i) == c * f(i),
    ensures
        sum(n, g) == c * sum(n, f),
{
    lemma_sum_scale(n, c, f);
    lemma_sum_eq(n, g, |i: int| c * f(i));
}

/// A place lies within the tensor where its coordinates do.
pub proof fn lemma_at2(i: int, j: int, m: int, w: int)
    requires
        0 <= i < m,
        0 <= j < w,
    ensures
        0 <= at2(i, j, w) < m * w,
{
    assert(0 <= i * w && i * w + w <= m * w) by (nonlinear_arith)
        requires
            0 <= i < m,
            0 <= w,
    ;
}

} // verus!
