//! The state-space recurrence in exact arithmetic, and its form chunk by chunk.

use vstd::prelude::*;

use crate::sums::{lemma_sum_add, lemma_sum_eq, lemma_sum_scaled, lemma_sum_swap, sum};

verus! {

/// `e` is the exponential, of arguments that are not positive: one at zero, and a product of a sum.
pub open spec fn is_exponential(e: spec_fn(int) -> int) -> bool {
    &&& e(0) == 1
    &&& forall|a: int, b: int| a <= 0 && b <= 0 ==> #[trigger] e(a + b) == e(a) * e(b)
}

/// One channel of one head: the exponents of its decays, its inputs, what they are spread over the
/// states with, and what the states are read with.
pub struct Channel {
    pub decay: spec_fn(int) -> int,
    pub input: spec_fn(int) -> int,
    pub spread: spec_fn(int, int) -> int,
    pub read: spec_fn(int, int) -> int,
    pub start: spec_fn(int) -> int,
}

/// State `x` after `l` positions: at each it decays, and the input is added.
pub open spec fn state_after(e: spec_fn(int) -> int, c: Channel, l: int, x: int) -> int
    decreases l,
{
    if l <= 0 {
        (c.start)(x)
    } else {
        e((c.decay)(l - 1)) * state_after(e, c, l - 1, x) + (c.input)(l - 1) * (c.spread)(l - 1, x)
    }
}

/// The output at position `l`: the states after it, of which there are `n`, read.
pub open spec fn output_at(e: spec_fn(int) -> int, c: Channel, n: int, l: int) -> int {
    sum(n, |x: int| (c.read)(l, x) * state_after(e, c, l + 1, x))
}

/// The exponent of the decay over the `j` positions from `l0` on.
pub open spec fn decayed(c: Channel, l0: int, j: int) -> int {
    sum(j, |k: int| (c.decay)(l0 + k))
}

/// What input `k` of the positions from `l0` on has become after `j` of them, in state `x`.
pub open spec fn arrived(e: spec_fn(int) -> int, c: Channel, l0: int, j: int, k: int, x: int) -> int {
    e(decayed(c, l0, j) - decayed(c, l0, k + 1)) * ((c.input)(l0 + k) * (c.spread)(l0 + k, x))
}

/// Decays only decay.
pub open spec fn decays(c: Channel) -> bool {
    forall|l: int| #[trigger] (c.decay)(l) <= 0
}

pub proof fn lemma_decayed_falls(c: Channel, l0: int, k: int, j: int)
    requires
        decays(c),
        0 <= k <= j,
    ensures
        decayed(c, l0, j) <= decayed(c, l0, k) <= 0,
    decreases j,
{
    if k < j {
        lemma_decayed_falls(c, l0, k, j - 1);
        assert((c.decay)(l0 + (j - 1)) <= 0);
    } else if j > 0 {
        lemma_decayed_falls(c, l0, j - 1, j - 1);
        assert((c.decay)(l0 + (j - 1)) <= 0);
    }
}

/// After `j` positions from `l0` on, a state is what the one before them has decayed to, and what
/// has arrived of each input since.
pub proof fn state_within_chunk(e: spec_fn(int) -> int, c: Channel, l0: int, j: int, x: int)
    requires
        is_exponential(e),
        decays(c),
        0 <= l0,
        0 <= j,
    ensures
        state_after(e, c, l0 + j, x) == e(decayed(c, l0, j)) * state_after(e, c, l0, x) + sum(
            j,
            |k: int| arrived(e, c, l0, j, k, x),
        ),
    decreases j,
{
    let s = state_after(e, c, l0, x);
    if j == 0 {
        assert(1 * s == s);
    } else {
        state_within_chunk(e, c, l0, j - 1, x);
        let a = (c.decay)(l0 + (j - 1));
        let (before, now) = (decayed(c, l0, j - 1), decayed(c, l0, j));
        assert(a <= 0);
        lemma_decayed_falls(c, l0, j - 1, j - 1);
        assert(now == before + a);
        assert(e(before + a) == e(before) * e(a));
        let old = |k: int| arrived(e, c, l0, j - 1, k, x);
        let new = |k: int| arrived(e, c, l0, j, k, x);
        assert forall|k: int| 0 <= k < j - 1 implies #[trigger] new(k) == e(a) * old(k) by {
            let since = decayed(c, l0, k + 1);
            lemma_decayed_falls(c, l0, k + 1, j - 1);
            assert((before - since) + a == now - since);
            assert(e((before - since) + a) == e(before - since) * e(a));
            let u = (c.input)(l0 + k) * (c.spread)(l0 + k, x);
            let w = e(before - since);
            assert((w * e(a)) * u == e(a) * (w * u)) by (nonlinear_arith);
        }
        lemma_sum_scaled(j - 1, e(a), old, new);
        let u = (c.input)(l0 + (j - 1)) * (c.spread)(l0 + (j - 1), x);
        assert(new(j - 1) == e(0) * u);
        assert(1 * u == u);
        let (p, q, ea) = (e(before), sum(j - 1, old), e(a));
        assert(ea * (p * s + q) == (p * ea) * s + ea * q) by (nonlinear_arith);
        assert(l0 + j - 1 == l0 + (j - 1));
    }
}

/// How input `k` of a chunk weighs in the output at its position `j`, apart from the input itself.
pub open spec fn score(e: spec_fn(int) -> int, c: Channel, n: int, l0: int, j: int, k: int) -> int {
    sum(n, |x: int| (c.read)(l0 + j, x) * (c.spread)(l0 + k, x)) * e(
        decayed(c, l0, j + 1) - decayed(c, l0, k + 1),
    )
}

/// The output at position `j` of a chunk: what the states before the chunk contribute, and what
/// each input of the chunk up to that position does.
pub proof fn output_within_chunk(e: spec_fn(int) -> int, c: Channel, n: int, l0: int, j: int)
    requires
        is_exponential(e),
        decays(c),
        0 <= l0,
        0 <= j,
    ensures
        output_at(e, c, n, l0 + j) == sum(
            n,
            |x: int|
                ((c.read)(l0 + j, x) * e(decayed(c, l0, j + 1))) * state_after(e, c, l0, x),
        ) + sum(j + 1, |k: int| score(e, c, n, l0, j, k) * (c.input)(l0 + k)),
{
    let l = l0 + j;
    let full = |x: int| (c.read)(l, x) * state_after(e, c, l + 1, x);
    let first = |x: int| ((c.read)(l, x) * e(decayed(c, l0, j + 1))) * state_after(e, c, l0, x);
    let pair = |x: int, k: int| (c.read)(l, x) * arrived(e, c, l0, j + 1, k, x);
    let second = |x: int| sum(j + 1, |k: int| pair(x, k));
    assert forall|x: int| 0 <= x < n implies #[trigger] full(x) == (|x: int| first(x) + second(x))(x) by {
        state_within_chunk(e, c, l0, j + 1, x);
        assert(l0 + (j + 1) == l + 1);
        let r = (c.read)(l, x);
        let w = e(decayed(c, l0, j + 1));
        let s = state_after(e, c, l0, x);
        let f = |k: int| arrived(e, c, l0, j + 1, k, x);
        let q = sum(j + 1, f);
        lemma_sum_scaled(j + 1, r, f, |k: int| pair(x, k));
        assert(r * (w * s + q) == (r * w) * s + r * q) by (nonlinear_arith);
    }
    lemma_sum_eq(n, full, |x: int| first(x) + second(x));
    lemma_sum_add(n, first, second);
    lemma_sum_swap(n, j + 1, pair);
    lemma_sum_eq(n, second, |x: int| sum(j + 1, |k: int| pair(x, k)));
    let by_input = |k: int| sum(n, |x: int| pair(x, k));
    let want = |k: int| score(e, c, n, l0, j, k) * (c.input)(l0 + k);
    assert forall|k: int| 0 <= k < j + 1 implies #[trigger] by_input(k) == want(k) by {
        let w = e(decayed(c, l0, j + 1) - decayed(c, l0, k + 1));
        let u = (c.input)(l0 + k);
        let dot = |x: int| (c.read)(l, x) * (c.spread)(l0 + k, x);
        let col = |x: int| pair(x, k);
        assert forall|x: int| 0 <= x < n implies #[trigger] col(x) == (w * u) * dot(x) by {
            let (r, b) = ((c.read)(l, x), (c.spread)(l0 + k, x));
            assert(r * (w * (u * b)) == (w * u) * (r * b)) by (nonlinear_arith);
        }
        lemma_sum_scaled(n, w * u, dot, col);
        let t = sum(n, dot);
        assert((w * u) * t == (t * w) * u) by (nonlinear_arith);
    }
    lemma_sum_eq(j + 1, by_input, want);
}

} // verus!
