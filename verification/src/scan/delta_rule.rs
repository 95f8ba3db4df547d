//! The gated delta rule in exact arithmetic, one position after the other, and its form chunk by
//! chunk.

use vstd::prelude::*;

use crate::ssm::recurrence::{
    decayed, decays, is_exponential, output_at, output_within_chunk, score, state_after, Channel,
};
use crate::sums::{
    lemma_sum_add, lemma_sum_eq, lemma_sum_prefix, lemma_sum_scaled, lemma_sum_swap, sum,
};

verus! {

/// One column of the values of one head: exponents of the decays, gates, normalised queries and
/// keys, values, and the column of the state before the first position.
pub struct Head {
    pub decay: spec_fn(int) -> int,
    pub gate: spec_fn(int) -> int,
    pub query: spec_fn(int, int) -> int,
    pub key: spec_fn(int, int) -> int,
    pub value: spec_fn(int) -> int,
    pub start: spec_fn(int) -> int,
}

/// What is written at position `t` under its key: the gated difference between the value and what
/// the decayed state `s`, of `n` rows, recalls for the key.
pub open spec fn correction(e: spec_fn(int) -> int, h: Head, n: int, t: int, s: spec_fn(int) -> int) -> int {
    (h.gate)(t) * ((h.value)(t) - sum(n, |x: int| (h.key)(t, x) * (e((h.decay)(t)) * s(x))))
}

/// The state after position `t`, from the state `s` before it.
pub open spec fn step(e: spec_fn(int) -> int, h: Head, n: int, t: int, s: spec_fn(int) -> int) -> spec_fn(
    int,
) -> int {
    |x: int| e((h.decay)(t)) * s(x) + (h.key)(t, x) * correction(e, h, n, t, s)
}

/// The state after `l` steps.
pub open spec fn stepped(e: spec_fn(int) -> int, h: Head, n: int, l: int) -> spec_fn(int) -> int
    decreases l,
{
    if l <= 0 {
        h.start
    } else {
        step(e, h, n, l - 1, stepped(e, h, n, l - 1))
    }
}

/// The output at position `t`: the state after it, read with the query.
pub open spec fn read_out(e: spec_fn(int) -> int, h: Head, n: int, t: int) -> int {
    sum(n, |x: int| (h.query)(t, x) * stepped(e, h, n, t + 1)(x))
}

/// What is written at position `t` of the run from the start.
pub open spec fn written(e: spec_fn(int) -> int, h: Head, n: int, t: int) -> int {
    correction(e, h, n, t, stepped(e, h, n, t))
}

/// The rule as a recurrence with the corrections as inputs.
pub open spec fn corrected(e: spec_fn(int) -> int, h: Head, n: int) -> Channel {
    Channel {
        decay: h.decay,
        input: |t: int| written(e, h, n, t),
        spread: h.key,
        read: h.query,
        start: h.start,
    }
}

/// The state after `l` steps is that of the recurrence with the corrections as inputs.
pub proof fn rule_is_a_recurrence(e: spec_fn(int) -> int, h: Head, n: int, l: int, x: int)
    ensures
        state_after(e, corrected(e, h, n), l, x) == stepped(e, h, n, l)(x),
    decreases l,
{
    if l > 0 {
        rule_is_a_recurrence(e, h, n, l - 1, x);
        let (u, k) = (written(e, h, n, l - 1), (h.key)(l - 1, x));
        assert(u * k == k * u) by (nonlinear_arith);
    }
}

/// The output at a position is that of the recurrence with the corrections as inputs.
pub proof fn rule_output_is_a_recurrence(e: spec_fn(int) -> int, h: Head, n: int, t: int)
    ensures
        output_at(e, corrected(e, h, n), n, t) == read_out(e, h, n, t),
{
    let c = corrected(e, h, n);
    let f = |x: int| (c.read)(t, x) * state_after(e, c, t + 1, x);
    let g = |x: int| (h.query)(t, x) * stepped(e, h, n, t + 1)(x);
    assert forall|x: int| 0 <= x < n implies #[trigger] f(x) == g(x) by {
        rule_is_a_recurrence(e, h, n, t + 1, x);
    }
    lemma_sum_eq(n, f, g);
}

/// How strongly position `k` of a chunk has changed what position `j` behind it recalls.
pub open spec fn overlap(e: spec_fn(int) -> int, h: Head, n: int, l0: int, j: int, k: int) -> int {
    if k < j {
        sum(n, |x: int| ((h.key)(l0 + j, x) * (h.gate)(l0 + j)) * (h.key)(l0 + k, x)) * e(
            decayed(corrected(e, h, n), l0, j + 1) - decayed(corrected(e, h, n), l0, k + 1),
        )
    } else {
        0
    }
}

proof fn lemma_same_states(e: spec_fn(int) -> int, c: Channel, d: Channel, l: int, x: int)
    requires
        d.decay == c.decay,
        d.spread == c.spread,
        d.start == c.start,
        forall|t: int| 0 <= t < l ==> #[trigger] (d.input)(t) == (c.input)(t),
    ensures
        state_after(e, d, l, x) == state_after(e, c, l, x),
    decreases l,
{
    if l > 0 {
        lemma_same_states(e, c, d, l - 1, x);
        assert((d.input)(l - 1) == (c.input)(l - 1));
    }
}

/// The corrections of a chunk solve a triangular system: each, with what the earlier ones of the
/// chunk have changed of what it recalls, is the gated value less what the state before the chunk
/// recalls.
pub proof fn corrections_within_chunk(e: spec_fn(int) -> int, h: Head, n: int, l0: int, j: int, cs: int)
    requires
        is_exponential(e),
        decays(corrected(e, h, n)),
        0 <= l0,
        0 <= j < cs,
    ensures
        written(e, h, n, l0 + j) + sum(
            cs,
            |k: int| overlap(e, h, n, l0, j, k) * written(e, h, n, l0 + k),
        ) == (h.value)(l0 + j) * (h.gate)(l0 + j) - sum(
            n,
            |x: int|
                (((h.key)(l0 + j, x) * (h.gate)(l0 + j)) * e(
                    decayed(corrected(e, h, n), l0, j + 1),
                )) * stepped(e, h, n, l0)(x),
        ),
{
    let c = corrected(e, h, n);
    let t = l0 + j;
    let g = (h.gate)(t);
    // The same recurrence, with nothing written at this position and the gated keys read.
    let d = Channel {
        input: |i: int| if i == t { 0 } else { (c.input)(i) },
        read: |i: int, x: int| (h.key)(i, x) * (h.gate)(i),
        ..c
    };
    assert(decays(d)) by {
        assert(d.decay == c.decay);
        assert forall|l: int| #[trigger] (d.decay)(l) <= 0 by {
            assert((c.decay)(l) <= 0);
        }
    }
    output_within_chunk(e, d, n, l0, j);
    // What is recalled.
    let w = e((h.decay)(t));
    let recalled = |x: int| (h.key)(t, x) * (w * stepped(e, h, n, t)(x));
    let read = |x: int| (d.read)(t, x) * state_after(e, d, t + 1, x);
    assert forall|x: int| 0 <= x < n implies #[trigger] read(x) == g * recalled(x) by {
        lemma_same_states(e, c, d, t, x);
        rule_is_a_recurrence(e, h, n, t, x);
        let (k, s) = ((h.key)(t, x), stepped(e, h, n, t)(x));
        assert(state_after(e, d, t + 1, x) == w * s + (d.input)(t) * (d.spread)(t, x));
        assert(0 * (d.spread)(t, x) == 0);
        assert((k * g) * (w * s) == g * (k * (w * s))) by (nonlinear_arith);
    }
    lemma_sum_scaled(n, g, recalled, read);
    let total = sum(n, recalled);
    let v = (h.value)(t);
    assert(g * (v - total) == v * g - g * total) by (nonlinear_arith);
    assert(written(e, h, n, t) == g * (v - sum(n, |x: int| (h.key)(t, x) * (e((h.decay)(t)) * stepped(e, h, n, t)(x)))));
    lemma_sum_eq(
        n,
        |x: int| (h.key)(t, x) * (e((h.decay)(t)) * stepped(e, h, n, t)(x)),
        recalled,
    );
    // From the state before the chunk.
    let first = |x: int|
        ((d.read)(l0 + j, x) * e(decayed(d, l0, j + 1))) * state_after(e, d, l0, x);
    let want_first = |x: int|
        (((h.key)(l0 + j, x) * (h.gate)(l0 + j)) * e(decayed(c, l0, j + 1))) * stepped(
            e,
            h,
            n,
            l0,
        )(x);
    assert forall|i: int| #![auto] decayed(d, l0, i) == decayed(c, l0, i) by {
        lemma_sum_eq(i, |k: int| (d.decay)(l0 + k), |k: int| (c.decay)(l0 + k));
    }
    assert forall|x: int| 0 <= x < n implies #[trigger] first(x) == want_first(x) by {
        lemma_same_states(e, c, d, l0, x);
        rule_is_a_recurrence(e, h, n, l0, x);
    }
    lemma_sum_eq(n, first, want_first);
    // From the positions of the chunk before this one.
    let second = |k: int| score(e, d, n, l0, j, k) * (d.input)(l0 + k);
    let want_second = |k: int| overlap(e, h, n, l0, j, k) * written(e, h, n, l0 + k);
    assert forall|k: int| 0 <= k < j + 1 implies #[trigger] second(k) == want_second(k) by {
        if k == j {
            let s = score(e, d, n, l0, j, k);
            assert(s * 0 == 0);
            assert(0 * written(e, h, n, l0 + k) == 0);
        } else {
            lemma_sum_eq(
                n,
                |x: int| (d.read)(l0 + j, x) * (d.spread)(l0 + k, x),
                |x: int| ((h.key)(l0 + j, x) * (h.gate)(l0 + j)) * (h.key)(l0 + k, x),
            );
        }
    }
    lemma_sum_eq(j + 1, second, want_second);
    assert forall|k: int| j + 1 <= k < cs implies #[trigger] want_second(k) == 0 by {
        assert(0 * written(e, h, n, l0 + k) == 0);
    }
    lemma_sum_prefix(j + 1, cs, want_second);
}

/// A row of the inverse of the triangular system, applied to its right-hand sides, gives the
/// unknown of that row.
pub proof fn inverse_gives_the_unknown(
    cs: int,
    n: int,
    row: spec_fn(int) -> int,
    low: spec_fn(int, int) -> int,
    given: spec_fn(int) -> int,
    reader: spec_fn(int, int) -> int,
    s: spec_fn(int) -> int,
    u: spec_fn(int) -> int,
    i: int,
)
    requires
        0 <= i < cs,
        forall|k: int|
            0 <= k < cs ==> #[trigger] row(k) + sum(cs, |j: int| row(j) * low(j, k)) == (if k == i {
                1int
            } else {
                0int
            }),
        forall|j: int|
            0 <= j < cs ==> #[trigger] u(j) + sum(cs, |k: int| low(j, k) * u(k)) == given(j) - sum(
                n,
                |x: int| reader(j, x) * s(x),
            ),
    ensures
        sum(cs, |j: int| row(j) * given(j)) - sum(
            n,
            |x: int| sum(cs, |j: int| row(j) * reader(j, x)) * s(x),
        ) == u(i),
{
    // The right-hand sides under the row.
    let taken = |j: int| row(j) * given(j);
    let back = |x: int, j: int| row(j) * (reader(j, x) * s(x));
    let by_row = |x: int| sum(cs, |j: int| row(j) * reader(j, x)) * s(x);
    let inner = |x: int| sum(cs, |j: int| back(x, j));
    assert forall|x: int| 0 <= x < n implies #[trigger] by_row(x) == inner(x) by {
        let f = |j: int| row(j) * reader(j, x);
        let g = |j: int| back(x, j);
        assert forall|j: int| 0 <= j < cs implies #[trigger] g(j) == s(x) * f(j) by {
            let (a, b, c) = (row(j), reader(j, x), s(x));
            assert(a * (b * c) == c * (a * b)) by (nonlinear_arith);
        }
        lemma_sum_scaled(cs, s(x), f, g);
        let (a, b) = (sum(cs, f), s(x));
        assert(a * b == b * a) by (nonlinear_arith);
    }
    lemma_sum_eq(n, by_row, inner);
    lemma_sum_swap(n, cs, back);
    let outer = |j: int| sum(n, |x: int| back(x, j));
    let recalled = |j: int| row(j) * sum(n, |x: int| reader(j, x) * s(x));
    assert forall|j: int| 0 <= j < cs implies #[trigger] outer(j) == recalled(j) by {
        lemma_sum_scaled(n, row(j), |x: int| reader(j, x) * s(x), |x: int| back(x, j));
    }
    lemma_sum_eq(cs, outer, recalled);
    // The left-hand sides under the row.
    let own = |j: int| row(j) * u(j);
    let cross = |j: int, k: int| row(j) * (low(j, k) * u(k));
    let crossed = |j: int| sum(cs, |k: int| cross(j, k));
    let left = |j: int| own(j) + crossed(j);
    let right = |j: int| left(j) + recalled(j);
    assert forall|j: int| 0 <= j < cs implies #[trigger] taken(j) == right(j) by {
        let (a, b, c, d) = (
            u(j),
            sum(cs, |k: int| low(j, k) * u(k)),
            given(j),
            sum(n, |x: int| reader(j, x) * s(x)),
        );
        assert(a + b == c - d);
        lemma_sum_scaled(cs, row(j), |k: int| low(j, k) * u(k), |k: int| cross(j, k));
        let r = row(j);
        assert(r * c == r * a + r * b + r * d) by (nonlinear_arith)
            requires
                a + b == c - d,
        ;
    }
    lemma_sum_eq(cs, taken, right);
    lemma_sum_add(cs, left, recalled);
    lemma_sum_eq(cs, right, |j: int| left(j) + recalled(j));
    lemma_sum_add(cs, own, crossed);
    lemma_sum_eq(cs, left, |j: int| own(j) + crossed(j));
    lemma_sum_swap(cs, cs, cross);
    lemma_sum_eq(cs, crossed, |j: int| sum(cs, |k: int| cross(j, k)));
    let columns = |k: int| sum(cs, |j: int| cross(j, k));
    // Only the unknown of the row is left.
    let both = |k: int| own(k) + columns(k);
    lemma_sum_add(cs, own, columns);
    lemma_sum_eq(cs, both, |k: int| own(k) + columns(k));
    let left_over = |k: int| if k == i { u(i) } else { 0int };
    assert forall|k: int| 0 <= k < cs implies #[trigger] both(k) == left_over(k) by {
        let f = |j: int| row(j) * low(j, k);
        let col = |j: int| cross(j, k);
        assert forall|j: int| 0 <= j < cs implies #[trigger] col(j) == u(k) * f(j) by {
            let (a, b, c) = (row(j), low(j, k), u(k));
            assert(a * (b * c) == c * (a * b)) by (nonlinear_arith);
        }
        lemma_sum_scaled(cs, u(k), f, col);
        let (a, b, c) = (row(k), sum(cs, f), u(k));
        assert(a + b == (if k == i { 1int } else { 0int }));
        assert(a * c + c * b == (a + b) * c) by (nonlinear_arith);
        assert(1 * c == c && 0 * c == 0);
    }
    lemma_sum_eq(cs, both, left_over);
    lemma_sum_prefix(i + 1, cs, left_over);
    lemma_sum_prefix(0, i, left_over);
}

} // verus!
