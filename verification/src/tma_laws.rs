//! What descriptors of tensors in memory say, and how their words are sent.

use vstd::prelude::*;

use crate::tma::{all_slots, le_byte, pow256, tma_map_2d, L2Promotion, Swizzle, ARENA_SLOTS};

verus! {

/// The first `k` bytes of a word, each at its place.
pub open spec fn low_bytes(w: u64, k: nat) -> int
    decreases k,
{
    if k == 0 {
        0
    } else {
        low_bytes(w, (k - 1) as nat) + le_byte(w, k - 1) * pow256((k - 1) as nat)
    }
}

proof fn lemma_low_bytes(w: u64, k: nat)
    ensures
        pow256(k) > 0,
        low_bytes(w, k) == w as int % pow256(k),
    decreases k,
{
    if k > 0 {
        let j = (k - 1) as nat;
        lemma_low_bytes(w, j);
        let (p, x) = (pow256(j), w as int);
        assert(pow256(k) == p * 256);
        vstd::arithmetic::div_mod::lemma_mod_breakdown(x, p, 256);
        assert(p * ((x / p) % 256) == ((x / p) % 256) * p) by (nonlinear_arith);
    }
}

/// The eight bytes that are sent for a word are bytes, and put together they are the word.
pub proof fn bytes_make_the_word(w: u64)
    ensures
        forall|j: int| 0 <= j < 8 ==> 0 <= #[trigger] le_byte(w, j) < 256,
        low_bytes(w, 8) == w,
{
    lemma_low_bytes(w, 8);
    assert(pow256(8) == 0x1_0000_0000_0000_0000) by {
        reveal_with_fuel(pow256, 9);
    }
}

/// A map over rows of bytes runs along a row first: byte `c` of row `r` lies `r` rows and `c` bytes into
/// the memory, rows follow each other without gaps, and the box is that much of both.
pub proof fn map_runs_along_rows(
    rows: u32,
    cols_bytes: u32,
    box_rows: u32,
    box_cols_bytes: u32,
    swizzle: Swizzle,
    l2: L2Promotion,
    r: int,
    c: int,
)
    ensures
        ({
            let m = tma_map_2d(rows, cols_bytes, box_rows, box_cols_bytes, swizzle, l2);
            &&& 0 <= r < m.global_dim.1 && 0 <= c < m.global_dim.0 <==> 0 <= r < rows && 0 <= c < cols_bytes
            &&& r * m.global_stride + c * m.elem_strides.0 == r * cols_bytes + c
            &&& (r + 1) * m.global_stride == r * m.global_stride + m.global_dim.0
            &&& m.elem_strides.1 == 1
            &&& m.box_dim.1 == box_rows && m.box_dim.0 == box_cols_bytes
            &&& m.swizzle == swizzle && m.l2 == l2
        }),
{
    let m = tma_map_2d(rows, cols_bytes, box_rows, box_cols_bytes, swizzle, l2);
    assert((r + 1) * cols_bytes == r * cols_bytes + cols_bytes) by (nonlinear_arith);
    assert(c * m.elem_strides.0 == c);
}

/// A new arena has every slot to give, once.
pub proof fn every_slot_is_there()
    ensures
        all_slots().len() == ARENA_SLOTS,
        all_slots().no_duplicates(),
        forall|s: u32| #[trigger] all_slots().contains(s) <==> s < ARENA_SLOTS,
{
    assert forall|s: u32| s < ARENA_SLOTS implies #[trigger] all_slots().contains(s) by {
        assert(all_slots()[ARENA_SLOTS - 1 - s] == s);
    }
}

} // verus!
