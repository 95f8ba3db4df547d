//! Descriptors for bulk copies, and the arena they live in.

use vstd::prelude::*;

use crate::error::KernelError;

verus! {

/// Bytes of one descriptor.
pub const TMA_DESC_BYTES: usize = 128;

/// Descriptors in the arena of one device.
pub const ARENA_SLOTS: u32 = 32768;

/// The slots of one device's descriptor arena. A slot is free, or held by a descriptor, or
/// pending: given back, but perhaps still read by a kernel that was launched before.
pub struct DescArena {
    free: Vec<u32>,
    pending: Vec<u32>,
    base: u64,
}

/// How a slot is come by.
#[derive(Clone, Copy, Debug, PartialEq, Eq, Structural)]
pub enum SlotAction {
    /// This one is the caller's.
    Take(u32),
    /// Wait for all kernels, give pending slots back, and ask again.
    Reclaim,
    /// Drop the cached descriptors, wait for all kernels, give pending slots back, and ask again.
    ClearCaches,
}

/// All slots, the highest first.
pub open spec fn all_slots() -> Seq<u32> {
    Seq::new(ARENA_SLOTS as nat, |i: int| (ARENA_SLOTS - 1 - i) as u32)
}

impl DescArena {
    /// Slots that can be taken; the last is taken next.
    pub closed spec fn free_slots(&self) -> Seq<u32> {
        self.free@
    }

    /// Slots that were given back and not reclaimed.
    pub closed spec fn pending_slots(&self) -> Seq<u32> {
        self.pending@
    }

    /// The device address of the arena.
    pub closed spec fn base_address(&self) -> u64 {
        self.base
    }

    /// No slot is listed twice, and every listed slot exists.
    pub open spec fn wf(&self) -> bool {
        let listed = self.free_slots() + self.pending_slots();
        &&& listed.no_duplicates()
        &&& forall|i: int| 0 <= i < listed.len() ==> #[trigger] listed[i] < ARENA_SLOTS
        &&& self.base_address() + ARENA_SLOTS * TMA_DESC_BYTES <= u64::MAX
    }

    /// The slot is held by a descriptor.
    pub open spec fn held(&self, slot: u32) -> bool {
        &&& slot < ARENA_SLOTS
        &&& !self.free_slots().contains(slot)
        &&& !self.pending_slots().contains(slot)
    }

    /// An arena at `base` with all its slots free.
    pub fn new(base: u64) -> (r: Self)
        requires
            base + ARENA_SLOTS * TMA_DESC_BYTES <= u64::MAX,
        ensures
            r.wf(),
            r.free_slots() == all_slots(),
            r.pending_slots() == Seq::<u32>::empty(),
            r.base_address() == base,
    {
        let mut free: Vec<u32> = Vec::new();
        let mut i: u32 = 0;
        while i < ARENA_SLOTS
            invariant
                i <= ARENA_SLOTS,
                free@.len() == i,
                forall|j: int| 0 <= j < i ==> #[trigger] free@[j] == ARENA_SLOTS - 1 - j,
            decreases ARENA_SLOTS - i,
        {
            free.push(ARENA_SLOTS - 1 - i);
            i = i + 1;
        }
        let arena = DescArena { free, pending: Vec::new(), base };
        proof {
            assert(arena.free_slots() =~= all_slots());
            assert(arena.free_slots() + arena.pending_slots() =~= all_slots());
        }
        arena
    }

    /// Takes a free slot; where there is none, says what is to be done before asking again.
    /// `attempt` counts the requests made for this slot so far.
    pub fn take_slot(&mut self, attempt: u32) -> (r: Result<SlotAction, KernelError>)
        requires
            old(self).wf(),
        ensures
            final(self).wf(),
            final(self).pending_slots() == old(self).pending_slots(),
            final(self).base_address() == old(self).base_address(),
            old(self).free_slots().len() > 0 ==> {
                &&& r == Ok::<SlotAction, KernelError>(
                    SlotAction::Take(old(self).free_slots().last()),
                )
                &&& final(self).free_slots() == old(self).free_slots().drop_last()
                &&& !old(self).held(old(self).free_slots().last())
                &&& final(self).held(old(self).free_slots().last())
            },
            old(self).free_slots().len() == 0 ==> {
                &&& final(self).free_slots() == old(self).free_slots()
                &&& r == (if attempt == 0 {
                    Ok(SlotAction::Reclaim)
                } else if attempt == 1 {
                    Ok(SlotAction::ClearCaches)
                } else {
                    Err(KernelError::Cuda("TMA desc arena exhausted"))
                })
            },
            forall|s: u32| #[trigger] old(self).held(s) ==> final(self).held(s),
    {
        let ghost before = self.free@;
        let ghost listed = self.free_slots() + self.pending_slots();
        match self.free.pop() {
            Some(s) => {
                proof {
                    let last = before.len() - 1;
                    assert(listed[last] == s);
                    let now = self.free_slots() + self.pending_slots();
                    assert forall|i: int, j: int|
                        0 <= i < now.len() && 0 <= j < now.len() && i != j implies now[i]
                        != now[j] by {
                        let a = if i < last { i } else { i + 1 };
                        let b = if j < last { j } else { j + 1 };
                        assert(now[i] == listed[a]);
                        assert(now[j] == listed[b]);
                    }
                    assert forall|i: int| 0 <= i < now.len() implies #[trigger] now[i]
                        < ARENA_SLOTS by {
                        let a = if i < last { i } else { i + 1 };
                        assert(now[i] == listed[a]);
                    }
                    assert(before.contains(s)) by {
                        assert(before[last] == s);
                    }
                    assert(!self.free@.contains(s)) by {
                        if self.free@.contains(s) {
                            let i = choose|i: int| 0 <= i < self.free@.len() && self.free@[i] == s;
                            assert(listed[i] == s);
                        }
                    }
                    assert(!self.pending@.contains(s)) by {
                        if self.pending@.contains(s) {
                            let i = choose|i: int|
                                0 <= i < self.pending@.len() && self.pending@[i] == s;
                            assert(listed[before.len() + i] == s);
                        }
                    }
                    assert forall|t: u32| #[trigger] old(self).held(t) implies self.held(t) by {
                        if self.free@.contains(t) {
                            let i = choose|i: int| 0 <= i < self.free@.len() && self.free@[i] == t;
                            assert(before[i] == t);
                        }
                    }
                }
                Ok(SlotAction::Take(s))
            },
            None => {
                if attempt == 0 {
                    Ok(SlotAction::Reclaim)
                } else if attempt == 1 {
                    Ok(SlotAction::ClearCaches)
                } else {
                    Err(KernelError::Cuda("TMA desc arena exhausted"))
                }
            },
        }
    }

    /// Puts a slot whose descriptor was never uploaded back among the free ones.
    pub fn put_back(&mut self, slot: u32)
        requires
            old(self).wf(),
            old(self).held(slot),
        ensures
            final(self).wf(),
            final(self).free_slots() == old(self).free_slots().push(slot),
            final(self).pending_slots() == old(self).pending_slots(),
            final(self).base_address() == old(self).base_address(),
    {
        let ghost f = self.free@;
        let ghost p = self.pending@;
        self.free.push(slot);
        proof {
            lemma_insert_listed(f, p, slot);
        }
    }

    /// Gives back the slot of a descriptor that is dropped.
    pub fn release(&mut self, slot: u32)
        requires
            old(self).wf(),
            old(self).held(slot),
        ensures
            final(self).wf(),
            final(self).free_slots() == old(self).free_slots(),
            final(self).pending_slots() == old(self).pending_slots().push(slot),
            final(self).base_address() == old(self).base_address(),
            !final(self).held(slot),
            forall|s: u32| s != slot && #[trigger] old(self).held(s) ==> final(self).held(s),
    {
        let ghost f = self.free@;
        let ghost p = self.pending@;
        self.pending.push(slot);
        proof {
            let now = f + p.push(slot);
            let listed = f + p;
            assert(now =~= listed.push(slot));
            assert(!listed.contains(slot)) by {
                if listed.contains(slot) {
                    let i = choose|i: int| 0 <= i < listed.len() && listed[i] == slot;
                    if i < f.len() {
                        assert(f[i] == slot);
                    } else {
                        assert(p[i - f.len()] == slot);
                    }
                }
            }
            assert(self.pending@[p.len() as int] == slot);
            assert forall|s: u32| s != slot && #[trigger] old(self).held(s) implies self.held(s) by {
                if self.pending@.contains(s) {
                    let i = choose|i: int| 0 <= i < self.pending@.len() && self.pending@[i] == s;
                    assert(p[i] == s);
                }
            }
        }
    }

    /// Makes all pending slots free. The kernels launched so far are to have ended.
    pub fn reclaim_pending(&mut self)
        requires
            old(self).wf(),
        ensures
            final(self).wf(),
            final(self).free_slots() == old(self).free_slots() + old(self).pending_slots(),
            final(self).pending_slots() == Seq::<u32>::empty(),
            final(self).base_address() == old(self).base_address(),
            forall|s: u32| #[trigger] old(self).held(s) <==> final(self).held(s),
    {
        let ghost f = self.free@;
        let ghost p = self.pending@;
        self.free.append(&mut self.pending);
        proof {
            assert(self.free@ =~= f + p);
            assert(self.free_slots() + self.pending_slots() =~= f + p);
            assert forall|s: u32| #[trigger] old(self).held(s) <==> self.held(s) by {
                if (f + p).contains(s) {
                    let i = choose|i: int| 0 <= i < (f + p).len() && (f + p)[i] == s;
                    if i < f.len() {
                        assert(f[i] == s);
                    } else {
                        assert(p[i - f.len()] == s);
                    }
                }
                if f.contains(s) {
                    let i = choose|i: int| 0 <= i < f.len() && f[i] == s;
                    assert((f + p)[i] == s);
                }
                if p.contains(s) {
                    let i = choose|i: int| 0 <= i < p.len() && p[i] == s;
                    assert((f + p)[f.len() + i] == s);
                }
            }
        }
    }

    /// The device address of a slot.
    pub fn slot_address(&self, slot: u32) -> (r: u64)
        requires
            self.wf(),
            slot < ARENA_SLOTS,
        ensures
            r == self.base_address() + slot * TMA_DESC_BYTES,
    {
        self.base + (slot as u64) * (TMA_DESC_BYTES as u64)
    }
}

proof fn lemma_insert_listed(f: Seq<u32>, p: Seq<u32>, slot: u32)
    requires
        (f + p).no_duplicates(),
        !f.contains(slot),
        !p.contains(slot),
        slot < ARENA_SLOTS,
        forall|i: int| 0 <= i < (f + p).len() ==> #[trigger] (f + p)[i] < ARENA_SLOTS,
    ensures
        (f.push(slot) + p).no_duplicates(),
        forall|i: int|
            0 <= i < (f.push(slot) + p).len() ==> #[trigger] (f.push(slot) + p)[i] < ARENA_SLOTS,
{
    let now = f.push(slot) + p;
    let n = f.len() as int;
    assert forall|i: int| 0 <= i < now.len() implies #[trigger] now[i] < ARENA_SLOTS && (i != n
        ==> now[i] != slot) by {
        if i < n {
            assert(now[i] == (f + p)[i]);
            assert(now[i] == f[i]);
        } else if i > n {
            assert(now[i] == (f + p)[i - 1]);
            assert(now[i] == p[i - n - 1]);
        }
    }
    assert forall|i: int, j: int|
        0 <= i < now.len() && 0 <= j < now.len() && i != j implies now[i] != now[j] by {
        if i != n && j != n {
            let a = if i < n { i } else { i - 1 };
            let b = if j < n { j } else { j - 1 };
            assert(now[i] == (f + p)[a]);
            assert(now[j] == (f + p)[b]);
        }
    }
}

/// Two slots have addresses at least a descriptor apart.
pub proof fn slots_disjoint(base: u64, a: u32, b: u32)
    requires
        a < b,
    ensures
        base + a * TMA_DESC_BYTES + TMA_DESC_BYTES <= base + b * TMA_DESC_BYTES,
{
}

/// A taken slot is one that no descriptor holds, so no two descriptors ever share one.
pub proof fn take_is_exclusive(arena: DescArena, slot: u32)
    requires
        arena.wf(),
        arena.free_slots().len() > 0,
        slot == arena.free_slots().last(),
    ensures
        !arena.held(slot),
        slot < ARENA_SLOTS,
{
    let n = arena.free_slots().len() - 1;
    assert((arena.free_slots() + arena.pending_slots())[n] == slot);
    assert(arena.free_slots()[n] == slot);
}

/// A slot that was given back is not taken again before the pending slots are reclaimed; once they
/// are, it is free again.
pub proof fn released_slot_returns(
    before: DescArena,
    released: DescArena,
    reclaimed: DescArena,
    slot: u32,
)
    requires
        before.held(slot),
        released.free_slots() == before.free_slots(),
        released.pending_slots() == before.pending_slots().push(slot),
        reclaimed.free_slots() == released.free_slots() + released.pending_slots(),
    ensures
        !released.free_slots().contains(slot),
        !released.held(slot),
        reclaimed.free_slots().contains(slot),
        reclaimed.free_slots().last() == slot,
{
    let n = before.pending_slots().len() as int;
    assert(released.pending_slots()[n] == slot);
    assert(reclaimed.free_slots()[released.free_slots().len() + n] == slot);
}

/// How the bytes of a box are spread over the banks of shared memory.
#[derive(Clone, Copy, Debug, PartialEq, Eq, Structural)]
pub enum Swizzle {
    Plain,
    Bytes32,
    Bytes64,
    Bytes128,
    /// In units of 32 bytes.
    Bytes128Atom32,
    /// As `Bytes128Atom32`, with units of eight bytes flipped.
    Bytes128Atom32Flip8,
    /// In units of 64 bytes.
    Bytes128Atom64,
}

/// How much of the second-level cache a copy fills at once.
#[derive(Clone, Copy, Debug, PartialEq, Eq, Structural)]
pub enum L2Promotion {
    Off,
    Bytes64,
    Bytes128,
    Bytes256,
}

/// A two-dimensional descriptor, innermost axis first.
#[derive(Clone, Copy, Debug, PartialEq, Eq)]
pub struct TmaMap2d {
    pub global_dim: (u64, u64),
    pub global_stride: u64,
    pub box_dim: (u32, u32),
    pub elem_strides: (u32, u32),
    pub swizzle: Swizzle,
    pub l2: L2Promotion,
}

/// The descriptor of a matrix of `rows` rows of `cols_bytes` bytes, one row behind the other.
pub open spec fn tma_map_2d(
    rows: u32,
    cols_bytes: u32,
    box_rows: u32,
    box_cols_bytes: u32,
    swizzle: Swizzle,
    l2: L2Promotion,
) -> TmaMap2d {
    TmaMap2d {
        global_dim: (cols_bytes as u64, rows as u64),
        global_stride: cols_bytes as u64,
        box_dim: (box_cols_bytes, box_rows),
        elem_strides: (1, 1),
        swizzle,
        l2,
    }
}

/// A three-dimensional descriptor, innermost axis first.
#[derive(Clone, Copy, Debug, PartialEq, Eq)]
pub struct TmaMap3d {
    pub global_dim: (u64, u64, u64),
    pub global_strides: (u64, u64),
    pub box_dim: (u32, u32, u32),
    pub elem_strides: (u32, u32, u32),
}

/// The descriptor of a matrix of bytes that is copied in boxes.
pub fn make_tma_desc_2d_u8(rows: u32, cols_bytes: u32, box_rows: u32, box_cols_bytes: u32) -> (r:
    TmaMap2d)
    ensures
        r == tma_map_2d(
            rows,
            cols_bytes,
            box_rows,
            box_cols_bytes,
            Swizzle::Plain,
            L2Promotion::Off,
        ),
{
    make_tma_desc_2d_u8_swz(rows, cols_bytes, box_rows, box_cols_bytes, Swizzle::Plain)
}

/// As `make_tma_desc_2d_u8`, with the boxes spread over the banks.
pub fn make_tma_desc_2d_u8_swz(
    rows: u32,
    cols_bytes: u32,
    box_rows: u32,
    box_cols_bytes: u32,
    swizzle: Swizzle,
) -> (r: TmaMap2d)
    ensures
        r == tma_map_2d(
            rows,
            cols_bytes,
            box_rows,
            box_cols_bytes,
            swizzle,
            L2Promotion::Off,
        ),
{
    make_tma_desc_2d_u8_swz_l2(
        rows,
        cols_bytes,
        box_rows,
        box_cols_bytes,
        swizzle,
        L2Promotion::Off,
    )
}

/// As `make_tma_desc_2d_u8_swz`, with a say on the second-level cache.
pub fn make_tma_desc_2d_u8_swz_l2(
    rows: u32,
    cols_bytes: u32,
    box_rows: u32,
    box_cols_bytes: u32,
    swizzle: Swizzle,
    l2: L2Promotion,
) -> (r: TmaMap2d)
    ensures
        r == tma_map_2d(rows, cols_bytes, box_rows, box_cols_bytes, swizzle, l2),
{
    TmaMap2d {
        global_dim: (cols_bytes as u64, rows as u64),
        global_stride: cols_bytes as u64,
        box_dim: (box_cols_bytes, box_rows),
        elem_strides: (1, 1),
        swizzle,
        l2,
    }
}

/// The descriptor of a block of bytes of three axes that is copied in boxes.
pub fn make_tma_desc_3d_u8(
    dim0_bytes: u32,
    dim1_count: u32,
    dim2_count: u32,
    stride1: u64,
    stride2: u64,
    box0_bytes: u32,
    box1: u32,
    box2: u32,
) -> (r: TmaMap3d)
    ensures
        r == (TmaMap3d {
            global_dim: (dim0_bytes as u64, dim1_count as u64, dim2_count as u64),
            global_strides: (stride1, stride2),
            box_dim: (box0_bytes, box1, box2),
            elem_strides: (1, 1, 1),
        }),
{
    TmaMap3d {
        global_dim: (dim0_bytes as u64, dim1_count as u64, dim2_count as u64),
        global_strides: (stride1, stride2),
        box_dim: (box0_bytes, box1, box2),
        elem_strides: (1, 1, 1),
    }
}

/// 256 to the power `j`.
pub open spec fn pow256(j: nat) -> int
    decreases j,
{
    if j == 0 {
        1
    } else {
        pow256((j - 1) as nat) * 256
    }
}

/// Byte `j` of `w`, lowest first.
pub open spec fn le_byte(w: u64, j: int) -> int {
    (w as int / pow256(j as nat)) % 256
}

/// The bytes of a descriptor as they are sent to the device: those of its words in order, the
/// lowest of each first.
pub fn desc_bytes(words: &[u64; 16]) -> (r: Vec<u8>)
    ensures
        r@.len() == TMA_DESC_BYTES,
        forall|i: int, j: int|
            0 <= i < 16 && 0 <= j < 8 ==> #[trigger] r@[8 * i + j] == le_byte(words@[i], j),
{
    let mut out: Vec<u8> = Vec::new();
    let mut i: usize = 0;
    while i < 16
        invariant
            i <= 16,
            out@.len() == 8 * i,
            forall|a: int, j: int|
                0 <= a < i && 0 <= j < 8 ==> #[trigger] out@[8 * a + j] == le_byte(words@[a], j),
        decreases 16 - i,
    {
        let w: u64 = words[i];
        let mut x: u64 = w;
        let mut k: usize = 0;
        proof {
            assert(w as int / 1 == w);
        }
        while k < 8
            invariant
                i < 16,
                k <= 8,
                w == words@[i as int],
                x == w as int / pow256(k as nat),
                out@.len() == 8 * i + k,
                forall|a: int, j: int|
                    0 <= a < i && 0 <= j < 8 ==> #[trigger] out@[8 * a + j] == le_byte(words@[a], j),
                forall|j: int| 0 <= j < k ==> #[trigger] out@[8 * i + j] == le_byte(w, j),
            decreases 8 - k,
        {
            proof {
                lemma_pow256_positive(k as nat);
                vstd::arithmetic::div_mod::lemma_div_denominator(
                    w as int,
                    pow256(k as nat),
                    256,
                );
                assert(pow256((k + 1) as nat) == pow256(k as nat) * 256);
            }
            out.push((x % 256) as u8);
            x = x / 256;
            k = k + 1;
        }
        i = i + 1;
    }
    out
}

proof fn lemma_pow256_positive(j: nat)
    ensures
        pow256(j) > 0,
    decreases j,
{
    if j > 0 {
        lemma_pow256_positive((j - 1) as nat);
    }
}

} // verus!
