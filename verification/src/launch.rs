//! What is handed to the driver for one kernel launch, and the table of loaded kernels.

use vstd::prelude::*;

verus! {

/// One kernel launch: the entry, its grid and block, and its dynamic shared memory.
#[derive(Clone, Copy, Debug, PartialEq, Eq)]
pub struct Launch {
    pub kernel: &'static str,
    pub grid: (u32, u32, u32),
    pub block: (u32, u32, u32),
    pub shared_mem_bytes: u32,
}

/// A launch over one grid axis with one block axis and no dynamic shared memory.
pub open spec fn spec_launch1(kernel: &'static str, grid: int, block: u32) -> Launch {
    Launch {
        kernel,
        grid: (grid as u32, 1, 1),
        block: (block, 1, 1),
        shared_mem_bytes: 0,
    }
}

pub fn launch1(kernel: &'static str, grid: u32, block: u32) -> (r: Launch)
    ensures
        r == spec_launch1(kernel, grid as int, block),
{
    Launch { kernel, grid: (grid, 1, 1), block: (block, 1, 1), shared_mem_bytes: 0 }
}

/// A launch with the whole numbers that the kernel gets beside its buffers, in their order. Where a
/// kernel gets real numbers too, they are not part of it.
#[derive(Clone, Copy, Debug, PartialEq, Eq)]
pub struct Call<A> {
    pub launch: Launch,
    pub args: A,
}

/// A run of bytes in a buffer.
#[derive(Clone, Copy, Debug, PartialEq, Eq, Structural)]
pub struct Span {
    pub start: usize,
    pub end: usize,
}

/// The bytes of `count` elements of `size` bytes each, from `offset` on.
pub open spec fn spec_span(offset: int, count: int, size: int) -> Span {
    Span { start: offset as usize, end: (offset + count * size) as usize }
}

pub fn span(offset: usize, count: usize, size: usize) -> (r: Span)
    requires
        offset + count * size <= usize::MAX,
    ensures
        r == spec_span(offset as int, count as int, size as int),
        r.start <= r.end,
{
    proof {
        assert(0 <= count * size) by (nonlinear_arith);
    }
    Span { start: offset, end: offset + count * size }
}

/// Kernels that were loaded, by the address of the context they were loaded into. The first
/// entry for a context is the one that counts.
pub struct KernelCache<T> {
    entries: Vec<(usize, T)>,
}

/// The first entry of `s` under `key`.
pub open spec fn first_under<T>(s: Seq<(usize, T)>, key: usize) -> Option<T>
    decreases s.len(),
{
    if s.len() == 0 {
        None
    } else if s[0].0 == key {
        Some(s[0].1)
    } else {
        first_under(s.skip(1), key)
    }
}

impl<T> View for KernelCache<T> {
    type V = Seq<(usize, T)>;

    closed spec fn view(&self) -> Seq<(usize, T)> {
        self.entries@
    }
}

impl<T> KernelCache<T> {
    pub fn new() -> (r: Self)
        ensures
            r@ == Seq::<(usize, T)>::empty(),
    {
        KernelCache { entries: Vec::new() }
    }

    /// The kernels loaded for `key`, if any.
    pub fn get(&self, key: usize) -> (r: Option<&T>)
        ensures
            match r {
                Some(v) => first_under(self@, key) == Some(*v),
                None => first_under(self@, key) is None,
            },
    {
        let n: usize = self.entries.len();
        let mut i: usize = 0;
        proof {
            assert(self@.skip(0) =~= self@);
        }
        while i < n
            invariant
                i <= n,
                n == self.entries@.len(),
                self@ == self.entries@,
                first_under(self@, key) == first_under(self@.skip(i as int), key),
            decreases n - i,
        {
            proof {
                assert(self@.skip(i as int)[0] == self.entries@[i as int]);
                assert(self@.skip(i as int).skip(1) =~= self@.skip(i + 1));
            }
            if self.entries[i].0 == key {
                return Some(&self.entries[i].1);
            }
            i = i + 1;
        }
        None
    }

    /// Adds the kernels loaded for `key` behind all others.
    pub fn push(&mut self, key: usize, value: T)
        ensures
            final(self)@ == old(self)@.push((key, value)),
    {
        self.entries.push((key, value));
    }
}

/// A context that had no kernels has those that were pushed, and no other context is touched;
/// a context that had kernels keeps them.
pub proof fn cache_push_get<T>(s: Seq<(usize, T)>, key: usize, value: T, other: usize)
    ensures
        first_under(s, key) is None ==> first_under(s.push((key, value)), key) == Some(value),
        other != key ==> first_under(s.push((key, value)), other) == first_under(s, other),
        first_under(s, key) matches Some(v) ==> first_under(s.push((key, value)), key) == Some(v),
    decreases s.len(),
{
    let t = s.push((key, value));
    if s.len() == 0 {
        assert(t.skip(1) =~= Seq::empty());
    } else {
        assert(t.skip(1) =~= s.skip(1).push((key, value)));
        cache_push_get(s.skip(1), key, value, other);
    }
}

} // verus!
