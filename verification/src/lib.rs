//! Launch planning for a CUDA tensor backend: which kernel runs, with which grid, over which
//! bytes of which buffers, and which requests are refused. Everything here is arithmetic and
//! decisions on plain values; the device itself is driven by the code that calls this library.

pub mod arith;
pub mod coverage;
pub mod cuda_backend;
pub mod dtype;
pub mod elementwise;
pub mod embed;
pub mod error;
pub mod fused;
pub mod gemm;
pub mod kernels;
pub mod launch;
pub mod launch_laws;
pub mod layout;
pub mod names_laws;
pub mod ptx;
pub mod reduction;
pub mod scan;
pub mod ssm;
pub mod sums;
pub mod text;
pub mod text_laws;
pub mod tma;
pub mod tma_laws;
pub mod weight;

use vstd::prelude::*;

verus! {

/// What the kernels keep on the device between two models.
#[derive(Clone, Copy, Debug, PartialEq, Eq)]
pub struct DeviceCaches {
    /// Copy descriptors.
    pub descriptors: usize,
    /// Bytes of scratch of the eight-bit products.
    pub mxfp8_scratch: usize,
    /// Bytes of scratch of the chunked scan.
    pub chunk_scan: usize,
    /// Bytes of scratch of linear attention over prompts.
    pub linear_prefill: usize,
}

/// What a release counts: the descriptors, and the bytes of all scratch buffers together.
pub open spec fn released(caches: DeviceCaches) -> (int, int) {
    (
        caches.descriptors as int,
        caches.mxfp8_scratch + caches.chunk_scan + caches.linear_prefill,
    )
}

/// What a release leaves of `caches`: nothing of any of them.
pub open spec fn after_release(caches: DeviceCaches) -> DeviceCaches {
    DeviceCaches { descriptors: 0, mxfp8_scratch: 0, chunk_scan: 0, linear_prefill: 0 }
}

/// Gives back everything that is kept on the device, and returns how many descriptors and how many
/// bytes of scratch that was.
pub fn release_device_caches(caches: &mut DeviceCaches) -> (r: (usize, usize))
    requires
        released(*old(caches)).1 <= usize::MAX,
    ensures
        (r.0 as int, r.1 as int) == released(*old(caches)),
        *final(caches) == after_release(*old(caches)),
{
    let descriptors: usize = caches.descriptors;
    let scratch: usize = caches.mxfp8_scratch + caches.chunk_scan + caches.linear_prefill;
    *caches = DeviceCaches { descriptors: 0, mxfp8_scratch: 0, chunk_scan: 0, linear_prefill: 0 };
    (descriptors, scratch)
}

/// A second release right after a first one finds nothing to count.
pub proof fn second_release_counts_nothing(caches: DeviceCaches)
    ensures
        released(after_release(caches)) == (0int, 0int),
{
}

} // verus!
