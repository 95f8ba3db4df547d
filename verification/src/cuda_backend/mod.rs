//! The operations of the backend: what each request is checked for, and what runs for it.

pub mod accept_laws;
pub mod attention;
pub mod attention_dev;
pub mod attention_laws;
pub mod cache_laws;
pub mod conv;
pub mod conv_laws;
pub mod gather;
pub mod group_ops;
pub mod linear;
pub mod linear_attn;
pub mod linear_laws;
pub mod memory;
pub mod mxfp8_cache;
pub mod norm_ops;
pub mod optional;
pub mod quant_laws;
pub mod quant_ops;
pub mod rope_laws;
pub mod rope_ops;
pub mod row_laws;
pub mod split_laws;
pub mod state_laws;
pub mod tensor_ops;

use vstd::prelude::*;

verus! {

/// The backend. It holds nothing; what it needs of the process comes with each request.
#[derive(Clone, Copy, Debug, PartialEq, Eq, Structural)]
pub struct CudaBackend;

/// Where a tensor is to be kept.
#[derive(Clone, Copy, Debug, PartialEq, Eq, Structural)]
pub enum Device {
    Cpu,
    Cuda(usize),
}

impl CudaBackend {
    /// The device that stands for this kind of backend.
    pub fn device_kind(&self) -> (r: Device)
        ensures
            r == Device::Cuda(0),
    {
        Device::Cuda(0)
    }
}

} // verus!
