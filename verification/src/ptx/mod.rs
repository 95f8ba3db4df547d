//! Instructions that kernels write out themselves.

pub mod mma_sm120;
