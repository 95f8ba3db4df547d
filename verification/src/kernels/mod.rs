//! Kernels on tensors of any layout, and how kernels are compiled.

pub mod compile;
pub mod compile_laws;
pub mod dwconv1d;
pub mod element_laws;
pub mod elementwise;
pub mod qwen4_decode;
pub mod reduce;
pub mod topk_rows;
pub mod topk_wide;
