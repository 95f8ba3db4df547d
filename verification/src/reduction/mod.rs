//! Kernels that reduce along an axis.

pub mod groupnorm;
pub mod layernorm;
pub mod pixelnorm;
pub mod rmsnorm;
pub mod softmax;
pub mod topk;
