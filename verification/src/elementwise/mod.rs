//! Kernels that work element by element or row by row.

pub mod activations;
pub mod blockq;
pub mod blockq_entries;
pub mod blockq_laws;
pub mod kv_append;
pub mod logit_cap;
pub mod mxfp8_kv;
pub mod quant;
pub mod rope;
pub mod sq_quant;
