//! Several operations in one kernel.

pub mod attn_rope;
pub mod cross_entropy;
pub mod geglu;
pub mod geglu_split;
pub mod layernorm_residual;
pub mod llm_decode;
pub mod moe_dispatch;
pub mod qkv_proj;
pub mod rms_mod_quant;
pub mod rmsnorm_residual;
pub mod silu_and_mul;
