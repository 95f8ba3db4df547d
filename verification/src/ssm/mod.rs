//! State-space layers.

pub mod delta_rule;
pub mod gated_delta_rule;
pub mod mamba2_bmm;
pub mod mamba2_chunked_helpers;
pub mod mamba2_meaning;
pub mod mamba2_ssd;
pub mod mamba2_ssd_chunked;
pub mod mamba_scan;
pub mod recurrence;
pub mod room_laws;
