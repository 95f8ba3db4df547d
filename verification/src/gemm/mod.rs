//! Matrix products with quantised weights.

pub mod dispatch;
pub mod dispatch_laws;
