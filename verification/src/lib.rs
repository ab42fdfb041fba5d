//! A verified core for a concurrent TCP port scanner: service
//! fingerprinting from banners and port numbers, banner line selection
//! from raw response bytes, scan configuration validation, and ordered
//! aggregation of per-port results.

pub mod banner;
pub mod fingerprint;
pub mod scan;
pub mod text;
