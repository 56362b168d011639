//! Compatibility analysis between contracts and between plans.
pub mod fingerprint;
pub mod keyed;
pub mod sets;
pub mod compare;
pub mod laws;
