//! Document parsing support.
pub mod diagnostics;
