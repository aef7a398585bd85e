//! A fingerprint-driven binary patcher.
//!
//! The library identifies a known executable by the SHA-1 digest of its
//! content, applies or reverts a fixed list of same-length byte overwrites,
//! and verifies the outcome by fingerprinting again.  File handling stays
//! with the caller: the content of the target runs through this crate as
//! plain bytes.

pub mod digest;
pub mod errors;
pub mod numbers;
pub mod registry;
pub mod engine;
pub mod state;
pub mod manifest;
pub mod steam;
